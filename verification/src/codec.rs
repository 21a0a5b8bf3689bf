use vstd::prelude::*;
use crate::bytes::extend_bytes;
use crate::bytes::read_array;
use crate::bytes::read_vec;
use crate::constants::CC_SIZE;
use crate::constants::CLEARTEXT_HBFI_SIZE;
use crate::constants::CLEARTEXT_RESPONSE_DATA_SIZE;
use crate::constants::CYPHERTEXT_HBFI_SIZE;
use crate::constants::CYPHERTEXT_RESPONSE_DATA_SIZE;
use crate::constants::DATA_SIZE;
use crate::constants::KEY_SIZE;
use crate::constants::NONCE_SIZE;
use crate::constants::TAG_SIZE;
use crate::data::Data;
use crate::data::ResponseData;
use crate::errors::CopernicaError;
use crate::hbfi::HBFI;
use crate::identity::PublicIdentity;
use crate::wire_ints::be16;
use crate::wire_ints::be64;
use crate::wire_ints::be64_bytes;
use crate::wire_ints::bfi_to_u8;
use crate::wire_ints::lemma_be16_value;
use crate::wire_ints::spec_bfi_bytes;
use crate::wire_ints::u64_to_u8;
use crate::wire_ints::u8_to_bfi;
use crate::wire_ints::u8_to_u64;
use crate::wire_ints::BFI;

verus! {

/// The wire bytes of an HBFI: six Bloom-filter indices, the offset, the
/// responder's identity, and, in the cypher-text layout, the requester's.
#[verifier::opaque]
pub open spec fn spec_hbfi_bytes(h: HBFI) -> Seq<u8> {
    spec_bfi_bytes(h.res) + spec_bfi_bytes(h.req) + spec_bfi_bytes(h.app) + spec_bfi_bytes(h.m0d)
        + spec_bfi_bytes(h.fun) + spec_bfi_bytes(h.arg) + be64_bytes(h.ost)
        + h.response_pid.spec_bytes() + (match h.request_pid {
        Some(p) => p.spec_bytes(),
        None => Seq::<u8>::empty(),
    })
}

/// Whether an HBFI's fields read the given wire bytes back.
pub open spec fn spec_hbfi_fields(h: HBFI, b: Seq<u8>) -> bool {
    &&& (forall|k: int| 0 <= k < 4 ==> h.res[k] == be16(b[2 * k], b[2 * k + 1]))
    &&& (forall|k: int| 0 <= k < 4 ==> h.req[k] == be16(b[8 + 2 * k], b[8 + 2 * k + 1]))
    &&& (forall|k: int| 0 <= k < 4 ==> h.app[k] == be16(b[16 + 2 * k], b[16 + 2 * k + 1]))
    &&& (forall|k: int| 0 <= k < 4 ==> h.m0d[k] == be16(b[24 + 2 * k], b[24 + 2 * k + 1]))
    &&& (forall|k: int| 0 <= k < 4 ==> h.fun[k] == be16(b[32 + 2 * k], b[32 + 2 * k + 1]))
    &&& (forall|k: int| 0 <= k < 4 ==> h.arg[k] == be16(b[40 + 2 * k], b[40 + 2 * k + 1]))
    &&& h.ost == be64(b.subrange(48, 56))
    &&& h.response_pid.sign_key@ == b.subrange(56, 88)
    &&& h.response_pid.exch_key@ == b.subrange(88, 120)
    &&& h.response_pid.chain_code@ == b.subrange(120, 152)
    &&& match h.request_pid {
        Some(p) => b.len() == CYPHERTEXT_HBFI_SIZE && p.sign_key@ == b.subrange(152, 184)
            && p.exch_key@ == b.subrange(184, 216) && p.chain_code@ == b.subrange(216, 248),
        None => b.len() == CLEARTEXT_HBFI_SIZE,
    }
}

/// Serializes an HBFI; the returned size is the byte count, which tells the
/// clear-text and cypher-text layouts apart.
pub fn serialize_hbfi(hbfi: &HBFI) -> (r: (u8, Vec<u8>))
    ensures
        r.1@ == spec_hbfi_bytes(*hbfi),
        r.0 == r.1@.len(),
        r.0 == if hbfi.request_pid is Some {
            CYPHERTEXT_HBFI_SIZE as int
        } else {
            CLEARTEXT_HBFI_SIZE as int
        },
{
    let mut buf: Vec<u8> = Vec::new();
    let res = bfi_to_u8(hbfi.res);
    let req = bfi_to_u8(hbfi.req);
    let app = bfi_to_u8(hbfi.app);
    let m0d = bfi_to_u8(hbfi.m0d);
    let fun = bfi_to_u8(hbfi.fun);
    let arg = bfi_to_u8(hbfi.arg);
    let ost = u64_to_u8(hbfi.ost);
    extend_bytes(&mut buf, &res);
    extend_bytes(&mut buf, &req);
    extend_bytes(&mut buf, &app);
    extend_bytes(&mut buf, &m0d);
    extend_bytes(&mut buf, &fun);
    extend_bytes(&mut buf, &arg);
    extend_bytes(&mut buf, &ost);
    extend_bytes(&mut buf, &hbfi.response_pid.sign_key);
    extend_bytes(&mut buf, &hbfi.response_pid.exch_key);
    extend_bytes(&mut buf, &hbfi.response_pid.chain_code);
    let size: u8 = match &hbfi.request_pid {
        Some(p) => {
            extend_bytes(&mut buf, &p.sign_key);
            extend_bytes(&mut buf, &p.exch_key);
            extend_bytes(&mut buf, &p.chain_code);
            CYPHERTEXT_HBFI_SIZE as u8
        },
        None => CLEARTEXT_HBFI_SIZE as u8,
    };
    proof {
        reveal(spec_hbfi_bytes);
        assert(buf@ =~= spec_hbfi_bytes(*hbfi));
    }
    (size, buf)
}

/// Reads back a clear-text HBFI: one whose name binds no requester.
pub fn deserialize_cleartext_hbfi(data: &Vec<u8>) -> (r: Result<HBFI, CopernicaError>)
    ensures
        data@.len() == CLEARTEXT_HBFI_SIZE ==> (r matches Ok(h) && h.request_pid is None
            && spec_hbfi_fields(h, data@)),
        data@.len() != CLEARTEXT_HBFI_SIZE ==> (r matches Err(e) && e
            == CopernicaError::CodecError),
{
    if data.len() != CLEARTEXT_HBFI_SIZE {
        return Err(CopernicaError::CodecError);
    }
    let (res, req, app, m0d, fun, arg, ost, response_pid) = read_hbfi_common(data);
    Ok(
        HBFI {
            response_pid,
            request_pid: None,
            res,
            req,
            app,
            m0d,
            fun,
            arg,
            ost,
        },
    )
}

/// Reads back a cypher-text HBFI: one whose name binds a requester.
pub fn deserialize_cyphertext_hbfi(data: &Vec<u8>) -> (r: Result<HBFI, CopernicaError>)
    ensures
        data@.len() == CYPHERTEXT_HBFI_SIZE ==> (r matches Ok(h) && h.request_pid is Some
            && spec_hbfi_fields(h, data@)),
        data@.len() != CYPHERTEXT_HBFI_SIZE ==> (r matches Err(e) && e
            == CopernicaError::CodecError),
{
    if data.len() != CYPHERTEXT_HBFI_SIZE {
        return Err(CopernicaError::CodecError);
    }
    let (res, req, app, m0d, fun, arg, ost, response_pid) = read_hbfi_common(data);
    let req_sign = read_array::<KEY_SIZE>(data, 152);
    let req_exch = read_array::<KEY_SIZE>(data, 184);
    let req_cc = read_array::<CC_SIZE>(data, 216);
    let request_pid = PublicIdentity::reconstitute(req_sign, req_exch, req_cc);
    Ok(
        HBFI {
            response_pid,
            request_pid: Some(request_pid),
            res,
            req,
            app,
            m0d,
            fun,
            arg,
            ost,
        },
    )
}

/// Reads the fields both HBFI layouts share: the six indices, the offset
/// and the responder's identity.
fn read_hbfi_common(data: &Vec<u8>) -> (r: (BFI, BFI, BFI, BFI, BFI, BFI, u64, PublicIdentity))
    requires
        data@.len() >= CLEARTEXT_HBFI_SIZE,
    ensures
        forall|k: int| 0 <= k < 4 ==> r.0[k] == be16(data@[2 * k], data@[2 * k + 1]),
        forall|k: int| 0 <= k < 4 ==> r.1[k] == be16(data@[8 + 2 * k], data@[8 + 2 * k + 1]),
        forall|k: int| 0 <= k < 4 ==> r.2[k] == be16(data@[16 + 2 * k], data@[16 + 2 * k + 1]),
        forall|k: int| 0 <= k < 4 ==> r.3[k] == be16(data@[24 + 2 * k], data@[24 + 2 * k + 1]),
        forall|k: int| 0 <= k < 4 ==> r.4[k] == be16(data@[32 + 2 * k], data@[32 + 2 * k + 1]),
        forall|k: int| 0 <= k < 4 ==> r.5[k] == be16(data@[40 + 2 * k], data@[40 + 2 * k + 1]),
        r.6 == be64(data@.subrange(48, 56)),
        r.7.sign_key@ == data@.subrange(56, 88),
        r.7.exch_key@ == data@.subrange(88, 120),
        r.7.chain_code@ == data@.subrange(120, 152),
{
    let res = u8_to_bfi(read_array::<8>(data, 0));
    let req = u8_to_bfi(read_array::<8>(data, 8));
    let app = u8_to_bfi(read_array::<8>(data, 16));
    let m0d = u8_to_bfi(read_array::<8>(data, 24));
    let fun = u8_to_bfi(read_array::<8>(data, 32));
    let arg = u8_to_bfi(read_array::<8>(data, 40));
    let ost = u8_to_u64(read_array::<8>(data, 48));
    let sign_key = read_array::<KEY_SIZE>(data, 56);
    let exch_key = read_array::<KEY_SIZE>(data, 88);
    let chain_code = read_array::<CC_SIZE>(data, 120);
    let response_pid = PublicIdentity::reconstitute(sign_key, exch_key, chain_code);
    (res, req, app, m0d, fun, arg, ost, response_pid)
}

/// Helper for the round-trip law: one Bloom-filter index read back from
/// its own two-byte entries is unchanged.
proof fn lemma_bfi_read_back(a: BFI, b: BFI, w: Seq<u8>, off: int)
    requires
        0 <= off,
        off + 8 <= w.len(),
        w.subrange(off, off + 8) == spec_bfi_bytes(a),
        forall|k: int| 0 <= k < 4 ==> b[k] == be16(w[off + 2 * k], w[off + 2 * k + 1]),
    ensures
        a@ == b@,
{
    assert forall|k: int| 0 <= k < 4 implies b[k] == a[k] by {
        lemma_be16_value(a[k]);
        assert(w[off + 2 * k] == spec_bfi_bytes(a)[2 * k]);
        assert(w[off + 2 * k + 1] == spec_bfi_bytes(a)[2 * k + 1]);
    }
    assert(a@ =~= b@);
}

/// Where each field of an HBFI stands in its wire bytes.
#[verifier::rlimit(100)]
pub proof fn lemma_hbfi_layout(h: HBFI)
    ensures
        ({
            let b = spec_hbfi_bytes(h);
            &&& b.len() == if h.request_pid is Some {
                CYPHERTEXT_HBFI_SIZE as int
            } else {
                CLEARTEXT_HBFI_SIZE as int
            }
            &&& b.subrange(0, 8) == spec_bfi_bytes(h.res)
            &&& b.subrange(8, 16) == spec_bfi_bytes(h.req)
            &&& b.subrange(16, 24) == spec_bfi_bytes(h.app)
            &&& b.subrange(24, 32) == spec_bfi_bytes(h.m0d)
            &&& b.subrange(32, 40) == spec_bfi_bytes(h.fun)
            &&& b.subrange(40, 48) == spec_bfi_bytes(h.arg)
            &&& b.subrange(48, 56) == be64_bytes(h.ost)
            &&& b.subrange(56, 88) == h.response_pid.sign_key@
            &&& b.subrange(88, 120) == h.response_pid.exch_key@
            &&& b.subrange(120, 152) == h.response_pid.chain_code@
            &&& (h.request_pid matches Some(p) ==> b.subrange(152, 184) == p.sign_key@
                && b.subrange(184, 216) == p.exch_key@ && b.subrange(216, 248) == p.chain_code@)
        }),
{
    reveal(spec_hbfi_bytes);
    let b = spec_hbfi_bytes(h);
    assert(b.subrange(0, 8) =~= spec_bfi_bytes(h.res));
    assert(b.subrange(8, 16) =~= spec_bfi_bytes(h.req));
    assert(b.subrange(16, 24) =~= spec_bfi_bytes(h.app));
    assert(b.subrange(24, 32) =~= spec_bfi_bytes(h.m0d));
    assert(b.subrange(32, 40) =~= spec_bfi_bytes(h.fun));
    assert(b.subrange(40, 48) =~= spec_bfi_bytes(h.arg));
    assert(b.subrange(48, 56) =~= be64_bytes(h.ost));
    assert(b.subrange(56, 88) =~= h.response_pid.sign_key@);
    assert(b.subrange(88, 120) =~= h.response_pid.exch_key@);
    assert(b.subrange(120, 152) =~= h.response_pid.chain_code@);
    if h.request_pid is Some {
        let p = h.request_pid->Some_0;
        assert(b.subrange(152, 184) =~= p.sign_key@);
        assert(b.subrange(184, 216) =~= p.exch_key@);
        assert(b.subrange(216, 248) =~= p.chain_code@);
    }
}

/// Law: an HBFI read back from its own wire bytes is the same name.
#[verifier::rlimit(100)]
pub proof fn lemma_hbfi_round_trip(h: HBFI, h2: HBFI)
    requires
        spec_hbfi_fields(h2, spec_hbfi_bytes(h)),
        h.request_pid is Some <==> h2.request_pid is Some,
    ensures
        h2.same_as(&h),
{
    let b = spec_hbfi_bytes(h);
    lemma_hbfi_layout(h);
    crate::wire_ints::lemma_be64_value(h.ost);
    lemma_bfi_read_back(h.res, h2.res, b, 0);
    lemma_bfi_read_back(h.req, h2.req, b, 8);
    lemma_bfi_read_back(h.app, h2.app, b, 16);
    lemma_bfi_read_back(h.m0d, h2.m0d, b, 24);
    lemma_bfi_read_back(h.fun, h2.fun, b, 32);
    lemma_bfi_read_back(h.arg, h2.arg, b, 40);
}

/// Serializes a response's data: the clear block alone, or the tag then
/// the encrypted block.
pub open spec fn spec_response_data_bytes(rd: ResponseData) -> Seq<u8> {
    match rd {
        ResponseData::ClearText { data } => data@,
        ResponseData::CypherText { data, tag } => tag@ + data@,
    }
}

/// Serializes a response's data block for the wire.
pub fn serialize_response_data(rd: &ResponseData) -> (r: (u16, Vec<u8>))
    ensures
        r.1@ == spec_response_data_bytes(*rd),
        r.0 == r.1@.len(),
        r.0 == if rd is CypherText {
            CYPHERTEXT_RESPONSE_DATA_SIZE as int
        } else {
            CLEARTEXT_RESPONSE_DATA_SIZE as int
        },
{
    let mut buf: Vec<u8> = Vec::new();
    match rd {
        ResponseData::ClearText { data } => {
            let raw = data.raw_data();
            extend_bytes(&mut buf, raw.as_slice());
            proof {
                crate::data::lemma_data_len(*data);
                assert(buf@ =~= spec_response_data_bytes(*rd));
            }
            (CLEARTEXT_RESPONSE_DATA_SIZE as u16, buf)
        },
        ResponseData::CypherText { data, tag } => {
            extend_bytes(&mut buf, tag);
            let raw = data.raw_data();
            extend_bytes(&mut buf, raw.as_slice());
            proof {
                crate::data::lemma_data_len(*data);
                assert(buf@ =~= spec_response_data_bytes(*rd));
            }
            (CYPHERTEXT_RESPONSE_DATA_SIZE as u16, buf)
        },
    }
}

/// Reads back an encrypted response data block: the tag, then the block.
pub fn deserialize_cyphertext_response_data(data: &Vec<u8>) -> (r: Result<
    ResponseData,
    CopernicaError,
>)
    ensures
        data@.len() == CYPHERTEXT_RESPONSE_DATA_SIZE ==> (r matches Ok(rd) && rd matches
            ResponseData::CypherText { data: d, tag } && tag@ == data@.subrange(
            0,
            TAG_SIZE as int,
        ) && d@ == data@.subrange(TAG_SIZE as int, CYPHERTEXT_RESPONSE_DATA_SIZE as int)),
        data@.len() != CYPHERTEXT_RESPONSE_DATA_SIZE ==> (r matches Err(e) && e
            == CopernicaError::CodecError),
{
    if data.len() != CYPHERTEXT_RESPONSE_DATA_SIZE {
        return Err(CopernicaError::CodecError);
    }
    let tag = read_array::<TAG_SIZE>(data, 0);
    let block = read_vec(data, TAG_SIZE, DATA_SIZE);
    let d = Data::from_block(block)?;
    Ok(ResponseData::reconstitute_cypher_text(tag, d))
}

/// Reads back a clear response data block.
pub fn deserialize_cleartext_response_data(data: &Vec<u8>) -> (r: Result<
    ResponseData,
    CopernicaError,
>)
    ensures
        data@.len() == CLEARTEXT_RESPONSE_DATA_SIZE ==> (r matches Ok(rd) && rd matches
            ResponseData::ClearText { data: d } && d@ == data@),
        data@.len() != CLEARTEXT_RESPONSE_DATA_SIZE ==> (r matches Err(e) && e
            == CopernicaError::CodecError),
{
    if data.len() != CLEARTEXT_RESPONSE_DATA_SIZE {
        return Err(CopernicaError::CodecError);
    }
    let block = read_vec(data, 0, DATA_SIZE);
    let d = Data::from_block(block)?;
    Ok(ResponseData::reconstitute_clear_text(d))
}

/// The manifest: the deterministic byte string that a response's signature
/// covers. It binds the data block, the name, the offset and total counts,
/// and the nonce.
#[verifier::opaque]
pub open spec fn spec_manifest(
    data: Seq<u8>,
    h: HBFI,
    offset: u64,
    total: u64,
    nonce: Seq<u8>,
) -> Seq<u8> {
    spec_hbfi_bytes(h) + be64_bytes(offset) + be64_bytes(total) + nonce + data
}

/// Builds the byte string that a response's signature covers.
pub fn manifest(
    data: Vec<u8>,
    hbfi: &HBFI,
    offset: u64,
    total: u64,
    nonce: &[u8; NONCE_SIZE],
) -> (r: Vec<u8>)
    ensures
        r@ == spec_manifest(data@, *hbfi, offset, total, nonce@),
{
    let (_size, mut buf) = serialize_hbfi(hbfi);
    let ost = u64_to_u8(offset);
    let tot = u64_to_u8(total);
    extend_bytes(&mut buf, &ost);
    extend_bytes(&mut buf, &tot);
    extend_bytes(&mut buf, nonce);
    extend_bytes(&mut buf, data.as_slice());
    proof {
        reveal(spec_manifest);
        assert(buf@ =~= spec_manifest(data@, *hbfi, offset, total, nonce@));
    }
    buf
}

} // verus!
