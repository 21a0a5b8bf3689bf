use vstd::prelude::*;
use crate::bytes::read_array;
use crate::bytes::read_vec;
use crate::bytes::extend_bytes;
use crate::codec::deserialize_cleartext_hbfi;
use crate::codec::deserialize_cleartext_response_data;
use crate::codec::deserialize_cyphertext_hbfi;
use crate::codec::deserialize_cyphertext_response_data;
use crate::codec::lemma_hbfi_round_trip;
use crate::codec::serialize_hbfi;
use crate::codec::serialize_response_data;
use crate::codec::spec_hbfi_bytes;
use crate::codec::spec_hbfi_fields;
use crate::codec::spec_response_data_bytes;
use crate::constants::CLEARTEXT_HBFI_SIZE;
use crate::constants::CLEARTEXT_NARROW_WAIST_PACKET_REQUEST_SIZE;
use crate::constants::CLEARTEXT_NARROW_WAIST_PACKET_RESPONSE_SIZE;
use crate::constants::CYPHERTEXT_HBFI_SIZE;
use crate::constants::CYPHERTEXT_NARROW_WAIST_PACKET_REQUEST_SIZE;
use crate::constants::CYPHERTEXT_NARROW_WAIST_PACKET_RESPONSE_SIZE;
use crate::constants::NONCE_SIZE;
use crate::constants::SIGNATURE_SIZE;
use crate::data::lemma_data_len;
use crate::data::ResponseData;
use crate::errors::CopernicaError;
use crate::narrow_waist::NarrowWaistPacket;
use crate::wire_ints::be64;
use crate::wire_ints::be64_bytes;
use crate::wire_ints::lemma_be64_value;
use crate::wire_ints::u64_to_u8;
use crate::wire_ints::u8_to_u64;

verus! {

/// The wire bytes of a narrow-waist packet: a request is its nonce then its
/// name; a response is its signature, offset, total, nonce, name and data.
#[verifier::opaque]
pub open spec fn spec_nw_bytes(p: NarrowWaistPacket) -> Seq<u8> {
    match p {
        NarrowWaistPacket::Request { hbfi, nonce } => nonce@ + spec_hbfi_bytes(hbfi),
        NarrowWaistPacket::Response { hbfi, nonce, signature, data, offset, total } => signature@
            + be64_bytes(offset) + be64_bytes(total) + nonce@ + spec_hbfi_bytes(hbfi)
            + spec_response_data_bytes(data),
    }
}

/// The wire size of a narrow-waist packet. For the packets the algebra
/// produces — where an encrypted block appears exactly when the name binds
/// a requester — it is one of the four dispatch sizes.
pub open spec fn spec_nw_size(p: NarrowWaistPacket) -> int {
    let hbfi_len: int = if p.spec_hbfi().request_pid is Some {
        CYPHERTEXT_HBFI_SIZE as int
    } else {
        CLEARTEXT_HBFI_SIZE as int
    };
    match p {
        NarrowWaistPacket::Request { .. } => 12 + hbfi_len,
        NarrowWaistPacket::Response { data, .. } => 92 + hbfi_len + (if data is CypherText {
            1040int
        } else {
            1024int
        }),
    }
}

/// Whether two narrow-waist packets are the same packet.
pub open spec fn spec_same_nw(a: NarrowWaistPacket, b: NarrowWaistPacket) -> bool {
    match (a, b) {
        (
            NarrowWaistPacket::Request { hbfi: h1, nonce: n1 },
            NarrowWaistPacket::Request { hbfi: h2, nonce: n2 },
        ) => h1.same_as(&h2) && n1@ == n2@,
        (
            NarrowWaistPacket::Response {
                hbfi: h1,
                nonce: n1,
                signature: s1,
                data: d1,
                offset: o1,
                total: t1,
            },
            NarrowWaistPacket::Response {
                hbfi: h2,
                nonce: n2,
                signature: s2,
                data: d2,
                offset: o2,
                total: t2,
            },
        ) => h1.same_as(&h2) && n1@ == n2@ && s1@ == s2@ && o1 == o2 && t1 == t2 && (match (
            d1,
            d2,
        ) {
            (
                ResponseData::ClearText { data: b1 },
                ResponseData::ClearText { data: b2 },
            ) => b1@ == b2@,
            (
                ResponseData::CypherText { data: b1, tag: g1 },
                ResponseData::CypherText { data: b2, tag: g2 },
            ) => b1@ == b2@ && g1@ == g2@,
            _ => false,
        }),
        _ => false,
    }
}

/// Serializes a narrow-waist packet; the returned size is one of the four
/// dispatch sizes.
pub fn serialize_narrow_waist_packet(nw: &NarrowWaistPacket) -> (r: (u16, Vec<u8>))
    ensures
        r.1@ == spec_nw_bytes(*nw),
        r.0 == r.1@.len(),
        r.0 == spec_nw_size(*nw),
{
    let mut buf: Vec<u8> = Vec::new();
    match nw {
        NarrowWaistPacket::Request { hbfi, nonce } => {
            let (hbfi_size, hbfi_bytes) = serialize_hbfi(hbfi);
            extend_bytes(&mut buf, nonce);
            extend_bytes(&mut buf, hbfi_bytes.as_slice());
            let size: u16 = (hbfi_size as u16) + (NONCE_SIZE as u16);
            proof {
                reveal(spec_nw_bytes);
                assert(buf@ =~= spec_nw_bytes(*nw));
            }
            (size, buf)
        },
        NarrowWaistPacket::Response { hbfi, signature, offset, total, nonce, data } => {
            let (hbfi_size, hbfi_bytes) = serialize_hbfi(hbfi);
            let (rd_size, rd_bytes) = serialize_response_data(data);
            let ost = u64_to_u8(*offset);
            let tot = u64_to_u8(*total);
            extend_bytes(&mut buf, signature);
            extend_bytes(&mut buf, &ost);
            extend_bytes(&mut buf, &tot);
            extend_bytes(&mut buf, nonce);
            extend_bytes(&mut buf, hbfi_bytes.as_slice());
            extend_bytes(&mut buf, rd_bytes.as_slice());
            let size: u16 = (hbfi_size as u16) + (SIGNATURE_SIZE as u16) + 16u16 + (NONCE_SIZE
                as u16) + rd_size;
            proof {
                reveal(spec_nw_bytes);
                assert(buf@ =~= spec_nw_bytes(*nw));
            }
            (size, buf)
        },
    }
}

/// Reads back a clear-text request: a nonce, then a name binding no
/// requester.
pub fn deserialize_cleartext_narrow_waist_packet_request(data: &Vec<u8>) -> (r: Result<
    NarrowWaistPacket,
    CopernicaError,
>)
    ensures
        data@.len() == CLEARTEXT_NARROW_WAIST_PACKET_REQUEST_SIZE ==> (r matches Ok(p) && p matches
            NarrowWaistPacket::Request { hbfi, nonce } && nonce@ == data@.subrange(0, 12)
            && hbfi.request_pid is None && spec_hbfi_fields(
            hbfi,
            data@.subrange(12, CLEARTEXT_NARROW_WAIST_PACKET_REQUEST_SIZE as int),
        )),
        data@.len() != CLEARTEXT_NARROW_WAIST_PACKET_REQUEST_SIZE ==> (r matches Err(e) && e
            == CopernicaError::CodecError),
{
    if data.len() != CLEARTEXT_NARROW_WAIST_PACKET_REQUEST_SIZE {
        return Err(CopernicaError::CodecError);
    }
    let nonce = read_array::<NONCE_SIZE>(data, 0);
    let hbfi_bytes = read_vec(data, NONCE_SIZE, CLEARTEXT_HBFI_SIZE);
    let hbfi = deserialize_cleartext_hbfi(&hbfi_bytes)?;
    Ok(NarrowWaistPacket::Request { hbfi, nonce })
}

/// Reads back a cypher-text request: a nonce, then a name binding a
/// requester.
pub fn deserialize_cyphertext_narrow_waist_packet_request(data: &Vec<u8>) -> (r: Result<
    NarrowWaistPacket,
    CopernicaError,
>)
    ensures
        data@.len() == CYPHERTEXT_NARROW_WAIST_PACKET_REQUEST_SIZE ==> (r matches Ok(p) && p matches
            NarrowWaistPacket::Request { hbfi, nonce } && nonce@ == data@.subrange(0, 12)
            && hbfi.request_pid is Some && spec_hbfi_fields(
            hbfi,
            data@.subrange(12, CYPHERTEXT_NARROW_WAIST_PACKET_REQUEST_SIZE as int),
        )),
        data@.len() != CYPHERTEXT_NARROW_WAIST_PACKET_REQUEST_SIZE ==> (r matches Err(e) && e
            == CopernicaError::CodecError),
{
    if data.len() != CYPHERTEXT_NARROW_WAIST_PACKET_REQUEST_SIZE {
        return Err(CopernicaError::CodecError);
    }
    let nonce = read_array::<NONCE_SIZE>(data, 0);
    let hbfi_bytes = read_vec(data, NONCE_SIZE, CYPHERTEXT_HBFI_SIZE);
    let hbfi = deserialize_cyphertext_hbfi(&hbfi_bytes)?;
    Ok(NarrowWaistPacket::Request { hbfi, nonce })
}

/// Whether a response's fixed-offset fields read the given wire bytes back;
/// the name and data follow at the layout's offsets.
pub open spec fn spec_nw_response_fields(p: NarrowWaistPacket, b: Seq<u8>, cypher: bool) -> bool {
    let hbfi_end = if cypher {
        92 + CYPHERTEXT_HBFI_SIZE as int
    } else {
        92 + CLEARTEXT_HBFI_SIZE as int
    };
    &&& p matches NarrowWaistPacket::Response { hbfi, nonce, signature, data, offset, total }
    &&& signature@ == b.subrange(0, 64)
    &&& offset == be64(b.subrange(64, 72))
    &&& total == be64(b.subrange(72, 80))
    &&& nonce@ == b.subrange(80, 92)
    &&& spec_hbfi_fields(hbfi, b.subrange(92, hbfi_end))
    &&& (if cypher {
        hbfi.request_pid is Some && (data matches ResponseData::CypherText { data: d, tag } && tag@
            == b.subrange(hbfi_end, hbfi_end + 16) && d@ == b.subrange(
            hbfi_end + 16,
            hbfi_end + 16 + 1024,
        ))
    } else {
        hbfi.request_pid is None && (data matches ResponseData::ClearText { data: d } && d@
            == b.subrange(hbfi_end, hbfi_end + 1024))
    })
}

/// Reads back a clear-text response.
pub fn deserialize_cleartext_narrow_waist_packet_response(data: &Vec<u8>) -> (r: Result<
    NarrowWaistPacket,
    CopernicaError,
>)
    ensures
        data@.len() == CLEARTEXT_NARROW_WAIST_PACKET_RESPONSE_SIZE ==> (r matches Ok(p)
            && spec_nw_response_fields(p, data@, false)),
        data@.len() != CLEARTEXT_NARROW_WAIST_PACKET_RESPONSE_SIZE ==> (r matches Err(e) && e
            == CopernicaError::CodecError),
{
    if data.len() != CLEARTEXT_NARROW_WAIST_PACKET_RESPONSE_SIZE {
        return Err(CopernicaError::CodecError);
    }
    let signature = read_array::<SIGNATURE_SIZE>(data, 0);
    let offset = u8_to_u64(read_array::<8>(data, 64));
    let total = u8_to_u64(read_array::<8>(data, 72));
    let nonce = read_array::<NONCE_SIZE>(data, 80);
    let hbfi_bytes = read_vec(data, 92, CLEARTEXT_HBFI_SIZE);
    let hbfi = deserialize_cleartext_hbfi(&hbfi_bytes)?;
    let rd_bytes = read_vec(data, 92 + CLEARTEXT_HBFI_SIZE, 1024);
    let rd = deserialize_cleartext_response_data(&rd_bytes)?;
    proof {
        let hbfi_end = 92 + CLEARTEXT_HBFI_SIZE as int;
        assert(data@.subrange(hbfi_end, hbfi_end + 1024) =~= rd_bytes@);
    }
    Ok(NarrowWaistPacket::Response { hbfi, signature, offset, total, nonce, data: rd })
}

/// Reads back a cypher-text response.
pub fn deserialize_cyphertext_narrow_waist_packet_response(data: &Vec<u8>) -> (r: Result<
    NarrowWaistPacket,
    CopernicaError,
>)
    ensures
        data@.len() == CYPHERTEXT_NARROW_WAIST_PACKET_RESPONSE_SIZE ==> (r matches Ok(p)
            && spec_nw_response_fields(p, data@, true)),
        data@.len() != CYPHERTEXT_NARROW_WAIST_PACKET_RESPONSE_SIZE ==> (r matches Err(e) && e
            == CopernicaError::CodecError),
{
    if data.len() != CYPHERTEXT_NARROW_WAIST_PACKET_RESPONSE_SIZE {
        return Err(CopernicaError::CodecError);
    }
    let signature = read_array::<SIGNATURE_SIZE>(data, 0);
    let offset = u8_to_u64(read_array::<8>(data, 64));
    let total = u8_to_u64(read_array::<8>(data, 72));
    let nonce = read_array::<NONCE_SIZE>(data, 80);
    let hbfi_bytes = read_vec(data, 92, CYPHERTEXT_HBFI_SIZE);
    let hbfi = deserialize_cyphertext_hbfi(&hbfi_bytes)?;
    let rd_bytes = read_vec(data, 92 + CYPHERTEXT_HBFI_SIZE, 1040);
    let rd = deserialize_cyphertext_response_data(&rd_bytes)?;
    proof {
        let hbfi_end = 92 + CYPHERTEXT_HBFI_SIZE as int;
        assert(data@.subrange(hbfi_end, hbfi_end + 16) =~= rd_bytes@.subrange(0, 16));
        assert(data@.subrange(hbfi_end + 16, hbfi_end + 16 + 1024) =~= rd_bytes@.subrange(
            16,
            1040,
        ));
    }
    Ok(NarrowWaistPacket::Response { hbfi, signature, offset, total, nonce, data: rd })
}

/// Where the two fields of a request stand in its wire bytes.
#[verifier::rlimit(100)]
pub proof fn lemma_nw_layout_request(p: NarrowWaistPacket)
    requires
        p is Request,
    ensures
        spec_nw_bytes(p).len() == spec_nw_size(p),
        p matches NarrowWaistPacket::Request { hbfi, nonce } ==> ({
            let b = spec_nw_bytes(p);
            &&& b.subrange(0, 12) == nonce@
            &&& b.subrange(12, b.len() as int) == spec_hbfi_bytes(hbfi)
        }),
{
    reveal(spec_nw_bytes);
    crate::codec::lemma_hbfi_layout(p.spec_hbfi());
    match p {
        NarrowWaistPacket::Request { hbfi, nonce } => {
            let b = spec_nw_bytes(p);
            assert(b.subrange(0, 12) =~= nonce@);
            assert(b.subrange(12, b.len() as int) =~= spec_hbfi_bytes(hbfi));
        },
        NarrowWaistPacket::Response { .. } => {},
    }
}

/// Where each field of a response stands in its wire bytes.
#[verifier::rlimit(100)]
pub proof fn lemma_nw_layout_response(p: NarrowWaistPacket)
    requires
        p is Response,
    ensures
        spec_nw_bytes(p).len() == spec_nw_size(p),
        p matches NarrowWaistPacket::Response { hbfi, nonce, signature, data, offset, total }
            ==> ({
            let b = spec_nw_bytes(p);
            let hbfi_end = 92 + spec_hbfi_bytes(hbfi).len() as int;
            &&& b.subrange(0, 64) == signature@
            &&& b.subrange(64, 72) == be64_bytes(offset)
            &&& b.subrange(72, 80) == be64_bytes(total)
            &&& b.subrange(80, 92) == nonce@
            &&& b.subrange(92, hbfi_end) == spec_hbfi_bytes(hbfi)
            &&& b.subrange(hbfi_end, b.len() as int) == spec_response_data_bytes(data)
        }),
{
    reveal(spec_nw_bytes);
    crate::codec::lemma_hbfi_layout(p.spec_hbfi());
    match p {
        NarrowWaistPacket::Request { .. } => {},
        NarrowWaistPacket::Response { hbfi, nonce, signature, data, offset, total } => {
            let b = spec_nw_bytes(p);
            let hbfi_end = 92 + spec_hbfi_bytes(hbfi).len() as int;
            match data {
                ResponseData::ClearText { data: d } => lemma_data_len(d),
                ResponseData::CypherText { data: d, .. } => lemma_data_len(d),
            }
            assert(b.subrange(0, 64) =~= signature@);
            assert(b.subrange(64, 72) =~= be64_bytes(offset));
            assert(b.subrange(72, 80) =~= be64_bytes(total));
            assert(b.subrange(80, 92) =~= nonce@);
            assert(b.subrange(92, hbfi_end) =~= spec_hbfi_bytes(hbfi));
            assert(b.subrange(hbfi_end, b.len() as int) =~= spec_response_data_bytes(data));
        },
    }
}

/// Law: a narrow-waist packet read back from its own wire bytes is the
/// same packet.
#[verifier::rlimit(100)]
pub proof fn lemma_nw_round_trip(p: NarrowWaistPacket, p2: NarrowWaistPacket)
    requires
        p is Request ==> (p2 matches NarrowWaistPacket::Request { hbfi: h2, nonce: n2 } && n2@
            == spec_nw_bytes(p).subrange(0, 12) && (h2.request_pid is Some <==> p.spec_hbfi(
        ).request_pid is Some) && spec_hbfi_fields(
            h2,
            spec_nw_bytes(p).subrange(12, spec_nw_bytes(p).len() as int),
        )),
        p is Response ==> (p.spec_hbfi().request_pid is Some <==> p.spec_rdata() is CypherText),
        p is Response ==> spec_nw_response_fields(
            p2,
            spec_nw_bytes(p),
            p.spec_hbfi().request_pid is Some,
        ),
    ensures
        spec_same_nw(p2, p),
{
    let b = spec_nw_bytes(p);
    match p {
        NarrowWaistPacket::Request { hbfi, nonce } => {
            lemma_nw_layout_request(p);
            lemma_hbfi_round_trip(hbfi, p2.spec_hbfi());
        },
        NarrowWaistPacket::Response { hbfi, nonce, signature, data, offset, total } => {
            let hbfi_end = 92 + spec_hbfi_bytes(hbfi).len() as int;
            lemma_nw_layout_response(p);
            crate::codec::lemma_hbfi_layout(hbfi);
            assert(b.subrange(92, hbfi_end).len() == spec_hbfi_bytes(hbfi).len());
            lemma_hbfi_round_trip(hbfi, p2.spec_hbfi());
            lemma_be64_value(offset);
            lemma_be64_value(total);
            match data {
                ResponseData::ClearText { data: d } => {
                    lemma_data_len(d);
                    assert(spec_response_data_bytes(data).subrange(0, 1024) =~= d@);
                    assert(b.subrange(hbfi_end, hbfi_end + 1024) =~= spec_response_data_bytes(
                        data,
                    ).subrange(0, 1024));
                },
                ResponseData::CypherText { data: d, tag } => {
                    lemma_data_len(d);
                    assert(spec_response_data_bytes(data).subrange(0, 16) =~= tag@);
                    assert(spec_response_data_bytes(data).subrange(16, 1040) =~= d@);
                    assert(b.subrange(hbfi_end, hbfi_end + 16) =~= spec_response_data_bytes(
                        data,
                    ).subrange(0, 16));
                    assert(b.subrange(hbfi_end + 16, hbfi_end + 16 + 1024)
                        =~= spec_response_data_bytes(data).subrange(16, 1040));
                },
            }
        },
    }
}

} // verus!
