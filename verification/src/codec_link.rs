use vstd::prelude::*;
use crate::bytes::extend_bytes;
use crate::bytes::read_array;
use crate::bytes::read_vec;
use crate::codec_packet::deserialize_cleartext_narrow_waist_packet_request;
use crate::codec_packet::deserialize_cleartext_narrow_waist_packet_response;
use crate::codec_packet::deserialize_cyphertext_narrow_waist_packet_request;
use crate::codec_packet::deserialize_cyphertext_narrow_waist_packet_response;
use crate::codec_packet::lemma_nw_round_trip;
use crate::codec_packet::serialize_narrow_waist_packet;
use crate::codec::spec_hbfi_fields;
use crate::codec_packet::spec_nw_bytes;
use crate::codec_packet::spec_nw_response_fields;
use crate::codec_packet::spec_nw_size;
use crate::codec_packet::spec_same_nw;
use crate::constants::CC_SIZE;
use crate::constants::CLEARTEXT_NARROW_WAIST_PACKET_REQUEST_SIZE;
use crate::constants::CLEARTEXT_NARROW_WAIST_PACKET_RESPONSE_SIZE;
use crate::constants::CYPHERTEXT_NARROW_WAIST_PACKET_REQUEST_SIZE;
use crate::constants::CYPHERTEXT_NARROW_WAIST_PACKET_RESPONSE_SIZE;
use crate::constants::KEY_SIZE;
use crate::constants::NONCE_SIZE;
use crate::constants::TAG_SIZE;
use crate::constants::TO_REPLY_TO_MPSC;
use crate::constants::TO_REPLY_TO_RF;
use crate::constants::TO_REPLY_TO_UDPIP4;
use crate::constants::TO_REPLY_TO_UDPIP6;
use crate::crypto::aead_open;
use crate::crypto::aead_seal;
use crate::crypto::chacha_open;
use crate::crypto::chacha_seal;
use crate::crypto::generate_nonce;
use crate::crypto::x_dh;
use crate::crypto::x_pub_of;
use crate::errors::CopernicaError;
use crate::identity::lemma_public_id_bytes;
use crate::identity::spec_id_bytes_of;
use crate::identity::spec_is_public_id_of;
use crate::identity::spec_session_key;
use crate::identity::PrivateIdentity;
use crate::identity::PublicIdentity;
use crate::link::LinkPacket;
use crate::link::ReplyTo;
use crate::narrow_waist::NarrowWaistPacket;
use crate::wire_ints::be16;
use crate::wire_ints::be16_bytes;
use crate::wire_ints::be64;
use crate::wire_ints::be64_bytes;
use crate::wire_ints::lemma_be16_value;
use crate::wire_ints::lemma_be64_value;
use crate::wire_ints::u16_to_u8;
use crate::wire_ints::u64_to_u8;
use crate::wire_ints::u8_to_u16;
use crate::wire_ints::u8_to_u64;

verus! {

/// The wire bytes of a return address; the variants have distinct lengths,
/// and the length alone selects the variant when reading back.
pub open spec fn spec_reply_to_bytes(rt: ReplyTo) -> Seq<u8> {
    match rt {
        ReplyTo::Mpsc => Seq::<u8>::empty(),
        ReplyTo::UdpIp4 { addr, port } => addr@ + be16_bytes(port),
        ReplyTo::UdpIp6 { addr, port } => addr@ + be16_bytes(port),
        ReplyTo::Rf(hz) => be64_bytes(hz),
    }
}

/// Whether a return address reads the given wire bytes back.
pub open spec fn spec_reply_to_fields(rt: ReplyTo, b: Seq<u8>) -> bool {
    if b.len() == TO_REPLY_TO_MPSC {
        rt is Mpsc
    } else if b.len() == TO_REPLY_TO_UDPIP4 {
        rt matches ReplyTo::UdpIp4 { addr, port } && addr@ == b.subrange(0, 4) && port == be16(
            b[4],
            b[5],
        )
    } else if b.len() == TO_REPLY_TO_RF {
        rt matches ReplyTo::Rf(hz) && hz == be64(b)
    } else if b.len() == TO_REPLY_TO_UDPIP6 {
        rt matches ReplyTo::UdpIp6 { addr, port } && addr@ == b.subrange(0, 16) && port == be16(
            b[16],
            b[17],
        )
    } else {
        false
    }
}

/// Serializes a return address.
pub fn serialize_reply_to(rt: &ReplyTo) -> (r: (u8, Vec<u8>))
    ensures
        r.1@ == spec_reply_to_bytes(*rt),
        r.0 == r.1@.len(),
{
    let mut buf: Vec<u8> = Vec::new();
    match rt {
        ReplyTo::Mpsc => {
            proof {
                assert(buf@ =~= spec_reply_to_bytes(*rt));
            }
            (0u8, buf)
        },
        ReplyTo::UdpIp4 { addr, port } => {
            let p = u16_to_u8(*port);
            extend_bytes(&mut buf, addr);
            extend_bytes(&mut buf, &p);
            proof {
                assert(buf@ =~= spec_reply_to_bytes(*rt));
            }
            (TO_REPLY_TO_UDPIP4 as u8, buf)
        },
        ReplyTo::UdpIp6 { addr, port } => {
            let p = u16_to_u8(*port);
            extend_bytes(&mut buf, addr);
            extend_bytes(&mut buf, &p);
            proof {
                assert(buf@ =~= spec_reply_to_bytes(*rt));
            }
            (TO_REPLY_TO_UDPIP6 as u8, buf)
        },
        ReplyTo::Rf(hz) => {
            let h = u64_to_u8(*hz);
            extend_bytes(&mut buf, &h);
            proof {
                assert(buf@ =~= spec_reply_to_bytes(*rt));
            }
            (TO_REPLY_TO_RF as u8, buf)
        },
    }
}

/// Reads a return address back from its wire bytes; a length that matches
/// no variant is an error.
pub fn deserialize_reply_to(data: &Vec<u8>) -> (r: Result<ReplyTo, CopernicaError>)
    ensures
        match r {
            Ok(rt) => spec_reply_to_fields(rt, data@),
            Err(e) => e == CopernicaError::CodecError && data@.len() != TO_REPLY_TO_MPSC
                && data@.len() != TO_REPLY_TO_UDPIP4 && data@.len() != TO_REPLY_TO_UDPIP6
                && data@.len() != TO_REPLY_TO_RF,
        },
{
    let n = data.len();
    if n == TO_REPLY_TO_MPSC {
        Ok(ReplyTo::Mpsc)
    } else if n == TO_REPLY_TO_UDPIP4 {
        let addr = read_array::<4>(data, 0);
        let port = u8_to_u16([data[4], data[5]]);
        Ok(ReplyTo::UdpIp4 { addr, port })
    } else if n == TO_REPLY_TO_UDPIP6 {
        let addr = read_array::<16>(data, 0);
        let port = u8_to_u16([data[16], data[17]]);
        Ok(ReplyTo::UdpIp6 { addr, port })
    } else if n == TO_REPLY_TO_RF {
        let hz = u8_to_u64(read_array::<8>(data, 0));
        proof {
            assert(data@.subrange(0, 8) =~= data@);
        }
        Ok(ReplyTo::Rf(hz))
    } else {
        Err(CopernicaError::CodecError)
    }
}

/// Law: a return address read back from its own wire bytes is the same
/// address.
pub proof fn lemma_reply_to_round_trip(rt: ReplyTo, rt2: ReplyTo)
    requires
        spec_reply_to_fields(rt2, spec_reply_to_bytes(rt)),
    ensures
        rt2.same_as(&rt),
{
    let b = spec_reply_to_bytes(rt);
    match rt {
        ReplyTo::Mpsc => {},
        ReplyTo::UdpIp4 { addr, port } => {
            lemma_be16_value(port);
            assert(b.subrange(0, 4) =~= addr@);
            assert(b[4] == be16_bytes(port)[0] && b[5] == be16_bytes(port)[1]);
            let a2 = rt2->UdpIp4_addr;
            assert(a2@ =~= addr@);
        },
        ReplyTo::UdpIp6 { addr, port } => {
            lemma_be16_value(port);
            assert(b.subrange(0, 16) =~= addr@);
            assert(b[16] == be16_bytes(port)[0] && b[17] == be16_bytes(port)[1]);
            let a2 = rt2->UdpIp6_addr;
            assert(a2@ =~= addr@);
        },
        ReplyTo::Rf(hz) => {
            lemma_be64_value(hz);
        },
    }
}

/// The key both ends of a link derive for one frame: the transmitter's
/// exchange secret against the receiver's exchange point, bound to both
/// link identities and the frame's nonce.
pub open spec fn spec_link_key(tx: (Seq<u8>, Seq<u8>), rx: PublicIdentity, nonce: Seq<u8>) -> Seq<
    u8,
> {
    spec_session_key(x_dh(tx.0, rx.exch_key@), spec_id_bytes_of(tx), rx.spec_bytes(), nonce)
}

/// The bytes of a clear-text link frame: the transmitter's identity, the
/// reply-to length, the packet length, the reply-to, and the packet.
#[verifier::opaque]
pub open spec fn spec_clear_link_bytes(tx_id: Seq<u8>, lp: LinkPacket) -> Seq<u8> {
    tx_id + seq![(spec_reply_to_bytes(lp.reply_to).len() as u8)] + be16_bytes(
        spec_nw_bytes(lp.narrow_waist).len() as u16,
    ) + spec_reply_to_bytes(lp.reply_to) + spec_nw_bytes(lp.narrow_waist)
}

/// The bytes of a cypher-text link frame: the transmitter's identity, the
/// frame nonce and tag, the two lengths, the reply-to, and the packet
/// sealed under the link key.
#[verifier::opaque]
pub open spec fn spec_cypher_link_bytes(
    tx: (Seq<u8>, Seq<u8>),
    rx: PublicIdentity,
    lp: LinkPacket,
    nonce: Seq<u8>,
) -> Seq<u8> {
    let nw = spec_nw_bytes(lp.narrow_waist);
    let key = spec_link_key(tx, rx, nonce);
    spec_id_bytes_of(tx) + nonce + aead_seal(key, nonce, nw).1 + seq![
        (spec_reply_to_bytes(lp.reply_to).len() as u8),
    ] + be16_bytes(nw.len() as u16) + spec_reply_to_bytes(lp.reply_to) + aead_seal(key, nonce, nw).0
}

/// That sealing a plain text under a key and nonce went as every seal
/// does: the cypher text is as long as the plain text and opens back to it.
pub open spec fn spec_seal_ok(key: Seq<u8>, nonce: Seq<u8>, pt: Seq<u8>) -> bool {
    &&& aead_seal(key, nonce, pt).0.len() == pt.len()
    &&& aead_seal(key, nonce, pt).1.len() == TAG_SIZE
    &&& aead_open(key, nonce, aead_seal(key, nonce, pt).0, aead_seal(key, nonce, pt).1) == Some(pt)
}

/// Where each of seven adjoined byte strings stands in their concatenation.
proof fn lemma_concat7(
    s1: Seq<u8>,
    s2: Seq<u8>,
    s3: Seq<u8>,
    s4: Seq<u8>,
    s5: Seq<u8>,
    s6: Seq<u8>,
    s7: Seq<u8>,
)
    ensures
        ({
            let t = s1 + s2 + s3 + s4 + s5 + s6 + s7;
            let l1 = s1.len() as int;
            let l2 = l1 + s2.len();
            let l3 = l2 + s3.len();
            let l4 = l3 + s4.len();
            let l5 = l4 + s5.len();
            let l6 = l5 + s6.len();
            let l7 = l6 + s7.len();
            &&& t.len() == l7
            &&& t.subrange(0, l1) == s1
            &&& t.subrange(l1, l2) == s2
            &&& t.subrange(l2, l3) == s3
            &&& t.subrange(l3, l4) == s4
            &&& t.subrange(l4, l5) == s5
            &&& t.subrange(l5, l6) == s6
            &&& t.subrange(l6, l7) == s7
        }),
{
    let t = s1 + s2 + s3 + s4 + s5 + s6 + s7;
    let l1 = s1.len() as int;
    let l2 = l1 + s2.len();
    let l3 = l2 + s3.len();
    let l4 = l3 + s4.len();
    let l5 = l4 + s5.len();
    let l6 = l5 + s6.len();
    let l7 = l6 + s7.len();
    assert(t.subrange(0, l1) =~= s1);
    assert(t.subrange(l1, l2) =~= s2);
    assert(t.subrange(l2, l3) =~= s3);
    assert(t.subrange(l3, l4) =~= s4);
    assert(t.subrange(l4, l5) =~= s5);
    assert(t.subrange(l5, l6) =~= s6);
    assert(t.subrange(l6, l7) =~= s7);
}

/// Serializes a link packet for one hop: clear when no receiving link
/// identity is given, sealed for that identity otherwise.
pub fn serialize_link_packet(
    lp: &LinkPacket,
    lnk_tx_sid: &PrivateIdentity,
    lnk_rx_pid: Option<&PublicIdentity>,
) -> (r: Result<Vec<u8>, CopernicaError>)
    ensures
        lnk_rx_pid is None ==> (r matches Ok(b) && b@ == spec_clear_link_bytes(
            spec_id_bytes_of(lnk_tx_sid@),
            *lp,
        )),
        lnk_rx_pid matches Some(rx) ==> (r matches Ok(b) && exists|n: Seq<u8>|
            n.len() == NONCE_SIZE && b@ == #[trigger] spec_cypher_link_bytes(
                lnk_tx_sid@,
                *rx,
                *lp,
                n,
            ) && spec_seal_ok(
                spec_link_key(lnk_tx_sid@, *rx, n),
                n,
                spec_nw_bytes(lp.narrow_waist),
            )),
        crate::identity::spec_id_wf(lnk_tx_sid@),
{
    let own = lnk_tx_sid.public_id();
    proof {
        lemma_public_id_bytes(own, lnk_tx_sid@);
    }
    let (nw_size, nw_bytes) = serialize_narrow_waist_packet(&lp.narrow_waist);
    let (rt_size, rt_bytes) = serialize_reply_to(&lp.reply_to);
    let nw_size_bytes = u16_to_u8(nw_size);
    let mut buf: Vec<u8> = Vec::new();
    extend_bytes(&mut buf, &own.sign_key);
    extend_bytes(&mut buf, &own.exch_key);
    extend_bytes(&mut buf, &own.chain_code);
    match lnk_rx_pid {
        None => {
            buf.push(rt_size);
            extend_bytes(&mut buf, &nw_size_bytes);
            extend_bytes(&mut buf, rt_bytes.as_slice());
            extend_bytes(&mut buf, nw_bytes.as_slice());
            proof {
                reveal(spec_clear_link_bytes);
                assert(buf@ =~= spec_clear_link_bytes(spec_id_bytes_of(lnk_tx_sid@), *lp));
            }
            Ok(buf)
        },
        Some(rx) => {
            let nonce = generate_nonce();
            let key = lnk_tx_sid.session_key(&rx.exch_key, &own, rx, &nonce);
            let (ct, tag) = chacha_seal(&key, &nonce, &nw_bytes);
            extend_bytes(&mut buf, &nonce);
            extend_bytes(&mut buf, &tag);
            buf.push(rt_size);
            extend_bytes(&mut buf, &nw_size_bytes);
            extend_bytes(&mut buf, rt_bytes.as_slice());
            extend_bytes(&mut buf, ct.as_slice());
            proof {
                reveal(spec_cypher_link_bytes);
                assert(buf@ =~= spec_cypher_link_bytes(lnk_tx_sid@, *rx, *lp, nonce@));
            }
            Ok(buf)
        },
    }
}

/// Reads back a clear-text link frame. The last clause is the round trip:
/// a frame built from a link packet yields that packet and the
/// transmitter's identity.
pub fn deserialize_cleartext_link_packet(data: &Vec<u8>) -> (r: Result<
    (PublicIdentity, LinkPacket),
    CopernicaError,
>)
    ensures
        r matches Ok(pr) ==> ({
            let rts = data@[96] as int;
            let nwsz = be16(data@[97], data@[98]);
            &&& data@.len() == 99 + rts + nwsz
            &&& pr.0.sign_key@ == data@.subrange(0, 32)
            &&& pr.0.exch_key@ == data@.subrange(32, 64)
            &&& pr.0.chain_code@ == data@.subrange(64, 96)
            &&& spec_reply_to_fields(pr.1.reply_to, data@.subrange(99, 99 + rts))
            &&& spec_clear_nw_fields(pr.1.narrow_waist, data@.subrange(99 + rts, 99 + rts + nwsz))
        }),
        r matches Err(e) ==> e == CopernicaError::CodecError,
        forall|lp0: LinkPacket, txid: Seq<u8>|
            txid.len() == 96 && data@ == #[trigger] spec_clear_link_bytes(txid, lp0)
                && spec_clear_wf(lp0) ==> (r matches Ok(pr) && pr.0.spec_bytes() == txid
                && pr.1.reply_to.same_as(&lp0.reply_to) && spec_same_nw(
                pr.1.narrow_waist,
                lp0.narrow_waist,
            )),
{
    if data.len() < 99 {
        proof {
            lemma_clear_frame_shape(data@);
        }
        return Err(CopernicaError::CodecError);
    }
    let sign_key = read_array::<KEY_SIZE>(data, 0);
    let exch_key = read_array::<KEY_SIZE>(data, 32);
    let chain_code = read_array::<CC_SIZE>(data, 64);
    let pid = PublicIdentity::reconstitute(sign_key, exch_key, chain_code);
    let rts = data[96] as usize;
    let nwsz = u8_to_u16([data[97], data[98]]) as usize;
    if data.len() != 99 + rts + nwsz {
        proof {
            lemma_clear_frame_shape(data@);
        }
        return Err(CopernicaError::CodecError);
    }
    let rt_bytes = read_vec(data, 99, rts);
    let rt = match deserialize_reply_to(&rt_bytes) {
        Ok(rt) => rt,
        Err(e) => {
            proof {
                lemma_clear_frame_shape(data@);
            }
            return Err(e);
        },
    };
    let nw_bytes = read_vec(data, 99 + rts, nwsz);
    let nw = if nwsz == CLEARTEXT_NARROW_WAIST_PACKET_REQUEST_SIZE {
        deserialize_cleartext_narrow_waist_packet_request(&nw_bytes)
    } else if nwsz == CLEARTEXT_NARROW_WAIST_PACKET_RESPONSE_SIZE {
        deserialize_cleartext_narrow_waist_packet_response(&nw_bytes)
    } else {
        Err(CopernicaError::CodecError)
    };
    let nw = match nw {
        Ok(nw) => nw,
        Err(_) => {
            proof {
                lemma_clear_frame_shape(data@);
            }
            return Err(CopernicaError::CodecError);
        },
    };
    let lp = LinkPacket::new(rt, nw);
    proof {
        lemma_clear_frame_shape(data@);
        assert forall|lp0: LinkPacket, txid: Seq<u8>|
            txid.len() == 96 && data@ == #[trigger] spec_clear_link_bytes(txid, lp0)
                && spec_clear_wf(lp0) implies (pid.spec_bytes() == txid && lp.reply_to.same_as(
            &lp0.reply_to,
        ) && spec_same_nw(lp.narrow_waist, lp0.narrow_waist)) by {
            lemma_clear_link_layout(txid, lp0);
            assert(pid.spec_bytes() =~= txid);
            lemma_reply_to_round_trip(lp0.reply_to, lp.reply_to);
            lemma_nw_round_trip(lp0.narrow_waist, lp.narrow_waist);
        }
    }
    Ok((pid, lp))
}

/// Whether a narrow-waist packet read from a clear link frame matches the
/// given bytes: dispatch on the two clear dispatch sizes.
pub open spec fn spec_clear_nw_fields(nw: NarrowWaistPacket, b: Seq<u8>) -> bool {
    if b.len() == CLEARTEXT_NARROW_WAIST_PACKET_REQUEST_SIZE {
        nw matches NarrowWaistPacket::Request { hbfi, nonce } && nonce@ == b.subrange(0, 12)
            && hbfi.request_pid is None && spec_hbfi_fields(hbfi, b.subrange(12, b.len() as int))
    } else if b.len() == CLEARTEXT_NARROW_WAIST_PACKET_RESPONSE_SIZE {
        spec_nw_response_fields(nw, b, false)
    } else {
        false
    }
}

/// Whether a narrow-waist packet read from a cypher link frame matches the
/// given bytes: dispatch on the two cypher dispatch sizes.
pub open spec fn spec_cypher_nw_fields(nw: NarrowWaistPacket, b: Seq<u8>) -> bool {
    if b.len() == CYPHERTEXT_NARROW_WAIST_PACKET_REQUEST_SIZE {
        nw matches NarrowWaistPacket::Request { hbfi, nonce } && nonce@ == b.subrange(0, 12)
            && hbfi.request_pid is Some && spec_hbfi_fields(hbfi, b.subrange(12, b.len() as int))
    } else if b.len() == CYPHERTEXT_NARROW_WAIST_PACKET_RESPONSE_SIZE {
        spec_nw_response_fields(nw, b, true)
    } else {
        false
    }
}

/// Whether a link packet fits a clear frame: a clear-variant name, the
/// encrypted block present exactly when the name binds a requester, and a
/// valid reply-to length.
pub open spec fn spec_clear_wf(lp: LinkPacket) -> bool {
    &&& lp.narrow_waist.spec_hbfi().request_pid is None
    &&& (lp.narrow_waist is Response ==> lp.narrow_waist.spec_rdata() is ClearText)
}

/// Whether a link packet fits a cypher frame: a name that binds a
/// requester, with the encrypted block present on responses.
pub open spec fn spec_cypher_wf(lp: LinkPacket) -> bool {
    &&& lp.narrow_waist.spec_hbfi().request_pid is Some
    &&& (lp.narrow_waist is Response ==> lp.narrow_waist.spec_rdata() is CypherText)
}

/// Where each field of a clear link frame stands in its bytes.
#[verifier::rlimit(100)]
pub proof fn lemma_clear_link_layout(txid: Seq<u8>, lp: LinkPacket)
    requires
        txid.len() == 96,
        spec_clear_wf(lp),
    ensures
        ({
            let b = spec_clear_link_bytes(txid, lp);
            let rtb = spec_reply_to_bytes(lp.reply_to);
            let nwb = spec_nw_bytes(lp.narrow_waist);
            &&& b.len() == 99 + rtb.len() + nwb.len()
            &&& b.subrange(0, 96) == txid
            &&& b[96] == rtb.len() as u8
            &&& b[97] == be16_bytes(nwb.len() as u16)[0]
            &&& b[98] == be16_bytes(nwb.len() as u16)[1]
            &&& b.subrange(99, 99 + rtb.len() as int) == rtb
            &&& b.subrange(99 + rtb.len() as int, b.len() as int) == nwb
            &&& nwb.len() == spec_nw_size(lp.narrow_waist)
            &&& (lp.narrow_waist is Request ==> nwb.len()
                == CLEARTEXT_NARROW_WAIST_PACKET_REQUEST_SIZE)
            &&& (lp.narrow_waist is Response ==> nwb.len()
                == CLEARTEXT_NARROW_WAIST_PACKET_RESPONSE_SIZE)
        }),
{
    reveal(spec_clear_link_bytes);
    let b = spec_clear_link_bytes(txid, lp);
    let rtb = spec_reply_to_bytes(lp.reply_to);
    let nwb = spec_nw_bytes(lp.narrow_waist);
    if lp.narrow_waist is Request {
        crate::codec_packet::lemma_nw_layout_request(lp.narrow_waist);
    } else {
        crate::codec_packet::lemma_nw_layout_response(lp.narrow_waist);
    }
    assert(b.subrange(0, 96) =~= txid);
    assert(b.subrange(99, 99 + rtb.len() as int) =~= rtb);
    assert(b.subrange(99 + rtb.len() as int, b.len() as int) =~= nwb);
}

/// A frame shorter than its header, or one whose declared lengths disagree
/// with its length, or whose reply-to or packet bytes do not parse, is no
/// well-formed clear frame.
proof fn lemma_clear_frame_shape(b: Seq<u8>)
    ensures
        forall|lp0: LinkPacket, txid: Seq<u8>|
            txid.len() == 96 && b == #[trigger] spec_clear_link_bytes(txid, lp0) && spec_clear_wf(
                lp0,
            ) ==> ({
                let rtb = spec_reply_to_bytes(lp0.reply_to);
                let nwb = spec_nw_bytes(lp0.narrow_waist);
                &&& b.len() == 99 + rtb.len() + nwb.len()
                &&& b.len() >= 99
                &&& b[96] as int == rtb.len()
                &&& be16(b[97], b[98]) == nwb.len()
                &&& b.subrange(99, 99 + rtb.len() as int) == rtb
                &&& b.subrange(99 + rtb.len() as int, b.len() as int) == nwb
                &&& (nwb.len() == CLEARTEXT_NARROW_WAIST_PACKET_REQUEST_SIZE || nwb.len()
                    == CLEARTEXT_NARROW_WAIST_PACKET_RESPONSE_SIZE)
                &&& rtb.len() <= 18
            }),
{
    assert forall|lp0: LinkPacket, txid: Seq<u8>|
        txid.len() == 96 && b == #[trigger] spec_clear_link_bytes(txid, lp0) && spec_clear_wf(
            lp0,
        ) implies ({
        let rtb = spec_reply_to_bytes(lp0.reply_to);
        let nwb = spec_nw_bytes(lp0.narrow_waist);
        &&& b.len() == 99 + rtb.len() + nwb.len()
        &&& b.len() >= 99
        &&& b[96] as int == rtb.len()
        &&& be16(b[97], b[98]) == nwb.len()
        &&& b.subrange(99, 99 + rtb.len() as int) == rtb
        &&& b.subrange(99 + rtb.len() as int, b.len() as int) == nwb
        &&& (nwb.len() == CLEARTEXT_NARROW_WAIST_PACKET_REQUEST_SIZE || nwb.len()
            == CLEARTEXT_NARROW_WAIST_PACKET_RESPONSE_SIZE)
        &&& rtb.len() <= 18
    }) by {
        lemma_clear_link_layout(txid, lp0);
        let nwb = spec_nw_bytes(lp0.narrow_waist);
        lemma_be16_value(nwb.len() as u16);
    }
}

/// Where each field of a cypher link frame stands in its bytes, given that
/// the seal behaved as every seal does.
#[verifier::rlimit(100)]
pub proof fn lemma_cypher_link_layout(
    tx: (Seq<u8>, Seq<u8>),
    rx: PublicIdentity,
    lp: LinkPacket,
    n: Seq<u8>,
)
    requires
        n.len() == NONCE_SIZE,
        spec_cypher_wf(lp),
        crate::identity::spec_id_wf(tx),
        spec_seal_ok(spec_link_key(tx, rx, n), n, spec_nw_bytes(lp.narrow_waist)),
    ensures
        ({
            let b = spec_cypher_link_bytes(tx, rx, lp, n);
            let rtb = spec_reply_to_bytes(lp.reply_to);
            let nwb = spec_nw_bytes(lp.narrow_waist);
            let key = spec_link_key(tx, rx, n);
            &&& b.len() == 127 + rtb.len() + nwb.len()
            &&& b.subrange(0, 96) == spec_id_bytes_of(tx)
            &&& b.subrange(96, 108) == n
            &&& b.subrange(108, 124) == aead_seal(key, n, nwb).1
            &&& b[124] == rtb.len() as u8
            &&& be16(b[125], b[126]) == nwb.len()
            &&& b.subrange(127, 127 + rtb.len() as int) == rtb
            &&& b.subrange(127 + rtb.len() as int, b.len() as int) == aead_seal(key, n, nwb).0
            &&& nwb.len() == spec_nw_size(lp.narrow_waist)
            &&& (lp.narrow_waist is Request ==> nwb.len()
                == CYPHERTEXT_NARROW_WAIST_PACKET_REQUEST_SIZE)
            &&& (lp.narrow_waist is Response ==> nwb.len()
                == CYPHERTEXT_NARROW_WAIST_PACKET_RESPONSE_SIZE)
            &&& rtb.len() <= 18
            &&& spec_id_bytes_of(tx).subrange(32, 64) == x_pub_of(tx.0)
        }),
{
    let b = spec_cypher_link_bytes(tx, rx, lp, n);
    let rtb = spec_reply_to_bytes(lp.reply_to);
    let nwb = spec_nw_bytes(lp.narrow_waist);
    let key = spec_link_key(tx, rx, n);
    if lp.narrow_waist is Request {
        crate::codec_packet::lemma_nw_layout_request(lp.narrow_waist);
    } else {
        crate::codec_packet::lemma_nw_layout_response(lp.narrow_waist);
    }
    lemma_be16_value(nwb.len() as u16);
    assert(spec_id_bytes_of(tx).len() == 96);
    assert(spec_id_bytes_of(tx).subrange(32, 64) =~= x_pub_of(tx.0));
    let s4 = seq![(rtb.len() as u8)];
    let s5 = be16_bytes(nwb.len() as u16);
    assert(b == spec_id_bytes_of(tx) + n + aead_seal(key, n, nwb).1 + s4 + s5 + rtb + aead_seal(
        key,
        n,
        nwb,
    ).0) by {
        reveal(spec_cypher_link_bytes);
    }
    lemma_concat7(spec_id_bytes_of(tx), n, aead_seal(key, n, nwb).1, s4, s5, rtb, aead_seal(
        key,
        n,
        nwb,
    ).0);
    assert(b[124] == b.subrange(124, 125)[0]);
    assert(b.subrange(124, 125) == s4);
    assert(b[125] == b.subrange(125, 127)[0] && b[126] == b.subrange(125, 127)[1]);
    assert(b.subrange(125, 127) == s5);
}

/// Reads back a cypher link frame with the receiving link's identity. The
/// last clause is the round trip: a frame sealed for this receiver yields
/// the packet it was built from and the transmitter's identity.
pub fn deserialize_cyphertext_link_packet(data: &Vec<u8>, lnk_rx_sid: &PrivateIdentity) -> (r:
    Result<(PublicIdentity, LinkPacket), CopernicaError>)
    ensures
        r matches Ok(pr) ==> ({
            let rts = data@[124] as int;
            let nwsz = be16(data@[125], data@[126]);
            let key = spec_session_key(
                x_dh(lnk_rx_sid@.0, data@.subrange(32, 64)),
                data@.subrange(0, 96),
                spec_id_bytes_of(lnk_rx_sid@),
                data@.subrange(96, 108),
            );
            &&& data@.len() == 127 + rts + nwsz
            &&& pr.0.sign_key@ == data@.subrange(0, 32)
            &&& pr.0.exch_key@ == data@.subrange(32, 64)
            &&& pr.0.chain_code@ == data@.subrange(64, 96)
            &&& spec_reply_to_fields(pr.1.reply_to, data@.subrange(127, 127 + rts))
            &&& (aead_open(
                key,
                data@.subrange(96, 108),
                data@.subrange(127 + rts, 127 + rts + nwsz),
                data@.subrange(108, 124),
            ) matches Some(w) && spec_cypher_nw_fields(pr.1.narrow_waist, w))
        }),
        r matches Err(e) ==> (e == CopernicaError::CodecError || e
            == CopernicaError::DecryptionFailed),
        forall|lp0: LinkPacket, tx: (Seq<u8>, Seq<u8>), rxp: PublicIdentity, n: Seq<u8>|
            n.len() == NONCE_SIZE && data@ == #[trigger] spec_cypher_link_bytes(tx, rxp, lp0, n)
                && spec_is_public_id_of(rxp, lnk_rx_sid@) && crate::identity::spec_id_wf(tx)
                && spec_cypher_wf(lp0) && spec_seal_ok(
                spec_link_key(tx, rxp, n),
                n,
                spec_nw_bytes(lp0.narrow_waist),
            ) ==> (r matches Ok(pr) && pr.0.spec_bytes() == spec_id_bytes_of(tx)
                && pr.1.reply_to.same_as(&lp0.reply_to) && spec_same_nw(
                pr.1.narrow_waist,
                lp0.narrow_waist,
            )),
{
    if data.len() < 127 {
        proof {
            lemma_cypher_frame_shape(data@, lnk_rx_sid@);
        }
        return Err(CopernicaError::CodecError);
    }
    let sign_key = read_array::<KEY_SIZE>(data, 0);
    let exch_key = read_array::<KEY_SIZE>(data, 32);
    let chain_code = read_array::<CC_SIZE>(data, 64);
    let tx_pid = PublicIdentity::reconstitute(sign_key, exch_key, chain_code);
    let nonce = read_array::<NONCE_SIZE>(data, 96);
    let tag = read_array::<TAG_SIZE>(data, 108);
    let rts = data[124] as usize;
    let nwsz = u8_to_u16([data[125], data[126]]) as usize;
    if data.len() != 127 + rts + nwsz {
        proof {
            lemma_cypher_frame_shape(data@, lnk_rx_sid@);
        }
        return Err(CopernicaError::CodecError);
    }
    let rt_bytes = read_vec(data, 127, rts);
    let rt = match deserialize_reply_to(&rt_bytes) {
        Ok(rt) => rt,
        Err(e) => {
            proof {
                lemma_cypher_frame_shape(data@, lnk_rx_sid@);
            }
            return Err(e);
        },
    };
    let own = lnk_rx_sid.public_id();
    proof {
        lemma_public_id_bytes(own, lnk_rx_sid@);
    }
    let key = lnk_rx_sid.session_key(&tx_pid.exch_key, &tx_pid, &own, &nonce);
    let encrypted = read_vec(data, 127 + rts, nwsz);
    let nw_bytes = match chacha_open(&key, &nonce, &encrypted, &tag) {
        Some(w) => w,
        None => {
            proof {
                assert forall|lp0: LinkPacket, tx: (Seq<u8>, Seq<u8>), rxp: PublicIdentity, n: Seq<
                    u8,
                >|
                    !(n.len() == NONCE_SIZE && data@ == #[trigger] spec_cypher_link_bytes(
                        tx,
                        rxp,
                        lp0,
                        n,
                    ) && spec_is_public_id_of(rxp, lnk_rx_sid@) && crate::identity::spec_id_wf(
                        tx,
                    ) && spec_cypher_wf(lp0) && spec_seal_ok(
                        spec_link_key(tx, rxp, n),
                        n,
                        spec_nw_bytes(lp0.narrow_waist),
                    )) by {
                    if n.len() == NONCE_SIZE && data@ == spec_cypher_link_bytes(tx, rxp, lp0, n)
                        && spec_is_public_id_of(rxp, lnk_rx_sid@) && crate::identity::spec_id_wf(
                        tx,
                    ) && spec_cypher_wf(lp0) && spec_seal_ok(
                        spec_link_key(tx, rxp, n),
                        n,
                        spec_nw_bytes(lp0.narrow_waist),
                    ) {
                        lemma_cypher_link_layout(tx, rxp, lp0, n);
                        lemma_public_id_bytes(rxp, lnk_rx_sid@);
                        assert(tx_pid.spec_bytes() =~= spec_id_bytes_of(tx));
                        assert(tx_pid.exch_key@ =~= spec_id_bytes_of(tx).subrange(32, 64));
                        assert(key@ == spec_link_key(tx, rxp, n));
                        assert(false);
                    }
                }
            }
            return Err(CopernicaError::DecryptionFailed);
        },
    };
    let nw = if nwsz == CYPHERTEXT_NARROW_WAIST_PACKET_REQUEST_SIZE {
        deserialize_cyphertext_narrow_waist_packet_request(&nw_bytes)
    } else if nwsz == CYPHERTEXT_NARROW_WAIST_PACKET_RESPONSE_SIZE {
        deserialize_cyphertext_narrow_waist_packet_response(&nw_bytes)
    } else {
        Err(CopernicaError::CodecError)
    };
    let nw = match nw {
        Ok(nw) => nw,
        Err(_) => {
            proof {
                lemma_cypher_frame_shape(data@, lnk_rx_sid@);
            }
            return Err(CopernicaError::CodecError);
        },
    };
    let lp = LinkPacket::new(rt, nw);
    proof {
        assert(tx_pid.spec_bytes() =~= data@.subrange(0, 96));
        assert forall|lp0: LinkPacket, tx: (Seq<u8>, Seq<u8>), rxp: PublicIdentity, n: Seq<u8>|
            n.len() == NONCE_SIZE && data@ == #[trigger] spec_cypher_link_bytes(tx, rxp, lp0, n)
                && spec_is_public_id_of(rxp, lnk_rx_sid@) && crate::identity::spec_id_wf(tx)
                && spec_cypher_wf(lp0) && spec_seal_ok(
                spec_link_key(tx, rxp, n),
                n,
                spec_nw_bytes(lp0.narrow_waist),
            ) implies (tx_pid.spec_bytes() == spec_id_bytes_of(tx) && lp.reply_to.same_as(
            &lp0.reply_to,
        ) && spec_same_nw(lp.narrow_waist, lp0.narrow_waist)) by {
            lemma_cypher_link_layout(tx, rxp, lp0, n);
            lemma_public_id_bytes(rxp, lnk_rx_sid@);
            assert(tx_pid.spec_bytes() =~= spec_id_bytes_of(tx));
            assert(tx_pid.exch_key@ =~= spec_id_bytes_of(tx).subrange(32, 64));
            assert(key@ == spec_link_key(tx, rxp, n));
            assert(nw_bytes@ == spec_nw_bytes(lp0.narrow_waist));
            lemma_reply_to_round_trip(lp0.reply_to, lp.reply_to);
            lemma_nw_round_trip(lp0.narrow_waist, lp.narrow_waist);
        }
    }
    Ok((tx_pid, lp))
}

/// A byte string that is a sealed frame for this receiver has the shape
/// every such frame has; reads that fail on it cannot happen.
proof fn lemma_cypher_frame_shape(b: Seq<u8>, rx_sid: (Seq<u8>, Seq<u8>))
    ensures
        forall|lp0: LinkPacket, tx: (Seq<u8>, Seq<u8>), rxp: PublicIdentity, n: Seq<u8>|
            n.len() == NONCE_SIZE && b == #[trigger] spec_cypher_link_bytes(tx, rxp, lp0, n)
                && spec_is_public_id_of(rxp, rx_sid) && crate::identity::spec_id_wf(tx)
                && spec_cypher_wf(lp0) && spec_seal_ok(
                spec_link_key(tx, rxp, n),
                n,
                spec_nw_bytes(lp0.narrow_waist),
            ) ==> ({
                let rtb = spec_reply_to_bytes(lp0.reply_to);
                let nwb = spec_nw_bytes(lp0.narrow_waist);
                &&& b.len() == 127 + rtb.len() + nwb.len()
                &&& b.len() >= 127
                &&& b[124] as int == rtb.len()
                &&& be16(b[125], b[126]) == nwb.len()
                &&& b.subrange(127, 127 + rtb.len() as int) == rtb
                &&& (nwb.len() == CYPHERTEXT_NARROW_WAIST_PACKET_REQUEST_SIZE || nwb.len()
                    == CYPHERTEXT_NARROW_WAIST_PACKET_RESPONSE_SIZE)
                &&& rtb.len() <= 18
                &&& b.subrange(32, 64) == x_pub_of(tx.0)
                &&& aead_open(
                    spec_link_key(tx, rxp, n),
                    b.subrange(96, 108),
                    b.subrange(127 + rtb.len() as int, b.len() as int),
                    b.subrange(108, 124),
                ) == Some(nwb)
            }),
{
    assert forall|lp0: LinkPacket, tx: (Seq<u8>, Seq<u8>), rxp: PublicIdentity, n: Seq<u8>|
        n.len() == NONCE_SIZE && b == #[trigger] spec_cypher_link_bytes(tx, rxp, lp0, n)
            && spec_is_public_id_of(rxp, rx_sid) && crate::identity::spec_id_wf(tx)
                && spec_cypher_wf(lp0) && spec_seal_ok(
            spec_link_key(tx, rxp, n),
            n,
            spec_nw_bytes(lp0.narrow_waist),
        ) implies ({
        let rtb = spec_reply_to_bytes(lp0.reply_to);
        let nwb = spec_nw_bytes(lp0.narrow_waist);
        &&& b.len() == 127 + rtb.len() + nwb.len()
        &&& b.len() >= 127
        &&& b[124] as int == rtb.len()
        &&& be16(b[125], b[126]) == nwb.len()
        &&& b.subrange(127, 127 + rtb.len() as int) == rtb
        &&& (nwb.len() == CYPHERTEXT_NARROW_WAIST_PACKET_REQUEST_SIZE || nwb.len()
            == CYPHERTEXT_NARROW_WAIST_PACKET_RESPONSE_SIZE)
        &&& rtb.len() <= 18
        &&& b.subrange(32, 64) == x_pub_of(tx.0)
        &&& aead_open(
            spec_link_key(tx, rxp, n),
            b.subrange(96, 108),
            b.subrange(127 + rtb.len() as int, b.len() as int),
            b.subrange(108, 124),
        ) == Some(nwb)
    }) by {
        lemma_cypher_link_layout(tx, rxp, lp0, n);
    }
}

/// Reads back a link frame: sealed when a receiving identity is given,
/// clear otherwise.
pub fn deserialize_link_packet(data: &Vec<u8>, lnk_rx_sid: Option<&PrivateIdentity>) -> (r: Result<
    (PublicIdentity, LinkPacket),
    CopernicaError,
>)
    ensures
        r matches Err(e) ==> (e == CopernicaError::CodecError || e
            == CopernicaError::DecryptionFailed),
        lnk_rx_sid is None ==> forall|lp0: LinkPacket, txid: Seq<u8>|
            txid.len() == 96 && data@ == #[trigger] spec_clear_link_bytes(txid, lp0)
                && spec_clear_wf(lp0) ==> (r matches Ok(pr) && pr.0.spec_bytes() == txid
                && pr.1.reply_to.same_as(&lp0.reply_to) && spec_same_nw(
                pr.1.narrow_waist,
                lp0.narrow_waist,
            )),
        lnk_rx_sid matches Some(rx) ==> forall|
            lp0: LinkPacket,
            tx: (Seq<u8>, Seq<u8>),
            rxp: PublicIdentity,
            n: Seq<u8>,
        |
            n.len() == NONCE_SIZE && data@ == #[trigger] spec_cypher_link_bytes(tx, rxp, lp0, n)
                && spec_is_public_id_of(rxp, rx@) && crate::identity::spec_id_wf(tx)
                && spec_cypher_wf(lp0) && spec_seal_ok(
                spec_link_key(tx, rxp, n),
                n,
                spec_nw_bytes(lp0.narrow_waist),
            ) ==> (r matches Ok(pr) && pr.0.spec_bytes() == spec_id_bytes_of(tx)
                && pr.1.reply_to.same_as(&lp0.reply_to) && spec_same_nw(
                pr.1.narrow_waist,
                lp0.narrow_waist,
            )),
{
    match lnk_rx_sid {
        Some(rx) => deserialize_cyphertext_link_packet(data, rx),
        None => deserialize_cleartext_link_packet(data),
    }
}

/// Serializes a link packet and wraps it in the Reed-Solomon outer frame.
pub fn encode(
    lp: LinkPacket,
    lnk_tx_sid: &PrivateIdentity,
    lnk_rx_pid: Option<&PublicIdentity>,
) -> (r: Result<Vec<u8>, CopernicaError>)
    ensures
        lnk_rx_pid is None ==> (r matches Ok(b) && b@ == crate::rs_frame::rs_frames(
            spec_clear_link_bytes(spec_id_bytes_of(lnk_tx_sid@), lp),
        ) && crate::rs_frame::rs_unframe(b@) == Some(
            spec_clear_link_bytes(spec_id_bytes_of(lnk_tx_sid@), lp),
        )),
        lnk_rx_pid matches Some(rx) ==> (r matches Ok(b) && exists|n: Seq<u8>|
            n.len() == NONCE_SIZE && crate::rs_frame::rs_unframe(b@) == Some(
                #[trigger] spec_cypher_link_bytes(lnk_tx_sid@, *rx, lp, n),
            ) && spec_seal_ok(
                spec_link_key(lnk_tx_sid@, *rx, n),
                n,
                spec_nw_bytes(lp.narrow_waist),
            )),
        crate::identity::spec_id_wf(lnk_tx_sid@),
        r matches Ok(b) ==> (forall|m: Seq<u8>|
            #[trigger] crate::rs_frame::spec_frames_close(m, b@)
                ==> crate::rs_frame::rs_unframe(m) == crate::rs_frame::rs_unframe(b@)),
{
    let bytes = serialize_link_packet(&lp, lnk_tx_sid, lnk_rx_pid)?;
    let framed = crate::rs_frame::rs_frame_from(&bytes, 0);
    proof {
        assert(bytes@.subrange(0, bytes@.len() as int) =~= bytes@);
    }
    Ok(framed)
}

/// Unwraps the Reed-Solomon outer frame and reads the link frame back. The
/// two round-trip clauses compose with encode: what one side encoded for a
/// link, the other side decodes to the same packet.
pub fn decode(msg: Vec<u8>, lnk_rx_sid: Option<&PrivateIdentity>) -> (r: Result<
    (PublicIdentity, LinkPacket),
    CopernicaError,
>)
    ensures
        r matches Err(e) ==> (e == CopernicaError::CodecError || e
            == CopernicaError::DecryptionFailed),
        crate::rs_frame::rs_unframe(msg@) is None ==> (r matches Err(e) && e
            == CopernicaError::CodecError),
        lnk_rx_sid is None ==> forall|lp0: LinkPacket, txid: Seq<u8>|
            txid.len() == 96 && crate::rs_frame::rs_unframe(msg@) == Some(
                #[trigger] spec_clear_link_bytes(txid, lp0),
            ) && spec_clear_wf(lp0) ==> (r matches Ok(pr) && pr.0.spec_bytes() == txid
                && pr.1.reply_to.same_as(&lp0.reply_to) && spec_same_nw(
                pr.1.narrow_waist,
                lp0.narrow_waist,
            )),
        lnk_rx_sid matches Some(rx) ==> forall|
            lp0: LinkPacket,
            tx: (Seq<u8>, Seq<u8>),
            rxp: PublicIdentity,
            n: Seq<u8>,
        |
            n.len() == NONCE_SIZE && crate::rs_frame::rs_unframe(msg@) == Some(
                #[trigger] spec_cypher_link_bytes(tx, rxp, lp0, n),
            ) && spec_is_public_id_of(rxp, rx@) && crate::identity::spec_id_wf(tx)
                && spec_cypher_wf(lp0) && spec_seal_ok(
                spec_link_key(tx, rxp, n),
                n,
                spec_nw_bytes(lp0.narrow_waist),
            ) ==> (r matches Ok(pr) && pr.0.spec_bytes() == spec_id_bytes_of(tx)
                && pr.1.reply_to.same_as(&lp0.reply_to) && spec_same_nw(
                pr.1.narrow_waist,
                lp0.narrow_waist,
            )),
{
    proof {
        assert(msg@.subrange(0, msg@.len() as int) =~= msg@);
    }
    let reconstituted = match crate::rs_frame::rs_unframe_from(&msg, 0) {
        Ok(w) => w,
        Err(e) => {
            return Err(e);
        },
    };
    deserialize_link_packet(&reconstituted, lnk_rx_sid)
}

} // verus!
