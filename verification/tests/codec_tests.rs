use copernica::codec_link::decode;
use copernica::codec_link::encode;
use copernica::codec_packet::deserialize_cyphertext_narrow_waist_packet_response;
use copernica::codec_packet::serialize_narrow_waist_packet;
use copernica::hbfi::HBFI;
use copernica::identity::PrivateIdentity;
use copernica::link::LinkPacket;
use copernica::link::ReplyTo;
use copernica::narrow_waist::NarrowWaistPacket;

fn fresh_identity() -> PrivateIdentity {
    PrivateIdentity::from_seed(rand::random::<[u8; 32]>(), rand::random::<[u8; 32]>())
}

fn sealed_response() -> (PrivateIdentity, PrivateIdentity, NarrowWaistPacket) {
    let response_sid = fresh_identity();
    let request_sid = fresh_identity();
    let hbfi = HBFI::new(
        response_sid.public_id(),
        Some(request_sid.public_id()),
        "app",
        "m0d",
        "fun",
        "arg",
    )
    .unwrap();
    let req = NarrowWaistPacket::request(hbfi).unwrap();
    let nw = req.transmute(&response_sid, vec![0u8; 600], 0, 1).unwrap();
    (response_sid, request_sid, nw)
}

#[test]
fn codec_roundtrip() {
    let (_s, request_sid, nw) = sealed_response();
    let (size, bytes) = serialize_narrow_waist_packet(&nw);
    assert_eq!(size as usize, bytes.len());
    let back = deserialize_cyphertext_narrow_waist_packet_response(&bytes).unwrap();
    let (size2, bytes2) = serialize_narrow_waist_packet(&back);
    // byte-equal round trip, signature included
    assert_eq!(size, size2);
    assert_eq!(bytes, bytes2);
    // and the packet still decrypts to the same payload
    assert_eq!(back.decrypt(&request_sid).unwrap(), vec![0u8; 600]);
}

#[test]
fn request_codec_roundtrip() {
    let response_sid = fresh_identity();
    let hbfi = HBFI::new(response_sid.public_id(), None, "app", "m0d", "fun", "arg").unwrap();
    let req = NarrowWaistPacket::request(hbfi).unwrap();
    let (_size, bytes) = serialize_narrow_waist_packet(&req);
    let back =
        copernica::codec_packet::deserialize_cleartext_narrow_waist_packet_request(&bytes).unwrap();
    let (_s2, bytes2) = serialize_narrow_waist_packet(&back);
    assert_eq!(bytes, bytes2);
}

#[test]
fn link_encrypt_roundtrip() {
    let (_s, _r, nw) = sealed_response();
    let lt = fresh_identity();
    let lr = fresh_identity();
    let lp = LinkPacket::new(ReplyTo::Mpsc, nw);
    let wire = encode(lp, &lt, Some(&lr.public_id())).unwrap();
    let (tx_pid, lp2) = decode(wire.clone(), Some(&lr)).unwrap();
    assert!(tx_pid.eq_id(&lt.public_id()));
    let (_a, original) = serialize_narrow_waist_packet(&lp.narrow_waist);
    let (_b, returned) = serialize_narrow_waist_packet(&lp2.narrow_waist);
    assert_eq!(original, returned);

    // a third identity cannot open the frame
    let stranger = fresh_identity();
    assert!(decode(wire, Some(&stranger)).is_err());
}

#[test]
fn link_cleartext_roundtrip() {
    let response_sid = fresh_identity();
    let hbfi = HBFI::new(response_sid.public_id(), None, "app", "m0d", "fun", "arg").unwrap();
    let nw = NarrowWaistPacket::response(&response_sid, hbfi, vec![5u8; 64], 0, 1).unwrap();
    let lt = fresh_identity();
    let lp = LinkPacket::new(
        ReplyTo::UdpIp4 { addr: [127, 0, 0, 1], port: 50_000 },
        nw,
    );
    let wire = encode(lp, &lt, None).unwrap();
    let (tx_pid, lp2) = decode(wire, None).unwrap();
    assert!(tx_pid.eq_id(&lt.public_id()));
    match lp2.reply_to {
        ReplyTo::UdpIp4 { addr, port } => {
            assert_eq!(addr, [127, 0, 0, 1]);
            assert_eq!(port, 50_000);
        }
        _ => panic!("the return address must survive the round trip"),
    }
    let (_a, original) = serialize_narrow_waist_packet(&lp.narrow_waist);
    let (_b, returned) = serialize_narrow_waist_packet(&lp2.narrow_waist);
    assert_eq!(original, returned);
}

#[test]
fn outer_frame_corrects_three_errors_per_block() {
    let response_sid = fresh_identity();
    let hbfi = HBFI::new(response_sid.public_id(), None, "app", "m0d", "fun", "arg").unwrap();
    let nw = NarrowWaistPacket::response(&response_sid, hbfi, vec![1u8; 300], 0, 1).unwrap();
    let lt = fresh_identity();
    let lp = LinkPacket::new(ReplyTo::Mpsc, nw);
    let wire = encode(lp, &lt, None).unwrap();

    let mut corrupted = wire.clone();
    corrupted[0] ^= 0xff;
    corrupted[100] ^= 0xff;
    corrupted[200] ^= 0xff;
    let (tx_pid, lp2) = decode(corrupted, None).unwrap();
    assert!(tx_pid.eq_id(&lt.public_id()));
    let (_a, original) = serialize_narrow_waist_packet(&lp.narrow_waist);
    let (_b, returned) = serialize_narrow_waist_packet(&lp2.narrow_waist);
    assert_eq!(original, returned);

    let mut ruined = wire.clone();
    ruined[0] ^= 0xff;
    ruined[50] ^= 0xff;
    ruined[100] ^= 0xff;
    ruined[200] ^= 0xff;
    assert!(decode(ruined, None).is_err());
}
