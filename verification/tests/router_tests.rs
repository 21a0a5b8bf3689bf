use copernica::bloom::BloomFilter;
use copernica::hbfi::HBFI;
use copernica::identity::PrivateIdentity;
use copernica::link::InterLinkPacket;
use copernica::link::LinkId;
use copernica::link::LinkPacket;
use copernica::link::ReplyTo;
use copernica::narrow_waist::NarrowWaistPacket;
use copernica::router::Router;

fn fresh_identity() -> PrivateIdentity {
    PrivateIdentity::from_seed(rand::random::<[u8; 32]>(), rand::random::<[u8; 32]>())
}

#[test]
fn bloom_insert_contains_delete() {
    let sid = fresh_identity();
    let hbfi = HBFI::new(sid.public_id(), None, "app", "m0d", "fun", "arg").unwrap();
    let other = HBFI::new(sid.public_id(), None, "way", "off", "the", "mark").unwrap();
    let mut bf = BloomFilter::new();
    assert_eq!(bf.contains(&hbfi), 0);
    assert_eq!(bf.decoherence(), 0);
    bf.insert(&hbfi);
    assert_eq!(bf.contains(&hbfi), 100);
    assert!(bf.contains(&other) < 100);
    let copy = bf.duplicate();
    assert_eq!(copy.contains(&hbfi), 100);
    bf.delete(&hbfi);
    assert_eq!(bf.contains(&hbfi), 0);
    bf.insert(&hbfi);
    bf.partially_forget();
    assert!(bf.decoherence() <= 1);
}

#[test]
fn router_cache_hit() {
    let response_sid = fresh_identity();
    let hbfi = HBFI::new(response_sid.public_id(), None, "app", "m0d", "fun", "arg").unwrap();
    let request = NarrowWaistPacket::request(hbfi).unwrap();
    let response = request.transmute(&response_sid, vec![4u8; 77], 0, 1).unwrap();

    let mut router = Router::new(50);
    router.add_link(1);
    router.add_link(2);

    // a request on link one: nothing stored, empty filters, so broadcast
    let req_ilp = InterLinkPacket::new(LinkId::new(1), LinkPacket::new(ReplyTo::Mpsc, request));
    let out = router.handle_packet(&req_ilp);
    assert_eq!(out.len(), 1);
    assert_eq!(out[0].link_id().id, 2);

    // the response arrives on link two: stored, and forwarded to link one,
    // whose interest was recorded
    let resp_ilp = InterLinkPacket::new(LinkId::new(2), LinkPacket::new(ReplyTo::Mpsc, response));
    let out = router.handle_packet(&resp_ilp);
    assert_eq!(out.len(), 1);
    assert_eq!(out[0].link_id().id, 1);
    assert_eq!(out[0].narrow_waist().data().unwrap(), vec![4u8; 77]);

    // a later request for the same name is served from the store, back on
    // the link it came from, with no cross-link forwarding
    let req_ilp2 = InterLinkPacket::new(LinkId::new(1), LinkPacket::new(ReplyTo::Mpsc, request));
    let out = router.handle_packet(&req_ilp2);
    assert_eq!(out.len(), 1);
    assert_eq!(out[0].link_id().id, 1);
    assert_eq!(out[0].narrow_waist().data().unwrap(), vec![4u8; 77]);
}

#[test]
fn router_drops_tampered_response() {
    let response_sid = fresh_identity();
    let hbfi = HBFI::new(response_sid.public_id(), None, "app", "m0d", "fun", "arg").unwrap();
    let request = NarrowWaistPacket::request(hbfi).unwrap();
    let response = request.transmute(&response_sid, vec![4u8; 77], 0, 1).unwrap();
    let forged = match response {
        NarrowWaistPacket::Response { hbfi, nonce, signature, data, offset, total } => {
            NarrowWaistPacket::Response { hbfi, nonce, signature, data, offset, total: total + 1 }
        }
        NarrowWaistPacket::Request { .. } => panic!("transmute must give a response"),
    };

    let mut router = Router::new(50);
    router.add_link(1);
    router.add_link(2);
    let ilp = InterLinkPacket::new(LinkId::new(2), LinkPacket::new(ReplyTo::Mpsc, forged));
    let out = router.handle_packet(&ilp);
    assert_eq!(out.len(), 0);

    // nothing was stored: a request for the name is not answered locally
    let req_ilp = InterLinkPacket::new(LinkId::new(1), LinkPacket::new(ReplyTo::Mpsc, request));
    let out = router.handle_packet(&req_ilp);
    assert_eq!(out.len(), 1);
    assert_eq!(out[0].link_id().id, 2);
}
