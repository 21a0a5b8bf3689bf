use copernica::errors::CopernicaError;
use copernica::hbfi::HBFI;
use copernica::identity::PrivateIdentity;
use copernica::narrow_waist::NarrowWaistPacket;

fn fresh_identity() -> PrivateIdentity {
    PrivateIdentity::from_seed(rand::random::<[u8; 32]>(), rand::random::<[u8; 32]>())
}

#[test]
fn request_transmute_and_decrypt() {
    let response_sid = fresh_identity();
    let response_pid = response_sid.public_id();
    let request_sid = fresh_identity();
    let request_pid = request_sid.public_id();

    let hbfi = HBFI::new(response_pid, Some(request_pid), "app", "m0d", "fun", "arg").unwrap();
    let nw: NarrowWaistPacket = NarrowWaistPacket::request(hbfi).unwrap();
    let expected_data = vec![0; 600];
    let offset = 0;
    let total = 1;
    let nw: NarrowWaistPacket = nw.transmute(&response_sid, expected_data.clone(), offset, total).unwrap();
    let actual_data = nw.decrypt(&request_sid).unwrap();

    assert_eq!(actual_data, expected_data);
}

#[test]
fn transmuted_response_verifies() {
    let response_sid = fresh_identity();
    let request_sid = fresh_identity();
    let hbfi = HBFI::new(
        response_sid.public_id(),
        Some(request_sid.public_id()),
        "app",
        "m0d",
        "fun",
        "arg",
    )
    .unwrap();
    let nw = NarrowWaistPacket::request(hbfi).unwrap();
    let nw = nw.transmute(&response_sid, vec![7u8; 32], 0, 1).unwrap();
    assert!(nw.verify().unwrap());
}

#[test]
fn tamper_fails() {
    let response_sid = fresh_identity();
    let request_sid = fresh_identity();
    let hbfi = HBFI::new(
        response_sid.public_id(),
        Some(request_sid.public_id()),
        "app",
        "m0d",
        "fun",
        "arg",
    )
    .unwrap();
    let nw = NarrowWaistPacket::request(hbfi).unwrap();
    let nw = nw.transmute(&response_sid, vec![0u8; 600], 0, 1).unwrap();
    let nw2 = match nw {
        NarrowWaistPacket::Response { hbfi, nonce, signature, data, offset, total } => {
            NarrowWaistPacket::Response {
                hbfi,
                nonce,
                signature,
                data,
                offset,
                total: total ^ 0xff00_0000_0000_0000,
            }
        }
        NarrowWaistPacket::Request { .. } => panic!("transmute must give a response"),
    };
    assert!(!nw2.verify().unwrap());
    assert_eq!(nw2.decrypt(&request_sid), Err(CopernicaError::SignatureInvalid));
}

#[test]
fn tampered_tag_fails_decryption() {
    let response_sid = fresh_identity();
    let request_sid = fresh_identity();
    let hbfi = HBFI::new(
        response_sid.public_id(),
        Some(request_sid.public_id()),
        "app",
        "m0d",
        "fun",
        "arg",
    )
    .unwrap();
    let nw = NarrowWaistPacket::request(hbfi).unwrap();
    let nw = nw.transmute(&response_sid, vec![3u8; 100], 0, 1).unwrap();
    let nw2 = match nw {
        NarrowWaistPacket::Response { hbfi, nonce, signature, data, offset, total } => {
            let data = match data {
                copernica::data::ResponseData::CypherText { data, mut tag } => {
                    tag[0] ^= 0xff;
                    copernica::data::ResponseData::reconstitute_cypher_text(tag, data)
                }
                copernica::data::ResponseData::ClearText { .. } => {
                    panic!("transmute for a bound requester must encrypt")
                }
            };
            NarrowWaistPacket::Response { hbfi, nonce, signature, data, offset, total }
        }
        NarrowWaistPacket::Request { .. } => panic!("transmute must give a response"),
    };
    // the manifest does not cover the tag, so the signature still holds,
    // but authenticated decryption must refuse
    assert_eq!(nw2.decrypt(&request_sid), Err(CopernicaError::DecryptionFailed));
}

#[test]
fn clear_text_path() {
    let response_sid = fresh_identity();
    let response_pid = response_sid.public_id();
    let request_sid = fresh_identity();
    let request_pid = request_sid.public_id();

    let hbfi = HBFI::new(response_pid, None, "app", "m0d", "fun", "arg").unwrap();
    let payload = vec![9u8; 128];
    let nw = NarrowWaistPacket::response(&response_sid, hbfi, payload.clone(), 0, 1).unwrap();
    assert_eq!(nw.data().unwrap(), payload);

    // rebind to a requester chosen afterwards, then decrypt with it
    let hbfi2 = HBFI::new(response_pid, Some(request_pid), "app", "m0d", "fun", "arg").unwrap();
    let nw2 = nw.encrypt(&response_sid, hbfi2).unwrap();
    assert_eq!(nw2.decrypt(&request_sid).unwrap(), payload);
}

#[test]
fn algebra_prohibitions() {
    let response_sid = fresh_identity();
    let response_pid = response_sid.public_id();
    let request_sid = fresh_identity();
    let request_pid = request_sid.public_id();

    let clear_hbfi = HBFI::new(response_pid, None, "app", "m0d", "fun", "arg").unwrap();
    let bound_hbfi = HBFI::new(response_pid, Some(request_pid), "app", "m0d", "fun", "arg").unwrap();

    // a response cannot be transmuted again
    let resp = NarrowWaistPacket::response(&response_sid, clear_hbfi, vec![1u8; 8], 0, 1).unwrap();
    assert_eq!(
        resp.transmute(&response_sid, vec![2u8; 8], 0, 1).unwrap_err(),
        CopernicaError::IllegalTransition
    );

    // an encrypted response cannot be encrypted again
    let req = NarrowWaistPacket::request(bound_hbfi).unwrap();
    let sealed = req.transmute(&response_sid, vec![2u8; 8], 0, 1).unwrap();
    assert_eq!(
        sealed.encrypt(&response_sid, bound_hbfi).unwrap_err(),
        CopernicaError::IllegalTransition
    );

    // a request cannot be decrypted or verified
    let req2 = NarrowWaistPacket::request(bound_hbfi).unwrap();
    assert_eq!(req2.decrypt(&request_sid).unwrap_err(), CopernicaError::IllegalTransition);
    assert_eq!(req2.verify().unwrap_err(), CopernicaError::IllegalTransition);

    // an initial response must be clear text: a bound name is refused
    assert_eq!(
        NarrowWaistPacket::response(&response_sid, bound_hbfi, vec![1u8; 8], 0, 1).unwrap_err(),
        CopernicaError::IllegalTransition
    );

    // the responder's identity must match the name
    let stranger = fresh_identity();
    assert_eq!(
        NarrowWaistPacket::response(&stranger, clear_hbfi, vec![1u8; 8], 0, 1).unwrap_err(),
        CopernicaError::IdentityMismatch
    );

    // the payload must fit the data block
    assert_eq!(
        NarrowWaistPacket::response(&response_sid, clear_hbfi, vec![0u8; 1023], 0, 1).unwrap_err(),
        CopernicaError::CodecError
    );

    // only the bound requester can decrypt
    assert_eq!(sealed.decrypt(&stranger).unwrap_err(), CopernicaError::IdentityMismatch);
}
