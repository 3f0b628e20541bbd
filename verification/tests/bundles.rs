use base64::Engine;
use e2ee_back::keys::UploadKeysRequest;
use e2ee_back::keys::UploadOutcome;
use e2ee_back::state::AppState;
use e2ee_back::token::validate_token;

fn b64(raw: &[u8]) -> Vec<u8> {
    base64::engine::general_purpose::STANDARD
        .encode(raw)
        .into_bytes()
}

fn sample_request(prekeys: &[&[u8]]) -> UploadKeysRequest {
    UploadKeysRequest {
        identity_key_pub: b64(b"identity-key-material"),
        signed_prekey_pub: b64(b"signed-prekey-material"),
        signed_prekey_signature: b64(b"prekey-signature"),
        one_time_prekeys: prekeys.iter().map(|k| b64(k)).collect(),
        device_name: b"laptop".to_vec(),
        push_token: b"push-handle".to_vec(),
    }
}

#[test]
fn upload_accepts_once_then_conflicts() {
    let mut state = AppState::new(b"bundle-secret".to_vec());
    let user: u128 = 7;
    let device: u128 = 9;
    let now: u64 = 5_000;

    let token = match state.upload_keys(user, device, sample_request(&[b"otk-1"]), now) {
        UploadOutcome::Accepted { device_id, auth_token } => {
            assert_eq!(device_id, device);
            auth_token
        }
        _ => panic!("first upload must be accepted"),
    };
    let claims = validate_token(&token, b"bundle-secret", now).expect("rotated token valid");
    assert_eq!(claims.sub, user);
    assert_eq!(claims.device, device);
    assert_eq!(claims.exp, now + 604_800);

    let conflict = state.upload_keys(user, device, sample_request(&[b"otk-2"]), now + 1);
    assert_eq!(conflict.status(), 409);
    match conflict {
        UploadOutcome::Conflict => {}
        _ => panic!("a second upload for the same device id must conflict"),
    }
    let listing = state.get_devices(user);
    assert_eq!(listing.len(), 1);
    assert_eq!(listing[0].0, device);
    assert_eq!(listing[0].1, b"laptop".to_vec());
}

#[test]
fn upload_rejects_bad_base64() {
    let mut state = AppState::new(b"s".to_vec());
    let mut req = sample_request(&[b"otk-1"]);
    req.identity_key_pub = b"not base64 !!".to_vec();
    let bad = state.upload_keys(1, 2, req, 100);
    assert_eq!(bad.status(), 400);
    match bad {
        UploadOutcome::DecodeError => {}
        _ => panic!("an undecodable field is the client's error"),
    }
    let mut req2 = sample_request(&[b"otk-1"]);
    req2.one_time_prekeys.push(b"also not base64 !!".to_vec());
    match state.upload_keys(1, 2, req2, 101) {
        UploadOutcome::DecodeError => {}
        _ => panic!("an undecodable prekey is the client's error"),
    }
    // Nothing was written: the same device id still accepts a clean upload.
    match state.upload_keys(1, 2, sample_request(&[b"otk-1"]), 102) {
        UploadOutcome::Accepted { .. } => {}
        _ => panic!("a failed decode must leave no row behind"),
    }
}

#[test]
fn consume_hands_out_each_prekey_once() {
    let mut state = AppState::new(b"s".to_vec());
    match state.upload_keys(3, 4, sample_request(&[b"otk-a", b"otk-b"]), 50) {
        UploadOutcome::Accepted { .. } => {}
        _ => panic!("upload must be accepted"),
    }
    let (id1, key1) = state.consume_one_time_prekey(4).expect("first prekey");
    let (id2, key2) = state.consume_one_time_prekey(4).expect("second prekey");
    assert_ne!(id1, id2, "no prekey may be handed out twice");
    let mut keys = vec![key1, key2];
    keys.sort();
    assert_eq!(keys, vec![b"otk-a".to_vec(), b"otk-b".to_vec()]);
    assert!(state.consume_one_time_prekey(4).is_none());
    assert!(state.consume_one_time_prekey(999).is_none());
}

#[test]
fn listing_is_scoped_to_the_user() {
    let mut state = AppState::new(b"s".to_vec());
    match state.upload_keys(1, 10, sample_request(&[]), 50) {
        UploadOutcome::Accepted { .. } => {}
        _ => panic!("upload must be accepted"),
    }
    match state.upload_keys(2, 20, sample_request(&[]), 51) {
        UploadOutcome::Accepted { .. } => {}
        _ => panic!("upload must be accepted"),
    }
    let mine = state.get_devices(1);
    assert_eq!(mine.len(), 1);
    assert_eq!(mine[0].0, 10);
    assert!(state.get_devices(3).is_empty());
}
