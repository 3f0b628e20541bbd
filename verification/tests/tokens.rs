use e2ee_back::token::authenticate;
use e2ee_back::token::mint_token;
use e2ee_back::token::validate_token;

#[test]
fn token_is_valid_until_its_ttl_elapses() {
    let secret: &[u8] = b"ttl-secret";
    let token = mint_token(11, 22, 100, 50, secret);
    let at_start = validate_token(&token, secret, 100).expect("valid at mint time");
    assert_eq!(at_start.sub, 11);
    assert_eq!(at_start.device, 22);
    assert_eq!(at_start.exp, 150);
    assert!(validate_token(&token, secret, 149).is_some());
    assert!(validate_token(&token, secret, 150).is_some());
    assert!(validate_token(&token, secret, 151).is_none());
}

#[test]
fn token_fails_under_another_secret_or_tampering() {
    let token = mint_token(1, 2, 100, 50, b"secret-a");
    assert!(validate_token(&token, b"secret-b", 100).is_none());
    let mut bent = token.clone();
    let last = bent.len() - 1;
    bent[last] = if bent[last] == b'A' { b'B' } else { b'A' };
    assert!(validate_token(&bent, b"secret-a", 100).is_none());
}

#[test]
fn auth_gate_requires_a_well_formed_bearer_header() {
    let secret: &[u8] = b"gate-secret";
    let token = mint_token(5, 6, 100, 50, secret);
    let mut header = b"Bearer ".to_vec();
    header.extend_from_slice(&token);

    let auth = authenticate(Some(&header), secret, 120).expect("header accepted");
    assert_eq!(auth.user_id, 5);
    assert_eq!(auth.device_id, 6);

    assert!(authenticate(None, secret, 120).is_none());
    assert!(authenticate(Some(&token), secret, 120).is_none());
    let mut basic = b"Basic ".to_vec();
    basic.extend_from_slice(&token);
    assert!(authenticate(Some(&basic), secret, 120).is_none());
    assert!(authenticate(Some(&header), secret, 151).is_none());
}
