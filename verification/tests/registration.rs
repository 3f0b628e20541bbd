use e2ee_back::phone::normalize_phone;
use e2ee_back::register::ConfirmOutcome;
use e2ee_back::register::RequestOutcome;
use e2ee_back::state::AppState;
use e2ee_back::token::validate_token;

fn issued_code(r: RequestOutcome) -> Vec<u8> {
    match r {
        RequestOutcome::Issued { code } => code,
        _ => panic!("expected an issued code"),
    }
}

#[test]
fn normalizes_phone_numbers() {
    assert_eq!(
        normalize_phone(b"  +1 555 123 4567 "),
        Some(b"+15551234567".to_vec())
    );
    assert_eq!(normalize_phone(b"+15551234567"), Some(b"+15551234567".to_vec()));
    assert_eq!(normalize_phone(b"15551234567"), None);
    assert_eq!(normalize_phone(b"+1 2 3"), None);
    assert_eq!(normalize_phone(b"   "), None);
}

#[test]
fn full_registration_flow() {
    let mut state = AppState::new(b"unit-test-secret".to_vec());
    let phone: &[u8] = b"+15551234567";
    let now: u64 = 1_000;

    let code = issued_code(state.register_phone(phone, now));
    assert_eq!(code.len(), 6);
    assert!(code.iter().all(|b| b.is_ascii_digit()));
    assert_eq!(state.attempt_count(phone), Some(0));

    let hash = state.code_hash_for(phone).expect("hash stored").clone();
    assert!(hash.starts_with('$'));
    assert_ne!(hash.as_bytes(), code.as_slice());

    let mut wrong = code.clone();
    wrong[5] = if wrong[5] == b'9' { b'0' } else { wrong[5] + 1 };
    match state.register_confirm(phone, &wrong, now + 5) {
        ConfirmOutcome::BadCode => {}
        _ => panic!("wrong code must be rejected as BadCode"),
    }
    assert_eq!(state.attempt_count(phone), Some(1));

    let (user_id, device_id, token) = match state.register_confirm(phone, &code, now + 10) {
        ConfirmOutcome::Confirmed { user_id, device_id, auth_token } => {
            (user_id, device_id, auth_token)
        }
        _ => panic!("correct code must confirm"),
    };
    assert_eq!(state.user_id_for(phone), Some(user_id));
    assert_eq!(state.attempt_count(phone), None);

    let claims = validate_token(&token, b"unit-test-secret", now + 10).expect("token valid");
    assert_eq!(claims.sub, user_id);
    assert_eq!(claims.device, device_id);
    assert_eq!(claims.exp, now + 10 + 86_400);

    match state.register_confirm(phone, &code, now + 20) {
        ConfirmOutcome::NotFoundOrExpired => {}
        _ => panic!("a confirmed code must be single-use"),
    }
}

#[test]
fn second_request_within_a_minute_is_rate_limited() {
    let mut state = AppState::new(b"s".to_vec());
    let phone: &[u8] = b"+441234567890";
    let _ = issued_code(state.register_phone(phone, 1_000));
    match state.register_phone(phone, 1_030) {
        RequestOutcome::RateLimited => {}
        _ => panic!("request 30 s after issuance must be rate-limited"),
    }
    match state.register_phone(phone, 1_059) {
        RequestOutcome::RateLimited => {}
        _ => panic!("request 59 s after issuance must be rate-limited"),
    }
    let _ = issued_code(state.register_phone(phone, 1_060));
}

#[test]
fn reissue_overwrites_and_resets_attempts() {
    let mut state = AppState::new(b"s".to_vec());
    let phone: &[u8] = b"+15550001111";
    let first = issued_code(state.register_phone(phone, 1_000));
    let mut wrong = first.clone();
    wrong[0] = if wrong[0] == b'9' { b'1' } else { wrong[0] + 1 };
    match state.register_confirm(phone, &wrong, 1_001) {
        ConfirmOutcome::BadCode => {}
        _ => panic!("expected BadCode"),
    }
    assert_eq!(state.attempt_count(phone), Some(1));

    let second = issued_code(state.register_phone(phone, 1_100));
    assert_eq!(state.attempt_count(phone), Some(0));
    match state.register_confirm(phone, &second, 1_101) {
        ConfirmOutcome::Confirmed { .. } => {}
        _ => panic!("the fresh code must confirm"),
    }
    let _ = first;
}

#[test]
fn invalid_phone_is_rejected_everywhere() {
    let mut state = AppState::new(b"s".to_vec());
    match state.register_phone(b"no-plus-sign", 1_000) {
        RequestOutcome::InvalidPhone => {}
        _ => panic!("expected InvalidPhone"),
    }
    match state.register_confirm(b"no-plus-sign", b"123456", 1_000) {
        ConfirmOutcome::InvalidPhone => {}
        _ => panic!("expected InvalidPhone"),
    }
}

#[test]
fn spaced_input_keys_the_same_record() {
    let mut state = AppState::new(b"s".to_vec());
    let code = issued_code(state.register_phone(b" +1 555 222 3333", 1_000));
    match state.register_confirm(b"+15552223333", &code, 1_001) {
        ConfirmOutcome::Confirmed { .. } => {}
        _ => panic!("normalization must key both calls to the same record"),
    }
}

#[test]
fn expired_code_is_not_found() {
    let mut state = AppState::new(b"s".to_vec());
    let phone: &[u8] = b"+15553334444";
    let code = issued_code(state.register_phone(phone, 1_000));
    match state.register_confirm(phone, &code, 1_301) {
        ConfirmOutcome::NotFoundOrExpired => {}
        _ => panic!("a code is dead once now exceeds expires_at"),
    }
    match state.register_confirm(b"+19998887777", b"123456", 1_000) {
        ConfirmOutcome::NotFoundOrExpired => {}
        _ => panic!("a phone with no record is NotFoundOrExpired"),
    }
}

#[test]
fn locks_after_five_failed_attempts() {
    let mut state = AppState::new(b"s".to_vec());
    let phone: &[u8] = b"+15554445555";
    let code = issued_code(state.register_phone(phone, 1_000));
    let mut wrong = code.clone();
    wrong[5] = if wrong[5] == b'9' { b'0' } else { wrong[5] + 1 };
    for attempt in 1..=5u32 {
        match state.register_confirm(phone, &wrong, 1_001) {
            ConfirmOutcome::BadCode => {}
            _ => panic!("wrong code must be BadCode before lockout"),
        }
        assert_eq!(state.attempt_count(phone), Some(attempt));
    }
    let locked = state.register_confirm(phone, &code, 1_002);
    assert_eq!(locked.status(), 403);
    match locked {
        ConfirmOutcome::Locked => {}
        _ => panic!("the sixth attempt must be Locked even with the right code"),
    }
    // A fresh issuance (after the rate-limit window) clears the lock.
    let fresh = issued_code(state.register_phone(phone, 1_100));
    match state.register_confirm(phone, &fresh, 1_101) {
        ConfirmOutcome::Confirmed { .. } => {}
        _ => panic!("a fresh code must confirm after re-issuance"),
    }
}

#[test]
fn existing_user_keeps_its_id() {
    let mut state = AppState::new(b"s".to_vec());
    let phone: &[u8] = b"+15556667777";
    let code = issued_code(state.register_phone(phone, 1_000));
    let first_user = match state.register_confirm(phone, &code, 1_001) {
        ConfirmOutcome::Confirmed { user_id, .. } => user_id,
        _ => panic!("expected confirmation"),
    };
    let code2 = issued_code(state.register_phone(phone, 2_000));
    let second_user = match state.register_confirm(phone, &code2, 2_001) {
        ConfirmOutcome::Confirmed { user_id, .. } => user_id,
        _ => panic!("expected confirmation"),
    };
    assert_eq!(first_user, second_user);
}

#[test]
fn statuses_follow_the_error_taxonomy() {
    let mut state = AppState::new(b"s".to_vec());
    let phone: &[u8] = b"+15557778888";
    let r = state.register_phone(phone, 1_000);
    assert_eq!(r.status(), 202);
    let code = issued_code(r);
    assert_eq!(state.register_phone(phone, 1_001).status(), 429);
    assert_eq!(state.register_phone(b"bad", 1_001).status(), 400);
    let mut wrong = code.clone();
    wrong[5] = if wrong[5] == b'9' { b'0' } else { wrong[5] + 1 };
    assert_eq!(state.register_confirm(phone, &wrong, 1_002).status(), 401);
    assert_eq!(state.register_confirm(b"bad", &code, 1_002).status(), 400);
    assert_eq!(state.register_confirm(phone, &code, 1_003).status(), 200);
    assert_eq!(state.register_confirm(phone, &code, 1_004).status(), 401);
}

#[test]
fn trims_unicode_whitespace_like_str_trim() {
    // The reference normalization is str::trim (Unicode White_Space at both
    // ends) followed by removing every plain space.
    let inputs = [
        "\u{a0}+15551234",
        "\u{3000}\u{2009} +1 555 123 4567\u{2028}\t",
        "\u{85}\u{1680}+44 123 456 789\u{205f}\u{202f}",
        "  +2000\u{2000}111 22\u{a0}3 ",
        "+1\u{a0}5551234567",
        "\u{2029}not a phone\u{2029}",
    ];
    for raw in inputs {
        let expected_str = raw.trim().replace(' ', "");
        let expected = if expected_str.starts_with('+') && expected_str.len() >= 8 {
            Some(expected_str.into_bytes())
        } else {
            None
        };
        assert_eq!(normalize_phone(raw.as_bytes()), expected, "input {raw:?}");
    }
    assert_eq!(
        normalize_phone("\u{a0}+15551234".as_bytes()),
        Some(b"+15551234".to_vec())
    );
}
