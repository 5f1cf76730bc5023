use pet_monitor_app::token::{authenticate, decode_and_verify, AuthError, Token};

const KEY: [u8; 32] = [9u8; 32];

#[test]
fn token_round_trip_within_lifetime() {
    let t = Token::issue(1000, 50);
    assert_eq!(t, Token { issued_at: 1000, expires_at: 1050 });
    let s = t.encode(&KEY);
    assert_eq!(s.len(), 96);
    assert!(s.bytes().all(|b| b.is_ascii_digit() || (b'a'..=b'f').contains(&b)));
    assert!(s.starts_with("00000000000003e8000000000000041a"));
    assert_eq!(decode_and_verify(&s, &KEY, 1000), Ok(t));
    assert_eq!(decode_and_verify(&s, &KEY, 1049), Ok(t));
}

#[test]
fn token_expires_at_its_expiry_time() {
    let s = Token::issue(1000, 50).encode(&KEY);
    assert_eq!(decode_and_verify(&s, &KEY, 1050), Err(AuthError::Expired));
    assert_eq!(decode_and_verify(&s, &KEY, u64::MAX), Err(AuthError::Expired));
}

#[test]
fn token_rejected_under_other_secret() {
    let s = Token::issue(1000, 50).encode(&KEY);
    let mut other = KEY;
    other[0] ^= 1;
    assert_eq!(decode_and_verify(&s, &other, 1001), Err(AuthError::Invalid));
}

#[test]
fn tampered_or_malformed_tokens_rejected() {
    let s = Token::issue(1000, 50).encode(&KEY);
    let mut longer = s.clone().into_bytes();
    longer[31] = if longer[31] == b'f' { b'e' } else { b'f' };
    let tampered = String::from_utf8(longer).unwrap();
    assert_eq!(decode_and_verify(&tampered, &KEY, 1001), Err(AuthError::Invalid));
    assert_eq!(decode_and_verify("", &KEY, 0), Err(AuthError::Invalid));
    assert_eq!(decode_and_verify("zz", &KEY, 0), Err(AuthError::Invalid));
    assert_eq!(decode_and_verify(&s.to_uppercase(), &KEY, 1001), Err(AuthError::Invalid));
    assert_eq!(decode_and_verify(&s[..95], &KEY, 1001), Err(AuthError::Invalid));
}

#[test]
fn guard_without_cookie() {
    assert_eq!(authenticate(None, &KEY, 0), Err(AuthError::Missing));
    let s = Token::issue(0, 10).encode(&KEY);
    assert_eq!(authenticate(Some(&s), &KEY, 5), Ok(Token { issued_at: 0, expires_at: 10 }));
}
