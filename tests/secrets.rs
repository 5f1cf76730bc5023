use pet_monitor_app::secrets::{hash_with_salt, init_password, new_secret, validate};

#[test]
fn password_round_trip() {
    let h = init_password("hunter2").unwrap();
    assert!(h.starts_with("$argon2id$v=19$m=8192,t=3,p=4$"));
    assert!(validate("hunter2", &h));
    assert!(!validate("hunter3", &h));
}

#[test]
fn empty_and_non_ascii_passwords_round_trip() {
    let h = init_password("").unwrap();
    assert!(validate("", &h));
    assert!(!validate(" ", &h));
    let h = init_password("pässwörd🔒").unwrap();
    assert!(validate("pässwörd🔒", &h));
    assert!(!validate("passwörd🔒", &h));
}

#[test]
fn malformed_hash_is_rejected() {
    assert!(!validate("foo", ""));
    assert!(!validate("foo", "not a hash"));
}

#[test]
fn fresh_salts_differ() {
    let a = init_password("same").unwrap();
    let b = init_password("same").unwrap();
    assert_ne!(a, b);
}

#[test]
fn salted_hash_is_deterministic() {
    let salt = [3u8; 16];
    let a = hash_with_salt("pw", &salt).unwrap();
    let b = hash_with_salt("pw", &salt).unwrap();
    assert_eq!(a, b);
    assert_ne!(a, "pw");
    assert!(validate("pw", &a));
}

#[test]
fn secrets_are_random() {
    let a = new_secret().unwrap();
    let b = new_secret().unwrap();
    assert_ne!(a, b);
}
