use farreach::identity::{identity_file_text, parse_identity, IdentityError};

#[test]
fn identity_text_is_lower_hex_and_newline() {
    let mut key = [0u8; 32];
    key[0] = 0x01;
    key[1] = 0xab;
    key[31] = 0xff;
    let text = identity_file_text(&key);
    assert_eq!(text.len(), 65);
    assert!(text.starts_with("01ab00"));
    assert!(text.ends_with("ff\n"));
}

#[test]
fn written_identity_loads_back() {
    let key: [u8; 32] = core::array::from_fn(|i| (i * 7 + 3) as u8);
    let text = identity_file_text(&key);
    assert_eq!(parse_identity(&text), Ok(key));
    assert_eq!(parse_identity(&format!("  {}  ", text.trim())), Ok(key));
}

#[test]
fn garbage_is_not_a_key() {
    assert_eq!(parse_identity("not a key"), Err(IdentityError::NotAKey));
    assert_eq!(parse_identity(""), Err(IdentityError::NotAKey));
    assert_eq!(parse_identity(&"zz".repeat(32)), Err(IdentityError::NotAKey));
}
