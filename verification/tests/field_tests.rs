use keybolt_vault::document::{Entry, Field, FieldValue};
use keybolt_vault::field::{decrypt_field, decrypt_sensitive_fields, encrypt_field,
    encrypt_sensitive_fields};
use keybolt_vault::session::EntryType;
use keybolt_vault::VaultError;
use base64::Engine;

#[test]
fn field_round_trip() {
    let token = encrypt_field("pw", "secret");
    let back = decrypt_field("pw", &token).unwrap();
    assert_eq!(back, "secret");
}

#[test]
fn field_round_trip_unicode_and_empty() {
    for value in ["", "p@ss w0rd!", "m\u{00e9}tal \u{1f512}", "with \"quotes\" and \\slashes\\"] {
        let token = encrypt_field("a passphrase", value);
        let back = decrypt_field("a passphrase", &token).unwrap();
        assert_eq!(back, value);
    }
}

#[test]
fn token_shape_has_decimal_length_prefixes() {
    let token = encrypt_field("pw", "secret");
    let chars: Vec<char> = token.chars().collect();
    let nonce_len: usize = chars[0..2].iter().collect::<String>().parse().unwrap();
    let salt_len: usize = chars[2..4].iter().collect::<String>().parse().unwrap();
    // a 12-byte nonce and a 16-byte salt always encode to 16 and 24 chars
    assert_eq!(nonce_len, 16);
    assert_eq!(salt_len, 24);
    assert!(chars.len() >= 4 + nonce_len + salt_len);
    let salt_off = chars.len() - salt_len;
    let nonce_off = salt_off - nonce_len;
    let ct: String = chars[4..nonce_off].iter().collect();
    let nonce: String = chars[nonce_off..salt_off].iter().collect();
    let salt: String = chars[salt_off..].iter().collect();
    assert_eq!(base64::engine::general_purpose::STANDARD.decode(&nonce).unwrap().len(), 12);
    assert_eq!(base64::engine::general_purpose::STANDARD.decode(&salt).unwrap().len(), 16);
    // ciphertext is the 6 secret bytes plus the 16-byte tag
    assert_eq!(base64::engine::general_purpose::STANDARD.decode(&ct).unwrap().len(), 6 + 16);
    assert_eq!(decrypt_field("pw", &token).unwrap(), "secret");
}

#[test]
fn field_tokens_are_fresh() {
    let a = encrypt_field("pw", "secret");
    let b = encrypt_field("pw", "secret");
    assert_ne!(a, b);
}

#[test]
fn wrong_passphrase_fails_field() {
    let token = encrypt_field("right", "secret");
    let err = decrypt_field("wrong", &token).unwrap_err();
    assert_eq!(err, VaultError::AuthenticationFailed);
}

#[test]
fn malformed_tokens_are_invalid() {
    for bad in ["", "1", "162", "ab3900aaaa", "9999aaaa", "1624", "1624abc"] {
        let err = decrypt_field("pw", bad).unwrap_err();
        assert_eq!(err, VaultError::InvalidFieldToken, "token {:?}", bad);
    }
}

#[test]
fn tampered_token_fails() {
    let token = encrypt_field("pw", "secret");
    let mut chars: Vec<char> = token.chars().collect();
    // Flip one ciphertext character to another base64 character.
    chars[4] = if chars[4] == 'A' { 'B' } else { 'A' };
    let bad: String = chars.iter().collect();
    let err = decrypt_field("pw", &bad).unwrap_err();
    assert_eq!(err, VaultError::AuthenticationFailed);
}

fn password_entry(value: &str) -> Entry {
    Entry {
        fields: vec![
            Field { name: "title".to_string(), value: FieldValue::Text("T".to_string()) },
            Field { name: "password".to_string(), value: FieldValue::Text(value.to_string()) },
        ],
    }
}

#[test]
fn conceal_then_reveal_entry() {
    let mut entry = password_entry("s3cret");
    encrypt_sensitive_fields("pw", &mut entry, EntryType::Passwords).unwrap();
    match &entry.fields[1].value {
        FieldValue::Text(tok) => {
            assert_ne!(tok, "s3cret");
            assert_eq!(&tok[0..4], "1624");
        },
        FieldValue::Flag(_) => panic!("password became a flag"),
    }
    assert_eq!(entry.fields[0].value, FieldValue::Text("T".to_string()));
    decrypt_sensitive_fields("pw", &mut entry, EntryType::Passwords).unwrap();
    assert_eq!(entry.fields[1].value, FieldValue::Text("s3cret".to_string()));
}

#[test]
fn other_entry_kinds_are_untouched() {
    let mut entry = password_entry("s3cret");
    let before = entry.clone();
    encrypt_sensitive_fields("pw", &mut entry, EntryType::Identities).unwrap();
    assert_eq!(entry, before);
    decrypt_sensitive_fields("pw", &mut entry, EntryType::Cards).unwrap();
    assert_eq!(entry, before);
}

#[test]
fn concealing_adds_a_missing_password_field() {
    let mut entry = Entry {
        fields: vec![Field { name: "title".to_string(), value: FieldValue::Text("T".to_string()) }],
    };
    encrypt_sensitive_fields("pw", &mut entry, EntryType::Passwords).unwrap();
    assert_eq!(entry.fields.len(), 2);
    assert_eq!(entry.fields[1].name, "password");
    match &entry.fields[1].value {
        FieldValue::Text(tok) => {
            assert_eq!(decrypt_field("pw", tok).unwrap(), "");
        },
        FieldValue::Flag(_) => panic!("token is not text"),
    }
}

#[test]
fn revealing_a_plain_value_is_invalid() {
    let mut entry = password_entry("not a token");
    let before = entry.clone();
    let err = decrypt_sensitive_fields("pw", &mut entry, EntryType::Passwords).unwrap_err();
    assert_eq!(err, VaultError::InvalidFieldToken);
    assert_eq!(entry, before);
}

#[test]
fn revealing_without_password_field_is_invalid() {
    let mut entry = Entry {
        fields: vec![Field { name: "title".to_string(), value: FieldValue::Text("T".to_string()) }],
    };
    let err = decrypt_sensitive_fields("pw", &mut entry, EntryType::Passwords).unwrap_err();
    assert_eq!(err, VaultError::InvalidFieldToken);
}
