use keybolt_vault::document::{Document, Entry, Field, FieldValue};
use keybolt_vault::envelope::{document_fits, open_document, seal_document};
use keybolt_vault::json::serialize_document;
use keybolt_vault::json_parser::parse_document;
use keybolt_vault::crypto::{derive_key, encrypt, generate_salt, passphrase_fits};
use keybolt_vault::VaultError;

fn text_field(name: &str, value: &str) -> Field {
    Field { name: name.to_string(), value: FieldValue::Text(value.to_string()) }
}

fn sample_document() -> Document {
    Document {
        passwords: vec![Entry {
            fields: vec![
                text_field("title", "Example"),
                text_field("username", "u"),
                text_field("password", "p1"),
            ],
        }],
        identities: vec![],
        cards: vec![],
    }
}

#[test]
fn serializes_to_expected_json() {
    let d = sample_document();
    let bytes = serialize_document(&d);
    let expected =
        "{\"passwords\":[{\"title\":\"Example\",\"username\":\"u\",\"password\":\"p1\"}],\"identities\":[],\"cards\":[]}";
    assert_eq!(String::from_utf8(bytes).unwrap(), expected);
}

#[test]
fn serialized_document_is_valid_json() {
    let d = sample_document();
    let bytes = serialize_document(&d);
    let text = String::from_utf8(bytes).unwrap();
    let v: serde_json::Value = serde_json::from_str(&text).unwrap();
    assert_eq!(v["passwords"][0]["title"], serde_json::Value::String("Example".to_string()));
    assert_eq!(v["identities"].as_array().unwrap().len(), 0);
}

#[test]
fn parse_inverts_serialize() {
    let d = sample_document();
    let bytes = serialize_document(&d);
    let back = parse_document(&bytes).unwrap();
    assert_eq!(back, d);
}

#[test]
fn parse_inverts_serialize_with_escapes_and_flags() {
    let d = Document {
        passwords: vec![Entry {
            fields: vec![
                text_field("title", "a \"quoted\" name"),
                text_field("notes", "back\\slash and \\\" both"),
                Field { name: "favorite".to_string(), value: FieldValue::Flag(true) },
                Field { name: "archived".to_string(), value: FieldValue::Flag(false) },
            ],
        }],
        identities: vec![Entry { fields: vec![] }],
        cards: vec![Entry { fields: vec![text_field("name", "J. Doe")] }],
    };
    let bytes = serialize_document(&d);
    let back = parse_document(&bytes).unwrap();
    assert_eq!(back, d);
}

#[test]
fn parse_rejects_non_canonical_bytes() {
    assert!(parse_document(&b"{}".to_vec()).is_none());
    assert!(parse_document(&b"".to_vec()).is_none());
    assert!(parse_document(&b"[1,2,3]".to_vec()).is_none());
    // Correct keys, but whitespace is not canonical.
    let spaced = b"{\"passwords\": [],\"identities\":[],\"cards\":[]}".to_vec();
    assert!(parse_document(&spaced).is_none());
}

#[test]
fn round_trip_whole_document() {
    let d = sample_document();
    assert!(passphrase_fits("hunter2"));
    assert!(document_fits(&d));
    let file = seal_document("hunter2", &d).unwrap();
    let back = open_document("hunter2", &file).unwrap();
    assert_eq!(back, d);
}

#[test]
fn concrete_scenario_correct_and_wrong_horse() {
    let d = sample_document();
    let file = seal_document("correct-horse", &d).unwrap();
    let back = open_document("correct-horse", &file).unwrap();
    assert_eq!(back, d);
    let err = open_document("wrong-horse", &file).unwrap_err();
    assert_eq!(err, VaultError::AuthenticationFailed);
}

#[test]
fn wrong_key_fails_closed() {
    let d = sample_document();
    let file = seal_document("first passphrase", &d).unwrap();
    let err = open_document("second passphrase", &file).unwrap_err();
    assert_eq!(err, VaultError::AuthenticationFailed);
}

#[test]
fn sealing_twice_is_fresh() {
    let d = sample_document();
    let a = seal_document("same-pass", &d).unwrap();
    let b = seal_document("same-pass", &d).unwrap();
    let n = a.len();
    assert_eq!(n, b.len());
    // different salt, different nonce, different ciphertext
    assert_ne!(a[n - 16..], b[n - 16..]);
    assert_ne!(a[n - 28..n - 16], b[n - 28..n - 16]);
    assert_ne!(a[..n - 28], b[..n - 28]);
}

#[test]
fn file_layout_is_ciphertext_nonce_salt() {
    let d = sample_document();
    let json_len = serialize_document(&d).len();
    let file = seal_document("layout", &d).unwrap();
    // ciphertext (plaintext + 16-byte tag), then 12-byte nonce, 16-byte salt
    assert_eq!(file.len(), json_len + 16 + 12 + 16);
}

#[test]
fn tampering_is_detected() {
    let d = sample_document();
    let file = seal_document("tamper-pass", &d).unwrap();
    let ct_len = file.len() - 28;
    for pos in [0, 1, ct_len / 2, ct_len - 1] {
        for bit in [0, 3, 7] {
            let mut bad = file.clone();
            bad[pos] ^= 1u8 << bit;
            let err = open_document("tamper-pass", &bad).unwrap_err();
            assert_eq!(err, VaultError::AuthenticationFailed);
        }
    }
}

#[test]
fn short_files_are_corrupt() {
    for n in [0usize, 1, 12, 27] {
        let file = vec![0u8; n];
        let err = open_document("any", &file).unwrap_err();
        assert_eq!(err, VaultError::CorruptFile);
    }
}

#[test]
fn twenty_eight_byte_file_is_not_corrupt_file() {
    // Exactly the trailer and an empty ciphertext: structurally fine, but
    // an empty ciphertext cannot authenticate.
    let file = vec![0u8; 28];
    let err = open_document("any", &file).unwrap_err();
    assert_eq!(err, VaultError::AuthenticationFailed);
}

#[test]
fn authenticated_garbage_is_corrupt_document() {
    // Build a vault file by hand whose plaintext is not a canonical
    // document: it authenticates but cannot be parsed.
    let salt = generate_salt();
    let key = derive_key("doc-pass", &salt);
    let plaintext = b"not a document".to_vec();
    let (ciphertext, nonce, salt_copy) = encrypt(&key, &plaintext, &salt).unwrap();
    let mut file = ciphertext;
    file.extend_from_slice(&nonce);
    file.extend_from_slice(&salt_copy);
    let err = open_document("doc-pass", &file).unwrap_err();
    assert_eq!(err, VaultError::CorruptDocument);
}

#[test]
fn empty_document_round_trips() {
    let d = Document::new();
    let file = seal_document("empty", &d).unwrap();
    let back = open_document("empty", &file).unwrap();
    assert_eq!(back.passwords.len(), 0);
    assert_eq!(back.identities.len(), 0);
    assert_eq!(back.cards.len(), 0);
    let bytes = serialize_document(&d);
    assert_eq!(
        String::from_utf8(bytes).unwrap(),
        "{\"passwords\":[],\"identities\":[],\"cards\":[]}"
    );
}

#[test]
fn describe_is_nonempty_for_every_error() {
    for e in [
        VaultError::AuthenticationFailed,
        VaultError::CorruptFile,
        VaultError::CorruptDocument,
        VaultError::InvalidFieldToken,
        VaultError::IoFailure,
    ] {
        assert!(!e.describe().is_empty());
    }
}
