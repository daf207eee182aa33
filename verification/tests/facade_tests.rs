use keybolt_vault::document::{Document, Entry, Field, FieldValue};
use keybolt_vault::envelope::open_document;
use keybolt_vault::field::decrypt_field;
use keybolt_vault::session::{conceal_field, reveal_field, save, EntryType};
use keybolt_vault::VaultError;

fn text_field(name: &str, value: &str) -> Field {
    Field { name: name.to_string(), value: FieldValue::Text(value.to_string()) }
}

fn two_passwords() -> Document {
    Document {
        passwords: vec![
            Entry { fields: vec![text_field("title", "A"), text_field("password", "alpha")] },
            Entry { fields: vec![text_field("title", "B"), text_field("password", "beta")] },
        ],
        identities: vec![Entry { fields: vec![text_field("first_name", "J")] }],
        cards: vec![],
    }
}

fn password_text(e: &Entry) -> String {
    for f in &e.fields {
        if f.name == "password" {
            match &f.value {
                FieldValue::Text(s) => return s.clone(),
                FieldValue::Flag(_) => panic!("password is a flag"),
            }
        }
    }
    panic!("no password field")
}

#[test]
fn conceal_then_reveal_one_entry() {
    let mut d = two_passwords();
    conceal_field("pw", &mut d, EntryType::Passwords, 0).unwrap();
    let token = password_text(&d.passwords[0]);
    assert_ne!(token, "alpha");
    // the sibling entry is untouched
    assert_eq!(password_text(&d.passwords[1]), "beta");
    reveal_field("pw", &mut d, EntryType::Passwords, 0).unwrap();
    assert_eq!(password_text(&d.passwords[0]), "alpha");
}

#[test]
fn conceal_on_other_collections_is_a_no_op() {
    let mut d = two_passwords();
    let before = d.clone();
    conceal_field("pw", &mut d, EntryType::Identities, 0).unwrap();
    assert_eq!(d, before);
}

#[test]
fn reveal_failure_leaves_document_unchanged() {
    let mut d = two_passwords();
    let before = d.clone();
    // "alpha" is no token
    let err = reveal_field("pw", &mut d, EntryType::Passwords, 0).unwrap_err();
    assert_eq!(err, VaultError::InvalidFieldToken);
    assert_eq!(d, before);
}

#[test]
fn save_conceals_every_password_and_seals() {
    let mut d = two_passwords();
    let file = save("master", &mut d).unwrap();
    // in the saved state no plaintext password remains
    let tok_a = password_text(&d.passwords[0]);
    let tok_b = password_text(&d.passwords[1]);
    assert_ne!(tok_a, "alpha");
    assert_ne!(tok_b, "beta");
    assert_eq!(decrypt_field("master", &tok_a).unwrap(), "alpha");
    assert_eq!(decrypt_field("master", &tok_b).unwrap(), "beta");
    // and the sealed file opens to exactly the concealed document
    let back = open_document("master", &file).unwrap();
    assert_eq!(back, d);
}
