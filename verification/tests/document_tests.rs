use keybolt_vault::document::{Document, Entry, Field, FieldValue};
use keybolt_vault::styles::{Button, ButtonType, Container, ContainerType, Theme};

#[test]
fn set_field_replaces_or_appends() {
    let mut e = Entry::new();
    e.set_field("title".to_string(), FieldValue::Text("a".to_string()));
    e.set_field("favorite".to_string(), FieldValue::Flag(false));
    e.set_field("title".to_string(), FieldValue::Text("b".to_string()));
    assert_eq!(e.fields.len(), 2);
    assert_eq!(e.fields[0].name, "title");
    assert_eq!(e.fields[0].value, FieldValue::Text("b".to_string()));
    assert_eq!(e.fields[1].value, FieldValue::Flag(false));
}

#[test]
fn get_and_find_field() {
    let e = Entry {
        fields: vec![
            Field { name: "title".to_string(), value: FieldValue::Text("a".to_string()) },
            Field { name: "notes".to_string(), value: FieldValue::Text("n".to_string()) },
        ],
    };
    assert_eq!(e.find_field(&"notes".to_string()), Some(1));
    assert_eq!(e.find_field(&"missing".to_string()), None);
    assert_eq!(e.get_field(&"title".to_string()), Some(FieldValue::Text("a".to_string())));
    assert_eq!(e.get_field(&"missing".to_string()), None);
}

#[test]
fn duplicate_copies_an_entry() {
    let e = Entry {
        fields: vec![Field { name: "title".to_string(), value: FieldValue::Text("a".to_string()) }],
    };
    let d = e.duplicate();
    assert_eq!(d, e);
}

#[test]
fn new_document_is_empty() {
    let d = Document::new();
    assert!(d.passwords.is_empty() && d.identities.is_empty() && d.cards.is_empty());
}

#[test]
fn style_constructors_keep_their_theme() {
    let b = Button::new(Theme::Dark, ButtonType::Nav);
    assert_eq!(b.theme, Theme::Dark);
    let c = Container::new(Theme::Light, ContainerType::Default);
    assert_eq!(c.theme, Theme::Light);
}
