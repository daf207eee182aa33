use keybolt_vault::document::{Document, Entry, Field, FieldValue};
use keybolt_vault::envelope::{open_document, seal_document};
use keybolt_vault::field::decrypt_field;
use keybolt_vault::session::{Action, EntryType, KeyboltApp, LoginState, Message, PageMode, Pages};
use keybolt_vault::styles::StyleType;

fn vault_with_one_password() -> Document {
    Document {
        passwords: vec![Entry {
            fields: vec![
                Field { name: "title".to_string(), value: FieldValue::Text("Mail".to_string()) },
                Field {
                    name: "password".to_string(),
                    value: FieldValue::Text("1624invalid-at-rest".to_string()),
                },
            ],
        }],
        identities: vec![],
        cards: vec![],
    }
}

#[test]
fn new_app_defaults() {
    let app = KeyboltApp::new();
    assert_eq!(app.login_state, LoginState::LoggedOut);
    assert_eq!(app.current_page, Pages::PasswordsPage);
    assert_eq!(app.current_style, StyleType::Default);
    assert_eq!(app.passphrase, "");
    assert_eq!(app.selected_entry_id, -1);
    assert_eq!(app.current_entry_mode, PageMode::Closed);
    assert_eq!(app.current_entry_type, EntryType::Passwords);
}

#[test]
fn change_page_sets_entry_type_and_resets_selection() {
    let mut app = KeyboltApp::new();
    app.selected_entry_id = 3;
    let a = app.update(Message::ChangePage(Pages::CardsPage));
    assert_eq!(a, Action::Idle);
    assert_eq!(app.current_page, Pages::CardsPage);
    assert_eq!(app.current_entry_type, EntryType::Cards);
    assert_eq!(app.selected_entry_id, -1);
    assert_eq!(app.current_entry_mode, PageMode::Closed);
    app.update(Message::ChangePage(Pages::IdentitiesPage));
    assert_eq!(app.current_entry_type, EntryType::Identities);
    app.update(Message::ChangePage(Pages::ProfilePage));
    assert_eq!(app.current_entry_type, EntryType::Passwords);
}

#[test]
fn change_style() {
    let mut app = KeyboltApp::new();
    let a = app.update(Message::ChangeStyle(StyleType::Vibrant));
    assert_eq!(a, Action::Idle);
    assert_eq!(app.current_style, StyleType::Vibrant);
}

#[test]
fn login_flow_asks_for_vault_load() {
    let mut app = KeyboltApp::new();
    app.update(Message::PasswordInputChanged("pw".to_string()));
    assert_eq!(app.passphrase, "pw");
    let a = app.update(Message::PasswordInputSubmit);
    assert_eq!(a, Action::LoadVault);
    assert_eq!(app.login_state, LoginState::LoggingIn);
    // a second submit while logging in does nothing
    let a2 = app.update(Message::PasswordInputSubmit);
    assert_eq!(a2, Action::Idle);
    // the caller performs the load and reports back
    app.apply_unlock_result(Ok(vault_with_one_password()));
    assert_eq!(app.login_state, LoginState::LoggedIn);
    assert_eq!(app.entries.passwords.len(), 1);
}

#[test]
fn failed_unlock_returns_to_logged_out() {
    let mut app = KeyboltApp::new();
    app.update(Message::PasswordInputChanged("pw".to_string()));
    app.update(Message::PasswordInputSubmit);
    app.apply_unlock_result(Err(keybolt_vault::VaultError::AuthenticationFailed));
    assert_eq!(app.login_state, LoginState::LoggedOut);
    assert_eq!(app.entries.passwords.len(), 0);
}

#[test]
fn select_entry_loads_edit_buffer() {
    let mut app = KeyboltApp::new();
    app.entries = vault_with_one_password();
    app.update(Message::SelectEntry(0));
    assert_eq!(app.selected_entry_id, 0);
    assert_eq!(app.current_entry_mode, PageMode::View);
    assert_eq!(app.current_entry_edits, app.entries.passwords[0]);
}

#[test]
fn select_entry_out_of_range_keeps_buffer() {
    let mut app = KeyboltApp::new();
    app.entries = vault_with_one_password();
    app.update(Message::SelectEntry(7));
    assert_eq!(app.selected_entry_id, 7);
    assert_eq!(app.current_entry_edits.fields.len(), 0);
}

#[test]
fn update_messages_edit_fields() {
    let mut app = KeyboltApp::new();
    app.update(Message::UpdatePasswordTitle("Mail".to_string()));
    app.update(Message::UpdatePasswordUsername("me".to_string()));
    app.update(Message::UpdatePasswordFavorite(true));
    app.update(Message::UpdatePasswordTitle("Mail 2".to_string()));
    let e = &app.current_entry_edits;
    assert_eq!(e.fields.len(), 3);
    assert_eq!(e.fields[0].name, "title");
    assert_eq!(e.fields[0].value, FieldValue::Text("Mail 2".to_string()));
    assert_eq!(e.fields[1].name, "username");
    assert_eq!(e.fields[2].value, FieldValue::Flag(true));
}

#[test]
fn edit_and_save_conceals_password_and_stores_entry() {
    let mut app = KeyboltApp::new();
    app.update(Message::PasswordInputChanged("master".to_string()));
    app.entries = vault_with_one_password();
    app.update(Message::SelectEntry(0));
    // entering edit mode reveals nothing here: the stored token is not a
    // real token, so the buffer stays as it is
    app.update(Message::ChangeEntryMode(PageMode::Edit));
    assert_eq!(app.current_entry_mode, PageMode::Edit);
    // type a new password and save
    app.update(Message::UpdatePasswordPassword("new-secret".to_string()));
    app.update(Message::SaveEntryEdits);
    assert_eq!(app.current_entry_mode, PageMode::View);
    let stored = &app.entries.passwords[0];
    let token = match &stored.fields[1].value {
        FieldValue::Text(t) => t.clone(),
        FieldValue::Flag(_) => panic!("password is not text"),
    };
    assert_ne!(token, "new-secret");
    assert_eq!(decrypt_field("master", &token).unwrap(), "new-secret");
}

#[test]
fn saved_vault_round_trips_through_envelope() {
    let mut app = KeyboltApp::new();
    app.update(Message::PasswordInputChanged("master".to_string()));
    app.entries = vault_with_one_password();
    app.update(Message::SelectEntry(0));
    app.update(Message::ChangeEntryMode(PageMode::Edit));
    app.update(Message::UpdatePasswordPassword("deep secret".to_string()));
    app.update(Message::SaveEntryEdits);
    let file = seal_document("master", &app.entries).unwrap();
    let back = open_document("master", &file).unwrap();
    assert_eq!(back, app.entries);
    let token = match &back.passwords[0].fields[1].value {
        FieldValue::Text(t) => t.clone(),
        FieldValue::Flag(_) => panic!("password is not text"),
    };
    assert_eq!(decrypt_field("master", &token).unwrap(), "deep secret");
}

#[test]
fn leaving_edit_mode_conceals_again() {
    let mut app = KeyboltApp::new();
    app.update(Message::PasswordInputChanged("master".to_string()));
    app.update(Message::UpdatePasswordPassword("visible".to_string()));
    app.update(Message::ChangeEntryMode(PageMode::Edit));
    // closing the pane leaves edit mode and conceals the buffer
    app.current_entry_mode = PageMode::Edit;
    app.update(Message::ChangeEntryMode(PageMode::Closed));
    let token = match &app.current_entry_edits.fields[0].value {
        FieldValue::Text(t) => t.clone(),
        FieldValue::Flag(_) => panic!("password is not text"),
    };
    assert_ne!(token, "visible");
    assert_eq!(decrypt_field("master", &token).unwrap(), "visible");
}

#[test]
fn entry_type_collection_keys() {
    assert_eq!(EntryType::Passwords.as_str(), "passwords");
    assert_eq!(EntryType::Identities.as_str(), "identities");
    assert_eq!(EntryType::Cards.as_str(), "cards");
}
