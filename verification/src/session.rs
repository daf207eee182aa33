//! The application-shell state machine: which page is open, how far login
//! has progressed, which entry is selected and in which mode it is being
//! viewed or edited, and how each message transforms that state. The state
//! machine owns the field codec's discipline: an entry's sensitive field is
//! revealed when it enters edit mode and concealed again when editing ends,
//! so a document is never stored while a field is revealed. File access is
//! the caller's: where a message requires it, `update` answers with an
//! action for the caller to perform.

use vstd::prelude::*;

use crate::VaultError;
use crate::crypto::{passphrase_ok, passphrase_fits, PLAINTEXT_LIMIT};
use crate::document::{Document, Entry, EntryModel, FieldValue, ValueModel, set_rel};
use crate::field::{encrypt_sensitive_fields, decrypt_sensitive_fields, sensitive_fits,
    conceal_rel, reveal_rel, text_or_empty, password_name};
use crate::styles::StyleType;

verus! {

use vstd::string::StringExecFns;
use vstd::string::StrSliceExecFns;
use vstd::utf8::encode_utf8;

/// The pages of the application.
#[derive(Debug, Clone, Copy, PartialEq, Eq, Structural)]
pub enum Pages {
    CardsPage,
    IdentitiesPage,
    PasswordsPage,
    ProfilePage,
}

/// How far the user has come unlocking the vault.
#[derive(Clone, Copy, Debug, PartialEq, Eq, Structural)]
pub enum LoginState {
    LoggedOut,
    LoggingIn,
    LoggedIn,
}

/// How the details pane shows the selected entry.
#[derive(Clone, Copy, Debug, PartialEq, Eq, Structural)]
pub enum PageMode {
    View,
    Edit,
    Closed,
}

/// The three kinds of entry the vault holds.
#[derive(Clone, Copy, Debug, PartialEq, Eq, Structural)]
pub enum EntryType {
    Passwords,
    Identities,
    Cards,
}

impl EntryType {
    /// The key of this kind's collection in the document.
    pub fn as_str(&self) -> (r: &'static str)
        ensures
            self is Passwords ==> r@ == "passwords"@,
            self is Identities ==> r@ == "identities"@,
            self is Cards ==> r@ == "cards"@,
    {
        match self {
            EntryType::Passwords => "passwords",
            EntryType::Identities => "identities",
            EntryType::Cards => "cards",
        }
    }
}

/// The messages the presentation layer sends to the state machine.
#[derive(Debug, Clone)]
pub enum Message {
    ChangePage(Pages),
    ChangeStyle(StyleType),
    ChangeEntryMode(PageMode),
    SaveEntryEdits,
    SelectEntry(i32),
    PasswordInputChanged(String),
    PasswordInputSubmit,
    UpdatePasswordTitle(String),
    UpdatePasswordUrl(String),
    UpdatePasswordUsername(String),
    UpdatePasswordPassword(String),
    UpdatePasswordOtpAuth(String),
    UpdatePasswordFavorite(bool),
    UpdatePasswordTags(String),
    UpdatePasswordNotes(String),
    UpdateIdentityTitle(String),
    UpdateIdentityFavorite(bool),
    UpdateIdentityFirstName(String),
    UpdateIdentityMiddleInitial(String),
    UpdateIdentityLastName(String),
    UpdateIdentityAddress(String),
    UpdateIdentityCity(String),
    UpdateIdentityCountry(String),
    UpdateIdentityState(String),
    UpdateIdentityZipcode(String),
    UpdateIdentityPhone(String),
    UpdateIdentityEmail(String),
    UpdateIdentityAptNumber(String),
    UpdateIdentityWebsite(String),
    UpdateIdentityBirthMonth(String),
    UpdateIdentityBirthDay(String),
    UpdateIdentityBirthYear(String),
    UpdateCardTitle(String),
    UpdateCardFavorite(bool),
    UpdateCardName(String),
    UpdateCardNumber(String),
    UpdateCardLastFour(String),
    UpdateCardExpirationDate(String),
    UpdateCardSecurityCode(String),
}

/// What the caller must do after an update: nothing, or load the vault
/// file and hand its contents back through `apply_unlock_result`.
#[derive(Debug, Clone, Copy, PartialEq, Eq, Structural)]
pub enum Action {
    Idle,
    LoadVault,
}

/// The whole shell state.
pub struct KeyboltApp {
    pub login_state: LoginState,
    pub current_page: Pages,
    pub current_style: StyleType,
    pub passphrase: String,
    pub entries: Document,
    pub selected_entry_id: i32,
    pub current_entry_edits: Entry,
    pub current_entry_mode: PageMode,
    pub current_entry_type: EntryType,
}

/// The vault-related parts of the state are unchanged.
pub open spec fn same_vault(a: KeyboltApp, b: KeyboltApp) -> bool {
    &&& a.login_state == b.login_state
    &&& a.passphrase@ == b.passphrase@
    &&& a.entries@ == b.entries@
}

/// The navigation parts of the state are unchanged.
pub open spec fn same_nav(a: KeyboltApp, b: KeyboltApp) -> bool {
    &&& a.current_page == b.current_page
    &&& a.current_entry_type == b.current_entry_type
    &&& a.selected_entry_id == b.selected_entry_id
    &&& a.current_entry_mode == b.current_entry_mode
}

/// The edit buffer is unchanged.
pub open spec fn same_edits(a: KeyboltApp, b: KeyboltApp) -> bool {
    a.current_entry_edits@ == b.current_entry_edits@
}

/// One field of the edit buffer was set; everything else is unchanged.
pub open spec fn edits_field_set(
    a: KeyboltApp,
    b: KeyboltApp,
    name: Seq<char>,
    value: ValueModel,
) -> bool {
    &&& set_rel(a.current_entry_edits@.fields, b.current_entry_edits@.fields, name, value)
    &&& same_vault(a, b)
    &&& same_nav(a, b)
    &&& a.current_style == b.current_style
}

/// The entry collection a type selects.
pub open spec fn collection_of(d: crate::document::DocumentModel, t: EntryType) -> Seq<
    EntryModel,
> {
    match t {
        EntryType::Passwords => d.passwords,
        EntryType::Identities => d.identities,
        EntryType::Cards => d.cards,
    }
}

/// How one step of the state machine relates the state before, the state
/// after, the message, and the answered action.
pub open spec fn update_spec(pre: KeyboltApp, post: KeyboltApp, message: Message, a: Action) -> bool {
    &&& (a == Action::LoadVault <==> (message matches Message::PasswordInputSubmit && pre.login_state != LoginState::LoggingIn))
    &&& (
            message matches Message::ChangePage(p) ==> {
                &&& post.current_page == p
                &&& post.current_entry_type == (match p {
                    Pages::CardsPage => EntryType::Cards,
                    Pages::IdentitiesPage => EntryType::Identities,
                    _ => EntryType::Passwords,
                })
                &&& post.selected_entry_id == -1
                &&& post.current_entry_mode == PageMode::Closed
                &&& same_vault(pre, post)
                &&& same_edits(pre, post)
                &&& post.current_style == pre.current_style
            }
    )
    &&& (
            message matches Message::ChangeStyle(s) ==> {
                &&& post.current_style == s
                &&& same_vault(pre, post)
                &&& same_nav(pre, post)
                &&& same_edits(pre, post)
            }
    )
    &&& (
            message matches Message::PasswordInputChanged(p) ==> {
                &&& post.passphrase@ == p@
                &&& post.login_state == pre.login_state
                &&& post.entries@ == pre.entries@
                &&& same_nav(pre, post)
                &&& same_edits(pre, post)
                &&& post.current_style == pre.current_style
            }
    )
    &&& (
            message matches Message::PasswordInputSubmit ==> {
                &&& post.login_state == (if pre.login_state != LoginState::LoggingIn {
                    LoginState::LoggingIn
                } else {
                    pre.login_state
                })
                &&& post.passphrase@ == pre.passphrase@
                &&& post.entries@ == pre.entries@
                &&& same_nav(pre, post)
                &&& same_edits(pre, post)
                &&& post.current_style == pre.current_style
            }
    )
    &&& (
            message matches Message::ChangeEntryMode(m) ==> {
                &&& post.current_entry_mode == m
                &&& same_vault(pre, post)
                &&& post.current_page == pre.current_page
                &&& post.current_entry_type == pre.current_entry_type
                &&& post.selected_entry_id == pre.selected_entry_id
                &&& post.current_style == pre.current_style
                &&& (m matches PageMode::Edit && pre.current_entry_type
                    == EntryType::Passwords && passphrase_ok(pre.passphrase@) ==> (
                reveal_rel(
                    pre.passphrase@,
                    pre.current_entry_edits@,
                    post.current_entry_edits@,
                ) || same_edits(pre, post)))
                &&& (!(m matches PageMode::Edit) && pre.current_entry_mode
                    == PageMode::Edit && pre.current_entry_type == EntryType::Passwords
                    && passphrase_ok(pre.passphrase@) && sensitive_fits(
                    pre.current_entry_edits@,
                ) ==> conceal_rel(
                    pre.passphrase@,
                    pre.current_entry_edits@,
                    post.current_entry_edits@,
                ))
                &&& (!(m matches PageMode::Edit) && !(pre.current_entry_mode
                    == PageMode::Edit) ==> same_edits(pre, post))
                &&& (m matches PageMode::Edit && !passphrase_ok(pre.passphrase@) ==> same_edits(
                    pre,
                    post,
                ))
                &&& (!(m matches PageMode::Edit) && pre.current_entry_mode == PageMode::Edit && !(
                passphrase_ok(pre.passphrase@) && sensitive_fits(pre.current_entry_edits@))
                    ==> same_edits(pre, post))
                &&& (pre.current_entry_type != EntryType::Passwords ==> same_edits(
                    pre,
                    post,
                ))
            }
    )
    &&& (
            message matches Message::SaveEntryEdits ==> {
                &&& post.current_entry_mode == PageMode::View
                &&& post.login_state == pre.login_state
                &&& post.passphrase@ == pre.passphrase@
                &&& post.current_page == pre.current_page
                &&& post.current_entry_type == pre.current_entry_type
                &&& post.selected_entry_id == pre.selected_entry_id
                &&& post.current_style == pre.current_style
                &&& (pre.current_entry_type == EntryType::Passwords && passphrase_ok(
                    pre.passphrase@,
                ) && sensitive_fits(pre.current_entry_edits@) ==> conceal_rel(
                    pre.passphrase@,
                    pre.current_entry_edits@,
                    post.current_entry_edits@,
                ))
                &&& (!(passphrase_ok(pre.passphrase@) && sensitive_fits(
                    pre.current_entry_edits@,
                )) ==> same_edits(pre, post))
                &&& (pre.current_entry_type != EntryType::Passwords ==> same_edits(
                    pre,
                    post,
                ))
                &&& ({
                    let t = pre.current_entry_type;
                    let id = pre.selected_entry_id as int;
                    let before = collection_of(pre.entries@, t);
                    let after = collection_of(post.entries@, t);
                    &&& (0 <= id < before.len() ==> after == before.update(
                        id,
                        post.current_entry_edits@,
                    ))
                    &&& (!(0 <= id < before.len()) ==> post.entries@ == pre.entries@)
                    &&& (forall|u: EntryType|
                        u != t ==> collection_of(post.entries@, u) == collection_of(
                            pre.entries@,
                            u,
                        ))
                })
            }
    )
    &&& (
            message matches Message::SelectEntry(id) ==> {
                &&& post.selected_entry_id == id
                &&& post.current_entry_mode == PageMode::View
                &&& same_vault(pre, post)
                &&& post.current_page == pre.current_page
                &&& post.current_entry_type == pre.current_entry_type
                &&& post.current_style == pre.current_style
                &&& ({
                    let before = collection_of(pre.entries@, pre.current_entry_type);
                    &&& (0 <= id < before.len() ==> post.current_entry_edits@ == before[
                        id as int
                    ])
                    &&& (!(0 <= id < before.len()) ==> same_edits(pre, post))
                })
            }
    )
    &&& (
            message matches Message::UpdatePasswordTitle(s) ==> edits_field_set(
                pre,
                post,
                "title"@,
                ValueModel::Text(s@),
            )
    )
    &&& (
            message matches Message::UpdatePasswordUrl(s) ==> edits_field_set(
                pre,
                post,
                "url"@,
                ValueModel::Text(s@),
            )
    )
    &&& (
            message matches Message::UpdatePasswordUsername(s) ==> edits_field_set(
                pre,
                post,
                "username"@,
                ValueModel::Text(s@),
            )
    )
    &&& (
            message matches Message::UpdatePasswordPassword(s) ==> edits_field_set(
                pre,
                post,
                "password"@,
                ValueModel::Text(s@),
            )
    )
    &&& (
            message matches Message::UpdatePasswordOtpAuth(s) ==> edits_field_set(
                pre,
                post,
                "otpauth"@,
                ValueModel::Text(s@),
            )
    )
    &&& (
            message matches Message::UpdatePasswordFavorite(b) ==> edits_field_set(
                pre,
                post,
                "favorite"@,
                ValueModel::Flag(b),
            )
    )
    &&& (
            message matches Message::UpdatePasswordTags(s) ==> edits_field_set(
                pre,
                post,
                "tags"@,
                ValueModel::Text(s@),
            )
    )
    &&& (
            message matches Message::UpdatePasswordNotes(s) ==> edits_field_set(
                pre,
                post,
                "notes"@,
                ValueModel::Text(s@),
            )
    )
    &&& (
            message matches Message::UpdateIdentityTitle(s) ==> edits_field_set(
                pre,
                post,
                "title"@,
                ValueModel::Text(s@),
            )
    )
    &&& (
            message matches Message::UpdateIdentityFirstName(s) ==> edits_field_set(
                pre,
                post,
                "first_name"@,
                ValueModel::Text(s@),
            )
    )
    &&& (
            message matches Message::UpdateIdentityMiddleInitial(s) ==> edits_field_set(
                pre,
                post,
                "middle_initial"@,
                ValueModel::Text(s@),
            )
    )
    &&& (
            message matches Message::UpdateIdentityLastName(s) ==> edits_field_set(
                pre,
                post,
                "last_name"@,
                ValueModel::Text(s@),
            )
    )
    &&& (
            message matches Message::UpdateIdentityAddress(s) ==> edits_field_set(
                pre,
                post,
                "address"@,
                ValueModel::Text(s@),
            )
    )
    &&& (
            message matches Message::UpdateIdentityCity(s) ==> edits_field_set(
                pre,
                post,
                "city"@,
                ValueModel::Text(s@),
            )
    )
    &&& (
            message matches Message::UpdateIdentityCountry(s) ==> edits_field_set(
                pre,
                post,
                "country"@,
                ValueModel::Text(s@),
            )
    )
    &&& (
            message matches Message::UpdateIdentityState(s) ==> edits_field_set(
                pre,
                post,
                "state"@,
                ValueModel::Text(s@),
            )
    )
    &&& (
            message matches Message::UpdateIdentityZipcode(s) ==> edits_field_set(
                pre,
                post,
                "zipcode"@,
                ValueModel::Text(s@),
            )
    )
    &&& (
            message matches Message::UpdateIdentityPhone(s) ==> edits_field_set(
                pre,
                post,
                "phone"@,
                ValueModel::Text(s@),
            )
    )
    &&& (
            message matches Message::UpdateIdentityEmail(s) ==> edits_field_set(
                pre,
                post,
                "email"@,
                ValueModel::Text(s@),
            )
    )
    &&& (
            message matches Message::UpdateIdentityAptNumber(s) ==> edits_field_set(
                pre,
                post,
                "apt_number"@,
                ValueModel::Text(s@),
            )
    )
    &&& (
            message matches Message::UpdateCardTitle(s) ==> edits_field_set(
                pre,
                post,
                "title"@,
                ValueModel::Text(s@),
            )
    )
    &&& (
            message matches Message::UpdateCardName(s) ==> edits_field_set(
                pre,
                post,
                "name"@,
                ValueModel::Text(s@),
            )
    )
    &&& (
            message matches Message::UpdateCardNumber(s) ==> edits_field_set(
                pre,
                post,
                "card_number"@,
                ValueModel::Text(s@),
            )
    )
    &&& (
            message matches Message::UpdateCardLastFour(s) ==> edits_field_set(
                pre,
                post,
                "card_last_four"@,
                ValueModel::Text(s@),
            )
    )
    &&& (
            message matches Message::UpdateCardExpirationDate(s) ==> edits_field_set(
                pre,
                post,
                "expiration_date"@,
                ValueModel::Text(s@),
            )
    )
    &&& (
            message matches Message::UpdateCardSecurityCode(s) ==> edits_field_set(
                pre,
                post,
                "security_code"@,
                ValueModel::Text(s@),
            )
    )
    &&& (
            (message matches Message::UpdateIdentityFavorite(_) || message
                matches Message::UpdateIdentityWebsite(_) || message
                matches Message::UpdateIdentityBirthMonth(_) || message
                matches Message::UpdateIdentityBirthDay(_) || message
                matches Message::UpdateIdentityBirthYear(_) || message
                matches Message::UpdateCardFavorite(_)) ==> {
                &&& same_vault(pre, post)
                &&& same_nav(pre, post)
                &&& same_edits(pre, post)
                &&& post.current_style == pre.current_style
            }
    )
}

impl KeyboltApp {
    /// A fresh shell: logged out, on the passwords page, empty vault.
    pub fn new() -> (r: KeyboltApp)
        ensures
            r.login_state == LoginState::LoggedOut,
            r.current_page == Pages::PasswordsPage,
            r.current_style == StyleType::Default,
            r.passphrase@.len() == 0,
            r.entries@.passwords.len() == 0 && r.entries@.identities.len() == 0
                && r.entries@.cards.len() == 0,
            r.selected_entry_id == -1,
            r.current_entry_edits@.fields.len() == 0,
            r.current_entry_mode == PageMode::Closed,
            r.current_entry_type == EntryType::Passwords,
    {
        KeyboltApp {
            login_state: LoginState::LoggedOut,
            current_page: Pages::PasswordsPage,
            current_style: StyleType::Default,
            passphrase: String::new(),
            entries: Document::new(),
            selected_entry_id: -1,
            current_entry_edits: Entry::new(),
            current_entry_mode: PageMode::Closed,
            current_entry_type: EntryType::Passwords,
        }
    }

    /// Hands the state machine the outcome of loading and opening the vault
    /// file, after `update` answered `LoadVault`.
    pub fn apply_unlock_result(&mut self, result: Result<Document, VaultError>)
        ensures
            result matches Ok(d) ==> final(self).entries@ == d@ && final(self).login_state
                == LoginState::LoggedIn,
            result is Err ==> final(self).entries@ == old(self).entries@
                && final(self).login_state == LoginState::LoggedOut,
            final(self).passphrase@ == old(self).passphrase@,
            final(self).current_page == old(self).current_page,
            final(self).current_style == old(self).current_style,
            final(self).selected_entry_id == old(self).selected_entry_id,
            same_edits(*old(self), *final(self)),
            final(self).current_entry_mode == old(self).current_entry_mode,
            final(self).current_entry_type == old(self).current_entry_type,
    {
        match result {
            Ok(d) => {
                self.entries = d;
                self.login_state = LoginState::LoggedIn;
            },
            Err(_) => {
                self.login_state = LoginState::LoggedOut;
            },
        }
    }

    /// One step of the shell state machine.
    pub fn update(&mut self, message: Message) -> (a: Action)
        ensures
            update_spec(*old(self), *final(self), message, a),
    {
        match message {
            Message::ChangePage(page) => {
                self.current_page = page;
                self.current_entry_type = match page {
                    Pages::CardsPage => EntryType::Cards,
                    Pages::IdentitiesPage => EntryType::Identities,
                    _ => EntryType::Passwords,
                };
                self.selected_entry_id = -1;
                self.current_entry_mode = PageMode::Closed;
                Action::Idle
            },
            Message::ChangeStyle(style) => {
                self.current_style = style;
                Action::Idle
            },
            Message::PasswordInputChanged(passphrase) => {
                self.passphrase = passphrase;
                Action::Idle
            },
            Message::PasswordInputSubmit => {
                if self.login_state != LoginState::LoggingIn {
                    self.login_state = LoginState::LoggingIn;
                    Action::LoadVault
                } else {
                    Action::Idle
                }
            },
            Message::ChangeEntryMode(mode) => {
                if mode == PageMode::Edit {
                    if passphrase_fits(self.passphrase.as_str()) {
                        let _ = decrypt_sensitive_fields(
                            self.passphrase.as_str(),
                            &mut self.current_entry_edits,
                            self.current_entry_type,
                        );
                    }
                } else if self.current_entry_mode == PageMode::Edit {
                    if passphrase_fits(self.passphrase.as_str()) && entry_sensitive_fits(
                        &self.current_entry_edits,
                    ) {
                        let _ = encrypt_sensitive_fields(
                            self.passphrase.as_str(),
                            &mut self.current_entry_edits,
                            self.current_entry_type,
                        );
                    }
                }
                self.current_entry_mode = mode;
                Action::Idle
            },
            Message::SaveEntryEdits => {
                self.current_entry_mode = PageMode::View;
                if passphrase_fits(self.passphrase.as_str()) && entry_sensitive_fits(
                    &self.current_entry_edits,
                ) {
                    let _ = encrypt_sensitive_fields(
                        self.passphrase.as_str(),
                        &mut self.current_entry_edits,
                        self.current_entry_type,
                    );
                }
                self.store_edits();
                Action::Idle
            },
            Message::SelectEntry(entry_id) => {
                self.selected_entry_id = entry_id;
                self.load_edits(entry_id);
                self.current_entry_mode = PageMode::View;
                Action::Idle
            },
            Message::UpdatePasswordTitle(input) => {
                self.set_edit_text("title", input)
            },
            Message::UpdatePasswordUrl(input) => {
                self.set_edit_text("url", input)
            },
            Message::UpdatePasswordUsername(input) => {
                self.set_edit_text("username", input)
            },
            Message::UpdatePasswordPassword(input) => {
                self.set_edit_text("password", input)
            },
            Message::UpdatePasswordOtpAuth(input) => {
                self.set_edit_text("otpauth", input)
            },
            Message::UpdatePasswordFavorite(input) => {
                self.current_entry_edits.set_field(
                    string_lit("favorite"),
                    FieldValue::Flag(input),
                );
                Action::Idle
            },
            Message::UpdatePasswordTags(input) => {
                self.set_edit_text("tags", input)
            },
            Message::UpdatePasswordNotes(input) => {
                self.set_edit_text("notes", input)
            },
            Message::UpdateIdentityTitle(input) => {
                self.set_edit_text("title", input)
            },
            Message::UpdateIdentityFirstName(input) => {
                self.set_edit_text("first_name", input)
            },
            Message::UpdateIdentityMiddleInitial(input) => {
                self.set_edit_text("middle_initial", input)
            },
            Message::UpdateIdentityLastName(input) => {
                self.set_edit_text("last_name", input)
            },
            Message::UpdateIdentityAddress(input) => {
                self.set_edit_text("address", input)
            },
            Message::UpdateIdentityCity(input) => {
                self.set_edit_text("city", input)
            },
            Message::UpdateIdentityCountry(input) => {
                self.set_edit_text("country", input)
            },
            Message::UpdateIdentityState(input) => {
                self.set_edit_text("state", input)
            },
            Message::UpdateIdentityZipcode(input) => {
                self.set_edit_text("zipcode", input)
            },
            Message::UpdateIdentityPhone(input) => {
                self.set_edit_text("phone", input)
            },
            Message::UpdateIdentityEmail(input) => {
                self.set_edit_text("email", input)
            },
            Message::UpdateIdentityAptNumber(input) => {
                self.set_edit_text("apt_number", input)
            },
            Message::UpdateCardTitle(input) => {
                self.set_edit_text("title", input)
            },
            Message::UpdateCardName(input) => {
                self.set_edit_text("name", input)
            },
            Message::UpdateCardNumber(input) => {
                self.set_edit_text("card_number", input)
            },
            Message::UpdateCardLastFour(input) => {
                self.set_edit_text("card_last_four", input)
            },
            Message::UpdateCardExpirationDate(input) => {
                self.set_edit_text("expiration_date", input)
            },
            Message::UpdateCardSecurityCode(input) => {
                self.set_edit_text("security_code", input)
            },
            _ => Action::Idle,
        }
    }

    /// Sets one text field of the edit buffer.
    fn set_edit_text(&mut self, name: &'static str, input: String) -> (a: Action)
        ensures
            set_rel(
                old(self).current_entry_edits@.fields,
                final(self).current_entry_edits@.fields,
                name@,
                ValueModel::Text(input@),
            ),
            same_vault(*old(self), *final(self)),
            same_nav(*old(self), *final(self)),
            final(self).current_style == old(self).current_style,
            a == Action::Idle,
    {
        let owned = string_lit(name);
        self.current_entry_edits.set_field(owned, FieldValue::Text(input));
        Action::Idle
    }

    /// Writes the edit buffer back over the selected entry, when the
    /// selection is a valid index of the current collection.
    fn store_edits(&mut self)
        ensures
            ({
                let t = old(self).current_entry_type;
                let id = old(self).selected_entry_id as int;
                let pre = collection_of(old(self).entries@, t);
                let post = collection_of(final(self).entries@, t);
                &&& (0 <= id < pre.len() ==> post == pre.update(
                    id,
                    old(self).current_entry_edits@,
                ))
                &&& (!(0 <= id < pre.len()) ==> final(self).entries@ == old(self).entries@)
                &&& (forall|u: EntryType|
                    u != t ==> collection_of(final(self).entries@, u) == collection_of(
                        old(self).entries@,
                        u,
                    ))
            }),
            final(self).login_state == old(self).login_state,
            final(self).passphrase@ == old(self).passphrase@,
            same_nav(*old(self), *final(self)),
            same_edits(*old(self), *final(self)),
            final(self).current_style == old(self).current_style,
    {
        if self.selected_entry_id < 0 {
            return ;
        }
        let id = self.selected_entry_id as usize;
        let copy = self.current_entry_edits.duplicate();
        match self.current_entry_type {
            EntryType::Passwords => {
                if id < self.entries.passwords.len() {
                    self.entries.passwords[id] = copy;
                    proof {
                        assert(final(self).entries@.passwords =~= old(
                            self,
                        ).entries@.passwords.update(id as int, old(self).current_entry_edits@));
                        assert(final(self).entries@.identities =~= old(self).entries@.identities);
                        assert(final(self).entries@.cards =~= old(self).entries@.cards);
                    }
                }
            },
            EntryType::Identities => {
                if id < self.entries.identities.len() {
                    self.entries.identities[id] = copy;
                    proof {
                        assert(final(self).entries@.identities =~= old(
                            self,
                        ).entries@.identities.update(id as int, old(self).current_entry_edits@));
                        assert(final(self).entries@.passwords =~= old(self).entries@.passwords);
                        assert(final(self).entries@.cards =~= old(self).entries@.cards);
                    }
                }
            },
            EntryType::Cards => {
                if id < self.entries.cards.len() {
                    self.entries.cards[id] = copy;
                    proof {
                        assert(final(self).entries@.cards =~= old(self).entries@.cards.update(
                            id as int,
                            old(self).current_entry_edits@,
                        ));
                        assert(final(self).entries@.passwords =~= old(self).entries@.passwords);
                        assert(final(self).entries@.identities =~= old(self).entries@.identities);
                    }
                }
            },
        }
    }

    /// Loads the selected entry into the edit buffer, when the selection is
    /// a valid index of the current collection.
    fn load_edits(&mut self, entry_id: i32)
        ensures
            ({
                let pre = collection_of(old(self).entries@, old(self).current_entry_type);
                &&& (0 <= entry_id < pre.len() ==> final(self).current_entry_edits@ == pre[
                    entry_id as int
                ])
                &&& (!(0 <= entry_id < pre.len()) ==> same_edits(*old(self), *final(self)))
            }),
            same_vault(*old(self), *final(self)),
            same_nav(*old(self), *final(self)),
            final(self).current_style == old(self).current_style,
    {
        if entry_id < 0 {
            return ;
        }
        let id = entry_id as usize;
        match self.current_entry_type {
            EntryType::Passwords => {
                if id < self.entries.passwords.len() {
                    self.current_entry_edits = self.entries.passwords[id].duplicate();
                }
            },
            EntryType::Identities => {
                if id < self.entries.identities.len() {
                    self.current_entry_edits = self.entries.identities[id].duplicate();
                }
            },
            EntryType::Cards => {
                if id < self.entries.cards.len() {
                    self.current_entry_edits = self.entries.cards[id].duplicate();
                }
            },
        }
    }
}

/// Every `password` field of the entry holds a text small enough to seal.
pub fn entry_sensitive_fits(e: &Entry) -> (b: bool)
    ensures
        b == sensitive_fits(e@),
{
    let name = string_lit("password");
    let mut i: usize = 0;
    while i < e.fields.len()
        invariant
            i <= e.fields.len(),
            e@.fields.len() == e.fields.len(),
            name@ == password_name(),
            forall|k: int|
                0 <= k < i && (#[trigger] e@.fields[k]).name == password_name() ==> encode_utf8(
                    text_or_empty(e@.fields[k].value),
                ).len() <= PLAINTEXT_LIMIT,
        decreases e.fields.len() - i,
    {
        proof {
            assert(e@.fields[i as int] == e.fields@[i as int]@);
        }
        if e.fields[i].name.eq(&name) {
            match &e.fields[i].value {
                FieldValue::Text(s) => {
                    if s.as_str().as_bytes().len() > PLAINTEXT_LIMIT {
                        proof {
                            assert(text_or_empty(e@.fields[i as int].value) == s@);
                            assert(encode_utf8(s@).len() > PLAINTEXT_LIMIT);
                        }
                        return false;
                    }
                },
                FieldValue::Flag(_) => {
                    proof {
                        assert(encode_utf8(Seq::<char>::empty()) =~= Seq::<u8>::empty());
                    }
                },
            }
        }
        i = i + 1;
    }
    true
}

/// Conceals the sensitive field of one addressed entry in place: the
/// entry's `password` text is replaced by an encrypted field token. Entries
/// of the other collections hold no field under field-level encryption and
/// are left as they are.
pub fn conceal_field(
    passphrase: &str,
    document: &mut Document,
    collection: EntryType,
    index: usize,
) -> (r: Result<(), VaultError>)
    requires
        passphrase_ok(passphrase@),
        index < collection_of(old(document)@, collection).len(),
        sensitive_fits(collection_of(old(document)@, collection)[index as int]),
    ensures
        forall|u: EntryType|
            u != collection ==> collection_of(final(document)@, u) == collection_of(
                old(document)@,
                u,
            ),
        collection matches EntryType::Passwords ==> (exists|e: EntryModel|
            {
                &&& collection_of(final(document)@, collection) == #[trigger] collection_of(
                    old(document)@,
                    collection,
                ).update(index as int, e)
                &&& conceal_rel(
                    passphrase@,
                    collection_of(old(document)@, collection)[index as int],
                    e,
                )
            }),
        !(collection matches EntryType::Passwords) ==> final(document)@ == old(document)@,
        r is Ok,
{
    transform_entry(passphrase, document, collection, index, true)
}

/// Reveals the sensitive field of one addressed entry in place: the
/// entry's `password` token is replaced by its decrypted text. On any
/// failure the document is unchanged and the error is reported.
pub fn reveal_field(
    passphrase: &str,
    document: &mut Document,
    collection: EntryType,
    index: usize,
) -> (r: Result<(), VaultError>)
    requires
        passphrase_ok(passphrase@),
        index < collection_of(old(document)@, collection).len(),
    ensures
        forall|u: EntryType|
            u != collection ==> collection_of(final(document)@, u) == collection_of(
                old(document)@,
                u,
            ),
        collection matches EntryType::Passwords ==> match r {
            Ok(_) => exists|e: EntryModel|
                {
                    &&& collection_of(final(document)@, collection) == #[trigger] collection_of(
                        old(document)@,
                        collection,
                    ).update(index as int, e)
                    &&& reveal_rel(
                        passphrase@,
                        collection_of(old(document)@, collection)[index as int],
                        e,
                    )
                },
            Err(e) => final(document)@ == old(document)@ && (e == VaultError::InvalidFieldToken
                || e == VaultError::AuthenticationFailed),
        },
        !(collection matches EntryType::Passwords) ==> final(document)@ == old(document)@ && r
            is Ok,
{
    transform_entry(passphrase, document, collection, index, false)
}

/// Shared body of [`conceal_field`] and [`reveal_field`]: copies the
/// addressed entry out, transforms the copy, and writes it back.
fn transform_entry(
    passphrase: &str,
    document: &mut Document,
    collection: EntryType,
    index: usize,
    conceal: bool,
) -> (r: Result<(), VaultError>)
    requires
        passphrase_ok(passphrase@),
        index < collection_of(old(document)@, collection).len(),
        conceal ==> sensitive_fits(collection_of(old(document)@, collection)[index as int]),
    ensures
        forall|u: EntryType|
            u != collection ==> collection_of(final(document)@, u) == collection_of(
                old(document)@,
                u,
            ),
        collection matches EntryType::Passwords ==> match r {
            Ok(_) => exists|e: EntryModel|
                {
                    &&& collection_of(final(document)@, collection) == #[trigger] collection_of(
                        old(document)@,
                        collection,
                    ).update(index as int, e)
                    &&& if conceal {
                        conceal_rel(
                            passphrase@,
                            collection_of(old(document)@, collection)[index as int],
                            e,
                        )
                    } else {
                        reveal_rel(
                            passphrase@,
                            collection_of(old(document)@, collection)[index as int],
                            e,
                        )
                    }
                },
            Err(e) => final(document)@ == old(document)@ && !conceal && (e
                == VaultError::InvalidFieldToken || e == VaultError::AuthenticationFailed),
        },
        !(collection matches EntryType::Passwords) ==> final(document)@ == old(document)@ && r
            is Ok,
        conceal ==> r is Ok,
{
    match collection {
        EntryType::Passwords => {
            let mut entry = document.passwords[index].duplicate();
            let step = if conceal {
                encrypt_sensitive_fields(passphrase, &mut entry, EntryType::Passwords)
            } else {
                decrypt_sensitive_fields(passphrase, &mut entry, EntryType::Passwords)
            };
            match step {
                Ok(_) => {
                    document.passwords[index] = entry;
                    proof {
                        assert(final(document)@.passwords =~= old(
                            document,
                        )@.passwords.update(index as int, final(document)@.passwords[index as int]));
                        assert(final(document)@.identities =~= old(document)@.identities);
                        assert(final(document)@.cards =~= old(document)@.cards);
                    }
                    Ok(())
                },
                Err(e) => {
                    proof {
                        assert(final(document)@ =~= old(document)@);
                    }
                    Err(e)
                },
            }
        },
        _ => Ok(()),
    }
}

/// Conceals every sensitive field of the document and seals it under the
/// passphrase: the bytes handed back only ever hold concealed entries. The
/// caller writes them to the vault file.
pub fn save(passphrase: &str, document: &mut Document) -> (r: Result<Vec<u8>, VaultError>)
    requires
        passphrase_ok(passphrase@),
        forall|i: int|
            0 <= i < old(document)@.passwords.len() ==> sensitive_fits(
                #[trigger] old(document)@.passwords[i],
            ),
    ensures
        final(document)@.identities == old(document)@.identities,
        final(document)@.cards == old(document)@.cards,
        final(document)@.passwords.len() == old(document)@.passwords.len(),
        forall|i: int|
            0 <= i < old(document)@.passwords.len() ==> conceal_rel(
                passphrase@,
                old(document)@.passwords[i],
                #[trigger] final(document)@.passwords[i],
            ),
        r matches Ok(file) ==> crate::envelope::is_sealed_vault(
            file@,
            passphrase@,
            final(document)@,
        ),
        r matches Err(e) ==> e == VaultError::IoFailure && crate::json::json_of(
            final(document)@,
        ).len() > PLAINTEXT_LIMIT,
{
    let mut i: usize = 0;
    while i < document.passwords.len()
        invariant
            i <= document.passwords.len(),
            passphrase_ok(passphrase@),
            document@.passwords.len() == old(document)@.passwords.len(),
            document@.identities == old(document)@.identities,
            document@.cards == old(document)@.cards,
            forall|k: int|
                0 <= k < old(document)@.passwords.len() ==> sensitive_fits(
                    #[trigger] old(document)@.passwords[k],
                ),
            forall|k: int|
                0 <= k < i ==> conceal_rel(
                    passphrase@,
                    old(document)@.passwords[k],
                    #[trigger] document@.passwords[k],
                ),
            forall|k: int|
                i <= k < document@.passwords.len() ==> #[trigger] document@.passwords[k] == old(
                    document,
                )@.passwords[k],
        decreases document.passwords.len() - i,
    {
        let mut entry = document.passwords[i].duplicate();
        proof {
            assert(document@.passwords[i as int] == document.passwords@[i as int]@);
            assert(entry@ == old(document)@.passwords[i as int]);
        }
        let _ = encrypt_sensitive_fields(passphrase, &mut entry, EntryType::Passwords);
        let ghost before = document@.passwords;
        document.passwords[i] = entry;
        proof {
            assert(document@.passwords =~= before.update(
                i as int,
                document@.passwords[i as int],
            ));
            assert(document@.identities =~= old(document)@.identities);
            assert(document@.cards =~= old(document)@.cards);
        }
        i = i + 1;
    }
    if crate::envelope::document_fits(document) {
        crate::envelope::seal_document(passphrase, document)
    } else {
        Err(VaultError::IoFailure)
    }
}

/// The passwords page of the earlier single-page shell; its rendering
/// belongs to the presentation layer.
pub struct PasswordsPage;

impl PasswordsPage {
    /// A fresh passwords page.
    pub fn new() -> (r: Self) {
        PasswordsPage
    }
}

/// The profile page of the earlier single-page shell; its rendering
/// belongs to the presentation layer.
pub struct ProfilePage;

impl ProfilePage {
    /// A fresh profile page.
    pub fn new() -> (r: Self) {
        ProfilePage
    }
}

/// An owned copy of a static string.
fn string_lit(s: &'static str) -> (r: String)
    ensures
        r@ == s@,
{
    String::from_str(s)
}

} // verus!
