//! The field codec: a compact text form for one encrypted scalar value,
//! embedded in place of the plaintext inside the document. A token is
//! `<nonce_len><salt_len><base64 ciphertext><base64 nonce><base64 salt>`,
//! where the two prefixes are the 2-digit decimal character counts of the
//! base64 nonce and salt segments. A 12-byte nonce and a 16-byte salt
//! always encode to 16 and 24 base64 characters, so tokens this library
//! produces start with `1624`; the parser accepts any well-formed prefixes.

use vstd::prelude::*;

use crate::VaultError;
use crate::document::{Entry, EntryModel, Field, FieldModel, FieldValue, ValueModel};
use crate::session::EntryType;
use crate::crypto::{kdf, aead_seal, passphrase_ok, derive_key, generate_salt, encrypt, decrypt,
    wipe, PLAINTEXT_LIMIT, SALT_LEN, NONCE_LEN, TAG_LEN};
use crate::encoding::{b64_of, base64_encode, base64_decode, bytes_to_string};

verus! {

use vstd::string::StrSliceExecFns;
use vstd::string::StringExecFns;
use vstd::utf8::encode_utf8;

/// The token that encrypting `v` under `p` with the given fresh salt and
/// nonce produces.
pub open spec fn token_of(p: Seq<char>, v: Seq<char>, salt: Seq<u8>, nonce: Seq<u8>) -> Seq<
    char,
> {
    seq!['1', '6', '2', '4'] + b64_of(aead_seal(kdf(p, salt), nonce, encode_utf8(v)))
        + b64_of(nonce) + b64_of(salt)
}

/// What it means for `tok` to be an encrypted field token holding value `v`
/// under passphrase `p`: some fresh 16-byte salt and 12-byte nonce exist
/// for which the token is exactly the encoding of `v`'s sealed bytes.
pub open spec fn is_field_token(tok: Seq<char>, p: Seq<char>, v: Seq<char>) -> bool {
    exists|salt: Seq<u8>, nonce: Seq<u8>|
        {
            &&& salt.len() == SALT_LEN
            &&& nonce.len() == NONCE_LEN
            &&& encode_utf8(v).len() <= PLAINTEXT_LIMIT
            &&& aead_seal(kdf(p, salt), nonce, encode_utf8(v)).len() == encode_utf8(v).len()
                + TAG_LEN
            &&& b64_of(nonce).len() == 16
            &&& b64_of(salt).len() == 24
            &&& tok == token_of(p, v, salt, nonce)
        }
}

/// Encrypts one field value into a token: fresh salt and nonce, a key
/// derived and wiped afterwards, the three segments base64-encoded behind
/// the two length prefixes.
pub fn encrypt_field(passphrase: &str, value: &str) -> (r: String)
    requires
        passphrase_ok(passphrase@),
        encode_utf8(value@).len() <= PLAINTEXT_LIMIT,
    ensures
        is_field_token(r@, passphrase@, value@),
{
    let mut value_bytes = value.as_bytes_vec();
    let salt = generate_salt();
    let mut key = derive_key(passphrase, &salt);
    let sealed = encrypt(&key, &value_bytes, &salt);
    wipe(&mut key);
    wipe(&mut value_bytes);
    match sealed {
        Ok((mut ciphertext, nonce, _salt_copy)) => {
            let ct_b64 = base64_encode(&ciphertext);
            let nonce_b64 = base64_encode(&nonce);
            let salt_b64 = base64_encode(&salt);
            wipe(&mut ciphertext);
            let mut token = String::new();
            token.append("1624");
            token.append(ct_b64.as_str());
            token.append(nonce_b64.as_str());
            token.append(salt_b64.as_str());
            proof {
                reveal_strlit("1624");
                assert("1624"@ =~= seq!['1', '6', '2', '4']);
                assert(token@ =~= token_of(passphrase@, value@, salt@, nonce@));
            }
            token
        },
        Err(_) => {
            proof {
                assert(false);
            }
            String::new()
        },
    }
}

/// The three segments of a token, located by its two 2-digit length
/// prefixes; nothing when the prefixes are not decimal digits or the
/// implied bounds do not fit the token.
pub open spec fn token_frame(tok: Seq<char>) -> Option<(Seq<char>, Seq<char>, Seq<char>)> {
    if tok.len() < 4 {
        None
    } else if !(48 <= tok[0] as u32 <= 57 && 48 <= tok[1] as u32 <= 57 && 48 <= tok[2] as u32
        <= 57 && 48 <= tok[3] as u32 <= 57) {
        None
    } else {
        let nlen = (tok[0] as u32 - 48) * 10 + (tok[1] as u32 - 48);
        let slen = (tok[2] as u32 - 48) * 10 + (tok[3] as u32 - 48);
        if tok.len() < 4 + nlen + slen {
            None
        } else {
            let salt_off = tok.len() - slen;
            let nonce_off = salt_off - nlen;
            Some(
                (
                    tok.subrange(4, nonce_off as int),
                    tok.subrange(nonce_off as int, salt_off as int),
                    tok.subrange(salt_off as int, tok.len() as int),
                ),
            )
        }
    }
}

/// A token for `v` frames into exactly its three base64 segments.
proof fn lemma_token_framing(tok: Seq<char>, p: Seq<char>, v: Seq<char>, salt: Seq<u8>, nonce: Seq<
    u8,
>)
    requires
        salt.len() == SALT_LEN,
        nonce.len() == NONCE_LEN,
        b64_of(nonce).len() == 16,
        b64_of(salt).len() == 24,
        tok == token_of(p, v, salt, nonce),
    ensures
        token_frame(tok) == Some(
            (
                b64_of(aead_seal(kdf(p, salt), nonce, encode_utf8(v))),
                b64_of(nonce),
                b64_of(salt),
            ),
        ),
{
    let cb = b64_of(aead_seal(kdf(p, salt), nonce, encode_utf8(v)));
    let nb = b64_of(nonce);
    let sb = b64_of(salt);
    assert(tok =~= seq!['1', '6', '2', '4'] + cb + nb + sb);
    assert(tok[0] == '1' && tok[1] == '6' && tok[2] == '2' && tok[3] == '4');
    assert(tok.len() == 4 + cb.len() + 40);
    let salt_off = tok.len() - 24;
    let nonce_off = salt_off - 16;
    assert(tok.subrange(4, nonce_off as int) =~= cb);
    assert(tok.subrange(nonce_off as int, salt_off as int) =~= nb);
    assert(tok.subrange(salt_off as int, tok.len() as int) =~= sb);
}

/// Decrypts a field token back to its plaintext value. Malformed framing
/// or segments are an invalid token; a failed authentication deliberately
/// does not distinguish a wrong passphrase from a corrupted token. Any
/// token that [`encrypt_field`] produced for the same passphrase decrypts
/// to exactly the encrypted value.
pub fn decrypt_field(passphrase: &str, token: &str) -> (r: Result<String, VaultError>)
    requires
        passphrase_ok(passphrase@),
    ensures
        forall|v: Seq<char>|
            is_field_token(token@, passphrase@, v) ==> r is Ok && r.unwrap()@ == v,
        r matches Err(e) ==> (e == VaultError::InvalidFieldToken || e
            == VaultError::AuthenticationFailed),
        token_frame(token@) is None ==> r == Err::<String, VaultError>(
            VaultError::InvalidFieldToken,
        ),
        r matches Ok(s) ==> (exists|ct: Seq<u8>, nonce: Seq<u8>, salt: Seq<u8>|
            {
                &&& token_frame(token@) == Some((b64_of(ct), b64_of(nonce), b64_of(salt)))
                &&& ct == aead_seal(kdf(passphrase@, salt), nonce, encode_utf8(s@))
            }),
        r == Err::<String, VaultError>(VaultError::AuthenticationFailed) ==> (exists|
            ct: Seq<u8>,
            nonce: Seq<u8>,
            salt: Seq<u8>,
        |
            {
                &&& token_frame(token@) == Some((b64_of(ct), b64_of(nonce), b64_of(salt)))
                &&& salt.len() == SALT_LEN
                &&& nonce.len() == NONCE_LEN
                &&& forall|pt: Seq<u8>|
                    pt.len() <= PLAINTEXT_LIMIT ==> ct != aead_seal(
                        kdf(passphrase@, salt),
                        nonce,
                        pt,
                    )
            }),
{
    broadcast use vstd::utf8::encode_utf8_valid_utf8;
    broadcast use vstd::utf8::encode_utf8_decode_utf8;

    let ghost tk = token@;
    let n = token.unicode_len();
    if n < 4 {
        proof {
            no_token_because_frameless(tk, passphrase@);
        }
        return Err(VaultError::InvalidFieldToken);
    }
    let c0 = token.get_char(0) as u32;
    let c1 = token.get_char(1) as u32;
    let c2 = token.get_char(2) as u32;
    let c3 = token.get_char(3) as u32;
    if c0 < 48 || c0 > 57 || c1 < 48 || c1 > 57 || c2 < 48 || c2 > 57 || c3 < 48 || c3 > 57 {
        proof {
            no_token_because_frameless(tk, passphrase@);
        }
        return Err(VaultError::InvalidFieldToken);
    }
    let nlen: usize = ((c0 - 48) * 10 + (c1 - 48)) as usize;
    let slen: usize = ((c2 - 48) * 10 + (c3 - 48)) as usize;
    if n - 4 < nlen || n - 4 - nlen < slen {
        proof {
            no_token_because_frameless(tk, passphrase@);
        }
        return Err(VaultError::InvalidFieldToken);
    }
    let salt_off = n - slen;
    let nonce_off = salt_off - nlen;
    let ct_b64 = token.substring_char(4, nonce_off);
    let nonce_b64 = token.substring_char(nonce_off, salt_off);
    let salt_b64 = token.substring_char(salt_off, n);
    proof {
        assert(token_frame(tk) == Some((ct_b64@, nonce_b64@, salt_b64@)));
    }
    let ghost frame_ct = ct_b64@;
    let ghost frame_nonce = nonce_b64@;
    let ghost frame_salt = salt_b64@;
    let ciphertext = match base64_decode(ct_b64) {
        Some(x) => x,
        None => {
            proof {
                assert forall|v: Seq<char>| !is_field_token(tk, passphrase@, v) by {
                    if is_field_token(tk, passphrase@, v) {
                        let (salt0, nonce0) = token_witness(tk, passphrase@, v);
                        lemma_token_framing(tk, passphrase@, v, salt0, nonce0);
                        let ct0 = aead_seal(kdf(passphrase@, salt0), nonce0, encode_utf8(v));
                        assert(frame_ct == b64_of(ct0));
                        assert(ct0.len() <= PLAINTEXT_LIMIT + 64);
                        assert(false);
                    }
                }
            }
            return Err(VaultError::InvalidFieldToken);
        },
    };
    let nonce = match base64_decode(nonce_b64) {
        Some(x) => x,
        None => {
            proof {
                assert forall|v: Seq<char>| !is_field_token(tk, passphrase@, v) by {
                    if is_field_token(tk, passphrase@, v) {
                        let (salt0, nonce0) = token_witness(tk, passphrase@, v);
                        lemma_token_framing(tk, passphrase@, v, salt0, nonce0);
                        assert(frame_nonce == b64_of(nonce0));
                        assert(false);
                    }
                }
            }
            return Err(VaultError::InvalidFieldToken);
        },
    };
    let salt = match base64_decode(salt_b64) {
        Some(x) => x,
        None => {
            proof {
                assert forall|v: Seq<char>| !is_field_token(tk, passphrase@, v) by {
                    if is_field_token(tk, passphrase@, v) {
                        let (salt0, nonce0) = token_witness(tk, passphrase@, v);
                        lemma_token_framing(tk, passphrase@, v, salt0, nonce0);
                        assert(frame_salt == b64_of(salt0));
                        assert(false);
                    }
                }
            }
            return Err(VaultError::InvalidFieldToken);
        },
    };
    if salt.len() != SALT_LEN || nonce.len() != NONCE_LEN {
        proof {
            assert forall|v: Seq<char>| !is_field_token(tk, passphrase@, v) by {
                if is_field_token(tk, passphrase@, v) {
                    let (salt0, nonce0) = token_witness(tk, passphrase@, v);
                    lemma_token_framing(tk, passphrase@, v, salt0, nonce0);
                    assert(frame_salt == b64_of(salt0));
                    assert(salt@ == salt0);
                    assert(frame_nonce == b64_of(nonce0));
                    assert(nonce@ == nonce0);
                    assert(false);
                }
            }
        }
        return Err(VaultError::InvalidFieldToken);
    }
    let mut key = derive_key(passphrase, &salt);
    let opened = decrypt(&key, &nonce, &ciphertext);
    wipe(&mut key);
    match opened {
        Ok(plain_bytes) => {
            let ghost pv = plain_bytes@;
            match bytes_to_string(plain_bytes) {
                Some(s) => {
                    proof {
                        assert forall|v: Seq<char>|
                            is_field_token(tk, passphrase@, v) implies s@ == v by {
                            let (salt0, nonce0) = token_witness(tk, passphrase@, v);
                            lemma_token_framing(tk, passphrase@, v, salt0, nonce0);
                            let ct0 = aead_seal(kdf(passphrase@, salt0), nonce0, encode_utf8(v));
                            assert(ciphertext@ == ct0 && salt@ == salt0 && nonce@ == nonce0);
                            assert(pv == encode_utf8(v));
                            assert(encode_utf8(s@) == pv);
                            assert(vstd::utf8::decode_utf8(encode_utf8(s@)) == s@);
                            assert(vstd::utf8::decode_utf8(encode_utf8(v)) == v);
                        }
                        assert(encode_utf8(s@) == pv);
                    }
                    Ok(s)
                },
                None => {
                    proof {
                        assert forall|v: Seq<char>| !is_field_token(tk, passphrase@, v) by {
                            if is_field_token(tk, passphrase@, v) {
                                let (salt0, nonce0) = token_witness(tk, passphrase@, v);
                                lemma_token_framing(tk, passphrase@, v, salt0, nonce0);
                                let ct0 = aead_seal(
                                    kdf(passphrase@, salt0),
                                    nonce0,
                                    encode_utf8(v),
                                );
                                assert(ciphertext@ == ct0 && salt@ == salt0 && nonce@ == nonce0);
                                assert(pv == encode_utf8(v));
                                assert(vstd::utf8::valid_utf8(pv));
                                assert(false);
                            }
                        }
                    }
                    Err(VaultError::InvalidFieldToken)
                },
            }
        },
        Err(_) => {
            proof {
                assert forall|v: Seq<char>| !is_field_token(tk, passphrase@, v) by {
                    if is_field_token(tk, passphrase@, v) {
                        let (salt0, nonce0) = token_witness(tk, passphrase@, v);
                        lemma_token_framing(tk, passphrase@, v, salt0, nonce0);
                        let ct0 = aead_seal(kdf(passphrase@, salt0), nonce0, encode_utf8(v));
                        assert(ciphertext@ == ct0 && salt@ == salt0 && nonce@ == nonce0);
                        assert(false);
                    }
                }
            }
            Err(VaultError::AuthenticationFailed)
        },
    }
}

/// The salt and nonce witnessing that `tok` is a token for `v` under `p`.
proof fn token_witness(tok: Seq<char>, p: Seq<char>, v: Seq<char>) -> (r: (Seq<u8>, Seq<u8>))
    requires
        is_field_token(tok, p, v),
    ensures
        ({
            let (salt, nonce) = r;
            &&& salt.len() == SALT_LEN
            &&& nonce.len() == NONCE_LEN
            &&& encode_utf8(v).len() <= PLAINTEXT_LIMIT
            &&& aead_seal(kdf(p, salt), nonce, encode_utf8(v)).len() == encode_utf8(v).len()
                + TAG_LEN
            &&& b64_of(nonce).len() == 16
            &&& b64_of(salt).len() == 24
            &&& tok == token_of(p, v, salt, nonce)
        }),
{
    choose|salt: Seq<u8>, nonce: Seq<u8>|
        {
            &&& salt.len() == SALT_LEN
            &&& nonce.len() == NONCE_LEN
            &&& encode_utf8(v).len() <= PLAINTEXT_LIMIT
            &&& aead_seal(kdf(p, salt), nonce, encode_utf8(v)).len() == encode_utf8(v).len()
                + TAG_LEN
            &&& b64_of(nonce).len() == 16
            &&& b64_of(salt).len() == 24
            &&& tok == token_of(p, v, salt, nonce)
        }
}

/// The name of the field the codec conceals and reveals.
pub open spec fn password_name() -> Seq<char> {
    "password"@
}

/// The text of a value, or the empty string when it is not text.
pub open spec fn text_or_empty(v: ValueModel) -> Seq<char> {
    match v {
        ValueModel::Text(s) => s,
        ValueModel::Flag(_) => Seq::empty(),
    }
}

/// Every text held by a `password` field of the entry is small enough to
/// seal.
pub open spec fn sensitive_fits(e: EntryModel) -> bool {
    forall|i: int|
        0 <= i < e.fields.len() && (#[trigger] e.fields[i]).name == password_name()
            ==> encode_utf8(text_or_empty(e.fields[i].value)).len() <= PLAINTEXT_LIMIT
}

/// How concealing transforms an entry: its first `password` field's text is
/// replaced by an encrypted field token of that text (a missing field is
/// added, holding a token of the empty string); every other field is kept.
pub open spec fn conceal_rel(p: Seq<char>, pre: EntryModel, post: EntryModel) -> bool {
    if exists|i: int| 0 <= i < pre.fields.len() && (#[trigger] pre.fields[i]).name
        == password_name() {
        exists|i: int, t: Seq<char>|
            {
                &&& 0 <= i < pre.fields.len()
                &&& pre.fields[i].name == password_name()
                &&& post.fields == #[trigger] pre.fields.update(
                    i,
                    FieldModel { name: password_name(), value: ValueModel::Text(t) },
                )
                &&& is_field_token(t, p, text_or_empty(pre.fields[i].value))
            }
    } else {
        exists|t: Seq<char>|
            {
                &&& post.fields == #[trigger] pre.fields.push(
                    FieldModel { name: password_name(), value: ValueModel::Text(t) },
                )
                &&& is_field_token(t, p, Seq::<char>::empty())
            }
    }
}

/// How revealing transforms an entry: its first `password` field, holding a
/// token, is replaced by the token's decrypted text; every other field is
/// kept.
pub open spec fn reveal_rel(p: Seq<char>, pre: EntryModel, post: EntryModel) -> bool {
    exists|i: int, w: Seq<char>|
        {
            &&& 0 <= i < pre.fields.len()
            &&& pre.fields[i].name == password_name()
            &&& post.fields == #[trigger] pre.fields.update(
                i,
                FieldModel { name: password_name(), value: ValueModel::Text(w) },
            )
            &&& forall|v: Seq<char>|
                is_field_token(text_or_empty(pre.fields[i].value), p, v) ==> w == v
        }
}

/// Conceals the sensitive field of one entry: for a `passwords` entry the
/// `password` field is replaced in place by an encrypted field token of its
/// text; other entry kinds are left untouched.
pub fn encrypt_sensitive_fields(passphrase: &str, data: &mut Entry, entry_type: EntryType) -> (r:
    Result<(), VaultError>)
    requires
        passphrase_ok(passphrase@),
        sensitive_fits(old(data)@),
    ensures
        entry_type matches EntryType::Passwords ==> conceal_rel(
            passphrase@,
            old(data)@,
            final(data)@,
        ),
        !(entry_type matches EntryType::Passwords) ==> final(data)@ == old(data)@,
        r is Ok,
{
    match entry_type {
        EntryType::Passwords => {
            let name = password_key();
            let ghost pre = data@;
            let token;
            match data.find_field(&name) {
                Some(i) => {
                    let ghost idx = i as int;
                    match &data.fields[i].value {
                        FieldValue::Text(s) => {
                            proof {
                                assert(pre.fields[idx] == data.fields@[idx]@);
                                assert(text_or_empty(pre.fields[idx].value) == s@);
                            }
                            token = encrypt_field(passphrase, s.as_str());
                        },
                        FieldValue::Flag(_) => {
                            proof {
                                assert(pre.fields[idx] == data.fields@[idx]@);
                                reveal_strlit("");
                                assert(text_or_empty(pre.fields[idx].value) =~= ""@);
                            }
                            token = encrypt_field(passphrase, "");
                        },
                    }
                    let ghost tv = token@;
                    data.fields[i] = Field { name, value: FieldValue::Text(token) };
                    proof {
                        assert(final(data)@.fields =~= pre.fields.update(
                            idx,
                            FieldModel { name: password_name(), value: ValueModel::Text(tv) },
                        ));
                        assert(is_field_token(tv, passphrase@, text_or_empty(
                            pre.fields[idx].value,
                        )));
                    }
                },
                None => {
                    proof {
                        reveal_strlit("");
                        assert(""@ =~= Seq::<char>::empty());
                        assert(encode_utf8(Seq::<char>::empty()) =~= Seq::<u8>::empty());
                    }
                    token = encrypt_field(passphrase, "");
                    let ghost tv = token@;
                    data.push_field(name, FieldValue::Text(token));
                    proof {
                        assert(is_field_token(tv, passphrase@, Seq::<char>::empty()));
                    }
                },
            }
            Ok(())
        },
        _ => Ok(()),
    }
}

/// Reveals the sensitive field of one entry: for a `passwords` entry the
/// `password` field's token is replaced in place by its decrypted text. On
/// any failure the entry is left unchanged and the error is reported; a
/// missing or non-text field is an invalid token.
pub fn decrypt_sensitive_fields(passphrase: &str, data: &mut Entry, entry_type: EntryType) -> (r:
    Result<(), VaultError>)
    requires
        passphrase_ok(passphrase@),
    ensures
        entry_type matches EntryType::Passwords ==> match r {
            Ok(_) => reveal_rel(passphrase@, old(data)@, final(data)@),
            Err(e) => final(data)@ == old(data)@ && (e == VaultError::InvalidFieldToken || e
                == VaultError::AuthenticationFailed),
        },
        entry_type matches EntryType::Passwords ==> ((exists|i: int, v: Seq<char>|
            first_password_token(old(data)@, passphrase@, i, v)) ==> r is Ok),
        !(entry_type matches EntryType::Passwords) ==> final(data)@ == old(data)@ && r is Ok,
{
    match entry_type {
        EntryType::Passwords => {
            let name = password_key();
            let ghost pre = data@;
            match data.find_field(&name) {
                Some(i) => {
                    let ghost idx = i as int;
                    proof {
                        assert(pre.fields[idx] == data.fields@[idx]@);
                    }
                    let tok = match &data.fields[i].value {
                        FieldValue::Text(s) => s.clone(),
                        FieldValue::Flag(_) => {
                            proof {
                                if exists|j: int, v: Seq<char>| first_password_token(
                                    pre,
                                    passphrase@,
                                    j,
                                    v,
                                ) {
                                    let (j, v) = choose|j: int, v: Seq<char>|
                                        first_password_token(pre, passphrase@, j, v);
                                    assert(j == idx);
                                    let (s0, n0) = token_witness(
                                        text_or_empty(pre.fields[idx].value),
                                        passphrase@,
                                        v,
                                    );
                                    assert(text_or_empty(pre.fields[idx].value)
                                        =~= Seq::<char>::empty());
                                    assert(token_of(passphrase@, v, s0, n0).len() >= 4);
                                    assert(false);
                                }
                            }
                            return Err(VaultError::InvalidFieldToken);
                        },
                    };
                    match decrypt_field(passphrase, tok.as_str()) {
                        Ok(plain) => {
                            let ghost w = plain@;
                            data.fields[i] = Field { name, value: FieldValue::Text(plain) };
                            proof {
                                assert(final(data)@.fields =~= pre.fields.update(
                                    idx,
                                    FieldModel {
                                        name: password_name(),
                                        value: ValueModel::Text(w),
                                    },
                                ));
                            }
                            Ok(())
                        },
                        Err(e) => {
                            proof {
                                if exists|j: int, v: Seq<char>| first_password_token(
                                    pre,
                                    passphrase@,
                                    j,
                                    v,
                                ) {
                                    let (j, v) = choose|j: int, v: Seq<char>|
                                        first_password_token(pre, passphrase@, j, v);
                                    assert(j == idx);
                                    assert(is_field_token(tok@, passphrase@, v));
                                    assert(false);
                                }
                            }
                            Err(e)
                        },
                    }
                },
                None => Err(VaultError::InvalidFieldToken),
            }
        },
        _ => Ok(()),
    }
}

/// Index `j` holds the entry's first `password` field and its text is a
/// token for `v` under `p`.
pub open spec fn first_password_token(e: EntryModel, p: Seq<char>, j: int, v: Seq<char>) -> bool {
    &&& 0 <= j < e.fields.len()
    &&& e.fields[j].name == password_name()
    &&& forall|k: int| 0 <= k < j ==> (#[trigger] e.fields[k]).name != password_name()
    &&& is_field_token(text_or_empty(e.fields[j].value), p, v)
}

/// The field name `password` as an owned string.
fn password_key() -> (r: String)
    ensures
        r@ == password_name(),
{
    String::from_str("password")
}

/// A string that does not frame is a token for no value.
proof fn no_token_because_frameless(tok: Seq<char>, p: Seq<char>)
    requires
        token_frame(tok) is None,
    ensures
        forall|v: Seq<char>| !is_field_token(tok, p, v),
{
    assert forall|v: Seq<char>| !is_field_token(tok, p, v) by {
        if is_field_token(tok, p, v) {
            let (salt0, nonce0) = token_witness(tok, p, v);
            lemma_token_framing(tok, p, v, salt0, nonce0);
        }
    }
}

} // verus!
