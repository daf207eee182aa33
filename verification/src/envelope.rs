//! The envelope codec: the on-disk layout of the vault file,
//! `ciphertext ‖ nonce(12) ‖ salt(16)`, and the two operations that seal a
//! document into such a file and open one back into a document.

use vstd::prelude::*;

use crate::VaultError;
use crate::crypto::{kdf, aead_seal, passphrase_ok, derive_key, generate_salt, encrypt, decrypt,
    wipe, PLAINTEXT_LIMIT, TAG_LEN};
use crate::document::{Document, DocumentModel};
use crate::json::{json_of, serialize_document};
use crate::json_parser::{parse_document, parse_document_spec};

verus! {

/// The fixed trailer: a 12-byte nonce followed by a 16-byte salt.
pub const TRAILER_LEN: usize = 28;

/// What it means for `file` to be a sealed vault holding document `d` under
/// `passphrase`: the trailing 16 bytes are the salt, the 12 before them the
/// nonce, and everything before that is the authenticated ciphertext of the
/// document's canonical encoding under the key derived from (passphrase,
/// salt).
pub open spec fn is_sealed_vault(file: Seq<u8>, passphrase: Seq<char>, d: DocumentModel) -> bool {
    let n = file.len() as int;
    &&& n >= TRAILER_LEN
    &&& json_of(d).len() <= PLAINTEXT_LIMIT
    &&& file.subrange(0, n - 28) == aead_seal(
        kdf(passphrase, file.subrange(n - 16, n)),
        file.subrange(n - 28, n - 16),
        json_of(d),
    )
}

/// The bytes `v[a..b]` as a fresh vector.
fn sub_vec(v: &Vec<u8>, a: usize, b: usize) -> (r: Vec<u8>)
    requires
        a <= b <= v@.len(),
    ensures
        r@ == v@.subrange(a as int, b as int),
{
    let mut r: Vec<u8> = Vec::new();
    let mut i: usize = a;
    while i < b
        invariant
            a <= i <= b <= v@.len(),
            r@ == v@.subrange(a as int, i as int),
        decreases b - i,
    {
        r.push(v[i]);
        proof {
            assert(v@.subrange(a as int, i + 1 as int) =~= v@.subrange(a as int, i as int).push(
                v@[i as int],
            ));
        }
        i = i + 1;
    }
    r
}

/// True when the document's canonical encoding is small enough to seal.
/// Callers outside verified code use it before calling [`seal_document`].
pub fn document_fits(document: &Document) -> (b: bool)
    ensures
        b == (json_of(document@).len() <= PLAINTEXT_LIMIT),
{
    let bytes = serialize_document(document);
    bytes.len() <= PLAINTEXT_LIMIT
}

/// Seals a document under a passphrase into the vault file bytes:
/// serializes it, derives a fresh key from a fresh salt, encrypts under a
/// fresh nonce, wipes the key and the plaintext, and appends the trailer.
pub fn seal_document(passphrase: &str, document: &Document) -> (r: Result<Vec<u8>, VaultError>)
    requires
        passphrase_ok(passphrase@),
        json_of(document@).len() <= PLAINTEXT_LIMIT,
    ensures
        r matches Ok(file) ==> is_sealed_vault(file@, passphrase@, document@),
        r matches Ok(file) ==> file@.len() == json_of(document@).len() + TAG_LEN + TRAILER_LEN,
        r is Ok,
{
    let mut plaintext = serialize_document(document);
    let salt = generate_salt();
    let mut key = derive_key(passphrase, &salt);
    let sealed = encrypt(&key, &plaintext, &salt);
    wipe(&mut key);
    wipe(&mut plaintext);
    match sealed {
        Ok((ciphertext, mut nonce, mut salt_out)) => {
            let ghost ctv = ciphertext@;
            let ghost noncev = nonce@;
            let ghost saltv = salt_out@;
            let mut file = ciphertext;
            file.append(&mut nonce);
            file.append(&mut salt_out);
            proof {
                let n = file@.len() as int;
                assert(file@ =~= ctv + noncev + saltv);
                assert(file@.subrange(0, n - 28) =~= ctv);
                assert(file@.subrange(n - 28, n - 16) =~= noncev);
                assert(file@.subrange(n - 16, n) =~= saltv);
                assert(ctv == aead_seal(kdf(passphrase@, salt@), noncev, json_of(document@)));
            }
            Ok(file)
        },
        Err(e) => Err(e),
    }
}

/// Opens a vault file under a passphrase. A file shorter than the trailer
/// is corrupt; an authentication failure deliberately does not distinguish
/// a wrong passphrase from tampering; authenticated bytes that are not a
/// canonical document are a corrupt document. Opening any file that
/// [`seal_document`] produced for the same passphrase returns exactly the
/// sealed document.
pub fn open_document(passphrase: &str, file: &Vec<u8>) -> (r: Result<Document, VaultError>)
    requires
        passphrase_ok(passphrase@),
    ensures
        file@.len() < TRAILER_LEN ==> r == Err::<Document, VaultError>(VaultError::CorruptFile),
        r == Err::<Document, VaultError>(VaultError::CorruptFile) ==> file@.len() < TRAILER_LEN,
        forall|dv: DocumentModel|
            is_sealed_vault(file@, passphrase@, dv) ==> r is Ok && r.unwrap()@ == dv,
        r matches Ok(d) ==> ({
            let n = file@.len() as int;
            &&& n >= TRAILER_LEN
            &&& file@.subrange(0, n - 28) == aead_seal(
                kdf(passphrase@, file@.subrange(n - 16, n)),
                file@.subrange(n - 28, n - 16),
                json_of(d@),
            )
        }),
        r == Err::<Document, VaultError>(VaultError::AuthenticationFailed) ==> ({
            let n = file@.len() as int;
            &&& n >= TRAILER_LEN
            &&& forall|pt: Seq<u8>|
                pt.len() <= PLAINTEXT_LIMIT ==> file@.subrange(0, n - 28) != aead_seal(
                    kdf(passphrase@, file@.subrange(n - 16, n)),
                    file@.subrange(n - 28, n - 16),
                    pt,
                )
        }),
        r == Err::<Document, VaultError>(VaultError::CorruptDocument) ==> ({
            let n = file@.len() as int;
            &&& n >= TRAILER_LEN
            &&& exists|pt: Seq<u8>|
                {
                    &&& file@.subrange(0, n - 28) == aead_seal(
                        kdf(passphrase@, file@.subrange(n - 16, n)),
                        file@.subrange(n - 28, n - 16),
                        pt,
                    )
                    &&& parse_document_spec(pt) is None
                }
        }),
{
    let n = file.len();
    if n < TRAILER_LEN {
        return Err(VaultError::CorruptFile);
    }
    let salt = sub_vec(file, n - 16, n);
    let nonce = sub_vec(file, n - 28, n - 16);
    let ciphertext = sub_vec(file, 0, n - 28);
    let mut key = derive_key(passphrase, &salt);
    let opened = decrypt(&key, &nonce, &ciphertext);
    wipe(&mut key);
    let ghost fnn = file@.len() as int;
    let ghost spec_key = kdf(passphrase@, file@.subrange(fnn - 16, fnn));
    let ghost spec_nonce = file@.subrange(fnn - 28, fnn - 16);
    let ghost spec_ct = file@.subrange(0, fnn - 28);
    match opened {
        Err(_) => {
            proof {
                assert forall|dv: DocumentModel|
                    !is_sealed_vault(file@, passphrase@, dv) by {
                    if is_sealed_vault(file@, passphrase@, dv) {
                        assert(spec_ct == aead_seal(spec_key, spec_nonce, json_of(dv)));
                        assert(false);
                    }
                }
            }
            Err(VaultError::AuthenticationFailed)
        },
        Ok(mut plaintext) => {
            let ghost pv = plaintext@;
            let parsed = parse_document(&plaintext);
            wipe(&mut plaintext);
            proof {
                assert(spec_ct == aead_seal(spec_key, spec_nonce, pv));
                assert forall|dv: DocumentModel|
                    is_sealed_vault(file@, passphrase@, dv) implies pv == json_of(dv) by {
                    assert(spec_ct == aead_seal(spec_key, spec_nonce, json_of(dv)));
                }
            }
            match parsed {
                Some(d) => {
                    proof {
                        assert(parse_document_spec(pv) == Some(d@));
                    }
                    Ok(d)
                },
                None => {
                    proof {
                        assert(parse_document_spec(pv) is None);
                        assert forall|dv: DocumentModel|
                            !is_sealed_vault(file@, passphrase@, dv) by {
                            if is_sealed_vault(file@, passphrase@, dv) {
                                assert(pv == json_of(dv));
                                crate::json_parser::lemma_document_complete(dv);
                                assert(false);
                            }
                        }
                    }
                    Err(VaultError::CorruptDocument)
                },
            }
        },
    }
}

} // verus!
