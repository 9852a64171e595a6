//! The decisions of the vault's write path (validate, then seal) and read
//! path (decrypt what is stored, or fall back to the empty vault).
use vstd::prelude::*;
use crate::codec::{NONCE_LEN, TAG_LEN, Sealed, VaultError, decrypt, encrypt, gcm_open_of, gcm_seal_of};
use crate::key::{KEY_LEN, SecureKey, wipe};
use vstd::string::StringSliceAdditionalSpecFns;
use vstd::utf8::encode_utf8;

verus! {

/// The largest serialized vault that is saved, in bytes.
pub const MAX_VAULT_BYTES: usize = 10000000;

/// What `String::from_utf8_lossy` makes of bytes.
pub uninterp spec fn utf8_lossy_of(b: Seq<u8>) -> Seq<char>;

/// Relies on `String::from_utf8_lossy`: the text of `b`, each invalid sequence
/// replaced by U+FFFD; valid UTF-8 reads back as the text it encodes.
#[verifier::external_body]
fn utf8_lossy(b: &[u8]) -> (r: String)
    ensures
        r@ == utf8_lossy_of(b@),
        forall|t: Seq<char>| #[trigger] encode_utf8(t) == b@ ==> r@ == t,
{
    String::from_utf8_lossy(b).into_owned()
}

/// The serialized empty vault, which the read path returns on any failure.
pub open spec fn empty_vault_text() -> Seq<char> {
    "[]"@
}

/// The serialized empty vault.
pub fn empty_vault() -> (r: String)
    ensures
        r@ == empty_vault_text(),
{
    "[]".to_owned()
}

/// A serialized vault is saved only when it is neither empty nor over
/// `MAX_VAULT_BYTES` bytes.
pub open spec fn payload_ok(bytes: Seq<u8>) -> bool {
    0 < bytes.len() <= MAX_VAULT_BYTES
}

/// Checks a serialized vault before any work is done for it.
pub fn check_payload(passwords: &str) -> (r: Result<(), VaultError>)
    ensures
        payload_ok(passwords.spec_bytes()) ==> r is Ok,
        !payload_ok(passwords.spec_bytes()) ==> r == Err::<(), VaultError>(VaultError::Validation),
{
    let bytes = passwords.as_bytes();
    if bytes.len() == 0 || bytes.len() > MAX_VAULT_BYTES {
        Err(VaultError::Validation)
    } else {
        Ok(())
    }
}

/// The write path's work: validates the serialized vault, then seals it under
/// `key` and a fresh nonce.
pub fn seal_vault(passwords: &str, key: &SecureKey) -> (r: Result<Sealed, VaultError>)
    requires
        key@.len() == KEY_LEN,
    ensures
        !payload_ok(passwords.spec_bytes()) ==> r == Err::<Sealed, VaultError>(
            VaultError::Validation,
        ),
        payload_ok(passwords.spec_bytes()) ==> match r {
            Ok(s) => s.nonce@.len() == NONCE_LEN && gcm_seal_of(
                key@,
                s.nonce@,
                passwords.spec_bytes(),
            ) == Some(s.ciphertext@) && s.ciphertext@.len() == passwords.spec_bytes().len()
                + TAG_LEN,
            Err(e) => e == VaultError::Crypto,
        },
{
    check_payload(passwords)?;
    encrypt(passwords.as_bytes(), key)
}

pub open spec fn bytes_of(o: Option<Vec<u8>>) -> Option<Seq<u8>> {
    match o {
        Some(v) => Some(v@),
        None => None,
    }
}

pub open spec fn key_of(o: Option<SecureKey>) -> Option<Seq<u8>> {
    match o {
        Some(k) => Some(k@),
        None => None,
    }
}

/// Whether the read path goes on to fetch the key: both files were read and
/// the nonce has the right length.
pub open spec fn load_wants_key(ciphertext: Option<Seq<u8>>, nonce: Option<Seq<u8>>) -> bool {
    ciphertext is Some && nonce is Some && nonce->0.len() == NONCE_LEN
}

/// What the read path returns: the decrypted vault, read as text, or the empty
/// vault where a file or the key is missing, the nonce or key has the wrong
/// length, or authentication fails.
pub open spec fn load_model(
    ciphertext: Option<Seq<u8>>,
    nonce: Option<Seq<u8>>,
    key: Option<Seq<u8>>,
) -> Seq<char> {
    if load_wants_key(ciphertext, nonce) && key is Some && key->0.len() == KEY_LEN {
        match gcm_open_of(key->0, nonce->0, ciphertext->0) {
            Some(p) => utf8_lossy_of(p),
            None => empty_vault_text(),
        }
    } else {
        empty_vault_text()
    }
}

/// Whether the read path needs the key for what it read.
pub fn wants_key(ciphertext: &Option<Vec<u8>>, nonce: &Option<Vec<u8>>) -> (r: bool)
    ensures
        r == load_wants_key(bytes_of(*ciphertext), bytes_of(*nonce)),
{
    match (ciphertext, nonce) {
        (Some(_), Some(n)) => n.len() == NONCE_LEN,
        _ => false,
    }
}

/// The read path's work on what was read: never fails, and wipes the
/// decrypted buffer once it is turned into text. What was sealed under this
/// key and nonce loads back as its text, and a sealed text as itself.
pub fn load_vault(ciphertext: Option<Vec<u8>>, nonce: Option<Vec<u8>>, key: Option<SecureKey>) -> (r:
    String)
    ensures
        r@ == load_model(bytes_of(ciphertext), bytes_of(nonce), key_of(key)),
        forall|p: Seq<u8>|
            ciphertext is Some && nonce is Some && key is Some && nonce->0@.len() == NONCE_LEN
                && key->0@.len() == KEY_LEN && #[trigger] gcm_seal_of(
                key->0@,
                nonce->0@,
                p,
            ) == Some(ciphertext->0@) ==> r@ == utf8_lossy_of(p),
        forall|t: Seq<char>|
            ciphertext is Some && nonce is Some && key is Some && nonce->0@.len() == NONCE_LEN
                && key->0@.len() == KEY_LEN && #[trigger] gcm_seal_of(
                key->0@,
                nonce->0@,
                encode_utf8(t),
            ) == Some(ciphertext->0@) ==> r@ == t,
{
    match (ciphertext, nonce, key) {
        (Some(c), Some(n), Some(k)) => {
            if n.len() != NONCE_LEN || k.as_slice().len() != KEY_LEN {
                return empty_vault();
            }
            match decrypt(c.as_slice(), n.as_slice(), &k) {
                Ok(plain) => {
                    let text = utf8_lossy(plain.as_slice());
                    let mut plain = plain;
                    wipe(&mut plain);
                    text
                },
                Err(_) => empty_vault(),
            }
        },
        _ => empty_vault(),
    }
}

} // verus!
