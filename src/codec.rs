//! Authenticated encryption of the serialized vault under the master key
//! (AES-256-GCM, no associated data).
use vstd::prelude::*;
use crate::key::{KEY_LEN, SecureKey, os_random_bytes};

verus! {

/// Length of a nonce, in bytes.
pub const NONCE_LEN: usize = 12;

/// Length of the authentication tag that ends a ciphertext, in bytes.
pub const TAG_LEN: usize = 16;

/// The longest plaintext AES-GCM encrypts, in bytes.
pub const MAX_PLAINTEXT_BYTES: u64 = 0x10_0000_0000;

/// What the vault operations can fail with.
#[derive(Debug, Clone, Copy, PartialEq, Eq, Structural)]
pub enum VaultError {
    /// The secret store could not be read or written.
    KeyStore,
    /// Encryption failed.
    Crypto,
    /// The ciphertext, nonce or key do not belong together.
    AuthenticationFailure,
    /// A file could not be read, written or renamed.
    Io,
    /// An input was rejected before any work was done.
    Validation,
}

/// What AES-256-GCM encryption makes of `plaintext` under `key` and `nonce`:
/// ciphertext followed by tag, or `None` where it refuses the input.
pub uninterp spec fn gcm_seal_of(key: Seq<u8>, nonce: Seq<u8>, plaintext: Seq<u8>) -> Option<Seq<u8>>;

/// What AES-256-GCM decryption makes of `ciphertext` under `key` and `nonce`:
/// the plaintext, or `None` where authentication fails.
pub uninterp spec fn gcm_open_of(key: Seq<u8>, nonce: Seq<u8>, ciphertext: Seq<u8>) -> Option<Seq<u8>>;

/// Relies on `aes_gcm::Aes256Gcm` with `Aead::encrypt`, which refuses only
/// plaintexts longer than `MAX_PLAINTEXT_BYTES`, and appends a `TAG_LEN`-byte
/// tag to a body as long as the plaintext.
#[verifier::external_body]
fn gcm_seal(key: &[u8], nonce: &[u8], plaintext: &[u8]) -> (r: Option<Vec<u8>>)
    requires
        key@.len() == KEY_LEN,
        nonce@.len() == NONCE_LEN,
    ensures
        match r {
            Some(c) => gcm_seal_of(key@, nonce@, plaintext@) == Some(c@),
            None => gcm_seal_of(key@, nonce@, plaintext@) is None,
        },
        r is None ==> plaintext@.len() > MAX_PLAINTEXT_BYTES,
        r is Some ==> r->0@.len() == plaintext@.len() + TAG_LEN,
{
    let cipher = <aes_gcm::Aes256Gcm as aes_gcm::KeyInit>::new_from_slice(key).ok()?;
    aes_gcm::aead::Aead::encrypt(&cipher, aes_gcm::Nonce::from_slice(nonce), plaintext).ok()
}

/// Relies on `aes_gcm::Aes256Gcm` with `Aead::decrypt`, which gives back the
/// plaintext that `Aead::encrypt` sealed under the same key and nonce.
#[verifier::external_body]
fn gcm_open(key: &[u8], nonce: &[u8], ciphertext: &[u8]) -> (r: Option<Vec<u8>>)
    requires
        key@.len() == KEY_LEN,
        nonce@.len() == NONCE_LEN,
    ensures
        match r {
            Some(p) => gcm_open_of(key@, nonce@, ciphertext@) == Some(p@),
            None => gcm_open_of(key@, nonce@, ciphertext@) is None,
        },
        forall|p: Seq<u8>|
            #[trigger] gcm_seal_of(key@, nonce@, p) == Some(ciphertext@) ==> r is Some && r->0@
                == p,
{
    let cipher = <aes_gcm::Aes256Gcm as aes_gcm::KeyInit>::new_from_slice(key).ok()?;
    aes_gcm::aead::Aead::decrypt(&cipher, aes_gcm::Nonce::from_slice(nonce), ciphertext).ok()
}

/// A sealed vault: the ciphertext with its tag, and the nonce it was made under.
pub struct Sealed {
    pub ciphertext: Vec<u8>,
    pub nonce: Vec<u8>,
}

/// Encrypts `plaintext` under `key` and the given `nonce`.
pub fn encrypt_with_nonce(plaintext: &[u8], key: &SecureKey, nonce: Vec<u8>) -> (r: Result<
    Sealed,
    VaultError,
>)
    requires
        key@.len() == KEY_LEN,
        nonce@.len() == NONCE_LEN,
    ensures
        match r {
            Ok(s) => s.nonce@ == nonce@ && gcm_seal_of(key@, nonce@, plaintext@) == Some(
                s.ciphertext@,
            ) && s.ciphertext@.len() == plaintext@.len() + TAG_LEN,
            Err(e) => e == VaultError::Crypto && gcm_seal_of(key@, nonce@, plaintext@) is None,
        },
        plaintext@.len() <= MAX_PLAINTEXT_BYTES ==> r is Ok,
{
    match gcm_seal(key.as_slice(), nonce.as_slice(), plaintext) {
        Some(ciphertext) => Ok(Sealed { ciphertext, nonce }),
        None => Err(VaultError::Crypto),
    }
}

/// Encrypts `plaintext` under `key` and a fresh nonce from the operating
/// system's secure generator. Fails with `Crypto` where the generator fails
/// or the plaintext is too long.
pub fn encrypt(plaintext: &[u8], key: &SecureKey) -> (r: Result<Sealed, VaultError>)
    requires
        key@.len() == KEY_LEN,
    ensures
        match r {
            Ok(s) => s.nonce@.len() == NONCE_LEN && gcm_seal_of(key@, s.nonce@, plaintext@) == Some(
                s.ciphertext@,
            ) && s.ciphertext@.len() == plaintext@.len() + TAG_LEN,
            Err(e) => e == VaultError::Crypto,
        },
{
    match os_random_bytes(NONCE_LEN) {
        Some(nonce) => encrypt_with_nonce(plaintext, key, nonce),
        None => Err(VaultError::Crypto),
    }
}

/// Decrypts `ciphertext` under `key` and `nonce`. A nonce of the wrong length
/// is refused with `Validation` before any decryption; a failed authentication
/// gives `AuthenticationFailure`. Whatever `encrypt` sealed under this key and
/// nonce comes back unchanged.
pub fn decrypt(ciphertext: &[u8], nonce: &[u8], key: &SecureKey) -> (r: Result<Vec<u8>, VaultError>)
    requires
        key@.len() == KEY_LEN,
    ensures
        nonce@.len() != NONCE_LEN ==> r == Err::<Vec<u8>, VaultError>(VaultError::Validation),
        nonce@.len() == NONCE_LEN ==> match r {
            Ok(p) => gcm_open_of(key@, nonce@, ciphertext@) == Some(p@),
            Err(e) => e == VaultError::AuthenticationFailure && gcm_open_of(
                key@,
                nonce@,
                ciphertext@,
            ) is None,
        },
        forall|p: Seq<u8>|
            nonce@.len() == NONCE_LEN && #[trigger] gcm_seal_of(key@, nonce@, p) == Some(
                ciphertext@,
            ) ==> (r matches Ok(q) && q@ == p),
{
    if nonce.len() != NONCE_LEN {
        return Err(VaultError::Validation);
    }
    match gcm_open(key.as_slice(), nonce, ciphertext) {
        Some(p) => Ok(p),
        None => Err(VaultError::AuthenticationFailure),
    }
}

} // verus!
