//! Custody of the master key: reading it from a secret-store entry, creating a
//! fresh one, and wiping key material from memory.
use vstd::prelude::*;

verus! {

/// Length of the master key, in bytes.
pub const KEY_LEN: usize = 32;

/// What `base64::decode` makes of a text: the bytes, or `None` where the text
/// is not padded standard base64.
pub uninterp spec fn base64_decode_of(s: Seq<char>) -> Option<Seq<u8>>;

/// What `base64::encode` makes of bytes.
pub uninterp spec fn base64_encode_of(b: Seq<u8>) -> Seq<char>;

/// Relies on `base64::decode` (standard alphabet, padded).
#[verifier::external_body]
#[allow(deprecated)]
fn base64_decode(s: &str) -> (r: Option<Vec<u8>>)
    ensures
        match r {
            Some(v) => base64_decode_of(s@) == Some(v@),
            None => base64_decode_of(s@) is None,
        },
{
    base64::decode(s).ok()
}

/// Relies on `base64::encode` (standard alphabet, padded), whose output
/// `base64::decode` turns back into the same bytes.
#[verifier::external_body]
#[allow(deprecated)]
fn base64_encode(b: &[u8]) -> (r: String)
    ensures
        r@ == base64_encode_of(b@),
        base64_decode_of(r@) == Some(b@),
{
    base64::encode(b)
}

/// Relies on `rand::rngs::OsRng::try_fill_bytes`: `n` bytes from the operating
/// system's secure generator, or `None` where the generator failed.
#[verifier::external_body]
pub(crate) fn os_random_bytes(n: usize) -> (r: Option<Vec<u8>>)
    ensures
        r matches Some(v) ==> v@.len() == n,
{
    let mut buf = vec![0u8; n];
    rand::RngCore::try_fill_bytes(&mut rand::rngs::OsRng, &mut buf).ok().map(|_| buf)
}

/// Relies on `zeroize::Zeroize` for `Vec<u8>`: every byte is overwritten with
/// zero, then the vector is cleared.
#[verifier::external_body]
pub(crate) fn wipe(v: &mut Vec<u8>)
    ensures
        final(v)@.len() == 0,
    opens_invariants none
    no_unwind
{
    zeroize::Zeroize::zeroize(v)
}

/// Key material that is wiped when it is dropped.
pub struct SecureKey {
    bytes: Vec<u8>,
}

impl View for SecureKey {
    type V = Seq<u8>;

    closed spec fn view(&self) -> Seq<u8> {
        self.bytes@
    }
}

impl SecureKey {
    /// Takes ownership of `bytes` as key material.
    pub fn from_bytes(bytes: Vec<u8>) -> (r: SecureKey)
        ensures
            r@ == bytes@,
    {
        SecureKey { bytes }
    }

    /// The key's bytes.
    pub fn as_slice(&self) -> (r: &[u8])
        ensures
            r@ == self@,
    {
        self.bytes.as_slice()
    }

    /// Overwrites the key material now; the key is empty afterwards.
    pub fn wipe(&mut self)
        ensures
            final(self)@.len() == 0,
    {
        wipe(&mut self.bytes);
    }
}

impl Drop for SecureKey {
    fn drop(&mut self)
        opens_invariants none
        no_unwind
    {
        wipe(&mut self.bytes);
    }
}

/// The key that the secret-store entry `entry` holds: its base64 decoding,
/// where that is `KEY_LEN` bytes long. Any other entry is corrupt.
pub open spec fn stored_key(entry: Seq<char>) -> Option<Seq<u8>> {
    match base64_decode_of(entry) {
        Some(b) => if b.len() == KEY_LEN {
            Some(b)
        } else {
            None
        },
        None => None,
    }
}

/// Reads the key out of a secret-store entry; `None` where the entry is
/// corrupt and a new key must be made. A buffer decoded from a corrupt entry
/// is wiped before it is released.
pub fn key_from_entry(encoded: &str) -> (r: Option<SecureKey>)
    ensures
        match r {
            Some(k) => stored_key(encoded@) == Some(k@),
            None => stored_key(encoded@) is None,
        },
{
    match base64_decode(encoded) {
        Some(decoded) => {
            if decoded.len() == KEY_LEN {
                Some(SecureKey::from_bytes(decoded))
            } else {
                let mut discarded = decoded;
                wipe(&mut discarded);
                None
            }
        },
        None => None,
    }
}

/// A freshly made key, and the secret-store entry that holds it.
pub struct NewKey {
    pub key: SecureKey,
    pub entry: String,
}

/// Draws a fresh key from the operating system's secure generator and encodes
/// it for the secret store; `None` where the generator failed. Reading the
/// entry back gives the same key.
pub fn generate_key() -> (r: Option<NewKey>)
    ensures
        r matches Some(n) ==> n.key@.len() == KEY_LEN && stored_key(n.entry@) == Some(n.key@),
{
    match os_random_bytes(KEY_LEN) {
        Some(bytes) => {
            let entry = base64_encode(bytes.as_slice());
            Some(NewKey { key: SecureKey::from_bytes(bytes), entry })
        },
        None => None,
    }
}

/// What reading the master key's entry from the secret store gave.
pub enum StoreRead {
    /// The entry's text.
    Entry(String),
    /// The store holds no such entry, or one that is not text.
    NoEntry,
    /// The store could not be reached or read.
    Unavailable,
}

/// The key that a store read yields, where it yields a valid one.
pub open spec fn read_key(read: StoreRead) -> Option<Seq<u8>> {
    match read {
        StoreRead::Entry(e) => stored_key(e@),
        _ => None,
    }
}

/// What one fetch of the master key decides.
pub enum KeyFetch {
    /// The entry held a key.
    Found(SecureKey),
    /// The entry was absent or corrupt: a new key was made, and its entry must
    /// be written to the secret store before the key is used.
    Created(NewKey),
    /// The entry was absent or corrupt, and no new key could be made.
    Failed,
    /// The secret store could not be read: nothing is made, so that no stored
    /// key is overwritten.
    StoreUnavailable,
}

/// The decision of one key fetch on what the secret store gave: the stored
/// key where the entry holds one, a new key where there is no entry or a
/// corrupt one, and a failure where the store could not be read. So two
/// fetches on one store state give the same key, and a fetch after a created
/// key's entry was written gives that key.
pub fn fetch_key(read: &StoreRead) -> (r: KeyFetch)
    ensures
        match r {
            KeyFetch::Found(k) => read_key(*read) == Some(k@),
            KeyFetch::Created(n) => !(*read is Unavailable) && read_key(*read) is None
                && n.key@.len() == KEY_LEN && stored_key(n.entry@) == Some(n.key@),
            KeyFetch::Failed => !(*read is Unavailable) && read_key(*read) is None,
            KeyFetch::StoreUnavailable => *read is Unavailable,
        },
{
    match read {
        StoreRead::Unavailable => {
            return KeyFetch::StoreUnavailable;
        },
        StoreRead::Entry(encoded) => {
            if let Some(key) = key_from_entry(encoded.as_str()) {
                return KeyFetch::Found(key);
            }
        },
        StoreRead::NoEntry => {},
    }
    match generate_key() {
        Some(n) => KeyFetch::Created(n),
        None => KeyFetch::Failed,
    }
}

} // verus!
