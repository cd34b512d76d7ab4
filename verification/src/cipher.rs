//! Authenticated encryption of stored files.
//!
//! A stored file is the nonce followed by the AES-256-GCM ciphertext of its
//! contents, tag included.
use aes_gcm::aead::Aead;
use aes_gcm::KeyInit;
use crate::random::random_nonce;
use vstd::prelude::*;

verus! {

/// Length in bytes of a nonce.
pub const NONCE_LEN: usize = 12;

/// Length in bytes of the tag that ends a ciphertext.
pub const TAG_LEN: usize = 16;

/// Longest plaintext, in bytes, that the cipher accepts.
pub const MAX_PLAINTEXT: u64 = 0x10_0000_0000;

/// The error of the cipher, which carries no information.
#[verifier::external_type_specification]
#[verifier::external_body]
pub struct ExAeadError(aes_gcm::Error);

/// What AES-256-GCM makes of a plaintext of at most [`MAX_PLAINTEXT`] bytes
/// under a key and a nonce, with no associated data.
pub uninterp spec fn aes256gcm_encrypt(key: Seq<u8>, nonce: Seq<u8>, plaintext: Seq<u8>) -> Seq<u8>;

/// The plaintext that AES-256-GCM recovers from a ciphertext under a key and a
/// nonce, with no associated data, or `None` where it rejects the ciphertext.
pub uninterp spec fn aes256gcm_decrypt(key: Seq<u8>, nonce: Seq<u8>, ciphertext: Seq<u8>) -> Option<
    Seq<u8>,
>;

/// Calls `Aes256Gcm::encrypt`.
///
/// Claims that a plaintext within the length limit is always encrypted, that
/// the ciphertext depends on key, nonce and plaintext alone and is longer than
/// the plaintext by the tag, and that decrypting it under the same key and
/// nonce gives the plaintext back.
#[verifier::external_body]
fn encrypt(key: &[u8; 32], nonce: &[u8; 12], plaintext: &[u8]) -> (result: Result<
    Vec<u8>,
    aes_gcm::Error,
>)
    requires
        plaintext@.len() <= MAX_PLAINTEXT,
        plaintext@.len() + TAG_LEN <= isize::MAX,
    ensures
        result is Ok,
        result matches Ok(c) ==> {
            &&& c@ == aes256gcm_encrypt(key@, nonce@, plaintext@)
            &&& c@.len() == plaintext@.len() + TAG_LEN
            &&& aes256gcm_decrypt(key@, nonce@, c@) == Some(plaintext@)
        },
{
    aes_gcm::Aes256Gcm::new(&(*key).into()).encrypt(&(*nonce).into(), plaintext)
}

/// Calls `Aes256Gcm::decrypt`.
///
/// Claims that whether the ciphertext is accepted, and what plaintext comes
/// out, depend on key, nonce and ciphertext alone, and that an accepted
/// ciphertext is longer than its plaintext by the tag.
#[verifier::external_body]
fn decrypt(key: &[u8; 32], nonce: &[u8; 12], ciphertext: &[u8]) -> (result: Result<
    Vec<u8>,
    aes_gcm::Error,
>)
    ensures
        match result {
            Ok(p) => {
                &&& aes256gcm_decrypt(key@, nonce@, ciphertext@) == Some(p@)
                &&& ciphertext@.len() == p@.len() + TAG_LEN
            },
            Err(_) => aes256gcm_decrypt(key@, nonce@, ciphertext@) is None,
        },
{
    aes_gcm::Aes256Gcm::new(&(*key).into()).decrypt(&(*nonce).into(), ciphertext)
}

/// The key under which a node stores files.
#[derive(Clone, Copy)]
pub struct EncryptionKey {
    bytes: [u8; 32],
}

impl View for EncryptionKey {
    type V = Seq<u8>;

    closed spec fn view(&self) -> Seq<u8> {
        self.bytes@
    }
}

impl EncryptionKey {
    /// The key made of the given bytes.
    pub fn new(bytes: [u8; 32]) -> (key: Self)
        ensures
            key@ == bytes@,
    {
        EncryptionKey { bytes }
    }
}

/// Why stored bytes did not open.
#[derive(Clone, Copy, Debug, PartialEq, Eq)]
pub enum OpenError {
    /// They are shorter than a nonce.
    TooShort,
    /// The cipher rejected them.
    Refused,
}

/// Whether contents of the given length can be encrypted: the cipher takes them
/// and the ciphertext can be held in memory.
pub open spec fn encryptable(len: nat) -> bool {
    len <= MAX_PLAINTEXT && len + TAG_LEN <= isize::MAX
}

/// What is stored for `data` under a key and a nonce.
pub open spec fn sealed(key: Seq<u8>, nonce: Seq<u8>, data: Seq<u8>) -> Option<Seq<u8>> {
    if encryptable(data.len()) {
        Some(nonce + aes256gcm_encrypt(key, nonce, data))
    } else {
        None
    }
}

/// What stored bytes hold under a key.
pub open spec fn opened(key: Seq<u8>, stored: Seq<u8>) -> Result<Seq<u8>, OpenError> {
    if stored.len() < NONCE_LEN {
        Err(OpenError::TooShort)
    } else {
        match aes256gcm_decrypt(key, stored.take(NONCE_LEN as int), stored.skip(NONCE_LEN as int)) {
            Some(data) => Ok(data),
            None => Err(OpenError::Refused),
        }
    }
}

/// The contents of bytes that may be absent.
pub open spec fn opt_bytes(bytes: Option<Vec<u8>>) -> Option<Seq<u8>> {
    match bytes {
        Some(b) => Some(b@),
        None => None,
    }
}

/// The contents of bytes that may have failed to open.
pub open spec fn open_result(result: Result<Vec<u8>, OpenError>) -> Result<Seq<u8>, OpenError> {
    match result {
        Ok(b) => Ok(b@),
        Err(e) => Err(e),
    }
}

/// What to store for `data`, encrypted under `nonce`: it opens to `data` again.
pub fn seal(key: &EncryptionKey, nonce: &[u8; 12], data: &[u8]) -> (stored: Option<Vec<u8>>)
    ensures
        opt_bytes(stored) == sealed(key@, nonce@, data@),
        stored matches Some(s) ==> {
            &&& s@.len() == NONCE_LEN + data@.len() + TAG_LEN
            &&& opened(key@, s@) == Ok::<Seq<u8>, OpenError>(data@)
        },
{
    if data.len() as u64 > MAX_PLAINTEXT || data.len() > isize::MAX as usize - TAG_LEN {
        return None;
    }
    match encrypt(&key.bytes, nonce, data) {
        Ok(ciphertext) => {
            let stored = frame(nonce, &ciphertext);
            assert(stored@.take(NONCE_LEN as int) == nonce@);
            assert(stored@.skip(NONCE_LEN as int) == ciphertext@);
            Some(stored)
        },
        Err(_) => None,
    }
}

/// The nonce followed by the ciphertext.
pub fn frame(nonce: &[u8; 12], ciphertext: &[u8]) -> (stored: Vec<u8>)
    ensures
        stored@ == nonce@ + ciphertext@,
{
    let mut stored: Vec<u8> = Vec::new();
    stored.extend_from_slice(nonce.as_slice());
    stored.extend_from_slice(ciphertext);
    assert(stored@ =~= nonce@ + ciphertext@);
    stored
}

/// The nonce and the ciphertext of stored bytes, unless they are too short.
pub fn unframe(stored: &[u8]) -> (parts: Option<([u8; 12], &[u8])>)
    ensures
        parts is Some <==> stored@.len() >= NONCE_LEN,
        parts matches Some((nonce, ciphertext)) ==> {
            &&& nonce@ == stored@.take(NONCE_LEN as int)
            &&& ciphertext@ == stored@.skip(NONCE_LEN as int)
        },
{
    if stored.len() < NONCE_LEN {
        return None;
    }
    let mut nonce: [u8; 12] = [0u8; 12];
    let mut i: usize = 0;
    while i < NONCE_LEN
        invariant
            i <= NONCE_LEN <= stored@.len(),
            nonce@.take(i as int) == stored@.take(i as int),
        decreases NONCE_LEN - i,
    {
        nonce[i] = stored[i];
        assert(nonce@.take(i + 1) =~= nonce@.take(i as int).push(stored@[i as int]));
        assert(stored@.take(i + 1) =~= stored@.take(i as int).push(stored@[i as int]));
        i = i + 1;
    }
    assert(nonce@ =~= nonce@.take(NONCE_LEN as int));
    let ciphertext = vstd::slice::slice_subrange(stored, NONCE_LEN, stored.len());
    assert(ciphertext@ =~= stored@.skip(NONCE_LEN as int));
    Some((nonce, ciphertext))
}

/// What `stored` holds.
pub fn open(key: &EncryptionKey, stored: &[u8]) -> (data: Result<Vec<u8>, OpenError>)
    ensures
        open_result(data) == opened(key@, stored@),
{
    match unframe(stored) {
        None => Err(OpenError::TooShort),
        Some((nonce, ciphertext)) => match decrypt(&key.bytes, &nonce, ciphertext) {
            Ok(data) => Ok(data),
            Err(_) => Err(OpenError::Refused),
        },
    }
}

/// What to store for `data`, encrypted under a nonce drawn at random.
pub fn seal_fresh(key: &EncryptionKey, data: &[u8]) -> (stored: Option<Vec<u8>>)
    ensures
        stored is Some <==> encryptable(data@.len()),
        stored matches Some(s) ==> {
            &&& s@.len() == NONCE_LEN + data@.len() + TAG_LEN
            &&& sealed(key@, s@.take(NONCE_LEN as int), data@) == Some(s@)
            &&& opened(key@, s@) == Ok::<Seq<u8>, OpenError>(data@)
        },
{
    let nonce = random_nonce();
    let stored = seal(key, &nonce, data);
    proof {
        if stored is Some {
            assert(stored->Some_0@.take(NONCE_LEN as int) == nonce@);
        }
    }
    stored
}

/// What is stored is the nonce, twelve bytes of it, and behind it the ciphertext of
/// all the data and of nothing else; and it is stored for all data that the cipher
/// takes and memory holds.
pub proof fn law_nonce_stands_before_the_ciphertext(key: Seq<u8>, nonce: Seq<u8>, data: Seq<u8>)
    requires
        nonce.len() == 12,
    ensures
        sealed(key, nonce, data) is Some <==> data.len() <= 68719476736 && data.len() + 16
            <= isize::MAX,
        sealed(key, nonce, data) matches Some(stored) ==> stored.take(12) == nonce && stored.skip(
            12,
        ) == aes256gcm_encrypt(key, nonce, data),
{
    if let Some(stored) = sealed(key, nonce, data) {
        assert(stored.take(12) =~= nonce);
        assert(stored.skip(12) =~= aes256gcm_encrypt(key, nonce, data));
    }
}

/// What is opened is the ciphertext behind a nonce of twelve bytes: what the cipher
/// recovers from it is all that comes out, and where it recovers nothing, or where
/// there is no room for a nonce, nothing does.
pub proof fn law_ciphertext_behind_the_nonce_is_opened(
    key: Seq<u8>,
    nonce: Seq<u8>,
    ciphertext: Seq<u8>,
    short: Seq<u8>,
)
    requires
        nonce.len() == 12,
        short.len() < 12,
    ensures
        aes256gcm_decrypt(key, nonce, ciphertext) matches Some(data) ==> opened(
            key,
            nonce + ciphertext,
        ) == Ok::<Seq<u8>, OpenError>(data),
        aes256gcm_decrypt(key, nonce, ciphertext) is None ==> opened(key, nonce + ciphertext)
            == Err::<Seq<u8>, OpenError>(OpenError::Refused),
        opened(key, short) == Err::<Seq<u8>, OpenError>(OpenError::TooShort),
{
    let stored = nonce + ciphertext;
    assert(stored.take(12) =~= nonce);
    assert(stored.skip(12) =~= ciphertext);
}

/// What is seen of bytes that may be absent, or may not have opened, is all of them.
pub proof fn law_bytes_are_seen_as_they_are(bytes: Vec<u8>, error: OpenError)
    ensures
        opt_bytes(Some(bytes)) == Some(bytes@),
        opt_bytes(None) is None,
        open_result(Ok(bytes)) == Ok::<Seq<u8>, OpenError>(bytes@),
        open_result(Err(error)) == Err::<Seq<u8>, OpenError>(error),
{
}

/// What is sealed opens to the same bytes under the same key, whatever the bytes and
/// whatever the nonce, be it given or drawn.
pub proof fn law_what_is_sealed_opens_again(
    key: EncryptionKey,
    nonce: [u8; 12],
    data: &[u8],
    given: Vec<u8>,
    drawn: Vec<u8>,
    stored: &[u8],
    again: Result<Vec<u8>, OpenError>,
)
    requires
        call_ensures(seal, (&key, &nonce, data), Some(given)),
        call_ensures(seal_fresh, (&key, data), Some(drawn)),
        stored@ == given@ || stored@ == drawn@,
        call_ensures(open, (&key, stored), again),
    ensures
        again matches Ok(bytes) && bytes@ == data@,
        stored@.len() == 12 + data@.len() + 16,
        given@.take(12) == nonce@,
{
    law_nonce_stands_before_the_ciphertext(key@, nonce@, data@);
}

} // verus!
