//! The cipher: a 32-byte key set exactly once, authenticated sealing of
//! document text into `nonce || ciphertext || tag` blobs, and opening of such
//! blobs back into text.

use vstd::prelude::*;

use crate::CoreError;
use vstd::string::StringSliceAdditionalSpecFns;
use vstd::utf8::decode_utf8;
use vstd::utf8::encode_utf8;
use vstd::utf8::valid_utf8;

verus! {

/// Number of bytes of the nonce that leads a sealed blob.
pub const NONCE_LEN: usize = 12;

/// Number of bytes of the authentication tag that ends a sealed blob.
pub const TAG_LEN: usize = 16;

/// Least length of a well-formed sealed blob: a nonce and a tag.
pub const MIN_SEALED_LEN: usize = NONCE_LEN + TAG_LEN;

/// Largest plaintext the cipher accepts in one call, in bytes
/// (the AES-GCM message limit, 2^36 - 32).
pub const MAX_PLAINTEXT_LEN: u64 = 68719476704;

/// The ciphertext-with-tag that AES-256-GCM produces from a key, a nonce and a
/// plaintext; a fixed function of the three.
pub uninterp spec fn gcm_ct(key: Seq<u8>, nonce: Seq<u8>, plaintext: Seq<u8>) -> Seq<u8>;

/// What AES-256-GCM decryption returns for a key, a nonce and a
/// ciphertext-with-tag: the plaintext, or nothing when the tag does not
/// verify; a fixed function of the three.
pub uninterp spec fn gcm_pt(key: Seq<u8>, nonce: Seq<u8>, ciphertext: Seq<u8>) -> Option<Seq<u8>>;

/// The 32-byte key derived from a seed: the seed's bytes truncated to 32, or
/// zero-padded up to 32.
pub open spec fn derived_key(seed: Seq<u8>) -> Seq<u8> {
    Seq::new(32, |i: int| if i < seed.len() { seed[i] } else { 0u8 })
}

/// `blob` is a sealed form of `plaintext` under `key`: a 12-byte nonce
/// followed by the ciphertext-with-tag for that nonce, and opening it with the
/// same key gives `plaintext` back.
pub open spec fn is_sealed(key: Seq<u8>, blob: Seq<u8>, plaintext: Seq<u8>) -> bool {
    &&& blob.len() == plaintext.len() + 28
    &&& blob.subrange(12, blob.len() as int) == gcm_ct(key, blob.subrange(0, 12), plaintext)
    &&& gcm_pt(key, blob.subrange(0, 12), blob.subrange(12, blob.len() as int)) == Some(plaintext)
}

/// Everything opening a blob can come to.
pub ghost enum OpenOutcome {
    /// Shorter than a nonce and a tag together.
    Malformed,
    /// The authentication tag did not verify.
    Unauthenticated,
    /// Authentic, but the plaintext is not valid document text.
    NotDocumentText,
    /// Authentic document text.
    Document(Seq<char>),
}

/// What opening `blob` under `key` comes to.
pub open spec fn open_outcome(key: Seq<u8>, blob: Seq<u8>) -> OpenOutcome {
    if blob.len() < 28 {
        OpenOutcome::Malformed
    } else {
        match gcm_pt(key, blob.subrange(0, 12), blob.subrange(12, blob.len() as int)) {
            Option::None => OpenOutcome::Unauthenticated,
            Option::Some(pt) => if valid_utf8(pt) {
                OpenOutcome::Document(decode_utf8(pt))
            } else {
                OpenOutcome::NotDocumentText
            },
        }
    }
}

/// The cipher's whole state: the key, once one has been set.
pub struct Cipher {
    key: Option<Vec<u8>>,
}

impl Cipher {
    /// The key is 32 bytes long whenever one is set.
    pub closed spec fn wf(self) -> bool {
        self.key matches Some(k) ==> k@.len() == 32
    }

    /// Whether a key has been set.
    pub closed spec fn is_initialized(self) -> bool {
        self.key is Some
    }

    /// The bytes of the key that was set.
    pub closed spec fn key_bytes(self) -> Seq<u8> {
        self.key->Some_0@
    }

    /// A cipher with no key set yet.
    pub fn new() -> (r: Cipher)
        ensures
            r.wf(),
            !r.is_initialized(),
    {
        Cipher { key: None }
    }
}

/// Relies on `crypto_common::Generate` for `[u8; N]`: fills the array from the
/// operating system's cryptographically secure random source. Panics only if
/// that source itself fails, which no input can bring about.
#[verifier::external_body]
fn os_random_bytes<const N: usize>() -> (r: Vec<u8>)
    ensures
        r@.len() == N,
{
    let bytes: [u8; N] = aes_gcm::aead::Generate::generate();
    bytes.to_vec()
}

/// Relies on `Aes256Gcm` (AES-256-GCM) encryption through `aead::Aead`: for a
/// 32-byte key, a 12-byte nonce and a plaintext within the message limit it
/// returns the ciphertext followed by the 16-byte tag, a fixed function of the
/// three arguments, and decrypting that output with the same key and nonce
/// returns the plaintext. Encryption cannot fail below the message limit,
/// which the `requires` holds every caller to.
#[verifier::external_body]
fn aead_seal(key: &Vec<u8>, nonce: &Vec<u8>, plaintext: &[u8]) -> (r: Vec<u8>)
    requires
        key@.len() == 32,
        nonce@.len() == 12,
        plaintext@.len() <= MAX_PLAINTEXT_LEN,
    ensures
        r@ == gcm_ct(key@, nonce@, plaintext@),
        r@.len() == plaintext@.len() + 16,
        gcm_pt(key@, nonce@, r@) == Some(plaintext@),
{
    let k = aes_gcm::Key::<aes_gcm::Aes256Gcm>::try_from(key.as_slice()).unwrap();
    let cipher = <aes_gcm::Aes256Gcm as aes_gcm::KeyInit>::new(&k);
    let n = aes_gcm::Nonce::<aes_gcm::aead::consts::U12>::try_from(nonce.as_slice()).unwrap();
    aes_gcm::aead::Aead::encrypt(&cipher, &n, plaintext).unwrap()
}

/// Relies on `Aes256Gcm` (AES-256-GCM) decryption through `aead::Aead`: for a
/// 32-byte key and a 12-byte nonce it returns the plaintext exactly when the
/// tag verifies, and nothing otherwise; a fixed function of the arguments.
#[verifier::external_body]
fn aead_open(key: &Vec<u8>, nonce: &[u8], ciphertext: &[u8]) -> (r: Option<Vec<u8>>)
    requires
        key@.len() == 32,
        nonce@.len() == 12,
    ensures
        match r {
            Some(p) => gcm_pt(key@, nonce@, ciphertext@) == Some(p@),
            None => gcm_pt(key@, nonce@, ciphertext@) is None,
        },
{
    let k = aes_gcm::Key::<aes_gcm::Aes256Gcm>::try_from(key.as_slice()).unwrap();
    let cipher = <aes_gcm::Aes256Gcm as aes_gcm::KeyInit>::new(&k);
    let n = aes_gcm::Nonce::<aes_gcm::aead::consts::U12>::try_from(nonce).unwrap();
    aes_gcm::aead::Aead::decrypt(&cipher, &n, ciphertext).ok()
}

/// Relies on `String::from_utf8`: succeeds exactly on valid UTF-8 and returns
/// the text those bytes encode.
#[verifier::external_body]
fn bytes_to_string(bytes: Vec<u8>) -> (r: Option<String>)
    ensures
        match r {
            Some(s) => valid_utf8(bytes@) && s@ == decode_utf8(bytes@),
            None => !valid_utf8(bytes@),
        },
{
    String::from_utf8(bytes).ok()
}

/// The 32-byte key derived from `seed` by truncating or zero-padding its
/// bytes.
fn derive_key_bytes(seed: &str) -> (r: Vec<u8>)
    ensures
        r@ == derived_key(seed.spec_bytes()),
        r@.len() == 32,
{
    let bytes = seed.as_bytes();
    let mut out: Vec<u8> = Vec::new();
    let mut i: usize = 0;
    while i < 32
        invariant
            i <= 32,
            out@.len() == i,
            forall|j: int|
                0 <= j < i ==> out@[j] == (if j < bytes@.len() {
                    bytes@[j]
                } else {
                    0u8
                }),
        decreases 32 - i,
    {
        if i < bytes.len() {
            out.push(bytes[i]);
        } else {
            out.push(0);
        }
        i = i + 1;
    }
    proof {
        assert(out@ =~= derived_key(seed.spec_bytes()));
    }
    out
}

/// Set the cipher's key: derive it from `key` when a seed is given, else draw
/// 32 random bytes. Rejects a second initialization and leaves the first key
/// standing.
pub fn init_encryption_key(cipher: &mut Cipher, key: Option<&str>) -> (r: Result<(), CoreError>)
    requires
        old(cipher).wf(),
    ensures
        final(cipher).wf(),
        old(cipher).is_initialized() ==> r == Err::<(), CoreError>(CoreError::AlreadyInitialized)
            && *final(cipher) == *old(cipher),
        !old(cipher).is_initialized() ==> r == Ok::<(), CoreError>(())
            && final(cipher).is_initialized(),
        !old(cipher).is_initialized() ==> final(cipher).key_bytes().len() == 32,
        !old(cipher).is_initialized() ==> (key matches Some(seed) ==> final(cipher).key_bytes()
            == derived_key(seed.spec_bytes())),
{
    if cipher.key.is_some() {
        return Err(CoreError::AlreadyInitialized);
    }
    let key_bytes = match key {
        Some(seed) => derive_key_bytes(seed),
        None => os_random_bytes::<32>(),
    };
    cipher.key = Some(key_bytes);
    Ok(())
}

/// The key that was set, or `NotInitialized` before any was.
pub fn get_key(cipher: &Cipher) -> (r: Result<&Vec<u8>, CoreError>)
    ensures
        cipher.is_initialized() <==> r is Ok,
        r matches Ok(k) ==> k@ == cipher.key_bytes(),
        !cipher.is_initialized() ==> r == Err::<&Vec<u8>, CoreError>(CoreError::NotInitialized),
{
    match &cipher.key {
        Some(k) => Ok(k),
        None => Err(CoreError::NotInitialized),
    }
}

/// Seal document text: a fresh random 12-byte nonce, then the
/// ciphertext-with-tag for it, as one blob.
pub fn encrypt_data(cipher: &Cipher, plaintext: &str) -> (r: Result<Vec<u8>, CoreError>)
    requires
        cipher.wf(),
        plaintext.spec_bytes().len() <= MAX_PLAINTEXT_LEN,
    ensures
        r is Ok <==> cipher.is_initialized(),
        !cipher.is_initialized() ==> r == Err::<Vec<u8>, CoreError>(CoreError::NotInitialized),
        r matches Ok(blob) ==> is_sealed(cipher.key_bytes(), blob@, plaintext.spec_bytes()),
{
    let key = match &cipher.key {
        Some(k) => k,
        None => { return Err(CoreError::NotInitialized) },
    };
    let nonce = os_random_bytes::<12>();
    let mut ciphertext = aead_seal(key, &nonce, plaintext.as_bytes());
    let ghost nonce_seq = nonce@;
    let ghost ct_seq = ciphertext@;
    let mut blob = nonce;
    blob.append(&mut ciphertext);
    proof {
        assert(blob@ == nonce_seq + ct_seq);
        assert(blob@.subrange(0, 12) =~= nonce_seq);
        assert(blob@.subrange(12, blob@.len() as int) =~= ct_seq);
    }
    Ok(blob)
}

/// Open a sealed blob: reject anything shorter than a nonce and a tag, verify
/// the tag, and return the document text.
pub fn decrypt_data(cipher: &Cipher, encrypted: &[u8]) -> (r: Result<String, CoreError>)
    requires
        cipher.wf(),
    ensures
        encrypted@.len() < 28 ==> r == Err::<String, CoreError>(CoreError::MalformedInput),
        encrypted@.len() >= 28 && !cipher.is_initialized() ==> r == Err::<String, CoreError>(
            CoreError::NotInitialized,
        ),
        cipher.is_initialized() ==> match open_outcome(cipher.key_bytes(), encrypted@) {
            OpenOutcome::Malformed => r == Err::<String, CoreError>(CoreError::MalformedInput),
            OpenOutcome::Unauthenticated => r == Err::<String, CoreError>(
                CoreError::AuthenticationFailure,
            ),
            OpenOutcome::NotDocumentText => r == Err::<String, CoreError>(
                CoreError::InvalidEncoding,
            ),
            OpenOutcome::Document(d) => r matches Ok(s) && s@ == d,
        },
{
    if encrypted.len() < MIN_SEALED_LEN {
        return Err(CoreError::MalformedInput);
    }
    let key = match &cipher.key {
        Some(k) => k,
        None => { return Err(CoreError::NotInitialized) },
    };
    let nonce: &[u8] = &encrypted[0..NONCE_LEN];
    let ciphertext: &[u8] = &encrypted[NONCE_LEN..encrypted.len()];
    match aead_open(key, nonce, ciphertext) {
        None => Err(CoreError::AuthenticationFailure),
        Some(plain_bytes) => match bytes_to_string(plain_bytes) {
            None => Err(CoreError::InvalidEncoding),
            Some(text) => Ok(text),
        },
    }
}

/// Round trip: a blob that seals document `d` under a key opens under the same
/// key to `d` again.
pub proof fn lemma_seal_open_round_trip(key: Seq<u8>, blob: Seq<u8>, document: Seq<char>)
    requires
        is_sealed(key, blob, encode_utf8(document)),
    ensures
        open_outcome(key, blob) == OpenOutcome::Document(document),
{
    broadcast use vstd::utf8::encode_utf8_valid_utf8;
    broadcast use vstd::utf8::encode_utf8_decode_utf8;

}

} // verus!
