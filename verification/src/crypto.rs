//! Authenticated encryption of opaque byte payloads under a 256-bit key.
//!
//! A wire frame is `nonce (12 bytes) || ciphertext || tag (16 bytes)`; the
//! nonce is drawn fresh at random for every encryption.

use vstd::prelude::*;
use chacha20poly1305::aead::{Aead, NewAead};
use chacha20poly1305::{ChaCha20Poly1305, Key, Nonce};
use rand::Rng;

verus! {

/// Length of the nonce that prefixes every frame.
pub const NONCE_LEN: usize = 12;

/// Length of the authentication tag that ends every frame.
pub const TAG_LEN: usize = 16;

/// Longest plaintext a single frame may carry.  The cipher itself runs its
/// 32-bit block counter out only far beyond this, so within the bound a
/// seal never fails.
pub const MAX_PLAINTEXT_LEN: usize = 0xFFFF_FFFF;

/// Why a frame could not be decrypted.
#[derive(Clone, Copy, Debug, PartialEq, Eq, Structural)]
pub enum CryptoError {
    /// The frame is shorter than the 12-byte nonce prefix.
    FrameTooShort,
    /// The authentication tag did not verify under the given key.
    AuthenticationFailed,
}

/// The ciphertext-plus-tag that the AEAD produces for a key, nonce and
/// plaintext; a pure function of the three.
pub uninterp spec fn seal_of(key: Seq<u8>, nonce: Seq<u8>, plaintext: Seq<u8>) -> Seq<u8>;

/// What opening a ciphertext-plus-tag under a key and nonce yields:
/// `Some(plaintext)` when the tag verifies, `None` otherwise; a pure
/// function of the three.
pub uninterp spec fn open_of(key: Seq<u8>, nonce: Seq<u8>, ciphertext: Seq<u8>) -> Option<Seq<u8>>;

/// What `decrypt` returns for a frame and key.
pub open spec fn spec_decrypt(frame: Seq<u8>, key: Seq<u8>) -> Result<Seq<u8>, CryptoError> {
    if frame.len() < 12 {
        Err(CryptoError::FrameTooShort)
    } else {
        match open_of(key, frame.subrange(0, 12), frame.subrange(12, frame.len() as int)) {
            Some(p) => Ok(p),
            None => Err(CryptoError::AuthenticationFailed),
        }
    }
}

/// Relies on `ChaCha20Poly1305::encrypt` (chacha20poly1305): returns the
/// ciphertext with the 16-byte tag appended, a deterministic function of
/// key, nonce and plaintext; opening it again under the same key and nonce
/// returns the plaintext (the AEAD round trip).  The cipher only refuses
/// plaintexts of 2^32 - 1 blocks or more, which the caller's bound rules out.
#[verifier::external_body]
fn aead_seal(key: &[u8; 32], nonce: &[u8; 12], plaintext: &[u8]) -> (r: Vec<u8>)
    requires
        plaintext@.len() <= MAX_PLAINTEXT_LEN,
    ensures
        r@ == seal_of(key@, nonce@, plaintext@),
        r@.len() == plaintext@.len() + 16,
        open_of(key@, nonce@, r@) == Some(plaintext@),
{
    let cipher = ChaCha20Poly1305::new(Key::from_slice(key));
    cipher.encrypt(Nonce::from_slice(nonce), plaintext).unwrap()
}

/// Relies on `ChaCha20Poly1305::decrypt` (chacha20poly1305): returns the
/// plaintext when the tag verifies under the key and nonce, an error
/// otherwise, a deterministic function of the three.
#[verifier::external_body]
fn aead_open(key: &[u8; 32], nonce: &[u8; 12], ciphertext: &[u8]) -> (r: Option<Vec<u8>>)
    ensures
        r matches Some(p) ==> open_of(key@, nonce@, ciphertext@) == Some(p@),
        r is Some <==> open_of(key@, nonce@, ciphertext@) is Some,
{
    let cipher = ChaCha20Poly1305::new(Key::from_slice(key));
    cipher.decrypt(Nonce::from_slice(nonce), ciphertext).ok()
}

/// Relies on `rand::thread_rng` and `Rng::fill` to fill 32 bytes with
/// randomness.  Nothing is promised of the value.
#[verifier::external_body]
pub fn generate_keypair() -> [u8; 32] {
    let mut rng = rand::thread_rng();
    let mut key = [0u8; 32];
    rng.fill(&mut key);
    key
}

/// Relies on `rand::thread_rng` and `Rng::fill` to fill 12 bytes with
/// randomness, for a fresh per-message nonce.  Nothing is promised of the
/// value.
#[verifier::external_body]
fn random_nonce() -> [u8; 12] {
    let mut rng = rand::thread_rng();
    let mut nonce = [0u8; 12];
    rng.fill(&mut nonce);
    nonce
}

/// Encrypts `data` under `key` into one frame: a fresh random 12-byte nonce,
/// then the ciphertext, then the 16-byte tag.  Decrypting the frame under
/// the same key gives `data` back.
pub fn encrypt(data: &[u8], key: &[u8; 32]) -> (frame: Vec<u8>)
    requires
        data@.len() <= MAX_PLAINTEXT_LEN,
    ensures
        frame@.len() == data@.len() + 28,
        spec_decrypt(frame@, key@) == Ok::<Seq<u8>, CryptoError>(data@),
{
    let nonce = random_nonce();
    let sealed = aead_seal(key, &nonce, data);
    let mut frame: Vec<u8> = Vec::new();
    frame.extend_from_slice(nonce.as_slice());
    frame.extend_from_slice(sealed.as_slice());
    proof {
        assert(frame@.subrange(0, 12) =~= nonce@);
        assert(frame@.subrange(12, frame@.len() as int) =~= sealed@);
    }
    frame
}

/// Decrypts one frame under `key`: fails with `FrameTooShort` when the frame
/// is under 12 bytes, with `AuthenticationFailed` when the tag does not
/// verify, and returns the original plaintext otherwise.
pub fn decrypt(frame: &[u8], key: &[u8; 32]) -> (r: Result<Vec<u8>, CryptoError>)
    ensures
        r matches Ok(p) ==> spec_decrypt(frame@, key@) == Ok::<Seq<u8>, CryptoError>(p@),
        r matches Err(e) ==> spec_decrypt(frame@, key@) == Err::<Seq<u8>, CryptoError>(e),
        r is Ok <==> spec_decrypt(frame@, key@) is Ok,
{
    if frame.len() < 12 {
        return Err(CryptoError::FrameTooShort);
    }
    let mut nonce = [0u8; 12];
    let mut i: usize = 0;
    while i < 12
        invariant
            i <= 12,
            frame@.len() >= 12,
            forall|j: int| 0 <= j < i ==> nonce@[j] == frame@[j],
        decreases 12 - i,
    {
        nonce[i] = frame[i];
        i = i + 1;
    }
    let ciphertext = vstd::slice::slice_subrange(frame, 12, frame.len());
    proof {
        assert(nonce@ =~= frame@.subrange(0, 12));
    }
    match aead_open(key, &nonce, ciphertext) {
        Some(p) => Ok(p),
        None => Err(CryptoError::AuthenticationFailed),
    }
}

} // verus!
