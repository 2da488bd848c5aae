//! The cryptographic crates, as far as the library calls them: `pbkdf2` with
//! `sha2`, `aes-gcm`, and `rand`. Nothing in this file is proved: each
//! contract states what the crate's source shows, and the verified code in
//! `crypto_handler` rests on it.

use aes_gcm::aead::Aead;
use aes_gcm::Aes256Gcm;
use aes_gcm::Key;
use aes_gcm::KeyInit;
use aes_gcm::Nonce;
use rand::rngs::ThreadRng;
use rand::Rng;
use sha2::Sha256;
use vstd::prelude::*;

verus! {

/// Length of a key, in bytes.
pub const KEY_LEN: usize = 32;

/// Length of a nonce, in bytes.
pub const NONCE_LEN: usize = 12;

/// Length of the authentication tag that ends every ciphertext, in bytes.
pub const TAG_LEN: usize = 16;

/// The longest plaintext that the cipher takes, in bytes.
pub const MAX_PLAINTEXT_LEN: u64 = 0x10_0000_0000;

#[verifier::external_type_specification]
#[verifier::external_body]
pub struct ExThreadRng(ThreadRng);

/// The 32 bytes that PBKDF2 with HMAC-SHA-256 derives from a password and a
/// salt in the given number of rounds.
pub uninterp spec fn pbkdf2_hmac_sha256_32(password: Seq<u8>, salt: Seq<u8>, rounds: u32) -> Seq<u8>;

/// The ciphertext, tag included, that AES-256-GCM makes of a plaintext under
/// a key of 32 bytes and a nonce of 12 bytes, without associated data.
pub uninterp spec fn aes256_gcm_sealed(key: Seq<u8>, nonce: Seq<u8>, plaintext: Seq<u8>) -> Seq<u8>;

/// The plaintext that AES-256-GCM gives back for a ciphertext under a key of
/// 32 bytes and a nonce of 12 bytes, without associated data; `None` where
/// the tag does not verify.
pub uninterp spec fn aes256_gcm_opened(key: Seq<u8>, nonce: Seq<u8>, ciphertext: Seq<u8>) -> Option<
    Seq<u8>,
>;

/// Whether `other` is the ciphertext `sealed` with another tag: as long, the
/// same up to the tag, and not the same in the tag.
pub open spec fn tag_altered(sealed: Seq<u8>, other: Seq<u8>) -> bool {
    &&& sealed.len() >= TAG_LEN
    &&& other.len() == sealed.len()
    &&& other.take(sealed.len() - TAG_LEN) == sealed.take(sealed.len() - TAG_LEN)
    &&& other != sealed
}

/// `pbkdf2::pbkdf2_hmac_array` with SHA-256 and 32 bytes of output. It takes
/// a password and a salt of any length and does not fail.
#[verifier::external_body]
pub(crate) fn pbkdf2_key(password: &[u8], salt: &[u8], rounds: u32) -> (key: [u8; 32])
    ensures
        key@ == pbkdf2_hmac_sha256_32(password@, salt@, rounds),
{
    pbkdf2::pbkdf2_hmac_array::<Sha256, 32>(password, salt, rounds)
}

/// `Aead::encrypt` of `aes_gcm::Aes256Gcm`. It fails exactly on a plaintext
/// longer than the cipher takes. The ciphertext is the plaintext's length and
/// a tag long, and `Aead::decrypt` under the same key and nonce gives the
/// plaintext back. It refuses what differs from the ciphertext in the tag
/// alone: it computes the tag anew from the bytes before it and compares.
/// The key and the nonce are turned into arrays of their fixed lengths,
/// which panics on any other length.
#[verifier::external_body]
pub(crate) fn seal(key: &[u8], nonce: &[u8], plaintext: &[u8]) -> (r: Option<Vec<u8>>)
    requires
        key@.len() == KEY_LEN,
        nonce@.len() == NONCE_LEN,
    ensures
        r is Some <==> plaintext@.len() <= MAX_PLAINTEXT_LEN,
        r matches Some(sealed) ==> sealed@ == aes256_gcm_sealed(key@, nonce@, plaintext@),
        r matches Some(sealed) ==> sealed@.len() == plaintext@.len() + TAG_LEN,
        r matches Some(sealed) ==> aes256_gcm_opened(key@, nonce@, sealed@) == Some(plaintext@),
        r matches Some(sealed) ==> forall|other: Seq<u8>|
            tag_altered(sealed@, other) ==> #[trigger] aes256_gcm_opened(key@, nonce@, other)
                is None,
{
    let cipher = Aes256Gcm::new(Key::<Aes256Gcm>::from_slice(key));
    cipher.encrypt(Nonce::from_slice(nonce), plaintext).ok()
}

/// `Aead::decrypt` of `aes_gcm::Aes256Gcm`. It fails where the tag does not
/// verify, which includes every ciphertext shorter than a tag. The key and
/// the nonce are turned into arrays of their fixed lengths, which panics on
/// any other length.
#[verifier::external_body]
pub(crate) fn open(key: &[u8], nonce: &[u8], ciphertext: &[u8]) -> (r: Option<Vec<u8>>)
    requires
        key@.len() == KEY_LEN,
        nonce@.len() == NONCE_LEN,
    ensures
        match r {
            Some(plaintext) => aes256_gcm_opened(key@, nonce@, ciphertext@) == Some(plaintext@),
            None => aes256_gcm_opened(key@, nonce@, ciphertext@) is None,
        },
        ciphertext@.len() < TAG_LEN ==> r is None,
{
    let cipher = Aes256Gcm::new(Key::<Aes256Gcm>::from_slice(key));
    cipher.decrypt(Nonce::from_slice(nonce), ciphertext).ok()
}

/// `rand::thread_rng`: the handle of this thread's generator, which the
/// operating system seeds.
#[verifier::external_body]
pub(crate) fn thread_rng() -> ThreadRng {
    rand::thread_rng()
}

/// `Rng::gen` for one byte. Nothing is claimed of the byte.
#[verifier::external_body]
pub(crate) fn random_byte(rng: &mut ThreadRng) -> u8 {
    rng.gen()
}

} // verus!
