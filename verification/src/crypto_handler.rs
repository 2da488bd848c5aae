//! Key derivation from a password, and authenticated encryption under the
//! derived key.
//!
//! A nonce must not be used twice under one key: a second encryption under
//! the same key and nonce gives away both plaintexts and the means to forge
//! tags. Nothing here can check that. It is the caller's duty, at every call
//! of [`encrypted_data`].

use crate::error::CryptoError;
use crate::primitives::aes256_gcm_opened;
use crate::primitives::aes256_gcm_sealed;
use crate::primitives::open;
use crate::primitives::pbkdf2_hmac_sha256_32;
use crate::primitives::pbkdf2_key;
use crate::primitives::random_byte;
use crate::primitives::seal;
use crate::primitives::tag_altered;
use crate::primitives::thread_rng;
use crate::primitives::KEY_LEN;
use crate::primitives::MAX_PLAINTEXT_LEN;
use crate::primitives::NONCE_LEN;
use crate::primitives::TAG_LEN;
use crate::text::is_whitespace;
use crate::text::string_from_utf8;
use crate::text::trim;
use crate::text::trim_end;
use crate::text::trim_start;
use crate::text::trimmed;
use vstd::prelude::*;
use vstd::utf8::decode_utf8;
use vstd::utf8::encode_utf8;
use vstd::utf8::encode_utf8_decode_utf8;
use vstd::utf8::encode_utf8_valid_utf8;
use vstd::utf8::valid_utf8;

verus! {

/// The number of rounds of the key derivation.
pub const KDF_ROUNDS: u32 = 4096;

/// The key that belongs to a password and a salt: the password is taken
/// without its leading and trailing whitespace and as UTF-8, the salt as it
/// is, an empty one too.
pub open spec fn derived_key(password: Seq<char>, salt: Seq<u8>) -> Seq<u8> {
    pbkdf2_hmac_sha256_32(encode_utf8(trimmed(password)), salt, KDF_ROUNDS)
}

/// Whether a key and a nonce have the lengths that the cipher asks for.
pub open spec fn key_and_nonce_fit(key: Seq<u8>, nonce: Seq<u8>) -> bool {
    key.len() == KEY_LEN && nonce.len() == NONCE_LEN
}

/// What encrypting gives: the ciphertext, or `InvalidKeyOrNonce` where the
/// key or the nonce has the wrong length.
pub open spec fn encrypt_outcome(plaintext: Seq<u8>, key: Seq<u8>, nonce: Seq<u8>) -> Result<
    Seq<u8>,
    CryptoError,
> {
    if !key_and_nonce_fit(key, nonce) {
        Err(CryptoError::InvalidKeyOrNonce)
    } else {
        Ok(aes256_gcm_sealed(key, nonce, plaintext))
    }
}

/// What decrypting gives: the plaintext; `InvalidKeyOrNonce` where the key or
/// the nonce has the wrong length; `Authentication` where the tag does not
/// verify.
pub open spec fn decrypt_outcome(ciphertext: Seq<u8>, key: Seq<u8>, nonce: Seq<u8>) -> Result<
    Seq<u8>,
    CryptoError,
> {
    if !key_and_nonce_fit(key, nonce) {
        Err(CryptoError::InvalidKeyOrNonce)
    } else {
        match aes256_gcm_opened(key, nonce, ciphertext) {
            Some(plaintext) => Ok(plaintext),
            None => Err(CryptoError::Authentication),
        }
    }
}

/// What decrypting to text gives: what decrypting gives, read as UTF-8, and
/// `Encoding` where the plaintext is not valid UTF-8.
pub open spec fn decrypt_text_outcome(ciphertext: Seq<u8>, key: Seq<u8>, nonce: Seq<u8>) -> Result<
    Seq<char>,
    CryptoError,
> {
    match decrypt_outcome(ciphertext, key, nonce) {
        Err(e) => Err(e),
        Ok(plaintext) => if valid_utf8(plaintext) {
            Ok(decode_utf8(plaintext))
        } else {
            Err(CryptoError::Encoding)
        },
    }
}

/// A salt of the given length, from the thread's random number generator.
/// Length 0 gives the empty salt.
pub fn generate_salt(length: usize) -> (salt: Vec<u8>)
    ensures
        salt@.len() == length,
{
    let mut rng = thread_rng();
    let mut salt: Vec<u8> = Vec::new();
    let mut i: usize = 0;
    while i < length
        invariant
            i <= length,
            salt@.len() == i,
        decreases length - i,
    {
        salt.push(random_byte(&mut rng));
        i += 1;
    }
    salt
}

/// Derives the key of 32 bytes that belongs to a password and a salt.
///
/// Whitespace around the password does not count. The salt is used as it
/// is: an empty salt is accepted and not replaced, though no vault should
/// use one. The derivation succeeds on every input.
pub fn derive_key(user_password: &str, salt: &[u8]) -> (r: Result<[u8; 32], CryptoError>)
    ensures
        r matches Ok(key) && key@ == derived_key(user_password@, salt@),
{
    let password = trim(user_password);
    Ok(pbkdf2_key(password.as_bytes(), salt, KDF_ROUNDS))
}

/// Encrypts the data under a key of 32 bytes and a nonce of 12 bytes.
///
/// A key or a nonce of another length is refused with `InvalidKeyOrNonce`,
/// whatever the data; on every other input the call succeeds. The ciphertext
/// is a tag longer than the data, and decrypting it under the same key and
/// nonce gives the data back, while decrypting it with its tag altered fails
/// with `Authentication`. Under a fitting key and nonce the data must
/// not be longer than the cipher takes.
pub fn encrypted_data(data: &[u8], user_key: &[u8], user_nonce: &[u8]) -> (r: Result<
    Vec<u8>,
    CryptoError,
>)
    requires
        key_and_nonce_fit(user_key@, user_nonce@) ==> data@.len() <= MAX_PLAINTEXT_LEN,
    ensures
        match r {
            Ok(sealed) => encrypt_outcome(data@, user_key@, user_nonce@) == Ok::<
                Seq<u8>,
                CryptoError,
            >(sealed@),
            Err(e) => encrypt_outcome(data@, user_key@, user_nonce@) == Err::<Seq<u8>, CryptoError>(
                e,
            ),
        },
        r matches Ok(sealed) ==> sealed@.len() == data@.len() + TAG_LEN,
        r matches Ok(sealed) ==> decrypt_outcome(sealed@, user_key@, user_nonce@) == Ok::<
            Seq<u8>,
            CryptoError,
        >(data@),
        r matches Ok(sealed) ==> forall|other: Seq<u8>|
            tag_altered(sealed@, other) ==> #[trigger] decrypt_outcome(
                other,
                user_key@,
                user_nonce@,
            ) == Err::<Seq<u8>, CryptoError>(CryptoError::Authentication),
{
    if user_key.len() != KEY_LEN || user_nonce.len() != NONCE_LEN {
        return Err(CryptoError::InvalidKeyOrNonce);
    }
    match seal(user_key, user_nonce, data) {
        Some(sealed) => Ok(sealed),
        // Not reached: the cipher refuses only a plaintext that is too long.
        None => Err(CryptoError::InvalidKeyOrNonce),
    }
}

/// Decrypts a ciphertext under a key of 32 bytes and a nonce of 12 bytes.
///
/// A key or a nonce of another length is refused with `InvalidKeyOrNonce`.
/// Where the tag does not verify (another key, another nonce, a ciphertext
/// that was altered or cut short) the call fails with `Authentication`.
pub fn decrypted_bytes(data: &[u8], user_key: &[u8], user_nonce: &[u8]) -> (r: Result<
    Vec<u8>,
    CryptoError,
>)
    ensures
        match r {
            Ok(plaintext) => decrypt_outcome(data@, user_key@, user_nonce@) == Ok::<
                Seq<u8>,
                CryptoError,
            >(plaintext@),
            Err(e) => decrypt_outcome(data@, user_key@, user_nonce@) == Err::<Seq<u8>, CryptoError>(
                e,
            ),
        },
        key_and_nonce_fit(user_key@, user_nonce@) && data@.len() < TAG_LEN ==> r == Err::<
            Vec<u8>,
            CryptoError,
        >(CryptoError::Authentication),
{
    if user_key.len() != KEY_LEN || user_nonce.len() != NONCE_LEN {
        return Err(CryptoError::InvalidKeyOrNonce);
    }
    match open(user_key, user_nonce, data) {
        Some(plaintext) => Ok(plaintext),
        None => Err(CryptoError::Authentication),
    }
}

/// Decrypts a ciphertext to text.
///
/// Fails as [`decrypted_bytes`] does, and with `Encoding` where the
/// plaintext is not valid UTF-8.
pub fn decrypted_data(data: Vec<u8>, user_key: &[u8], user_nonce: &[u8]) -> (r: Result<
    String,
    CryptoError,
>)
    ensures
        match r {
            Ok(text) => decrypt_text_outcome(data@, user_key@, user_nonce@) == Ok::<
                Seq<char>,
                CryptoError,
            >(text@),
            Err(e) => decrypt_text_outcome(data@, user_key@, user_nonce@) == Err::<
                Seq<char>,
                CryptoError,
            >(e),
        },
        key_and_nonce_fit(user_key@, user_nonce@) && data@.len() < TAG_LEN ==> r == Err::<
            String,
            CryptoError,
        >(CryptoError::Authentication),
{
    let plaintext = match decrypted_bytes(data.as_slice(), user_key, user_nonce) {
        Ok(plaintext) => plaintext,
        Err(e) => {
            return Err(e);
        },
    };
    match string_from_utf8(plaintext) {
        Some(text) => Ok(text),
        None => Err(CryptoError::Encoding),
    }
}

/// What is left of a string after its leading whitespace is gone is an end
/// piece of the string that does not begin with whitespace.
proof fn lemma_trim_start(s: Seq<char>)
    ensures
        trim_start(s).len() <= s.len(),
        trim_start(s) == s.skip(s.len() - trim_start(s).len()),
        trim_start(s).len() > 0 ==> !is_whitespace(trim_start(s).first()),
    decreases s.len(),
{
    if s.len() > 0 && is_whitespace(s.first()) {
        let rest = s.drop_first();
        lemma_trim_start(rest);
        assert(rest.skip(rest.len() - trim_start(rest).len()) == s.skip(
            s.len() - trim_start(rest).len(),
        ));
    } else {
        assert(s.skip(0) == s);
    }
}

/// What is left of a string after its trailing whitespace is gone is a
/// beginning of the string that does not end with whitespace.
proof fn lemma_trim_end(s: Seq<char>)
    ensures
        trim_end(s).len() <= s.len(),
        trim_end(s) == s.take(trim_end(s).len() as int),
        trim_end(s).len() > 0 ==> !is_whitespace(trim_end(s).last()),
    decreases s.len(),
{
    if s.len() > 0 && is_whitespace(s.last()) {
        let rest = s.drop_last();
        lemma_trim_end(rest);
        assert(rest.take(trim_end(rest).len() as int) == s.take(trim_end(rest).len() as int));
    } else {
        assert(s.take(s.len() as int) == s);
    }
}

/// Trimming a trimmed string changes nothing.
pub proof fn lemma_trimmed_is_idempotent(s: Seq<char>)
    ensures
        trimmed(trimmed(s)) == trimmed(s),
{
    let front = trim_start(s);
    let both = trim_end(front);
    lemma_trim_start(s);
    lemma_trim_end(front);
    if both.len() > 0 {
        assert(both.first() == front.first());
    }
    assert(trim_start(both) == both);
    assert(trim_end(both) == both);
}

/// Whitespace around a password does not count: the password and the
/// password without it have the same key, whatever the salt.
pub proof fn lemma_key_ignores_surrounding_whitespace(password: Seq<char>, salt: Seq<u8>)
    ensures
        derived_key(trimmed(password), salt) == derived_key(password, salt),
{
    lemma_trimmed_is_idempotent(password);
}

/// A whitespace character at the end of a string does not change what is
/// left of the string after trimming.
proof fn lemma_trailing_whitespace(s: Seq<char>, c: char)
    requires
        is_whitespace(c),
    ensures
        trimmed(s.push(c)) == trimmed(s),
    decreases s.len(),
{
    if s.len() == 0 {
        assert(s.push(c).drop_first() == s);
    } else if is_whitespace(s.first()) {
        assert(s.push(c).drop_first() == s.drop_first().push(c));
        lemma_trailing_whitespace(s.drop_first(), c);
    } else {
        assert(s.push(c).drop_last() == s);
    }
}

/// A space on each side of a password does not count: the password between
/// them has the same key.
pub proof fn lemma_key_ignores_spaces_around(password: Seq<char>, salt: Seq<u8>)
    ensures
        derived_key(seq![' '] + password + seq![' '], salt) == derived_key(password, salt),
{
    let spaced = seq![' '] + password + seq![' '];
    assert(is_whitespace(' '));
    assert(spaced.drop_first() == password.push(' '));
    assert(trim_start(spaced) == trim_start(password.push(' ')));
    lemma_trailing_whitespace(password, ' ');
}

/// Key derivation is a function of the password and the salt: the same
/// password and the same salt have the same key.
pub proof fn lemma_derived_key_is_deterministic(
    password: Seq<char>,
    salt: Seq<u8>,
    other_password: Seq<char>,
    other_salt: Seq<u8>,
)
    requires
        password == other_password,
        salt == other_salt,
    ensures
        derived_key(password, salt) == derived_key(other_password, other_salt),
{
}

/// Whatever fails the cipher's tag check fails with `Authentication`, as
/// bytes and as text: another key, another nonce or an altered ciphertext is
/// told in no other way, and never comes back as a plaintext.
pub proof fn lemma_failed_tag_is_an_authentication_error(
    ciphertext: Seq<u8>,
    key: Seq<u8>,
    nonce: Seq<u8>,
)
    requires
        key_and_nonce_fit(key, nonce),
        aes256_gcm_opened(key, nonce, ciphertext) is None,
    ensures
        decrypt_outcome(ciphertext, key, nonce) == Err::<Seq<u8>, CryptoError>(
            CryptoError::Authentication,
        ),
        decrypt_text_outcome(ciphertext, key, nonce) == Err::<Seq<char>, CryptoError>(
            CryptoError::Authentication,
        ),
{
}

/// A ciphertext that decrypts to the UTF-8 bytes of a text decrypts, as
/// text, to that text.
pub proof fn lemma_text_comes_back(
    text: Seq<char>,
    ciphertext: Seq<u8>,
    key: Seq<u8>,
    nonce: Seq<u8>,
)
    requires
        decrypt_outcome(ciphertext, key, nonce) == Ok::<Seq<u8>, CryptoError>(encode_utf8(text)),
    ensures
        decrypt_text_outcome(ciphertext, key, nonce) == Ok::<Seq<char>, CryptoError>(text),
{
    encode_utf8_valid_utf8(text);
    encode_utf8_decode_utf8(text);
}

} // verus!
