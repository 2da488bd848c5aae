use cabinet::crypto_handler::decrypted_bytes;
use cabinet::crypto_handler::decrypted_data;
use cabinet::crypto_handler::derive_key;
use cabinet::crypto_handler::encrypted_data;
use cabinet::crypto_handler::generate_salt;
use cabinet::crypto_handler::KDF_ROUNDS;
use cabinet::error::CryptoError;
use cabinet::primitives::KEY_LEN;
use cabinet::primitives::MAX_PLAINTEXT_LEN;
use cabinet::primitives::NONCE_LEN;
use cabinet::primitives::TAG_LEN;

fn hex(text: &str) -> Vec<u8> {
    (0..text.len() / 2).map(|i| u8::from_str_radix(&text[2 * i..2 * i + 2], 16).unwrap()).collect()
}

fn counting(n: u8) -> Vec<u8> {
    (0..n).collect()
}

#[test]
fn constants() {
    assert_eq!(KDF_ROUNDS, 4096);
    assert_eq!(KEY_LEN, 32);
    assert_eq!(NONCE_LEN, 12);
    assert_eq!(TAG_LEN, 16);
    assert_eq!(MAX_PLAINTEXT_LEN, 1u64 << 36);
}

#[test]
fn salt_has_the_length_asked_for() {
    assert_eq!(generate_salt(0), Vec::<u8>::new());
    assert_eq!(generate_salt(1).len(), 1);
    assert_eq!(generate_salt(16).len(), 16);
    assert_eq!(generate_salt(32).len(), 32);
    assert_eq!(generate_salt(1000).len(), 1000);
}

#[test]
fn salts_differ() {
    assert_ne!(generate_salt(32), generate_salt(32));
}

#[test]
fn derive_key_known_answer() {
    let key = derive_key("password", b"salt").unwrap();
    assert_eq!(
        key.to_vec(),
        hex("c5e478d59288c841aa530db6845c4c8d962893a001ce4e11a4963873aa98134a")
    );
}

#[test]
fn derive_key_is_deterministic() {
    let first = derive_key("correct horse", b"0123456789abcdef").unwrap();
    let second = derive_key("correct horse", b"0123456789abcdef").unwrap();
    assert_eq!(first, second);
    assert_eq!(first.len(), 32);
}

#[test]
fn derive_key_depends_on_salt_and_password() {
    let key = derive_key("correct horse", b"0123456789abcdef").unwrap();
    assert_ne!(key, derive_key("correct horse", b"0123456789abcdeg").unwrap());
    assert_ne!(key, derive_key("correct horsf", b"0123456789abcdef").unwrap());
}

#[test]
fn derive_key_trims_the_password() {
    let key = derive_key("password", b"salt").unwrap();
    assert_eq!(derive_key("  password", b"salt").unwrap(), key);
    assert_eq!(derive_key("password \t\r\n", b"salt").unwrap(), key);
    assert_eq!(derive_key("\u{a0}password\u{3000}\u{2028}", b"salt").unwrap(), key);
}

#[test]
fn derive_key_keeps_inner_whitespace() {
    let key = derive_key(" pass word ", b"NaCl").unwrap();
    assert_eq!(
        key.to_vec(),
        hex("f0255e29bb86d1c6166ace35e3adbecaae679ab1f9cb96783ea692ae46bccc3e")
    );
    assert_ne!(key, derive_key("password", b"NaCl").unwrap());
}

#[test]
fn derive_key_takes_the_password_as_utf8() {
    let key = derive_key("pässwörd", b"salt").unwrap();
    assert_eq!(
        key.to_vec(),
        hex("7aee4b7ca50d9b45480cd57eedd2f4b9fb2ba09cb7a05a592f7f8b56503efb90")
    );
}

#[test]
fn derive_key_accepts_an_empty_salt() {
    let key = derive_key("password", b"").unwrap();
    assert_eq!(
        key.to_vec(),
        hex("0420bef29f65c4f1fb833231a9b1287ffb7e3376dae4d27796b22c6f4a1a14f8")
    );
}

#[test]
fn derive_key_accepts_a_blank_password() {
    let key = derive_key(" \n ", b"salt").unwrap();
    assert_eq!(
        key.to_vec(),
        hex("ea25800b7cc40c98aa4f4ec410701524d18901c70cd8e1ee5650fd978ecbaa10")
    );
}

#[test]
fn encrypt_known_answers() {
    let key = [0u8; 32];
    let nonce = [0u8; 12];
    assert_eq!(encrypted_data(b"", &key, &nonce), Ok(hex("530f8afbc74536b9a963b4f1c4cb738b")));
    assert_eq!(
        encrypted_data(&[0u8; 16], &key, &nonce),
        Ok(hex("cea7403d4d606b6e074ec5d3baf39d18d0d1c8a799996bf0265b98b5d48ab919"))
    );
    assert_eq!(
        encrypted_data(b"hello world", &counting(32), &counting(12)),
        Ok(hex("2f67ba77aac5b574ff2df305301c56437e2377b98ef3961c271928"))
    );
}

#[test]
fn decrypt_known_answer() {
    let sealed = hex("2f67ba77aac5b574ff2df305301c56437e2377b98ef3961c271928");
    assert_eq!(decrypted_bytes(&sealed, &counting(32), &counting(12)), Ok(b"hello world".to_vec()));
    assert_eq!(decrypted_data(sealed, &counting(32), &counting(12)), Ok("hello world".to_string()));
}

#[test]
fn ciphertext_is_a_tag_longer() {
    let key = counting(32);
    let nonce = counting(12);
    for len in [0usize, 1, 15, 16, 17, 1000] {
        let sealed = encrypted_data(&vec![7u8; len], &key, &nonce).unwrap();
        assert_eq!(sealed.len(), len + 16);
    }
}

#[test]
fn round_trip() {
    let key = derive_key("password", b"salt").unwrap();
    let nonce = counting(12);
    for len in [0usize, 1, 16, 31, 4096] {
        let data: Vec<u8> = (0..len).map(|i| (i * 7 % 251) as u8).collect();
        let sealed = encrypted_data(&data, &key, &nonce).unwrap();
        assert_eq!(decrypted_bytes(&sealed, &key, &nonce), Ok(data));
    }
}

#[test]
fn round_trip_as_text() {
    let key = counting(32);
    let nonce = counting(12);
    let sealed = encrypted_data("grüße, 世界".as_bytes(), &key, &nonce).unwrap();
    assert_eq!(decrypted_data(sealed, &key, &nonce), Ok("grüße, 世界".to_string()));
}

#[test]
fn wrong_key_fails_authentication() {
    let key = counting(32);
    let nonce = counting(12);
    let sealed = encrypted_data(b"secret", &key, &nonce).unwrap();
    let mut other = key.clone();
    other[31] ^= 1;
    assert_eq!(decrypted_bytes(&sealed, &other, &nonce), Err(CryptoError::Authentication));
    assert_eq!(decrypted_data(sealed, &other, &nonce), Err(CryptoError::Authentication));
}

#[test]
fn wrong_nonce_fails_authentication() {
    let key = counting(32);
    let nonce = counting(12);
    let sealed = encrypted_data(b"secret", &key, &nonce).unwrap();
    let mut other = nonce.clone();
    other[0] ^= 0x80;
    assert_eq!(decrypted_bytes(&sealed, &key, &other), Err(CryptoError::Authentication));
}

#[test]
fn every_flipped_bit_fails_authentication() {
    let key = counting(32);
    let nonce = counting(12);
    let sealed = encrypted_data(b"secret", &key, &nonce).unwrap();
    for at in 0..sealed.len() {
        for bit in 0..8 {
            let mut altered = sealed.clone();
            altered[at] ^= 1 << bit;
            assert_eq!(decrypted_bytes(&altered, &key, &nonce), Err(CryptoError::Authentication));
        }
    }
}

#[test]
fn short_ciphertext_fails_authentication() {
    let key = counting(32);
    let nonce = counting(12);
    let sealed = encrypted_data(b"secret", &key, &nonce).unwrap();
    assert_eq!(decrypted_bytes(&[], &key, &nonce), Err(CryptoError::Authentication));
    assert_eq!(decrypted_bytes(&sealed[..15], &key, &nonce), Err(CryptoError::Authentication));
    assert_eq!(
        decrypted_bytes(&sealed[..sealed.len() - 1], &key, &nonce),
        Err(CryptoError::Authentication)
    );
}

#[test]
fn key_of_wrong_length_is_refused() {
    let nonce = counting(12);
    for len in [0u8, 16, 31, 33] {
        let key = counting(len);
        assert_eq!(encrypted_data(b"secret", &key, &nonce), Err(CryptoError::InvalidKeyOrNonce));
        assert_eq!(decrypted_bytes(b"secret", &key, &nonce), Err(CryptoError::InvalidKeyOrNonce));
        assert_eq!(
            decrypted_data(b"secret".to_vec(), &key, &nonce),
            Err(CryptoError::InvalidKeyOrNonce)
        );
    }
}

#[test]
fn nonce_of_wrong_length_is_refused() {
    let key = counting(32);
    for len in [0u8, 11, 13, 16] {
        let nonce = counting(len);
        assert_eq!(encrypted_data(b"secret", &key, &nonce), Err(CryptoError::InvalidKeyOrNonce));
        assert_eq!(decrypted_bytes(b"secret", &key, &nonce), Err(CryptoError::InvalidKeyOrNonce));
    }
}

#[test]
fn plaintext_that_is_not_text_is_an_encoding_error() {
    let key = counting(32);
    let nonce = counting(12);
    let sealed = encrypted_data(&[0xff, 0xfe, 0x00], &key, &nonce).unwrap();
    assert_eq!(decrypted_bytes(&sealed, &key, &nonce), Ok(vec![0xff, 0xfe, 0x00]));
    assert_eq!(decrypted_data(sealed, &key, &nonce), Err(CryptoError::Encoding));
}

#[test]
fn encryption_changes_the_data() {
    let key = counting(32);
    let nonce = counting(12);
    let data = vec![0x41u8; 64];
    let sealed = encrypted_data(&data, &key, &nonce).unwrap();
    assert_ne!(&sealed[..64], &data[..]);
}

#[test]
fn derived_key_opens_what_it_sealed() {
    let salt = generate_salt(16);
    let key = derive_key("  hunter2\n", &salt).unwrap();
    let sealed = encrypted_data(b"vault", &key, &counting(12)).unwrap();
    let again = derive_key("hunter2", &salt).unwrap();
    assert_eq!(decrypted_data(sealed.clone(), &again, &counting(12)), Ok("vault".to_string()));
    let wrong = derive_key("hunter3", &salt).unwrap();
    assert_eq!(decrypted_data(sealed, &wrong, &counting(12)), Err(CryptoError::Authentication));
}

const WHITE_SPACE: [u32; 25] = [
    0x09, 0x0A, 0x0B, 0x0C, 0x0D, 0x20, 0x85, 0xA0, 0x1680, 0x2000, 0x2001, 0x2002, 0x2003, 0x2004,
    0x2005, 0x2006, 0x2007, 0x2008, 0x2009, 0x200A, 0x2028, 0x2029, 0x202F, 0x205F, 0x3000,
];

#[test]
fn every_whitespace_character_is_trimmed() {
    let key = derive_key("password", b"salt").unwrap();
    for code in WHITE_SPACE {
        let c = char::from_u32(code).unwrap();
        assert_eq!(derive_key(&format!("{c}password{c}"), b"salt").unwrap(), key);
    }
}

#[test]
fn other_characters_are_not_trimmed() {
    let key = derive_key("password", b"salt").unwrap();
    for code in [0x08u32, 0x0E, 0x1F, 0x21, 0x5F, 0x84, 0x86, 0x9F, 0xA1, 0x180E, 0x200B, 0x2060, 0xFEFF] {
        let c = char::from_u32(code).unwrap();
        assert_ne!(derive_key(&format!("{c}password"), b"salt").unwrap(), key);
        assert_ne!(derive_key(&format!("password{c}"), b"salt").unwrap(), key);
    }
}

#[test]
fn whitespace_is_these_characters_and_no_others() {
    for code in 0..=0x10FFFFu32 {
        if let Some(c) = char::from_u32(code) {
            assert_eq!(format!("{c}").trim().is_empty(), WHITE_SPACE.contains(&code));
        }
    }
}

#[test]
fn empty_ciphertext_fails_authentication_as_text() {
    assert_eq!(decrypted_data(Vec::new(), &[0u8; 32], &[0u8; 12]), Err(CryptoError::Authentication));
    assert_eq!(decrypted_data(vec![0u8; 15], &[0u8; 32], &[0u8; 12]), Err(CryptoError::Authentication));
}

#[test]
fn altered_tag_fails_authentication() {
    let key = counting(32);
    let nonce = counting(12);
    let sealed = encrypted_data(b"secret", &key, &nonce).unwrap();
    for at in sealed.len() - 16..sealed.len() {
        let mut altered = sealed.clone();
        altered[at] = altered[at].wrapping_add(1);
        assert_eq!(decrypted_bytes(&altered, &key, &nonce), Err(CryptoError::Authentication));
    }
    let mut altered = sealed.clone();
    for at in sealed.len() - 16..sealed.len() {
        altered[at] = !altered[at];
    }
    assert_eq!(decrypted_data(altered, &key, &nonce), Err(CryptoError::Authentication));
}
