use rustproof::encrypt::{decrypt, encrypt, encrypt_with};
use rustproof::error::Error;
use rustproof::format::{decode, MIN_CONTAINER_LEN};
use rustproof::sink::Output;

const SALT: [u8; 16] = [0, 1, 2, 3, 4, 5, 6, 7, 8, 9, 10, 11, 12, 13, 14, 15];
const NONCE: [u8; 12] = [100, 101, 102, 103, 104, 105, 106, 107, 108, 109, 110, 111];
const HELLO_CONTAINER: [u8; 50] = [
    1, 0, 1, 2, 3, 4, 5, 6, 7, 8, 9, 10, 11, 12, 13, 14, 15, 100, 101, 102, 103, 104, 105, 106,
    107, 108, 109, 110, 111, 158, 123, 84, 7, 97, 205, 12, 17, 23, 208, 1, 179, 103, 24, 161, 84,
    81, 22, 55, 97, 8,
];

#[test]
fn hello_example() {
    let container = encrypt(None, b"hello", "correct-horse").unwrap();
    let opened = decrypt(None, &container.bytes, "correct-horse").unwrap();
    assert_eq!(opened.bytes, b"hello");
    assert_eq!(
        decrypt(None, &container.bytes, "wrong-horse"),
        Err(Error::AuthenticationFailure)
    );
}

#[test]
fn encrypt_with_known_salt_and_nonce() {
    let output = encrypt_with(None, b"hello", "correct-horse", Some(SALT), Some(NONCE));
    assert_eq!(
        output,
        Ok(Output { path: "encrypted.cocoon".to_string(), bytes: HELLO_CONTAINER.to_vec() })
    );
}

#[test]
fn decrypt_known_container() {
    assert_eq!(
        decrypt(None, &HELLO_CONTAINER, "correct-horse"),
        Ok(Output { path: "decrypted.txt".to_string(), bytes: b"hello".to_vec() })
    );
}

#[test]
fn encrypt_without_random_bytes_fails() {
    assert_eq!(
        encrypt_with(None, b"hello", "correct-horse", None, Some(NONCE)),
        Err(Error::KeyDerivationFailed)
    );
    assert_eq!(
        encrypt_with(None, b"hello", "correct-horse", Some(SALT), None),
        Err(Error::KeyDerivationFailed)
    );
    assert_eq!(
        encrypt_with(Some("x"), b"hello", "correct-horse", None, None),
        Err(Error::KeyDerivationFailed)
    );
}

#[test]
fn output_goes_to_the_named_path() {
    let sealed = encrypt(Some("/data/report.pdf"), b"report", "pass").unwrap();
    assert_eq!(sealed.path, "/data/report.pdf");
    let opened = decrypt(Some("/data/report.pdf"), &sealed.bytes, "pass").unwrap();
    assert_eq!(opened.path, "/data/report.pdf");
    assert_eq!(opened.bytes, b"report");
}

#[test]
fn container_is_plaintext_length_plus_overhead() {
    let sealed = encrypt(None, &[9u8; 1234], "pass").unwrap();
    assert_eq!(sealed.bytes.len(), 1234 + MIN_CONTAINER_LEN);
    assert_eq!(sealed.bytes[0], 1);
    assert_eq!(decode(&sealed.bytes).unwrap().ciphertext.len(), 1234);
}

#[test]
fn round_trip_of_empty_input() {
    let sealed = encrypt(None, b"", "pass").unwrap();
    assert_eq!(sealed.bytes.len(), MIN_CONTAINER_LEN);
    assert_eq!(decrypt(None, &sealed.bytes, "pass").unwrap().bytes, b"");
}

#[test]
fn round_trip_of_binary_input() {
    let plaintext: Vec<u8> = (0..5000u32).map(|i| (i * 31 % 256) as u8).collect();
    let sealed = encrypt(None, &plaintext, "a longer passphrase, with spaces").unwrap();
    assert_ne!(&sealed.bytes[29..29 + 5000], &plaintext[..]);
    assert_eq!(
        decrypt(None, &sealed.bytes, "a longer passphrase, with spaces").unwrap().bytes,
        plaintext
    );
}

#[test]
fn round_trip_under_a_passphrase_beyond_ascii() {
    let sealed = encrypt(None, b"payload", "pässwörd-鍵").unwrap();
    assert_eq!(decrypt(None, &sealed.bytes, "pässwörd-鍵").unwrap().bytes, b"payload");
    assert_eq!(
        decrypt(None, &sealed.bytes, "password-鍵"),
        Err(Error::AuthenticationFailure)
    );
}

#[test]
fn wrong_passphrase_is_an_authentication_failure() {
    for wrong in ["correct-horsf", "correct-hors", "Correct-horse"] {
        assert_eq!(
            decrypt(None, &HELLO_CONTAINER, wrong),
            Err(Error::AuthenticationFailure),
            "passphrase {:?}",
            wrong
        );
    }
}

#[test]
fn same_input_twice_gives_two_containers() {
    let first = encrypt(None, b"hello", "correct-horse").unwrap();
    let second = encrypt(None, b"hello", "correct-horse").unwrap();
    assert_ne!(first.bytes, second.bytes);
    let first_parts = decode(&first.bytes).unwrap();
    let second_parts = decode(&second.bytes).unwrap();
    assert_ne!(first_parts.salt, second_parts.salt);
    assert_ne!(first_parts.nonce, second_parts.nonce);
    assert_eq!(decrypt(None, &first.bytes, "correct-horse").unwrap().bytes, b"hello");
    assert_eq!(decrypt(None, &second.bytes, "correct-horse").unwrap().bytes, b"hello");
}

#[test]
fn other_salt_or_nonce_gives_another_container() {
    let mut salt = SALT;
    salt[7] ^= 4;
    let mut nonce = NONCE;
    nonce[11] ^= 1;
    let salted = encrypt_with(None, b"hello", "correct-horse", Some(salt), Some(NONCE)).unwrap();
    let nonced = encrypt_with(None, b"hello", "correct-horse", Some(SALT), Some(nonce)).unwrap();
    assert_ne!(salted.bytes, HELLO_CONTAINER);
    assert_ne!(nonced.bytes, HELLO_CONTAINER);
    assert_ne!(salted.bytes, nonced.bytes);
    assert_eq!(decrypt(None, &salted.bytes, "correct-horse").unwrap().bytes, b"hello");
}

#[test]
fn truncated_container_is_corrupt() {
    for len in 0..MIN_CONTAINER_LEN {
        assert_eq!(
            decrypt(None, &HELLO_CONTAINER[..len], "correct-horse"),
            Err(Error::CorruptContainer),
            "length {}",
            len
        );
    }
}

#[test]
fn container_cut_within_the_ciphertext_fails_authentication() {
    for len in MIN_CONTAINER_LEN..HELLO_CONTAINER.len() {
        assert_eq!(
            decrypt(None, &HELLO_CONTAINER[..len], "correct-horse"),
            Err(Error::AuthenticationFailure),
            "length {}",
            len
        );
    }
}

#[test]
fn flipped_version_bit_is_corrupt() {
    for bit in 0..8 {
        let mut tampered = HELLO_CONTAINER;
        tampered[0] ^= 1 << bit;
        assert_eq!(
            decrypt(None, &tampered, "correct-horse"),
            Err(Error::CorruptContainer),
            "bit {}",
            bit
        );
    }
}

#[test]
fn flipped_salt_bit_fails_authentication() {
    for (index, bit) in [(1usize, 0u8), (8, 3), (16, 7)] {
        let mut tampered = HELLO_CONTAINER;
        tampered[index] ^= 1 << bit;
        assert_eq!(
            decrypt(None, &tampered, "correct-horse"),
            Err(Error::AuthenticationFailure),
            "byte {} bit {}",
            index,
            bit
        );
    }
}

#[test]
fn flipped_nonce_bit_fails_authentication() {
    for (index, bit) in [(17usize, 0u8), (22, 5), (28, 7)] {
        let mut tampered = HELLO_CONTAINER;
        tampered[index] ^= 1 << bit;
        assert_eq!(
            decrypt(None, &tampered, "correct-horse"),
            Err(Error::AuthenticationFailure),
            "byte {} bit {}",
            index,
            bit
        );
    }
}

#[test]
fn flipped_ciphertext_bit_fails_authentication() {
    for (index, bit) in [(29usize, 0u8), (31, 4), (33, 7)] {
        let mut tampered = HELLO_CONTAINER;
        tampered[index] ^= 1 << bit;
        assert_eq!(
            decrypt(None, &tampered, "correct-horse"),
            Err(Error::AuthenticationFailure),
            "byte {} bit {}",
            index,
            bit
        );
    }
}

#[test]
fn flipped_tag_bit_fails_authentication() {
    for (index, bit) in [(34usize, 0u8), (41, 2), (49, 7)] {
        let mut tampered = HELLO_CONTAINER;
        tampered[index] ^= 1 << bit;
        assert_eq!(
            decrypt(None, &tampered, "correct-horse"),
            Err(Error::AuthenticationFailure),
            "byte {} bit {}",
            index,
            bit
        );
    }
}

#[test]
fn extended_container_fails_authentication() {
    let mut longer = HELLO_CONTAINER.to_vec();
    longer.push(0);
    assert_eq!(decrypt(None, &longer, "correct-horse"), Err(Error::AuthenticationFailure));
}

#[test]
fn plaintext_is_no_container() {
    assert_eq!(decrypt(None, b"hello", "correct-horse"), Err(Error::CorruptContainer));
    let text = [b'a'; 100];
    assert_eq!(decrypt(None, &text, "correct-horse"), Err(Error::CorruptContainer));
}

#[test]
fn passphrases_with_one_key_open_the_same_container() {
    assert_eq!(
        decrypt(None, &HELLO_CONTAINER, "correct-horse\0").map(|output| output.bytes),
        Ok(b"hello".to_vec())
    );
    assert_eq!(
        decrypt(None, &HELLO_CONTAINER, "\0correct-horse"),
        Err(Error::AuthenticationFailure)
    );
}
