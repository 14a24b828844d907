use rustproof::kdf::{DerivedKey, KDF_PURPOSE, KDF_ROUNDS, KEY_LEN};

const SALT: [u8; 16] = [0, 1, 2, 3, 4, 5, 6, 7, 8, 9, 10, 11, 12, 13, 14, 15];

fn key_bytes(key: &DerivedKey) -> [u8; 32] {
    *key.as_bytes()
}

#[test]
fn derivation_parameters() {
    assert_eq!(KEY_LEN, 32);
    assert_eq!(KDF_ROUNDS, 100_000);
    assert_eq!(&KDF_PURPOSE, b"cocoon");
}

#[test]
fn derive_matches_pbkdf2_hmac_sha256() {
    let key = rustproof::kdf::derive(b"correct-horse", &SALT);
    assert_eq!(
        key_bytes(&key),
        [
            73, 153, 172, 229, 94, 31, 169, 25, 73, 217, 127, 13, 234, 251, 36, 180, 170, 106,
            117, 0, 79, 8, 106, 205, 197, 253, 51, 163, 186, 137, 15, 28
        ]
    );
}

#[test]
fn derive_with_zero_salt() {
    let key = rustproof::kdf::derive(b"password", &[0u8; 16]);
    assert_eq!(
        key_bytes(&key),
        [
            14, 200, 14, 32, 62, 161, 49, 116, 65, 195, 135, 215, 153, 47, 192, 10, 86, 239, 76,
            187, 149, 63, 106, 182, 0, 151, 102, 218, 111, 178, 162, 41
        ]
    );
}

#[test]
fn derive_is_deterministic() {
    let first = rustproof::kdf::derive(b"some passphrase", &SALT);
    let second = rustproof::kdf::derive(b"some passphrase", &SALT);
    assert_eq!(key_bytes(&first), key_bytes(&second));
}

#[test]
fn derive_depends_on_salt_and_passphrase() {
    let mut other_salt = SALT;
    other_salt[0] = 1;
    let base = rustproof::kdf::derive(b"correct-horse", &SALT);
    let salted = rustproof::kdf::derive(b"correct-horse", &other_salt);
    let phrased = rustproof::kdf::derive(b"wrong-horse", &SALT);
    assert_ne!(key_bytes(&base), key_bytes(&salted));
    assert_ne!(key_bytes(&base), key_bytes(&phrased));
    assert_ne!(key_bytes(&salted), key_bytes(&phrased));
}

#[test]
fn derive_does_not_use_the_passphrase_as_key() {
    let passphrase = [7u8; 32];
    let key = rustproof::kdf::derive(&passphrase, &SALT);
    assert_ne!(key_bytes(&key), passphrase);
}

#[test]
fn wipe_zeroes_the_key() {
    let mut key = rustproof::kdf::derive(b"correct-horse", &SALT);
    assert_ne!(key_bytes(&key), [0u8; 32]);
    key.wipe();
    assert_eq!(key_bytes(&key), [0u8; 32]);
}

#[test]
fn zero_bytes_at_the_end_do_not_change_the_key() {
    let plain = rustproof::kdf::derive(b"correct-horse", &SALT);
    let padded = rustproof::kdf::derive(b"correct-horse\0", &SALT);
    assert_eq!(key_bytes(&plain), key_bytes(&padded));
}
