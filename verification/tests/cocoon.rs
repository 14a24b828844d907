use cocoon::MiniCocoon;
use rustproof::aead::{open, seal};

const SALT: [u8; 16] = [0, 1, 2, 3, 4, 5, 6, 7, 8, 9, 10, 11, 12, 13, 14, 15];

#[test]
fn seal_agrees_with_a_mini_cocoon() {
    let key = rustproof::kdf::derive(b"correct-horse", &SALT);
    let mut cocoon = MiniCocoon::from_key(key.as_bytes(), &[7u8; 32]);
    let mut data = b"my secret data".to_vec();
    let prefix = cocoon.encrypt(&mut data).unwrap();
    let mut nonce = [0u8; 12];
    nonce.copy_from_slice(&prefix[..12]);
    let mut tag = [0u8; 16];
    tag.copy_from_slice(&prefix[20..]);

    let (ciphertext, own_tag) = seal(&key, &nonce, &prefix[..20], b"my secret data");
    assert_eq!(ciphertext, data);
    assert_eq!(own_tag, tag);
}

#[test]
fn open_takes_what_a_mini_cocoon_sealed() {
    let key = rustproof::kdf::derive(b"correct-horse", &SALT);
    let mut cocoon = MiniCocoon::from_key(key.as_bytes(), &[9u8; 32]);
    let mut data = b"my secret data".to_vec();
    let prefix = cocoon.encrypt(&mut data).unwrap();
    let mut nonce = [0u8; 12];
    nonce.copy_from_slice(&prefix[..12]);
    let mut tag = [0u8; 16];
    tag.copy_from_slice(&prefix[20..]);

    assert_eq!(open(&key, &nonce, &prefix[..20], &data, &tag), Ok(b"my secret data".to_vec()));
}

#[test]
fn a_mini_cocoon_opens_what_seal_made() {
    let key = rustproof::kdf::derive(b"correct-horse", &SALT);
    let nonce = [3u8; 12];
    let mut associated = nonce.to_vec();
    associated.extend_from_slice(&14u64.to_be_bytes());
    let (mut ciphertext, tag) = seal(&key, &nonce, &associated, b"my secret data");
    let mut prefix = associated.clone();
    prefix.extend_from_slice(&tag);

    let cocoon = MiniCocoon::from_key(key.as_bytes(), &[0u8; 32]);
    cocoon.decrypt(&mut ciphertext, &prefix).unwrap();
    assert_eq!(ciphertext, b"my secret data");
}

#[test]
fn derive_and_open_take_what_a_cocoon_sealed() {
    let mut cocoon = cocoon::Cocoon::from_seed(b"correct-horse", [5u8; 32]);
    let mut data = b"my secret data".to_vec();
    let prefix = cocoon.encrypt(&mut data).unwrap();
    let mut salt = [0u8; 16];
    salt.copy_from_slice(&prefix[8..24]);
    let mut nonce = [0u8; 12];
    nonce.copy_from_slice(&prefix[24..36]);
    let mut tag = [0u8; 16];
    tag.copy_from_slice(&prefix[44..]);

    let key = rustproof::kdf::derive(b"correct-horse", &salt);
    assert_eq!(open(&key, &nonce, &prefix[..44], &data, &tag), Ok(b"my secret data".to_vec()));
}

#[test]
fn a_cocoon_opens_what_derive_and_seal_made() {
    let nonce = [3u8; 12];
    let mut header = vec![0x7f, 0xc0, b'\n', 1, 1, 1, 1, 0];
    header.extend_from_slice(&SALT);
    header.extend_from_slice(&nonce);
    header.extend_from_slice(&14u64.to_be_bytes());
    let key = rustproof::kdf::derive(b"correct-horse", &SALT);
    let (mut ciphertext, tag) = seal(&key, &nonce, &header, b"my secret data");
    let mut prefix = header.clone();
    prefix.extend_from_slice(&tag);

    let cocoon = cocoon::Cocoon::parse_only(b"correct-horse");
    cocoon.decrypt(&mut ciphertext, &prefix).unwrap();
    assert_eq!(ciphertext, b"my secret data");
}
