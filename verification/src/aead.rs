//! Authenticated encryption: ChaCha20-Poly1305 under a derived key.
//!
//! Sealing turns a plaintext into a ciphertext of the same length and a
//! tag over the ciphertext and the associated data. Opening checks the tag
//! first and releases the plaintext only if it verifies.

use crate::error::Error;
use crate::format::{NONCE_LEN, TAG_LEN};
use crate::kdf::{DerivedKey, KEY_LEN};
use chacha20poly1305::{AeadInPlace, ChaCha20Poly1305, Key, KeyInit, Nonce, Tag};
use vstd::prelude::*;
use vstd::slice::slice_to_vec;

verus! {

/// The longest plaintext that the cipher seals: `u32::MAX - 1` blocks of
/// 64 bytes. Of the `u32::MAX` blocks of keystream that one nonce gives,
/// the first goes into the key of the tag.
pub const MAX_PLAINTEXT_LEN: u64 = 274_877_906_816;

/// What ChaCha20-Poly1305 makes of a plaintext under a key, a nonce and
/// associated data: the ciphertext and the tag.
pub uninterp spec fn chacha20poly1305_sealed(
    key: Seq<u8>,
    nonce: Seq<u8>,
    associated: Seq<u8>,
    plaintext: Seq<u8>,
) -> (Seq<u8>, Seq<u8>);

/// What ChaCha20-Poly1305 releases for a ciphertext and a tag under a key,
/// a nonce and associated data: the plaintext, or nothing where the tag
/// does not verify.
pub uninterp spec fn chacha20poly1305_opened(
    key: Seq<u8>,
    nonce: Seq<u8>,
    associated: Seq<u8>,
    ciphertext: Seq<u8>,
    tag: Seq<u8>,
) -> Option<Seq<u8>>;

/// Calls `encrypt_in_place_detached` of `chacha20poly1305::ChaCha20Poly1305`.
///
/// On a buffer that needs more keystream than is left after the block for
/// the tag's key, the call fails or panics; the precondition leaves those
/// out. Claimed of it: buffer and tag afterwards are the
/// named result for the arguments; the buffer keeps its length, for it is
/// encrypted in place; and opening that ciphertext with that tag under the
/// same key, nonce and associated data gives the plaintext back, which is
/// what the cipher is for.
#[verifier::external_body]
fn seal_in_place(
    key: &[u8; KEY_LEN],
    nonce: &[u8; NONCE_LEN],
    associated: &[u8],
    buffer: &mut Vec<u8>,
) -> (tag: [u8; TAG_LEN])
    requires
        old(buffer)@.len() <= MAX_PLAINTEXT_LEN,
    ensures
        (final(buffer)@, tag@) == chacha20poly1305_sealed(
            key@,
            nonce@,
            associated@,
            old(buffer)@,
        ),
        final(buffer)@.len() == old(buffer)@.len(),
        chacha20poly1305_opened(key@, nonce@, associated@, final(buffer)@, tag@) == Some(
            old(buffer)@,
        ),
{
    let cipher = ChaCha20Poly1305::new(Key::from_slice(key));
    let tag: Tag = cipher
        .encrypt_in_place_detached(Nonce::from_slice(nonce), associated, buffer.as_mut_slice())
        .expect("the plaintext is within the cipher's limit");
    tag.into()
}

/// Calls `decrypt_in_place_detached` of `chacha20poly1305::ChaCha20Poly1305`.
///
/// On a buffer longer than the cipher seals, the call fails or, where the
/// tag verifies, panics; the precondition leaves those out. Claimed of it:
/// it succeeds exactly where the named result is a plaintext, and then
/// leaves that plaintext in the buffer.
#[verifier::external_body]
fn open_in_place(
    key: &[u8; KEY_LEN],
    nonce: &[u8; NONCE_LEN],
    associated: &[u8],
    buffer: &mut Vec<u8>,
    tag: &[u8; TAG_LEN],
) -> (verified: bool)
    requires
        old(buffer)@.len() <= MAX_PLAINTEXT_LEN,
    ensures
        verified == chacha20poly1305_opened(key@, nonce@, associated@, old(buffer)@, tag@).is_some(),
        verified ==> Some(final(buffer)@) == chacha20poly1305_opened(
            key@,
            nonce@,
            associated@,
            old(buffer)@,
            tag@,
        ),
{
    let cipher = ChaCha20Poly1305::new(Key::from_slice(key));
    cipher
        .decrypt_in_place_detached(
            Nonce::from_slice(nonce),
            associated,
            buffer.as_mut_slice(),
            Tag::from_slice(tag),
        )
        .is_ok()
}

/// What opening releases: what the cipher releases, and nothing for a
/// ciphertext longer than the cipher seals, which no tag can vouch for.
pub open spec fn opened(
    key: Seq<u8>,
    nonce: Seq<u8>,
    associated: Seq<u8>,
    ciphertext: Seq<u8>,
    tag: Seq<u8>,
) -> Option<Seq<u8>> {
    if ciphertext.len() <= MAX_PLAINTEXT_LEN {
        chacha20poly1305_opened(key, nonce, associated, ciphertext, tag)
    } else {
        None
    }
}

/// Seals `plaintext` under `key` and `nonce`, binding `associated` into
/// the tag.
///
/// The ciphertext is as long as the plaintext. A nonce must never be used
/// twice under one key.
pub fn seal(key: &DerivedKey, nonce: &[u8; NONCE_LEN], associated: &[u8], plaintext: &[u8]) -> (sealed:
    (Vec<u8>, [u8; TAG_LEN]))
    requires
        plaintext@.len() <= MAX_PLAINTEXT_LEN,
    ensures
        (sealed.0@, sealed.1@) == chacha20poly1305_sealed(key@, nonce@, associated@, plaintext@),
        sealed.0@.len() == plaintext@.len(),
        opened(key@, nonce@, associated@, sealed.0@, sealed.1@) == Some(plaintext@),
{
    let mut buffer = slice_to_vec(plaintext);
    let tag = seal_in_place(key.as_bytes(), nonce, associated, &mut buffer);
    (buffer, tag)
}

/// Opens `ciphertext` under `key` and `nonce`.
///
/// The plaintext is returned only if `tag` verifies against the
/// ciphertext and `associated`; otherwise the whole call fails with
/// `AuthenticationFailure` and no byte of plaintext is released. A
/// ciphertext longer than `MAX_PLAINTEXT_LEN` fails so without the cipher
/// being asked.
pub fn open(
    key: &DerivedKey,
    nonce: &[u8; NONCE_LEN],
    associated: &[u8],
    ciphertext: &[u8],
    tag: &[u8; TAG_LEN],
) -> (result: Result<Vec<u8>, Error>)
    ensures
        match opened(key@, nonce@, associated@, ciphertext@, tag@) {
            Some(plaintext) => result matches Ok(bytes) && bytes@ == plaintext,
            None => result == Err::<Vec<u8>, Error>(Error::AuthenticationFailure),
        },
        ciphertext@.len() > MAX_PLAINTEXT_LEN ==> result == Err::<Vec<u8>, Error>(
            Error::AuthenticationFailure,
        ),
{
    if ciphertext.len() as u64 > MAX_PLAINTEXT_LEN {
        return Err(Error::AuthenticationFailure);
    }
    let mut buffer = slice_to_vec(ciphertext);
    if open_in_place(key.as_bytes(), nonce, associated, &mut buffer, tag) {
        Ok(buffer)
    } else {
        Err(Error::AuthenticationFailure)
    }
}

} // verus!
