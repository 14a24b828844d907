//! The two operations: a byte stream and a passphrase in, a container
//! out, and back.
//!
//! Neither operation touches a file. Each returns the bytes to commit and
//! the path to commit them to, or the reason why there is nothing to
//! commit.

use crate::aead::{chacha20poly1305_sealed, open, opened, seal, MAX_PLAINTEXT_LEN};
use crate::error::Error;
use crate::format::{
    bit_flip_is_seen, decode, decode_of_encode, decoded, encode, encoded,
    fresh_salt_or_nonce_changes_bytes, header, header_bytes, version_bit_flip_is_corrupt,
    with_bit_flipped, Container, Parts, MIN_CONTAINER_LEN, NONCE_LEN, SALT_LEN, TAG_LEN, VERSION,
};
use crate::kdf::derived_key;
use crate::sink::{named, target_of, target_path, Output, DECRYPTED_NAME, ENCRYPTED_NAME};
use rand::RngCore;
use vstd::prelude::*;
use vstd::string::StringSliceAdditionalSpecFns;
use vstd::utf8::{encode_scalar, encode_utf8};

verus! {

/// Calls `try_fill_bytes` of `rand::rngs::OsRng` on `N` bytes.
///
/// What comes back is up to the operating system, so nothing is claimed
/// of it: neither that it succeeds nor what the bytes are.
#[verifier::external_body]
fn os_random<const N: usize>() -> (bytes: Option<[u8; N]>) {
    let mut bytes = [0u8; N];
    match rand::rngs::OsRng.try_fill_bytes(&mut bytes) {
        Ok(()) => Some(bytes),
        Err(_) => None,
    }
}

/// The fields of the container that seals `plaintext` under `passphrase`
/// with the given salt and nonce. The header is bound into the tag.
pub open spec fn sealed_parts(
    plaintext: Seq<u8>,
    passphrase: Seq<u8>,
    salt: Seq<u8>,
    nonce: Seq<u8>,
) -> Parts {
    let sealed = chacha20poly1305_sealed(
        derived_key(passphrase, salt),
        nonce,
        header(VERSION, salt, nonce),
        plaintext,
    );
    Parts { version: VERSION, salt, nonce, ciphertext: sealed.0, tag: sealed.1 }
}

/// The container that seals `plaintext` under `passphrase` with the given
/// salt and nonce.
pub open spec fn sealed_container(
    plaintext: Seq<u8>,
    passphrase: Seq<u8>,
    salt: Seq<u8>,
    nonce: Seq<u8>,
) -> Seq<u8> {
    encoded(sealed_parts(plaintext, passphrase, salt, nonce))
}

/// What opening `container` under `passphrase` gives: the plaintext, or
/// the reason why none is released.
pub open spec fn opened_container(container: Seq<u8>, passphrase: Seq<u8>) -> Result<
    Seq<u8>,
    Error,
> {
    match decoded(container) {
        Err(e) => Err(e),
        Ok(parts) => match opened(
            derived_key(passphrase, parts.salt),
            parts.nonce,
            header(parts.version, parts.salt, parts.nonce),
            parts.ciphertext,
            parts.tag,
        ) {
            Some(plaintext) => Ok(plaintext),
            None => Err(Error::AuthenticationFailure),
        },
    }
}

/// A passphrase of at least one character has at least one byte.
proof fn passphrase_has_bytes(password: &str)
    requires
        password@.len() > 0,
    ensures
        password.spec_bytes().len() > 0,
{
    let chars = password@;
    assert(encode_utf8(chars) == encode_scalar(chars[0] as u32) + encode_utf8(chars.drop_first()));
    assert(encode_scalar(chars[0] as u32).len() > 0);
}

/// Seals `byte_stream` under `password` with the salt and nonce that were
/// drawn for it, where both draws succeeded.
///
/// With a salt and a nonce the result is the container that they
/// determine, to be committed to `path` or, where none is named, to
/// `ENCRYPTED_NAME`. That container opens under the same passphrase to
/// `byte_stream`. Where a draw failed, so does the call, with
/// `KeyDerivationFailed`.
///
/// Salt and nonce are to be fresh draws from a cryptographically secure
/// source, never reused and never made from the content; `encrypt` sees
/// to that.
pub fn encrypt_with(
    path: Option<&str>,
    byte_stream: &[u8],
    password: &str,
    salt: Option<[u8; SALT_LEN]>,
    nonce: Option<[u8; NONCE_LEN]>,
) -> (result: Result<Output, Error>)
    requires
        password@.len() > 0,
        byte_stream@.len() <= MAX_PLAINTEXT_LEN,
    ensures
        match (salt, nonce) {
            (Some(salt), Some(nonce)) => result matches Ok(output) && output.path@ == target_of(
                named(path),
                ENCRYPTED_NAME@,
            ) && output.bytes@ == sealed_container(
                byte_stream@,
                password.spec_bytes(),
                salt@,
                nonce@,
            ),
            _ => result == Err::<Output, Error>(Error::KeyDerivationFailed),
        },
        result matches Ok(output) ==> opened_container(output.bytes@, password.spec_bytes()) == Ok::<
            Seq<u8>,
            Error,
        >(byte_stream@),
        result matches Ok(output) ==> output.bytes@.len() == byte_stream@.len()
            + MIN_CONTAINER_LEN,
{
    let (salt, nonce) = match (salt, nonce) {
        (Some(salt), Some(nonce)) => (salt, nonce),
        _ => { return Err(Error::KeyDerivationFailed); },
    };
    proof {
        passphrase_has_bytes(password);
    }
    let mut key = crate::kdf::derive(password.as_bytes(), &salt);
    let associated = header_bytes(VERSION, &salt, &nonce);
    let (ciphertext, tag) = seal(&key, &nonce, associated.as_slice(), byte_stream);
    key.wipe();
    let container = Container { version: VERSION, salt, nonce, ciphertext, tag };
    proof {
        opening_undoes_sealing(byte_stream@, password.spec_bytes(), salt@, nonce@);
    }
    Ok(Output { path: target_path(path, ENCRYPTED_NAME), bytes: encode(&container) })
}

/// Seals `byte_stream` under `password` into a container, with a salt and
/// a nonce drawn afresh from the operating system.
///
/// The container is to be committed to `path` or, where none is named, to
/// `ENCRYPTED_NAME`; it opens under the same passphrase to `byte_stream`.
/// The call fails, with `KeyDerivationFailed`, only where the operating
/// system delivers no random bytes.
pub fn encrypt(path: Option<&str>, byte_stream: &[u8], password: &str) -> (result: Result<
    Output,
    Error,
>)
    requires
        password@.len() > 0,
        byte_stream@.len() <= MAX_PLAINTEXT_LEN,
    ensures
        match result {
            Ok(output) => {
                &&& output.path@ == target_of(named(path), ENCRYPTED_NAME@)
                &&& exists|salt: Seq<u8>, nonce: Seq<u8>|
                    salt.len() == SALT_LEN && nonce.len() == NONCE_LEN && output.bytes@
                        == #[trigger] sealed_container(
                        byte_stream@,
                        password.spec_bytes(),
                        salt,
                        nonce,
                    )
                &&& opened_container(output.bytes@, password.spec_bytes()) == Ok::<Seq<u8>, Error>(
                    byte_stream@,
                )
                &&& output.bytes@.len() == byte_stream@.len() + MIN_CONTAINER_LEN
            },
            Err(e) => e == Error::KeyDerivationFailed,
        },
{
    let salt = os_random::<SALT_LEN>();
    let nonce = os_random::<NONCE_LEN>();
    let result = encrypt_with(path, byte_stream, password, salt, nonce);
    proof {
        if let (Some(salt), Some(nonce)) = (salt, nonce) {
            assert(result->Ok_0.bytes@ == sealed_container(
                byte_stream@,
                password.spec_bytes(),
                salt@,
                nonce@,
            ));
        }
    }
    result
}

/// Opens the container in `byte_stream` under `password`.
///
/// Input that is no container is refused as `CorruptContainer` before any
/// key is derived. A container whose tag does not verify under the key
/// for `password`, be it for a wrong passphrase or for tampering, is
/// refused as `AuthenticationFailure`. Otherwise the plaintext is
/// returned, to be committed to `path` or, where none is named, to
/// `DECRYPTED_NAME`.
pub fn decrypt(path: Option<&str>, byte_stream: &[u8], password: &str) -> (result: Result<
    Output,
    Error,
>)
    requires
        password@.len() > 0,
    ensures
        match opened_container(byte_stream@, password.spec_bytes()) {
            Ok(plaintext) => result matches Ok(output) && output.bytes@ == plaintext
                && output.path@ == target_of(named(path), DECRYPTED_NAME@),
            Err(e) => result == Err::<Output, Error>(e),
        },
        byte_stream@.len() < MIN_CONTAINER_LEN ==> result == Err::<Output, Error>(
            Error::CorruptContainer,
        ),
        result matches Err(e) ==> e == Error::CorruptContainer || e
            == Error::AuthenticationFailure,
{
    let container = match decode(byte_stream) {
        Ok(container) => container,
        Err(e) => { return Err(e); },
    };
    proof {
        passphrase_has_bytes(password);
    }
    let mut key = crate::kdf::derive(password.as_bytes(), &container.salt);
    let associated = header_bytes(container.version, &container.salt, &container.nonce);
    let opened = open(
        &key,
        &container.nonce,
        associated.as_slice(),
        container.ciphertext.as_slice(),
        &container.tag,
    );
    key.wipe();
    match opened {
        Ok(bytes) => Ok(Output { path: target_path(path, DECRYPTED_NAME), bytes }),
        Err(e) => Err(e),
    }
}

/// The cipher gives back under a key, a nonce and associated data what
/// it sealed under them, and its tags have their width.
pub open spec fn cipher_opens_what_it_sealed(
    key: Seq<u8>,
    nonce: Seq<u8>,
    associated: Seq<u8>,
    plaintext: Seq<u8>,
) -> bool {
    let sealed = chacha20poly1305_sealed(key, nonce, associated, plaintext);
    &&& sealed.1.len() == TAG_LEN
    &&& opened(key, nonce, associated, sealed.0, sealed.1) == Some(plaintext)
}

/// Opening undoes sealing: wherever the cipher gives back what it sealed,
/// a container opens under the passphrase it was sealed with to the
/// plaintext it was sealed from. Framing loses nothing, and the key and
/// the header are found again from the container alone.
pub proof fn opening_undoes_sealing(
    plaintext: Seq<u8>,
    passphrase: Seq<u8>,
    salt: Seq<u8>,
    nonce: Seq<u8>,
)
    requires
        salt.len() == SALT_LEN,
        nonce.len() == NONCE_LEN,
        cipher_opens_what_it_sealed(
            derived_key(passphrase, salt),
            nonce,
            header(VERSION, salt, nonce),
            plaintext,
        ),
    ensures
        opened_container(sealed_container(plaintext, passphrase, salt, nonce), passphrase) == Ok::<
            Seq<u8>,
            Error,
        >(plaintext),
{
    decode_of_encode(sealed_parts(plaintext, passphrase, salt, nonce));
}

/// A container does not open under a passphrase whose key the cipher
/// refuses: the failure is an `AuthenticationFailure`, never a corrupt
/// container and never a plaintext. Two passphrases with one and the same
/// key, such as two that differ only in zero bytes at the end, are one
/// passphrase to the cipher and are left out.
pub proof fn wrong_passphrase_is_refused(
    plaintext: Seq<u8>,
    passphrase: Seq<u8>,
    other_passphrase: Seq<u8>,
    salt: Seq<u8>,
    nonce: Seq<u8>,
)
    requires
        salt.len() == SALT_LEN,
        nonce.len() == NONCE_LEN,
        sealed_parts(plaintext, passphrase, salt, nonce).tag.len() == TAG_LEN,
        passphrase != other_passphrase,
        opened(
            derived_key(other_passphrase, salt),
            nonce,
            header(VERSION, salt, nonce),
            sealed_parts(plaintext, passphrase, salt, nonce).ciphertext,
            sealed_parts(plaintext, passphrase, salt, nonce).tag,
        ) is None,
    ensures
        opened_container(sealed_container(plaintext, passphrase, salt, nonce), other_passphrase)
            == Err::<Seq<u8>, Error>(Error::AuthenticationFailure),
{
    decode_of_encode(sealed_parts(plaintext, passphrase, salt, nonce));
}

/// Freshness: sealing the same plaintext under the same passphrase with
/// another salt or another nonce gives another container.
pub proof fn fresh_draws_give_fresh_containers(
    plaintext: Seq<u8>,
    passphrase: Seq<u8>,
    salt: Seq<u8>,
    nonce: Seq<u8>,
    other_salt: Seq<u8>,
    other_nonce: Seq<u8>,
)
    requires
        salt.len() == SALT_LEN,
        other_salt.len() == SALT_LEN,
        nonce.len() == NONCE_LEN,
        other_nonce.len() == NONCE_LEN,
        salt != other_salt || nonce != other_nonce,
    ensures
        sealed_container(plaintext, passphrase, salt, nonce) != sealed_container(
            plaintext,
            passphrase,
            other_salt,
            other_nonce,
        ),
{
    fresh_salt_or_nonce_changes_bytes(
        sealed_parts(plaintext, passphrase, salt, nonce),
        sealed_parts(plaintext, passphrase, other_salt, other_nonce),
    );
}

/// Input shorter than the shortest container is refused as corrupt,
/// whatever the passphrase: no key and no cipher come into it.
pub proof fn short_input_is_refused(container: Seq<u8>, passphrase: Seq<u8>)
    requires
        container.len() < MIN_CONTAINER_LEN,
    ensures
        opened_container(container, passphrase) == Err::<Seq<u8>, Error>(Error::CorruptContainer),
{
}

/// A container that opens no longer does once a bit of its version byte
/// is flipped: it is refused as corrupt.
pub proof fn flipped_version_is_refused(container: Seq<u8>, passphrase: Seq<u8>, bit: u8)
    requires
        opened_container(container, passphrase) is Ok,
        bit < 8,
    ensures
        opened_container(with_bit_flipped(container, 0, bit), passphrase) == Err::<Seq<u8>, Error>(
            Error::CorruptContainer,
        ),
{
    version_bit_flip_is_corrupt(container, bit);
}

/// Tampering reaches the cipher: once a bit behind the version byte of a
/// container is flipped, the cipher is asked about associated data, a
/// ciphertext or a tag other than those of the container as it was. Whether
/// the tag then fails is the cipher's part.
pub proof fn tampering_reaches_the_cipher(container: Seq<u8>, index: int, bit: u8)
    requires
        decoded(container) is Ok,
        0 < index < container.len(),
        bit < 8,
    ensures
        decoded(with_bit_flipped(container, index, bit)) is Ok,
        ({
            let before = decoded(container)->Ok_0;
            let after = decoded(with_bit_flipped(container, index, bit))->Ok_0;
            ||| header(after.version, after.salt, after.nonce) != header(
                before.version,
                before.salt,
                before.nonce,
            )
            ||| after.ciphertext != before.ciphertext
            ||| after.tag != before.tag
        }),
{
    bit_flip_is_seen(container, index, bit);
    let before = decoded(container)->Ok_0;
    let after = decoded(with_bit_flipped(container, index, bit))->Ok_0;
    let head_before = header(before.version, before.salt, before.nonce);
    let head_after = header(after.version, after.salt, after.nonce);
    if head_before == head_after {
        assert(before.salt =~= head_before.subrange(1, 1 + SALT_LEN));
        assert(after.salt =~= head_after.subrange(1, 1 + SALT_LEN));
        assert(before.nonce =~= head_before.subrange(1 + SALT_LEN, 1 + SALT_LEN + NONCE_LEN));
        assert(after.nonce =~= head_after.subrange(1 + SALT_LEN, 1 + SALT_LEN + NONCE_LEN));
    }
}

/// A container with a bit flipped behind the version byte does not open
/// wherever the cipher refuses what it is then asked: the failure is an
/// `AuthenticationFailure`, and no plaintext comes out, altered or not.
pub proof fn refused_tampering_releases_nothing(
    container: Seq<u8>,
    passphrase: Seq<u8>,
    index: int,
    bit: u8,
)
    requires
        decoded(container) is Ok,
        0 < index < container.len(),
        bit < 8,
        ({
            let after = decoded(with_bit_flipped(container, index, bit))->Ok_0;
            opened(
                derived_key(passphrase, after.salt),
                after.nonce,
                header(after.version, after.salt, after.nonce),
                after.ciphertext,
                after.tag,
            ) is None
        }),
    ensures
        opened_container(with_bit_flipped(container, index, bit), passphrase) == Err::<
            Seq<u8>,
            Error,
        >(Error::AuthenticationFailure),
{
    bit_flip_is_seen(container, index, bit);
}

/// No plaintext comes out of a container but the one that the cipher
/// released for its fields: opening either fails or gives exactly that.
pub proof fn only_authenticated_plaintext(container: Seq<u8>, passphrase: Seq<u8>)
    ensures
        match opened_container(container, passphrase) {
            Ok(plaintext) => decoded(container) matches Ok(parts) && opened(
                derived_key(passphrase, parts.salt),
                parts.nonce,
                header(parts.version, parts.salt, parts.nonce),
                parts.ciphertext,
                parts.tag,
            ) == Some(plaintext),
            Err(e) => e == Error::CorruptContainer || e == Error::AuthenticationFailure,
        },
{
}

} // verus!
