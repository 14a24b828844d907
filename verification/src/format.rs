//! The container layout: `version | salt | nonce | ciphertext | tag`.
//!
//! All fields but the ciphertext have a fixed width, so a container is cut
//! apart by position alone; the ciphertext is whatever lies between the
//! header and the trailing tag.

use crate::error::Error;
use vstd::prelude::*;
use vstd::slice::slice_subrange;

verus! {

/// The only layout version that is understood.
pub const VERSION: u8 = 1;

/// Width of the salt field in bytes.
pub const SALT_LEN: usize = 16;

/// Width of the nonce field in bytes.
pub const NONCE_LEN: usize = 12;

/// Width of the authentication tag in bytes.
pub const TAG_LEN: usize = 16;

/// Width of the header: version, salt and nonce.
pub const HEADER_LEN: usize = 1 + SALT_LEN + NONCE_LEN;

/// Length of the shortest container, one with an empty ciphertext.
pub const MIN_CONTAINER_LEN: usize = HEADER_LEN + TAG_LEN;

/// The fields of a container as mathematical values.
pub struct Parts {
    pub version: u8,
    pub salt: Seq<u8>,
    pub nonce: Seq<u8>,
    pub ciphertext: Seq<u8>,
    pub tag: Seq<u8>,
}

impl Parts {
    /// The fixed-width fields have their widths.
    pub open spec fn wf(self) -> bool {
        &&& self.salt.len() == SALT_LEN
        &&& self.nonce.len() == NONCE_LEN
        &&& self.tag.len() == TAG_LEN
    }
}

/// A container taken apart.
#[derive(Clone, Debug, PartialEq, Eq)]
pub struct Container {
    pub version: u8,
    pub salt: [u8; SALT_LEN],
    pub nonce: [u8; NONCE_LEN],
    pub ciphertext: Vec<u8>,
    pub tag: [u8; TAG_LEN],
}

impl View for Container {
    type V = Parts;

    open spec fn view(&self) -> Parts {
        Parts {
            version: self.version,
            salt: self.salt@,
            nonce: self.nonce@,
            ciphertext: self.ciphertext@,
            tag: self.tag@,
        }
    }
}

/// The header of a container: what precedes the ciphertext.
pub open spec fn header(version: u8, salt: Seq<u8>, nonce: Seq<u8>) -> Seq<u8> {
    seq![version] + salt + nonce
}

/// The bytes of a container: the fields one after the other.
pub open spec fn encoded(parts: Parts) -> Seq<u8> {
    seq![parts.version] + parts.salt + parts.nonce + parts.ciphertext + parts.tag
}

/// What a byte sequence holds when read as a container.
pub open spec fn decoded(bytes: Seq<u8>) -> Result<Parts, Error> {
    if bytes.len() < MIN_CONTAINER_LEN {
        Err(Error::CorruptContainer)
    } else if bytes[0] != VERSION {
        Err(Error::CorruptContainer)
    } else {
        Ok(
            Parts {
                version: bytes[0],
                salt: bytes.subrange(1, 1 + SALT_LEN),
                nonce: bytes.subrange(1 + SALT_LEN, HEADER_LEN as int),
                ciphertext: bytes.subrange(HEADER_LEN as int, bytes.len() - TAG_LEN),
                tag: bytes.subrange(bytes.len() - TAG_LEN, bytes.len() as int),
            },
        )
    }
}

/// Appends `part` to `bytes`.
pub(crate) fn append(bytes: &mut Vec<u8>, part: &[u8])
    ensures
        final(bytes)@ == old(bytes)@ + part@,
{
    let mut i: usize = 0;
    while i < part.len()
        invariant
            i <= part@.len(),
            bytes@ == old(bytes)@ + part@.subrange(0, i as int),
        decreases part@.len() - i,
    {
        bytes.push(part[i]);
        i = i + 1;
    }
    assert(part@.subrange(0, part@.len() as int) == part@);
}

/// Copies the `N` bytes of `bytes` that begin at `start`.
fn take<const N: usize>(bytes: &[u8], start: usize) -> (field: [u8; N])
    requires
        start + N <= bytes@.len(),
    ensures
        field@ == bytes@.subrange(start as int, start + N),
{
    let len: usize = bytes.len();
    let mut field: [u8; N] = [0u8; N];
    let mut i: usize = 0;
    while i < N
        invariant
            i <= N,
            start + N <= bytes@.len() == len,
            forall|j: int| 0 <= j < i ==> field@[j] == bytes@[start + j],
        decreases N - i,
    {
        field[i] = bytes[start + i];
        i = i + 1;
    }
    assert(field@ =~= bytes@.subrange(start as int, start + N));
    field
}

/// Writes out the header for a version, a salt and a nonce.
pub fn header_bytes(version: u8, salt: &[u8; SALT_LEN], nonce: &[u8; NONCE_LEN]) -> (bytes: Vec<u8>)
    ensures
        bytes@ == header(version, salt@, nonce@),
        bytes@.len() == HEADER_LEN,
{
    let mut bytes: Vec<u8> = Vec::new();
    bytes.push(version);
    assert(bytes@ == seq![version]);
    append(&mut bytes, salt.as_slice());
    append(&mut bytes, nonce.as_slice());
    bytes
}

/// Writes the fields of `container` out in layout order.
///
/// Any version byte is written as it stands; only `decode` judges it.
pub fn encode(container: &Container) -> (bytes: Vec<u8>)
    ensures
        bytes@ == encoded(container@),
        bytes@.len() == container.ciphertext@.len() + MIN_CONTAINER_LEN,
{
    let mut bytes: Vec<u8> = Vec::new();
    bytes.push(container.version);
    assert(bytes@ == seq![container.version]);
    append(&mut bytes, container.salt.as_slice());
    append(&mut bytes, container.nonce.as_slice());
    append(&mut bytes, container.ciphertext.as_slice());
    append(&mut bytes, container.tag.as_slice());
    bytes
}

/// Cuts `bytes` into the fields of a container.
///
/// Input shorter than the header and the tag together, or of a version
/// other than `VERSION`, is refused as `CorruptContainer`; everything else
/// is a container.
pub fn decode(bytes: &[u8]) -> (result: Result<Container, Error>)
    ensures
        match decoded(bytes@) {
            Ok(parts) => result matches Ok(container) && container@ == parts,
            Err(e) => result == Err::<Container, Error>(e),
        },
        bytes@.len() < MIN_CONTAINER_LEN ==> result == Err::<Container, Error>(
            Error::CorruptContainer,
        ),
        bytes@.len() >= MIN_CONTAINER_LEN && bytes@[0] != VERSION ==> result == Err::<
            Container,
            Error,
        >(Error::CorruptContainer),
        bytes@.len() >= MIN_CONTAINER_LEN && bytes@[0] == VERSION ==> result is Ok,
{
    if bytes.len() < MIN_CONTAINER_LEN {
        return Err(Error::CorruptContainer);
    }
    if bytes[0] != VERSION {
        return Err(Error::CorruptContainer);
    }
    let body_end: usize = bytes.len() - TAG_LEN;
    let salt: [u8; SALT_LEN] = take(bytes, 1);
    let nonce: [u8; NONCE_LEN] = take(bytes, 1 + SALT_LEN);
    let tag: [u8; TAG_LEN] = take(bytes, body_end);
    let mut ciphertext: Vec<u8> = Vec::new();
    append(&mut ciphertext, slice_subrange(bytes, HEADER_LEN, body_end));
    Ok(Container { version: bytes[0], salt, nonce, ciphertext, tag })
}

/// Decoding undoes encoding: a container of the known version, once
/// written out, is read back field for field.
pub proof fn decode_of_encode(parts: Parts)
    requires
        parts.wf(),
        parts.version == VERSION,
    ensures
        decoded(encoded(parts)) == Ok::<Parts, Error>(parts),
{
    let bytes = encoded(parts);
    let back = decoded(bytes)->Ok_0;
    assert(back.salt =~= parts.salt);
    assert(back.nonce =~= parts.nonce);
    assert(back.ciphertext =~= parts.ciphertext);
    assert(back.tag =~= parts.tag);
}

/// Encoding undoes decoding: whatever is accepted as a container is
/// exactly the bytes that its fields encode to, and its fixed-width fields
/// have their widths.
pub proof fn encode_of_decode(bytes: Seq<u8>)
    requires
        decoded(bytes) is Ok,
    ensures
        encoded(decoded(bytes)->Ok_0) == bytes,
        decoded(bytes)->Ok_0.wf(),
        decoded(bytes)->Ok_0.version == VERSION,
{
    assert(encoded(decoded(bytes)->Ok_0) =~= bytes);
}

/// Two containers with the same bytes have the same fields: nothing in the
/// layout is ambiguous.
pub proof fn encoding_is_injective(a: Parts, b: Parts)
    requires
        a.wf(),
        b.wf(),
        encoded(a) == encoded(b),
    ensures
        a == b,
{
    let x = encoded(a);
    let y = encoded(b);
    assert(a.version == x[0]);
    assert(b.version == y[0]);
    assert(x.len() == y.len());
    assert(a.salt =~= x.subrange(1, 1 + SALT_LEN));
    assert(b.salt =~= y.subrange(1, 1 + SALT_LEN));
    assert(a.nonce =~= x.subrange(1 + SALT_LEN, HEADER_LEN as int));
    assert(b.nonce =~= y.subrange(1 + SALT_LEN, HEADER_LEN as int));
    assert(a.ciphertext =~= x.subrange(HEADER_LEN as int, x.len() - TAG_LEN));
    assert(b.ciphertext =~= y.subrange(HEADER_LEN as int, y.len() - TAG_LEN));
    assert(a.tag =~= x.subrange(x.len() - TAG_LEN, x.len() as int));
    assert(b.tag =~= y.subrange(y.len() - TAG_LEN, y.len() as int));
}

/// Containers that differ in salt or nonce differ as byte sequences,
/// whatever else they hold.
pub proof fn fresh_salt_or_nonce_changes_bytes(a: Parts, b: Parts)
    requires
        a.salt.len() == SALT_LEN,
        b.salt.len() == SALT_LEN,
        a.nonce.len() == NONCE_LEN,
        b.nonce.len() == NONCE_LEN,
        a.salt != b.salt || a.nonce != b.nonce,
    ensures
        encoded(a) != encoded(b),
{
    let x = encoded(a);
    let y = encoded(b);
    assert(a.salt =~= x.subrange(1, 1 + SALT_LEN));
    assert(b.salt =~= y.subrange(1, 1 + SALT_LEN));
    assert(a.nonce =~= x.subrange(1 + SALT_LEN, HEADER_LEN as int));
    assert(b.nonce =~= y.subrange(1 + SALT_LEN, HEADER_LEN as int));
}

/// The header of a container is its first `HEADER_LEN` bytes.
pub proof fn header_leads(parts: Parts)
    requires
        parts.salt.len() == SALT_LEN,
        parts.nonce.len() == NONCE_LEN,
    ensures
        encoded(parts).subrange(0, HEADER_LEN as int) == header(
            parts.version,
            parts.salt,
            parts.nonce,
        ),
{
    assert(encoded(parts).subrange(0, HEADER_LEN as int) =~= header(
        parts.version,
        parts.salt,
        parts.nonce,
    ));
}

/// `bytes` with one bit flipped: bit number `bit` of the byte at `index`.
pub open spec fn with_bit_flipped(bytes: Seq<u8>, index: int, bit: u8) -> Seq<u8> {
    bytes.update(index, bytes[index] ^ (1u8 << bit))
}

/// Flipping any one bit of the version byte of an accepted container
/// makes it a corrupt one.
pub proof fn version_bit_flip_is_corrupt(bytes: Seq<u8>, bit: u8)
    requires
        decoded(bytes) is Ok,
        bit < 8,
    ensures
        decoded(with_bit_flipped(bytes, 0, bit)) == Err::<Parts, Error>(Error::CorruptContainer),
{
    let v = bytes[0];
    assert(v ^ (1u8 << bit) != v) by (bit_vector)
        requires
            bit < 8,
    ;
}

/// No bit of an accepted container can be flipped unseen. A flip in the
/// version byte makes the container corrupt. A flip anywhere else changes
/// exactly the field it falls into, salt, nonce, ciphertext or tag, and
/// each of these goes into the check of the tag.
pub proof fn bit_flip_is_seen(bytes: Seq<u8>, index: int, bit: u8)
    requires
        decoded(bytes) is Ok,
        0 <= index < bytes.len(),
        bit < 8,
    ensures
        index == 0 ==> decoded(with_bit_flipped(bytes, index, bit)) == Err::<Parts, Error>(
            Error::CorruptContainer,
        ),
        index > 0 ==> decoded(with_bit_flipped(bytes, index, bit)) is Ok,
        index > 0 ==> ({
            let before = decoded(bytes)->Ok_0;
            let after = decoded(with_bit_flipped(bytes, index, bit))->Ok_0;
            &&& (after.salt != before.salt) == (index < 1 + SALT_LEN)
            &&& (after.nonce != before.nonce) == (1 + SALT_LEN <= index < HEADER_LEN)
            &&& (after.ciphertext != before.ciphertext) == (HEADER_LEN <= index < bytes.len()
                - TAG_LEN)
            &&& (after.tag != before.tag) == (bytes.len() - TAG_LEN <= index)
        }),
{
    let v = bytes[index];
    assert(v ^ (1u8 << bit) != v) by (bit_vector)
        requires
            bit < 8,
    ;
    if index > 0 {
        let flipped = with_bit_flipped(bytes, index, bit);
        let before = decoded(bytes)->Ok_0;
        let after = decoded(flipped)->Ok_0;
        let body_end = bytes.len() - TAG_LEN;
        if index < 1 + SALT_LEN {
            assert(after.salt[index - 1] != before.salt[index - 1]);
        } else {
            assert(after.salt =~= before.salt);
        }
        if 1 + SALT_LEN <= index < HEADER_LEN {
            assert(after.nonce[index - 1 - SALT_LEN] != before.nonce[index - 1 - SALT_LEN]);
        } else {
            assert(after.nonce =~= before.nonce);
        }
        if HEADER_LEN <= index < body_end {
            assert(after.ciphertext[index - HEADER_LEN] != before.ciphertext[index - HEADER_LEN]);
        } else {
            assert(after.ciphertext =~= before.ciphertext);
        }
        if body_end <= index {
            assert(after.tag[index - body_end] != before.tag[index - body_end]);
        } else {
            assert(after.tag =~= before.tag);
        }
    }
}

/// Input shorter than the header and the tag together is corrupt.
pub proof fn truncated_is_corrupt(bytes: Seq<u8>)
    requires
        bytes.len() < MIN_CONTAINER_LEN,
    ensures
        decoded(bytes) == Err::<Parts, Error>(Error::CorruptContainer),
{
}

} // verus!
