//! Key derivation: from a passphrase and a salt to a 256-bit key.
//!
//! The derivation is PBKDF2 with HMAC-SHA-256, run for `KDF_ROUNDS` rounds,
//! so that every guess at a passphrase costs an attacker that much work.

use crate::format::{append, SALT_LEN};
use vstd::prelude::*;

verus! {

/// Length of a derived key in bytes.
pub const KEY_LEN: usize = 32;

/// The work factor: how many rounds of HMAC-SHA-256 one derivation runs.
pub const KDF_ROUNDS: u32 = 100_000;

/// What goes before every salt: it names the purpose of the keys derived
/// here, so that none of them serves anywhere else.
pub const KDF_PURPOSE: [u8; 6] = [0x63, 0x6f, 0x63, 0x6f, 0x6f, 0x6e];

/// The 32 bytes that PBKDF2 with HMAC-SHA-256 gives for a passphrase, a
/// salt and a number of rounds.
pub uninterp spec fn pbkdf2_hmac_sha256(passphrase: Seq<u8>, salt: Seq<u8>, rounds: u32) -> Seq<u8>;

/// The key that belongs to a passphrase and a salt: derived from the
/// passphrase under the purpose followed by the salt.
pub open spec fn derived_key(passphrase: Seq<u8>, salt: Seq<u8>) -> Seq<u8> {
    pbkdf2_hmac_sha256(passphrase, KDF_PURPOSE@ + salt, KDF_ROUNDS)
}

/// Calls `pbkdf2::pbkdf2_hmac_array` with SHA-256 and a 32-byte output.
///
/// The output of that function depends on its three arguments alone; the
/// contract gives it its name and claims nothing else.
#[verifier::external_body]
fn pbkdf2_sha256(passphrase: &[u8], salt: &[u8], rounds: u32) -> (key: [u8; KEY_LEN])
    ensures
        key@ == pbkdf2_hmac_sha256(passphrase@, salt@, rounds),
{
    pbkdf2::pbkdf2_hmac_array::<sha2::Sha256, KEY_LEN>(passphrase, salt, rounds)
}

/// Calls `zeroize::Zeroize::zeroize` on an array of bytes, which overwrites
/// every byte with zero in a way the compiler may not remove.
#[verifier::external_body]
fn zeroize_key(bytes: &mut [u8; KEY_LEN])
    ensures
        forall|i: int| 0 <= i < KEY_LEN ==> final(bytes)@[i] == 0u8,
{
    zeroize::Zeroize::zeroize(bytes);
}

/// Secret key material for one seal or open.
///
/// It is to be wiped as soon as that call is over.
pub struct DerivedKey {
    bytes: [u8; KEY_LEN],
}

impl View for DerivedKey {
    type V = Seq<u8>;

    closed spec fn view(&self) -> Seq<u8> {
        self.bytes@
    }
}

impl DerivedKey {
    /// The key bytes, for the cipher.
    pub fn as_bytes(&self) -> (bytes: &[u8; KEY_LEN])
        ensures
            bytes@ == self@,
    {
        &self.bytes
    }

    /// Overwrites the key with zeros.
    pub fn wipe(&mut self)
        ensures
            final(self)@ == Seq::new(KEY_LEN as nat, |i: int| 0u8),
    {
        zeroize_key(&mut self.bytes);
        assert(self.bytes@ =~= Seq::new(KEY_LEN as nat, |i: int| 0u8));
    }
}

/// Derives the key for `passphrase` under `salt`.
///
/// The same passphrase and salt always give the same key, so that the key
/// used to seal a container can be derived again to open it. HMAC fills
/// a short passphrase up with zero bytes, so passphrases that differ only
/// in zero bytes at the end have the same key.
pub fn derive(passphrase: &[u8], salt: &[u8; SALT_LEN]) -> (key: DerivedKey)
    requires
        passphrase@.len() > 0,
    ensures
        key@ == derived_key(passphrase@, salt@),
        key@.len() == KEY_LEN,
{
    let mut extended: Vec<u8> = Vec::new();
    append(&mut extended, KDF_PURPOSE.as_slice());
    append(&mut extended, salt.as_slice());
    DerivedKey { bytes: pbkdf2_sha256(passphrase, extended.as_slice(), KDF_ROUNDS) }
}

} // verus!
