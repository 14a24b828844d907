//! Password-based authenticated encryption of byte streams.
//!
//! A byte stream and a passphrase are turned into a tamper-evident
//! container, and a container and its passphrase back into the byte
//! stream. Four parts do the work, one after the other:
//!
//! - [`kdf`] derives a key from the passphrase and a fresh salt;
//! - [`aead`] seals the bytes under that key and a fresh nonce, and opens
//!   them again only if nothing was altered;
//! - [`format`] lays salt, nonce, ciphertext and tag out as one container,
//!   and cuts a container apart again;
//! - [`sink`] says where the result goes and in which order the file
//!   system is to be touched, so that the target is replaced whole or not
//!   at all.
//!
//! [`encrypt`] holds the two operations built from them. The layout, the
//! flow of data through the parts and the commit protocol are proved; the
//! cipher, the derivation function and the random source are called as
//! they are and believed to do what their contracts here say.

pub mod aead;
pub mod encrypt;
pub mod error;
pub mod format;
pub mod kdf;
pub mod sink;
