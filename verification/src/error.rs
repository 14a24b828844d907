//! The reasons for which an operation can fail.

use vstd::prelude::*;
use vstd::string::StringExecFns;

verus! {

/// Why an encryption or decryption did not complete.
///
/// A wrong passphrase and a tampered container are deliberately not told
/// apart: both are reported as `AuthenticationFailure`.
#[derive(Clone, Debug, PartialEq, Eq)]
pub enum Error {
    /// The random generator behind salt and nonce could not deliver.
    KeyDerivationFailed,
    /// The tag did not verify: wrong passphrase or altered container.
    AuthenticationFailure,
    /// The input is not a container: too short, or of an unknown version.
    CorruptContainer,
    /// The named input path could not be read.
    IoReadFailure(String),
    /// The named output path could not be written.
    IoWriteFailure(String),
}

impl Error {
    /// The reason in words, with the path for the two file failures. No
    /// reason ever holds a passphrase or a key.
    pub open spec fn reason_text(self) -> Seq<char> {
        match self {
            Error::KeyDerivationFailed => "key derivation failed: no random bytes to be had"@,
            Error::AuthenticationFailure => "authentication failed: wrong passphrase or altered container"@,
            Error::CorruptContainer => "corrupt container: too short or of an unknown version"@,
            Error::IoReadFailure(path) => "could not read "@ + path@,
            Error::IoWriteFailure(path) => "could not write "@ + path@,
        }
    }

    /// The caller can try again with other input: true of every failure
    /// but `KeyDerivationFailed`.
    pub open spec fn is_recoverable(self) -> bool {
        !(self is KeyDerivationFailed)
    }

    /// Says in words why the operation failed.
    pub fn reason(&self) -> (text: String)
        ensures
            text@ == self.reason_text(),
    {
        match self {
            Error::KeyDerivationFailed => String::from_str(
                "key derivation failed: no random bytes to be had",
            ),
            Error::AuthenticationFailure => String::from_str(
                "authentication failed: wrong passphrase or altered container",
            ),
            Error::CorruptContainer => String::from_str(
                "corrupt container: too short or of an unknown version",
            ),
            Error::IoReadFailure(path) => String::from_str("could not read ").concat(
                path.as_str(),
            ),
            Error::IoWriteFailure(path) => String::from_str("could not write ").concat(
                path.as_str(),
            ),
        }
    }

    /// Tells whether the caller can try again with other input.
    pub fn recoverable(&self) -> (yes: bool)
        ensures
            yes == self.is_recoverable(),
    {
        match self {
            Error::KeyDerivationFailed => false,
            _ => true,
        }
    }
}

} // verus!
