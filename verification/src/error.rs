//! Errors of the vault. Messages never carry secrets.

use vstd::prelude::*;

verus! {

#[verifier::external_type_specification]
#[verifier::external_body]
pub struct ExIoError(std::io::Error);

#[verifier::external_type_specification]
#[verifier::external_body]
pub struct ExRandError(rand::Error);

/// Error of every vault operation.
#[derive(Debug)]
pub enum VaultError {
    /// The file does not start with the `PWDV` magic.
    BadMagic,
    /// The file has a format version this library cannot read.
    UnsupportedVersion(u8),
    /// The file is shorter than its format requires.
    Truncated,
    /// Wrong password or tampered file: on purpose the two are not told apart.
    AuthFailed,
    /// The vault opened but its contents are not valid or of an unknown schema.
    Malformed,
    /// The file on disk was rewritten with another key after it was opened.
    Conflict,
    /// Key derivation refused its parameters.
    Kdf(String),
    /// Input/output failure, or a failure of the system's random generator.
    Io(std::io::Error),
}

/// The kinds of I/O error that the library itself raises.
pub enum IoKind {
    /// An input the operation cannot take (a plaintext too large to encrypt).
    InvalidInput,
    /// A file is already present where a new one would be created.
    AlreadyExists,
}

/// Whether `io::Error::kind` of this error is `ErrorKind::AlreadyExists`.
pub uninterp spec fn io_error_already_exists(error: std::io::Error) -> bool;

/// `std::io::Error::new` with the given kind and message. Claimed: the
/// error's kind is the one given, so it is `AlreadyExists` exactly when that
/// was asked for.
#[verifier::external_body]
pub(crate) fn io_error(kind: IoKind, message: &str) -> (r: std::io::Error)
    ensures
        io_error_already_exists(r) == (kind is AlreadyExists),
{
    let kind = match kind {
        IoKind::InvalidInput => std::io::ErrorKind::InvalidInput,
        IoKind::AlreadyExists => std::io::ErrorKind::AlreadyExists,
    };
    std::io::Error::new(kind, message.to_owned())
}

/// rand_core's `From<rand::Error> for std::io::Error`: the raw OS error code
/// when there is one, otherwise an error of kind `Other` around it.
#[verifier::external_body]
pub(crate) fn io_error_from_rng(error: rand::Error) -> std::io::Error {
    std::io::Error::from(error)
}

/// `std::io::Error::kind() == ErrorKind::AlreadyExists`.
#[verifier::external_body]
pub(crate) fn io_error_is_already_exists(error: &std::io::Error) -> (b: bool)
    ensures
        b == io_error_already_exists(*error),
{
    error.kind() == std::io::ErrorKind::AlreadyExists
}

/// The `Display` text of a `std::io::Error`.
#[verifier::external_body]
pub(crate) fn io_error_text(error: &std::io::Error) -> String {
    format!("{error}")
}

} // verus!
