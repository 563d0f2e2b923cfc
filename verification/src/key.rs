//! 32-byte symmetric keys (KEK or DEK) and the system's random generator.

use vstd::prelude::*;

use crate::error::{io_error_from_rng, VaultError};
use crate::wipe::{wipe_bytes, wipe_key};

verus! {

/// `OsRng::try_fill_bytes` (rand 0.8): fills `bytes` from the operating
/// system's generator, in place. Nothing is stated of the bytes: they are
/// whatever the system produced.
#[verifier::external_body]
fn os_fill<const N: usize>(bytes: &mut [u8; N]) -> Result<(), rand::Error> {
    rand::RngCore::try_fill_bytes(&mut rand::rngs::OsRng, bytes)
}

/// `N` bytes from the system's generator. A failure of the generator becomes
/// an `Io` error, never a panic. Nothing is stated of the bytes.
pub(crate) fn random_array<const N: usize>() -> (r: Result<[u8; N], VaultError>)
    ensures
        r matches Err(e) ==> e is Io,
{
    let mut out = [0u8; N];
    match os_fill(&mut out) {
        Ok(()) => Ok(out),
        Err(e) => Err(VaultError::Io(io_error_from_rng(e))),
    }
}

/// A 32-byte symmetric key (KEK or DEK), zeroed when dropped. No `Debug`,
/// `Clone` or `Copy`: the bytes leave only through [`Key32::as_bytes`].
pub struct Key32([u8; 32]);

impl View for Key32 {
    type V = Seq<u8>;

    closed spec fn view(&self) -> Seq<u8> {
        self.0@
    }
}

impl Drop for Key32 {
    fn drop(&mut self)
        opens_invariants none
        no_unwind
    {
        wipe_key(&mut self.0);
    }
}

impl Key32 {
    /// A random key from the system's generator, written straight into its
    /// final buffer. A failure of the generator is an `Io` error, not a panic.
    /// Nothing is stated of the bytes: they are whatever the system produced.
    pub fn random() -> (r: Result<Self, VaultError>)
        ensures
            r matches Ok(k) ==> k@.len() == 32,
            r matches Err(e) ==> e is Io,
    {
        let mut key = Key32([0u8; 32]);
        match os_fill(&mut key.0) {
            Ok(()) => Ok(key),
            Err(e) => Err(VaultError::Io(io_error_from_rng(e))),
        }
    }

    /// The key with these bytes.
    pub fn from_bytes(bytes: [u8; 32]) -> (k: Self)
        ensures
            k@ == bytes@,
    {
        Key32(bytes)
    }

    /// The bytes of the key.
    pub fn as_bytes(&self) -> (r: &[u8; 32])
        ensures
            r@ == self@,
    {
        &self.0
    }
}

/// Decrypted bytes (the JSON of a vault), zeroed when dropped.
pub struct SecretBytes(Vec<u8>);

impl View for SecretBytes {
    type V = Seq<u8>;

    closed spec fn view(&self) -> Seq<u8> {
        self.0@
    }
}

impl Drop for SecretBytes {
    fn drop(&mut self)
        opens_invariants none
        no_unwind
    {
        wipe_bytes(&mut self.0);
    }
}

impl SecretBytes {
    /// Takes these bytes in, to be zeroed when dropped.
    pub fn new(bytes: Vec<u8>) -> (s: Self)
        ensures
            s@ == bytes@,
    {
        SecretBytes(bytes)
    }

    /// The bytes.
    pub fn as_slice(&self) -> (r: &[u8])
        ensures
            r@ == self@,
    {
        self.0.as_slice()
    }
}

} // verus!
