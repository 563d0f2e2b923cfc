//! Overwriting memory that held keys or passwords before it is released.

use vstd::prelude::*;

verus! {

/// `Zeroize::zeroize` on a 32-byte key: every byte becomes zero.
#[verifier::external_body]
pub(crate) fn wipe_key(bytes: &mut [u8; 32])
    ensures
        final(bytes)@ == seq![0u8; 32],
    opens_invariants none
    no_unwind
{
    zeroize::Zeroize::zeroize(bytes);
}

/// `Zeroize::zeroize` on a `String`: the whole capacity is overwritten with
/// zeros and the string is left empty, with its buffer kept.
#[verifier::external_body]
pub(crate) fn wipe_string(s: &mut String)
    ensures
        final(s)@ == Seq::<char>::empty(),
    opens_invariants none
    no_unwind
{
    zeroize::Zeroize::zeroize(s);
}

/// `Zeroize::zeroize` on an `Option<String>`: the string, if any, is
/// overwritten and dropped, and the option is left `None`.
#[verifier::external_body]
pub(crate) fn wipe_optional(s: &mut Option<String>)
    ensures
        *final(s) == None::<String>,
    opens_invariants none
    no_unwind
{
    zeroize::Zeroize::zeroize(s);
}

/// `Zeroize::zeroize` on a byte buffer: the whole capacity is overwritten
/// with zeros and the vector is left empty.
#[verifier::external_body]
pub(crate) fn wipe_bytes(bytes: &mut Vec<u8>)
    ensures
        final(bytes)@ == Seq::<u8>::empty(),
    opens_invariants none
    no_unwind
{
    zeroize::Zeroize::zeroize(bytes);
}

} // verus!
