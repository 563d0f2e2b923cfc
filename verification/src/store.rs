//! The storage rules of a vault file, over its bytes: what is read from a file
//! and what is to be written back. The file system side (atomic writes through
//! a temporary file, the `<vault>.bak` copy, owner-only permissions) is done by
//! the caller with the bytes these functions return.

use vstd::prelude::*;

use crate::crypto::{
    change_master, encryptable, encrypts, fresh_header, holds, kdf_usable, key_matches, open, open_outcome,
    open_with_key, reports_outcome, reseal, seal, seal_with_key, seals, OpenFailure, VaultKey,
};
use crate::error::{io_error, io_error_already_exists, IoKind, VaultError};
use crate::format::KdfParams;
use crate::key::SecretBytes;
use crate::vault::{VaultData, DATA_VERSION};

verus! {

/// The KDF parameters of every vault this library writes.
pub open spec fn default_params() -> KdfParams {
    KdfParams { m_cost: 65536, t_cost: 3, p_cost: 4 }
}

/// The error for a path that is already taken: `AlreadyExists`, "a file
/// already exists at this path".
pub fn already_exists() -> (e: VaultError)
    ensures
        e matches VaultError::Io(x) && io_error_already_exists(x),
{
    VaultError::Io(io_error(IoKind::AlreadyExists, "a file already exists at this path"))
}

/// The JSON plaintext of a vault file.
pub fn load(file: &[u8], password: &[u8]) -> (r: Result<SecretBytes, VaultError>)
    ensures
        r is Ok <==> open_outcome(password@, file@) is Ok,
        r matches Ok(json) ==> open_outcome(password@, file@) matches Ok((dek, plaintext)) && plaintext == json@,
        r matches Err(e) ==> reports_outcome(e, open_outcome(password@, file@)),
        forall|json: Seq<u8>| #[trigger] holds(file@, password@, json) ==> (r matches Ok(p) && p@ == json),
{
    open(password, file)
}

/// Like [`load`], but also returns the key for [`save_with_key`].
pub fn load_with_key(file: &[u8], password: &[u8]) -> (r: Result<(VaultKey, SecretBytes), VaultError>)
    ensures
        r is Ok <==> open_outcome(password@, file@) is Ok,
        r matches Ok((key, json)) ==> {
            &&& open_outcome(password@, file@) == Ok::<(Seq<u8>, Seq<u8>), OpenFailure>((key@.0, json@))
            &&& key_matches(key@, file@)
            &&& seals(file@, password@, key@.0, json@)
        },
        r matches Err(e) ==> reports_outcome(e, open_outcome(password@, file@)),
        forall|dek: Seq<u8>, json: Seq<u8>| #[trigger] seals(file@, password@, dek, json)
            ==> (r matches Ok((key, p)) && key@.0 == dek && p@ == json),
{
    open_with_key(password, file)
}

/// Accepts the contents read from a vault only in the schema this library
/// writes: an unknown schema would be cut down to this one at the first save.
pub fn accept(data: VaultData) -> (r: Result<VaultData, VaultError>)
    ensures
        data.version == DATA_VERSION ==> (r matches Ok(d) && d == data),
        data.version != DATA_VERSION ==> (r matches Err(e) && e is Malformed),
{
    if data.version != DATA_VERSION {
        return Err(VaultError::Malformed);
    }
    Ok(data)
}

/// The bytes of a new vault file holding `json`, under `password`.
pub fn save(password: &[u8], json: &[u8]) -> (r: Result<Vec<u8>, VaultError>)
    ensures
        r matches Ok(file) ==> {
            &&& holds(file@, password@, json@)
            &&& fresh_header(file@.subrange(0, 130), default_params(), file@.subrange(18, 34), file@.subrange(34, 58), file@.subrange(106, 130))
        },
        r matches Err(e) ==> e is Io || (e is Kdf && !kdf_usable(password@, default_params())),
        !kdf_usable(password@, default_params()) || !encryptable(json@.len()) ==> r is Err,
{
    save_with_params(password, json, KdfParams::default())
}

/// [`save`] with the given KDF parameters.
pub fn save_with_params(password: &[u8], json: &[u8], params: KdfParams) -> (r: Result<Vec<u8>, VaultError>)
    ensures
        r matches Ok(file) ==> {
            &&& holds(file@, password@, json@)
            &&& fresh_header(file@.subrange(0, 130), params, file@.subrange(18, 34), file@.subrange(34, 58), file@.subrange(106, 130))
        },
        r matches Err(e) ==> e is Io || (e is Kdf && !kdf_usable(password@, params)),
        !kdf_usable(password@, params) || !encryptable(json@.len()) ==> r is Err,
{
    seal(password, json, params)
}

/// A new vault for a path that must not be taken: refused with
/// `AlreadyExists` when `taken`, before any key derivation. Returns the key
/// for [`save_with_key`] and the bytes of the file.
pub fn create(taken: bool, password: &[u8], json: &[u8]) -> (r: Result<(VaultKey, Vec<u8>), VaultError>)
    ensures
        taken ==> (r matches Err(e) && e matches VaultError::Io(x) && io_error_already_exists(x)),
        r matches Ok((key, file)) ==> {
            &&& !taken
            &&& seals(file@, password@, key@.0, json@)
            &&& key_matches(key@, file@)
            &&& fresh_header(file@.subrange(0, 130), default_params(), file@.subrange(18, 34), file@.subrange(34, 58), file@.subrange(106, 130))
        },
        r matches Err(e) ==> e is Io || (e is Kdf && !kdf_usable(password@, default_params())),
        !kdf_usable(password@, default_params()) || !encryptable(json@.len()) ==> r is Err,
{
    create_with_params(taken, password, json, KdfParams::default())
}

/// [`create`] with the given KDF parameters.
pub fn create_with_params(taken: bool, password: &[u8], json: &[u8], params: KdfParams) -> (r: Result<(VaultKey, Vec<u8>), VaultError>)
    ensures
        taken ==> (r matches Err(e) && e matches VaultError::Io(x) && io_error_already_exists(x)),
        r matches Ok((key, file)) ==> {
            &&& !taken
            &&& seals(file@, password@, key@.0, json@)
            &&& key_matches(key@, file@)
            &&& fresh_header(file@.subrange(0, 130), params, file@.subrange(18, 34), file@.subrange(34, 58), file@.subrange(106, 130))
        },
        r matches Err(e) ==> e is Io || (e is Kdf && !kdf_usable(password@, params)),
        !kdf_usable(password@, params) || !encryptable(json@.len()) ==> r is Err,
{
    // Only spares the key derivation when the file is already there: the
    // writer must still refuse a path that appears in the meantime.
    if taken {
        return Err(already_exists());
    }
    seal_with_key(password, json, params)
}

/// The new bytes of a vault opened with `key`, given the file as it is now on
/// disk. No password and no key derivation. When the file on disk was
/// rewritten with another key after it was opened (a password change, a save
/// from the command line) the answer is `Conflict`: overwriting it would lose
/// those changes and, after a password change, bring the old password back.
pub fn save_with_key(key: &VaultKey, json: &[u8], previous: &[u8]) -> (r: Result<Vec<u8>, VaultError>)
    ensures
        r matches Ok(file) ==> {
            &&& key_matches(key@, previous@)
            &&& key_matches(key@, file@)
            &&& encrypts(file@, key@.0, json@)
        },
        r matches Err(e) ==> e is Io || (e is Conflict && !key_matches(key@, previous@)),
        !key_matches(key@, previous@) || !encryptable(json@.len()) ==> r is Err,
{
    let file = reseal(key, json)?;
    if !key.matches(previous) {
        return Err(VaultError::Conflict);
    }
    Ok(file)
}

/// The bytes of the vault file `current` with its DEK wrapped under `new`
/// instead of `old`. The vault ciphertext stays the same. The caller removes
/// `<vault>.bak` before writing: it would open with the old password and, the
/// DEK being unchanged, give access to the current vault too.
pub fn change_password(current: &[u8], old: &[u8], new: &[u8]) -> (r: Result<Vec<u8>, VaultError>)
    ensures
        open_outcome(old@, current@) is Err ==> (r matches Err(e) && reports_outcome(e, open_outcome(old@, current@))),
        open_outcome(old@, current@) is Ok ==> (r matches Err(e) ==> e is Io || (e is Kdf && !kdf_usable(new@, default_params()))),
        !kdf_usable(new@, default_params()) ==> r is Err,
        r matches Ok(out) ==> {
            &&& open_outcome(old@, current@) is Ok
            &&& out@.len() == current@.len()
            &&& out@.subrange(106, out@.len() as int) == current@.subrange(106, current@.len() as int)
            &&& forall|dek: Seq<u8>, json: Seq<u8>| #[trigger] seals(current@, old@, dek, json) ==> seals(out@, new@, dek, json)
        },
{
    change_password_with_params(current, old, new, KdfParams::default())
}

/// [`change_password`] with the given KDF parameters for the new password.
pub fn change_password_with_params(current: &[u8], old: &[u8], new: &[u8], params: KdfParams) -> (r: Result<Vec<u8>, VaultError>)
    ensures
        open_outcome(old@, current@) is Err ==> (r matches Err(e) && reports_outcome(e, open_outcome(old@, current@))),
        open_outcome(old@, current@) is Ok ==> (r matches Err(e) ==> e is Io || (e is Kdf && !kdf_usable(new@, params))),
        !kdf_usable(new@, params) ==> r is Err,
        r matches Ok(out) ==> {
            &&& open_outcome(old@, current@) is Ok
            &&& out@.len() == current@.len()
            &&& out@.subrange(106, out@.len() as int) == current@.subrange(106, current@.len() as int)
            &&& fresh_header(out@.subrange(0, 130), params, out@.subrange(18, 34), out@.subrange(34, 58), current@.subrange(106, 130))
            &&& forall|dek: Seq<u8>, json: Seq<u8>| #[trigger] seals(current@, old@, dek, json) ==> seals(out@, new@, dek, json)
        },
{
    change_master(old, new, current, params)
}

} // verus!
