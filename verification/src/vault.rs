//! The plaintext contents of a vault: a JSON document encrypted before it is
//! written (the JSON encoding itself is serde's, outside this library).

use vstd::prelude::*;

use crate::wipe::{wipe_optional, wipe_string};

verus! {

/// Version of the JSON schema, distinct from the version of the file format.
pub const DATA_VERSION: u32 = 1;

/// Seconds since the Unix epoch according to `SystemTime::now()`, or 0 when
/// the system clock is set before the epoch. Nothing is stated of the value:
/// it is whatever the clock reads.
#[verifier::external_body]
pub(crate) fn unix_now() -> u64 {
    std::time::SystemTime::now().duration_since(std::time::UNIX_EPOCH).map_or(0, |d| d.as_secs())
}

/// An entry of the vault. No `Debug` or `Clone`: it holds a password. Every
/// field is overwritten when the entry is dropped.
pub struct Entry {
    pub name: String,
    pub username: String,
    pub password: String,
    pub url: Option<String>,
    pub notes: Option<String>,
    /// Seconds since the Unix epoch.
    pub created: u64,
    /// Seconds since the Unix epoch.
    pub modified: u64,
}

impl Drop for Entry {
    fn drop(&mut self)
        opens_invariants none
        no_unwind
    {
        wipe_string(&mut self.name);
        wipe_string(&mut self.username);
        wipe_string(&mut self.password);
        wipe_optional(&mut self.url);
        wipe_optional(&mut self.notes);
        self.created = 0;
        self.modified = 0;
    }
}

impl Entry {
    /// A new entry, created and modified now, as the system clock reads it
    /// (see [`Entry::created_at`]).
    pub fn new(name: String, username: String, password: String, url: Option<String>, notes: Option<String>) -> (e: Self)
        ensures
            e.name@ == name@,
            e.username@ == username@,
            e.password@ == password@,
            e.url == url,
            e.notes == notes,
            e.created == e.modified,
    {
        Entry::created_at(name, username, password, url, notes, unix_now())
    }

    /// A new entry, created and modified at `now`, in seconds since the Unix
    /// epoch.
    pub fn created_at(name: String, username: String, password: String, url: Option<String>, notes: Option<String>,
        now: u64) -> (e: Self)
        ensures
            e.name@ == name@,
            e.username@ == username@,
            e.password@ == password@,
            e.url == url,
            e.notes == notes,
            e.created == now,
            e.modified == now,
    {
        Entry { name, username, password, url, notes, created: now, modified: now }
    }
}

/// The whole vault. No `Debug`: it holds every password.
pub struct VaultData {
    pub version: u32,
    pub entries: Vec<Entry>,
}

impl Default for VaultData {
    fn default() -> (d: Self)
        ensures
            d.version == DATA_VERSION,
            d.entries@.len() == 0,
    {
        VaultData { version: DATA_VERSION, entries: Vec::new() }
    }
}

} // verus!
