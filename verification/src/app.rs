//! The states of the graphical interface and the messages it shows.

use vstd::prelude::*;

use crate::crypto::VaultKey;
use crate::error::{io_error_already_exists, io_error_is_already_exists, io_error_text, VaultError};
use crate::main_view::MainView;
use crate::security::SECOND;
use crate::text::{decimal, push_decimal, push_str};
use crate::unlock::AUTH_FAILED;
use crate::vault::VaultData;

verus! {

#[verifier::external_type_specification]
#[verifier::external_body]
pub struct ExPathBuf(std::path::PathBuf);

/// An open vault. No `Debug` or `Clone`: it holds the DEK and every password.
pub struct Session {
    pub path: std::path::PathBuf,
    /// DEK of the vault: saving needs no master password.
    pub key: VaultKey,
    pub data: VaultData,
    /// State of the view, drafts included: it lives and dies with the session.
    pub view: MainView,
}

impl Session {
    /// The session of a vault just opened, with a fresh view.
    pub fn new(path: std::path::PathBuf, key: VaultKey, data: VaultData) -> (s: Self)
        ensures
            s.path == path,
            s.key@ == key@,
            s.data == data,
            crate::main_view::fresh_view(s.view@, data.entries@),
    {
        let view = MainView::new(&data);
        Session { path, key, data, view }
    }
}


/// The message for a failure, for the user. It holds no secret and, like
/// [`VaultError`], does not tell a wrong password from a tampered file.
pub open spec fn described(e: VaultError, r: Seq<char>) -> bool {
    match e {
        VaultError::BadMagic => r == "Il file non è un vault pwdv."@,
        VaultError::UnsupportedVersion(v) => r == "Versione del formato non supportata ("@ + decimal(v as nat) + ")."@,
        VaultError::Truncated => r == "Il file è troncato."@,
        VaultError::AuthFailed => r == AUTH_FAILED@,
        VaultError::Malformed => r == "Il contenuto del vault non è valido o ha una versione non supportata."@,
        VaultError::Conflict => r
            == "Il file del vault è stato riscritto da un altro programma dopo l'apertura: salvare cancellerebbe quelle modifiche."@,
        VaultError::Kdf(_) => r == "Errore nella derivazione della chiave."@,
        VaultError::Io(x) => if io_error_already_exists(x) {
            r == "Esiste già un file in questo percorso."@
        } else {
            exists|t: Seq<char>| r == "Errore di I/O ("@ + t + ")."@
        },
    }
}

/// The message for a failure, for the user. For an I/O error it is the
/// message of a path already taken when the error is of kind
/// `AlreadyExists`, otherwise the error's own text in brackets.
pub fn describe(err: &VaultError) -> (r: String)
    ensures
        described(*err, r@),
{
    match err {
        VaultError::BadMagic => "Il file non è un vault pwdv.".to_owned(),
        VaultError::UnsupportedVersion(v) => {
            let mut s = "Versione del formato non supportata (".to_owned();
            push_decimal(&mut s, *v as u64);
            push_str(&mut s, ").");
            s
        },
        VaultError::Truncated => "Il file è troncato.".to_owned(),
        VaultError::AuthFailed => AUTH_FAILED.to_owned(),
        VaultError::Malformed => "Il contenuto del vault non è valido o ha una versione non supportata.".to_owned(),
        VaultError::Conflict => "Il file del vault è stato riscritto da un altro programma dopo l'apertura: salvare cancellerebbe quelle modifiche.".to_owned(),
        VaultError::Kdf(_) => "Errore nella derivazione della chiave.".to_owned(),
        VaultError::Io(e) => {
            if io_error_is_already_exists(e) {
                "Esiste già un file in questo percorso.".to_owned()
            } else {
                let t = io_error_text(e);
                let mut s = "Errore di I/O (".to_owned();
                push_str(&mut s, t.as_str());
                push_str(&mut s, ").");
                assert(s@ == "Errore di I/O ("@ + t@ + ")."@);
                s
            }
        },
    }
}

/// A duration in whole minutes when it is one, otherwise in seconds.
pub open spec fn duration_text(nanos: u64) -> Seq<char> {
    let secs = nanos / SECOND;
    if secs % 60 == 0 {
        decimal((secs / 60) as nat) + " min"@
    } else {
        decimal(secs as nat) + " s"@
    }
}

/// "5 min", "90 s": the inactivity lock as the menu shows it.
pub fn format_duration(nanos: u64) -> (r: String)
    ensures
        r@ == duration_text(nanos),
{
    let secs = nanos / SECOND;
    let mut s = String::new();
    if secs % 60 == 0 {
        push_decimal(&mut s, secs / 60);
        push_str(&mut s, " min");
    } else {
        push_decimal(&mut s, secs);
        push_str(&mut s, " s");
    }
    s
}

/// Why the vault was locked.
#[derive(Clone, Copy, Debug, PartialEq, Eq, Structural)]
pub enum LockReason {
    Manual,
    Inactivity,
}

/// The message of the unlock screen after a lock.
pub open spec fn lock_text(reason: LockReason, save_error: Option<Seq<char>>) -> Seq<char> {
    let head = match reason {
        LockReason::Manual => "Vault bloccato."@,
        LockReason::Inactivity => "Vault bloccato per inattività."@,
    };
    match save_error {
        Some(e) => head + " Le ultime modifiche non sono state salvate: "@ + e,
        None => head,
    }
}

/// The message of the unlock screen after a lock; a save that failed on the
/// way is reported, since the lock happened anyway.
pub fn lock_message(reason: LockReason, save_error: Option<&str>) -> (r: String)
    ensures
        r@ == lock_text(reason, match save_error { Some(e) => Some(e@), None => None }),
{
    let mut message = match reason {
        LockReason::Manual => "Vault bloccato.".to_owned(),
        LockReason::Inactivity => "Vault bloccato per inattività.".to_owned(),
    };
    match save_error {
        Some(e) => {
            push_str(&mut message, " Le ultime modifiche non sono state salvate: ");
            push_str(&mut message, e);
        },
        None => {},
    }
    message
}

/// The screen of the graphical interface.
pub enum AppState {
    /// Choosing the vault file.
    Welcome,
    /// The file does not exist: a new master password, with confirmation.
    Creating,
    /// The file exists: asking for the master password. This is the locked
    /// state as well: no key and no entry in memory.
    Unlocking,
    /// In a `Box`: the session is much larger than the other states.
    Unlocked(Box<Session>),
    /// An error that trying the password again does not solve.
    Error(String),
}

/// The message of an operation that failed for another reason than a wrong
/// password.
pub open spec fn failure_text(creating: bool, path: Seq<char>, e: VaultError, described_text: Seq<char>) -> Seq<char> {
    "Impossibile "@ + (if creating { "creare"@ } else { "aprire"@ }) + " "@ + path + ".\n"@ + described_text
}

/// What the worker gives back: the key and contents of the vault, or why not.
pub type Outcome = Result<(VaultKey, VaultData), VaultError>;

/// The job to hand to the worker thread.
#[derive(Clone, Copy, Debug, PartialEq, Eq, Structural)]
pub enum Job {
    Create,
    Unlock,
}

/// The screen to show after an operation, given what came back. A wrong
/// password on the unlock screen keeps it, counts the failure and may delay
/// the next attempt; any other error leads to the error screen; success opens
/// the session.
pub fn finish(state: &mut AppState, form: &mut crate::unlock::PasswordForm, idle: &mut crate::security::IdleTimer,
    outcome: Outcome, path: std::path::PathBuf, path_text: &str, now: crate::security::Now)
    ensures
        ({
            let unlocking = *old(state) is Unlocking;
            match outcome {
                Ok((key, data)) => {
                    &&& *final(state) matches AppState::Unlocked(s) && s.path == path && s.key@ == key@ && s.data == data
                    &&& final(idle)@ == (now, old(idle)@.1)
                    &&& final(form)@ == (crate::unlock::FormState { failures: 0, retry_at: None, ..crate::unlock::reset_state(old(form)@) })
                },
                Err(e) => if unlocking && e is AuthFailed {
                    &&& *final(state) is Unlocking
                    &&& final(idle)@ == old(idle)@
                    &&& final(form)@ == crate::unlock::failed_state(old(form)@, now.instant)
                } else {
                    &&& *final(state) matches AppState::Error(m) && exists|d: Seq<char>| described(e, d)
                        && m@ == failure_text(*old(state) is Creating, path_text@, e, d)
                    &&& final(idle)@ == old(idle)@
                    &&& final(form)@ == crate::unlock::reset_state(old(form)@)
                },
            }
        }),
{
    match outcome {
        Ok((key, data)) => {
            form.succeeded();
            idle.touch(now);
            *state = AppState::Unlocked(Box::new(Session::new(path, key, data)));
        },
        Err(e) => {
            let unlocking = match state {
                AppState::Unlocking => true,
                _ => false,
            };
            let auth_failed = match e {
                VaultError::AuthFailed => true,
                _ => false,
            };
            if unlocking && auth_failed {
                form.failed(now.instant);
            } else {
                let creating = match state {
                    AppState::Creating => true,
                    _ => false,
                };
                let mut message = "Impossibile ".to_owned();
                push_str(&mut message, if creating { "creare" } else { "aprire" });
                push_str(&mut message, " ");
                push_str(&mut message, path_text);
                push_str(&mut message, ".\n");
                let d = describe(&e);
                push_str(&mut message, d.as_str());
                assert(message@ == failure_text(creating, path_text@, e, d@));
                *state = AppState::Error(message);
                form.reset();
            }
        },
    }
}

/// The open session, taken out of the state, which becomes the unlock screen
/// of the same vault; `None`, and nothing changes, when no vault is open.
pub fn take_session(state: &mut AppState) -> (r: Option<Box<Session>>)
    ensures
        match *old(state) {
            AppState::Unlocked(s) => r == Some(s) && *final(state) is Unlocking,
            _ => r is None && *final(state) == *old(state),
        },
{
    let mut taken = AppState::Unlocking;
    std::mem::swap(state, &mut taken);
    match taken {
        AppState::Unlocked(session) => Some(session),
        other => {
            *state = other;
            None
        },
    }
}


/// Locks the open vault: the session is taken out, the state becomes the
/// unlock screen of the same vault, and the clipboard is emptied of what this
/// program copied (what was copied elsewhere stays). `None`, and nothing
/// changes, when no vault is open.
pub fn lock_session<B: crate::security::ClipboardBackend>(
    state: &mut AppState,
    clipboard: &mut crate::security::Clipboard<B>,
) -> (r: Option<Box<Session>>)
    ensures
        match *old(state) {
            AppState::Unlocked(s) => {
                &&& r == Some(s)
                &&& *final(state) is Unlocking
                &&& final(clipboard).pending() is None
                &&& final(clipboard).reason() == old(clipboard).reason()
                &&& match old(clipboard).pending() {
                    Some((v, _)) => crate::security::cleared_if_ours(old(clipboard).backend(), final(clipboard).backend(), v),
                    None => final(clipboard).backend() == old(clipboard).backend(),
                }
            },
            _ => r is None && *final(state) == *old(state) && *final(clipboard) == *old(clipboard),
        },
{
    let session = take_session(state);
    if session.is_some() {
        clipboard.clear_now();
    }
    session
}

/// The screen after choosing a vault file: the unlock screen when it exists,
/// the create screen when it does not, an error when that cannot be told.
pub fn opened(found: Result<bool, String>, path_text: &str) -> (r: AppState)
    ensures
        match found {
            Ok(true) => r is Unlocking,
            Ok(false) => r is Creating,
            Err(e) => r matches AppState::Error(m)
                && m@ == "Impossibile accedere a "@ + path_text@ + ".\nErrore di I/O ("@ + e@ + ")."@,
        },
{
    match found {
        Ok(true) => AppState::Unlocking,
        Ok(false) => AppState::Creating,
        Err(e) => {
            let mut message = "Impossibile accedere a ".to_owned();
            push_str(&mut message, path_text);
            push_str(&mut message, ".\nErrore di I/O (");
            push_str(&mut message, e.as_str());
            push_str(&mut message, ").");
            AppState::Error(message)
        },
    }
}

/// Back to the choice of the file, unless a job is running. Whether it went back.
pub fn back(state: &mut AppState, form: &mut crate::unlock::PasswordForm, busy: bool) -> (r: bool)
    ensures
        r == !busy,
        busy ==> *final(state) == *old(state) && final(form)@ == old(form)@,
        !busy ==> *final(state) is Welcome && final(form)@ == crate::unlock::reset_state(old(form)@),
{
    if busy {
        return false;
    }
    *state = AppState::Welcome;
    form.reset();
    true
}

/// The job to start for a submitted password: none while another runs, and
/// none outside the create and unlock screens.
pub fn job_for(state: &AppState, busy: bool) -> (r: Option<Job>)
    ensures
        r == (if busy {
            None
        } else {
            match *state {
                AppState::Creating => Some(Job::Create),
                AppState::Unlocking => Some(Job::Unlock),
                _ => None,
            }
        }),
{
    if busy {
        return None;
    }
    match state {
        AppState::Creating => Some(Job::Create),
        AppState::Unlocking => Some(Job::Unlock),
        _ => None,
    }
}

/// The deadlines of a frame: the clipboard is emptied when its time is up,
/// and the answer is whether the open vault is to be locked for inactivity.
pub fn tick<B: crate::security::ClipboardBackend>(
    state: &AppState,
    clipboard: &mut crate::security::Clipboard<B>,
    idle: &crate::security::IdleTimer,
    now: crate::security::Now,
) -> (lock: bool)
    ensures
        lock == (*state is Unlocked && crate::security::left(idle@.1, idle@.0, now) == 0),
        crate::security::ticked(*old(clipboard), *final(clipboard), now),
{
    clipboard.tick(now);
    match state {
        AppState::Unlocked(_) => idle.expired(now),
        _ => false,
    }
}

} // verus!
