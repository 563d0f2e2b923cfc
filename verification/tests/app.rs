use std::cell::RefCell;
use std::path::PathBuf;
use std::rc::Rc;

use pwdv::app::{
    back, describe, finish, format_duration, job_for, lock_message, lock_session, opened, take_session, tick, AppState, Job,
    LockReason, Session,
};
use pwdv::error::VaultError;
use pwdv::format::KdfParams;
use pwdv::main_view::{apply, save_before_lock, Action, Copied, Focus};
use pwdv::security::{Clipboard, ClipboardBackend, IdleTimer, Now, DEFAULT_AUTOLOCK, SECOND};
use pwdv::store::create_with_params;
use pwdv::unlock::PasswordForm;
use pwdv::vault::{Entry, VaultData};

const FAST: KdfParams = KdfParams {
    m_cost: 8192,
    t_cost: 1,
    p_cost: 1,
};

#[derive(Clone, Default)]
struct Shared(Rc<RefCell<Option<String>>>);

impl ClipboardBackend for Shared {
    fn set_secret(&mut self, text: &str) -> Result<(), String> {
        *self.0.borrow_mut() = Some(text.to_owned());
        Ok(())
    }

    fn get(&mut self) -> Option<String> {
        self.0.borrow().clone()
    }

    fn clear(&mut self) -> Result<(), String> {
        *self.0.borrow_mut() = None;
        Ok(())
    }
}

fn start() -> Now {
    Now { instant: 50 * SECOND, wall: 1_700_000_000 * SECOND as i64 }
}

fn session(names: &[&str]) -> Session {
    let mut data = VaultData::default();
    for name in names {
        data.entries.push(Entry::new(name.to_string(), "utente".into(), "segreto".into(), None, None));
    }
    let (key, _) = create_with_params(false, b"pw", b"{}", FAST).unwrap();
    Session::new(PathBuf::from("vault.pwdv"), key, data)
}

#[test]
fn messages_do_not_tell_wrong_password_from_tampering() {
    assert_eq!(describe(&VaultError::AuthFailed), "Password errata o file danneggiato.");
    assert_eq!(describe(&VaultError::UnsupportedVersion(9)), "Versione del formato non supportata (9).");
    assert_eq!(describe(&VaultError::Kdf("dettagli interni".into())), "Errore nella derivazione della chiave.");
    let exists = std::io::Error::new(std::io::ErrorKind::AlreadyExists, "x");
    assert_eq!(describe(&VaultError::Io(exists)), "Esiste già un file in questo percorso.");
    let other = std::io::Error::new(std::io::ErrorKind::Other, "disco pieno");
    assert_eq!(describe(&VaultError::Io(other)), "Errore di I/O (disco pieno).");
}

#[test]
fn durations_are_shown_in_minutes_when_whole() {
    assert_eq!(format_duration(DEFAULT_AUTOLOCK), "5 min");
    assert_eq!(format_duration(90 * SECOND), "90 s");
    assert_eq!(format_duration(0), "0 min");
}

#[test]
fn lock_messages_report_a_failed_save() {
    assert_eq!(lock_message(LockReason::Manual, None), "Vault bloccato.");
    assert_eq!(
        lock_message(LockReason::Inactivity, Some("disco pieno")),
        "Vault bloccato per inattività. Le ultime modifiche non sono state salvate: disco pieno"
    );
}

#[test]
fn inactivity_locks_the_vault_after_the_timeout() {
    let now = start();
    let state = AppState::Unlocked(Box::new(session(&[])));
    let idle = IdleTimer::new(DEFAULT_AUTOLOCK, now);
    let mut clipboard = Clipboard::with_backend(Shared::default());
    assert!(!tick(&state, &mut clipboard, &idle, now.plus(299 * SECOND)));
    assert!(tick(&state, &mut clipboard, &idle, now.plus(300 * SECOND)));
    assert!(!tick(&AppState::Unlocking, &mut clipboard, &idle, now.plus(300 * SECOND)));
}

#[test]
fn locking_takes_the_session_once() {
    let mut state = AppState::Unlocked(Box::new(session(&["a"])));
    let mut s = take_session(&mut state).unwrap();
    assert!(matches!(state, AppState::Unlocking));
    assert!(!save_before_lock(&mut s));
    assert!(take_session(&mut state).is_none());
}

#[test]
fn a_wrong_password_keeps_the_unlock_screen_other_errors_do_not() {
    let now = start();
    let mut state = AppState::Unlocking;
    let mut form = PasswordForm::default();
    let mut idle = IdleTimer::new(DEFAULT_AUTOLOCK, now);
    finish(&mut state, &mut form, &mut idle, Err(VaultError::AuthFailed), PathBuf::from("v"), "v", now);
    assert!(matches!(state, AppState::Unlocking));
    assert_eq!(form.failures(), 1);

    finish(&mut state, &mut form, &mut idle, Err(VaultError::Truncated), PathBuf::from("v"), "v", now);
    match &state {
        AppState::Error(m) => assert_eq!(m, "Impossibile aprire v.\nIl file è troncato."),
        _ => panic!("expected the error screen"),
    }

    let mut state = AppState::Creating;
    finish(&mut state, &mut form, &mut idle, Err(VaultError::AuthFailed), PathBuf::from("w"), "w", now);
    match &state {
        AppState::Error(m) => assert_eq!(m, "Impossibile creare w.\nPassword errata o file danneggiato."),
        _ => panic!("expected the error screen"),
    }

    let (key, _) = create_with_params(false, b"pw", b"{}", FAST).unwrap();
    let mut state = AppState::Unlocking;
    finish(&mut state, &mut form, &mut idle, Ok((key, VaultData::default())), PathBuf::from("v"), "v", now.plus(SECOND));
    assert!(matches!(state, AppState::Unlocked(_)));
    assert_eq!(form.failures(), 0);
    assert!(!idle.expired(now.plus(300 * SECOND)));
}

#[test]
fn screens_follow_the_choice_of_the_file() {
    assert!(matches!(opened(Ok(true), "v"), AppState::Unlocking));
    assert!(matches!(opened(Ok(false), "v"), AppState::Creating));
    match opened(Err("permesso negato".into()), "v") {
        AppState::Error(m) => assert_eq!(m, "Impossibile accedere a v.\nErrore di I/O (permesso negato)."),
        _ => panic!("expected the error screen"),
    }
    assert_eq!(job_for(&AppState::Creating, false), Some(Job::Create));
    assert_eq!(job_for(&AppState::Unlocking, false), Some(Job::Unlock));
    assert_eq!(job_for(&AppState::Unlocking, true), None);
    assert_eq!(job_for(&AppState::Welcome, false), None);

    let mut state = AppState::Unlocking;
    let mut form = PasswordForm::default();
    assert!(!back(&mut state, &mut form, true));
    assert!(matches!(state, AppState::Unlocking));
    assert!(back(&mut state, &mut form, false));
    assert!(matches!(state, AppState::Welcome));
}

#[test]
fn saving_a_new_entry_selects_it_and_asks_for_a_write() {
    let mut s = session(&["posta"]);
    let mut clipboard = Clipboard::with_backend(Shared::default());
    let now = start();
    apply(Action::New, &mut s, &mut clipboard, now);
    let fx = apply(Action::Save, &mut s, &mut clipboard, now);
    assert!(!fx.persist, "a blank draft is not saved");

    apply(Action::New, &mut s, &mut clipboard, now);
    {
        let draft = s.view.draft().unwrap();
        draft.name.push_str(" banca ");
        draft.password.push_str("pw");
    }
    let fx = apply(Action::Save, &mut s, &mut clipboard, now);
    assert!(fx.persist && fx.forget_secrets);
    assert_eq!(s.data.entries.len(), 2);
    assert_eq!(s.data.entries[1].name, "banca");
    assert_eq!(s.view.selected(), Some(1));
    assert_eq!(s.view.visible(), [1, 0]);
}

#[test]
fn deleting_needs_the_dialog_and_empties_the_selection() {
    let mut s = session(&["a"]);
    let mut clipboard = Clipboard::with_backend(Shared::default());
    let now = start();
    let fx = apply(Action::ConfirmDelete, &mut s, &mut clipboard, now);
    assert!(!fx.persist);
    apply(Action::Select(0), &mut s, &mut clipboard, now);
    apply(Action::AskDelete, &mut s, &mut clipboard, now);
    assert!(s.view.take_focus(Focus::DeleteConfirm));
    let fx = apply(Action::ConfirmDelete, &mut s, &mut clipboard, now);
    assert!(fx.persist);
    assert!(s.data.entries.is_empty());
    assert_eq!(s.view.selected(), None);
    assert!(s.view.take_focus(Focus::FirstEntry));
}

#[test]
fn copying_goes_through_the_clipboard_and_reveal_toggles() {
    let mut s = session(&["a"]);
    let shared = Shared::default();
    let mut clipboard = Clipboard::with_backend(shared.clone());
    let now = start();
    apply(Action::Select(0), &mut s, &mut clipboard, now);
    apply(Action::Copy(Copied::Password), &mut s, &mut clipboard, now);
    assert_eq!(shared.0.borrow().as_deref(), Some("segreto"));
    assert_eq!(s.view.copied(), Some(Copied::Password));

    apply(Action::ToggleReveal, &mut s, &mut clipboard, now);
    assert_eq!(s.view.revealed(now.instant), Some(10 * SECOND));
    apply(Action::ToggleReveal, &mut s, &mut clipboard, now);
    assert_eq!(s.view.revealed(now.instant), None);

    let mut refused: Clipboard<Shared> = Clipboard::without_backend("nessun display".into());
    apply(Action::Copy(Copied::Username), &mut s, &mut refused, now);
    assert_eq!(s.view.copy_error(), Some("Copia non riuscita: clipboard di sistema non disponibile."));
}

#[test]
fn a_failed_save_stays_until_a_retry_succeeds() {
    let mut s = session(&["a"]);
    let mut clipboard = Clipboard::with_backend(Shared::default());
    s.view.saved(Some("disco pieno".into()));
    assert_eq!(s.view.save_error(), Some("disco pieno"));
    assert!(save_before_lock(&mut s));
    let fx = apply(Action::Retry, &mut s, &mut clipboard, start());
    assert!(fx.persist);
    s.view.saved(None);
    assert_eq!(s.view.save_error(), None);
}

#[test]
fn manual_lock_drops_the_session_and_clears_the_clipboard() {
    let now = start();
    let shared = Shared::default();
    let mut clipboard = Clipboard::with_backend(shared.clone());
    let mut state = AppState::Unlocked(Box::new(session(&[])));
    clipboard.copy("segreto", now).unwrap();
    assert_eq!(shared.0.borrow().as_deref(), Some("segreto"));

    let mut s = lock_session(&mut state, &mut clipboard).unwrap();
    assert!(!save_before_lock(&mut s));
    drop(s);
    assert!(matches!(state, AppState::Unlocking));
    assert_eq!(*shared.0.borrow(), None);
    assert_eq!(clipboard.remaining(now), None);

    assert!(lock_session(&mut state, &mut clipboard).is_none());
    assert!(take_session(&mut state).is_none());
}

#[test]
fn before_a_lock_a_valid_draft_is_committed_and_an_invalid_one_is_not() {
    let now = start();
    let mut clipboard = Clipboard::with_backend(Shared::default());
    let mut s = session(&[]);
    apply(Action::New, &mut s, &mut clipboard, now);
    {
        let draft = s.view.draft().unwrap();
        draft.name.push_str("Bozza");
        draft.password.push_str("pw-bozza");
    }
    assert!(save_before_lock(&mut s));
    assert_eq!(s.data.entries.len(), 1);

    let mut s = session(&[]);
    apply(Action::New, &mut s, &mut clipboard, now);
    s.view.draft().unwrap().name.push_str("Incompleta");
    assert!(!save_before_lock(&mut s));
    assert!(s.data.entries.is_empty());
}
