use std::cell::RefCell;
use std::rc::Rc;

use pwdv::security::{
    initial_autolock, is_user_input, parse_autolock, WindowEvent, Clipboard, ClipboardBackend, Deadline, IdleTimer, Now, CLIPBOARD_TTL,
    DEFAULT_AUTOLOCK, SECOND,
};

const SEC: u64 = SECOND;

fn start() -> Now {
    Now {
        instant: 1_000 * SEC,
        wall: 1_700_000_000 * SEC as i64,
    }
}

#[derive(Clone, Default)]
struct Fake(Rc<RefCell<Option<String>>>);

impl Fake {
    fn content(&self) -> Option<String> {
        self.0.borrow().clone()
    }

    fn foreign_copy(&self, text: &str) {
        *self.0.borrow_mut() = Some(text.to_owned());
    }
}

impl ClipboardBackend for Fake {
    fn set_secret(&mut self, text: &str) -> Result<(), String> {
        *self.0.borrow_mut() = Some(text.to_owned());
        Ok(())
    }

    fn get(&mut self) -> Option<String> {
        self.content()
    }

    fn clear(&mut self) -> Result<(), String> {
        *self.0.borrow_mut() = None;
        Ok(())
    }
}

struct Refusing;

impl ClipboardBackend for Refusing {
    fn set_secret(&mut self, _text: &str) -> Result<(), String> {
        Err("rifiutato".to_owned())
    }

    fn get(&mut self) -> Option<String> {
        None
    }

    fn clear(&mut self) -> Result<(), String> {
        Ok(())
    }
}

fn fake_clipboard() -> (Clipboard<Fake>, Fake) {
    let fake = Fake::default();
    (Clipboard::with_backend(fake.clone()), fake)
}

#[test]
fn deadline_expires_on_whichever_clock_is_further_ahead() {
    let now = start();
    let deadline = Deadline::new(60 * SEC, now);
    assert_eq!(deadline.remaining(now), 60 * SEC);
    assert!(!deadline.expired(now.plus(59 * SEC)));
    assert!(deadline.expired(now.plus(60 * SEC)));

    let resumed = Now {
        instant: now.instant + SEC,
        wall: now.wall + 3_600 * SEC as i64,
    };
    assert!(deadline.expired(resumed));

    let moved_back = Now {
        instant: now.instant + 30 * SEC,
        wall: now.wall - 3_600 * SEC as i64,
    };
    assert_eq!(deadline.remaining(moved_back), 30 * SEC);
}

#[test]
fn idle_timer_restarts_on_input_and_on_a_new_timeout() {
    let now = start();
    let mut idle = IdleTimer::new(DEFAULT_AUTOLOCK, now);
    assert!(!idle.expired(now.plus(299 * SEC)));

    idle.touch(now.plus(200 * SEC));
    assert!(!idle.expired(now.plus(499 * SEC)));
    assert!(idle.expired(now.plus(500 * SEC)));

    idle.set_timeout(60 * SEC, now.plus(500 * SEC));
    assert_eq!(idle.timeout(), 60 * SEC);
    assert!(idle.expired(now.plus(560 * SEC)));
}

#[test]
fn autolock_from_the_environment_is_validated() {
    assert_eq!(parse_autolock("30"), Some(30 * SEC));
    assert_eq!(parse_autolock(" 600 "), Some(600 * SEC));
    assert_eq!(parse_autolock("5"), None, "sotto il minimo");
    assert_eq!(parse_autolock("100000"), None, "sopra il massimo");
    assert_eq!(parse_autolock("cinque"), None);
}

#[test]
fn autolock_bounds_are_inclusive_and_signs_follow_u64_parsing() {
    assert_eq!(parse_autolock("10"), Some(10 * SEC));
    assert_eq!(parse_autolock("86400"), Some(86_400 * SEC));
    assert_eq!(parse_autolock("9"), None);
    assert_eq!(parse_autolock("86401"), None);
    assert_eq!(parse_autolock("+60"), Some(60 * SEC));
    assert_eq!(parse_autolock("-60"), None);
    assert_eq!(parse_autolock(""), None);
    assert_eq!(parse_autolock("99999999999999999999999"), None);
    assert_eq!(parse_autolock("6 0"), None);
}

#[test]
fn initial_autolock_falls_back_to_five_minutes() {
    assert_eq!(initial_autolock(None), DEFAULT_AUTOLOCK);
    assert_eq!(initial_autolock(Some("abc")), 300 * SEC);
    assert_eq!(initial_autolock(Some("120")), 120 * SEC);
}

#[test]
fn copied_value_is_cleared_after_twenty_seconds() {
    let (mut clipboard, fake) = fake_clipboard();
    let now = start();
    clipboard.copy("segreto", now).unwrap();
    assert_eq!(clipboard.remaining(now), Some(20 * SEC));

    clipboard.tick(now.plus(19 * SEC));
    assert_eq!(fake.content().as_deref(), Some("segreto"));

    clipboard.tick(now.plus(20 * SEC));
    assert_eq!(fake.content(), None);
    assert_eq!(clipboard.remaining(now.plus(20 * SEC)), None);
}

#[test]
fn a_second_copy_restarts_the_countdown_and_is_cleared_too() {
    let (mut clipboard, fake) = fake_clipboard();
    let now = start();
    clipboard.copy("primo", now).unwrap();
    clipboard.copy("secondo", now.plus(15 * SEC)).unwrap();

    clipboard.tick(now.plus(20 * SEC));
    assert_eq!(fake.content().as_deref(), Some("secondo"));

    clipboard.tick(now.plus(35 * SEC));
    assert_eq!(fake.content(), None);
}

#[test]
fn content_copied_elsewhere_is_left_alone() {
    let (mut clipboard, fake) = fake_clipboard();
    let now = start();
    clipboard.copy("segreto", now).unwrap();
    fake.foreign_copy("indirizzo copiato dal browser");

    clipboard.tick(now.plus(20 * SEC));
    assert_eq!(fake.content().as_deref(), Some("indirizzo copiato dal browser"));
    assert_eq!(clipboard.remaining(now.plus(20 * SEC)), None);
}

#[test]
fn clear_now_empties_the_clipboard() {
    let (mut clipboard, fake) = fake_clipboard();
    let now = start();
    clipboard.copy("al blocco", now).unwrap();
    clipboard.clear_now();
    assert_eq!(fake.content(), None);
    assert_eq!(clipboard.remaining(now), None);
}

#[test]
fn unavailable_clipboard_refuses_to_copy() {
    let mut clipboard: Clipboard<Fake> = Clipboard::without_backend("nessun display".to_owned());
    assert!(clipboard.copy("segreto", start()).is_err());
    assert_eq!(clipboard.unavailable(), Some("nessun display"));
}

#[test]
fn a_refused_copy_keeps_the_previous_countdown() {
    let mut clipboard = Clipboard::with_backend(Refusing);
    assert_eq!(clipboard.copy("segreto", start()), Err("rifiutato".to_owned()));
    assert_eq!(clipboard.remaining(start()), None);
    assert_eq!(CLIPBOARD_TTL, 20 * SEC);
}

#[test]
fn only_user_events_count_as_activity() {
    assert!(is_user_input(WindowEvent::PointerMoved));
    assert!(is_user_input(WindowEvent::Text));
    assert!(is_user_input(WindowEvent::Copy));
    assert!(!is_user_input(WindowEvent::WindowFocused));
    assert!(!is_user_input(WindowEvent::PointerGone));
    assert!(!is_user_input(WindowEvent::ModifiersChanged));
}

#[test]
fn autolock_text_is_trimmed_of_unicode_whitespace() {
    assert_eq!(parse_autolock("\u{2003}45\u{3000}"), Some(45 * SEC));
    assert_eq!(parse_autolock("\u{A0}\t60\n"), Some(60 * SEC));
    assert_eq!(parse_autolock("\u{200B}60"), None);
}
