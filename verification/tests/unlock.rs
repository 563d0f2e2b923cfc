use pwdv::security::SECOND;
use pwdv::unlock::{retry_delay, PasswordForm, AUTH_FAILED, MAX_PASSWORD_CHARS, MISMATCH, PASSWORD_CAPACITY};

#[test]
fn retry_delay_starts_at_the_third_failure_and_caps_at_four_seconds() {
    let secs: Vec<Option<u64>> = (0..8).map(|n| retry_delay(n).map(|d| d / SECOND)).collect();
    assert_eq!(secs, [None, None, None, Some(1), Some(2), Some(4), Some(4), Some(4)]);
    assert_eq!(retry_delay(u32::MAX), Some(4 * SECOND));
}

#[test]
fn failures_block_retries_until_success() {
    let mut form = PasswordForm::default();
    let now: u64 = 5_000 * SECOND;

    form.failed(now);
    form.failed(now);
    assert!(form.retry_remaining(now).is_none());

    form.failed(now);
    assert_eq!(form.retry_remaining(now), Some(SECOND));
    assert!(form.retry_remaining(now + SECOND).is_none());

    form.failed(now);
    assert_eq!(form.retry_remaining(now), Some(2 * SECOND));

    form.reset();
    assert_eq!(form.failures(), 4, "cambiare schermata non azzera i tentativi");

    form.succeeded();
    assert_eq!(form.failures(), 0);
    assert!(form.retry_remaining(now).is_none());
}

#[test]
fn take_password_copies_then_wipes_both_fields_keeping_capacity() {
    let mut form = PasswordForm::default();
    form.password_buffer().push_str("hunter2");
    form.confirm_buffer().push_str("hunter2");

    let taken = form.take_password();
    assert_eq!(taken.as_str(), "hunter2");
    assert!(form.password_buffer().is_empty() && form.confirm_buffer().is_empty());
    assert!(form.password_buffer().capacity() >= PASSWORD_CAPACITY);
    assert!(form.confirm_buffer().capacity() >= PASSWORD_CAPACITY);
}

#[test]
fn buffer_does_not_reallocate_up_to_the_char_limit() {
    let mut form = PasswordForm::default();
    let before = form.password_buffer().as_ptr();
    form.password_buffer().extend(std::iter::repeat_n('𝄞', MAX_PASSWORD_CHARS));
    assert_eq!(form.password_buffer().as_ptr(), before);
}

#[test]
fn a_failed_unlock_says_so_and_asks_for_the_focus() {
    let mut form = PasswordForm::default();
    assert!(form.take_focus(false));
    assert!(!form.take_focus(false));
    form.failed(0);
    assert_eq!(form.notice(), Some(AUTH_FAILED));
    assert!(form.take_focus(false));
}

#[test]
fn the_unlock_button_waits_for_a_password_and_the_delay() {
    let mut form = PasswordForm::default();
    assert!(!form.can_unlock(false, 0));
    form.password_buffer().push_str("pw");
    assert!(form.can_unlock(false, 0));
    assert!(!form.can_unlock(true, 0));
    for _ in 0..3 {
        form.failed(0);
    }
    assert!(!form.can_unlock(false, 0));
    assert!(form.unlock_pressed(false, 0, true, false).is_none());
    assert!(form.can_unlock(false, SECOND));
    assert_eq!(form.unlock_pressed(false, SECOND, false, true).as_deref(), Some("pw"));
    assert!(form.password_buffer().is_empty());
}

#[test]
fn the_create_screen_wants_the_same_password_twice() {
    let mut form = PasswordForm::default();
    form.password_buffer().push_str("uno");
    form.confirm_buffer().push_str("due");
    assert!(form.can_create(false));
    assert!(form.create_pressed(false, false, true).is_none());
    assert_eq!(form.notice(), Some(MISMATCH));
    assert!(form.password_buffer().is_empty() && form.confirm_buffer().is_empty());

    form.password_buffer().push_str("tre");
    form.confirm_buffer().push_str("tre");
    assert_eq!(form.create_pressed(false, true, false).as_deref(), Some("tre"));
    assert_eq!(form.notice(), None);
}

#[test]
fn info_survives_until_the_next_screen() {
    let mut form = PasswordForm::default();
    form.show_info("Vault bloccato.".to_owned());
    assert_eq!(form.info(), Some("Vault bloccato."));
    form.reset();
    assert_eq!(form.info(), None);
}
