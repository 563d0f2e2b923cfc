//! The master-password form shared by the unlock and create screens: its
//! fields, the delay after failed attempts, and what pressing the button does.

use vstd::prelude::*;

use crate::security::SECOND;
use crate::wipe::wipe_string;

verus! {

/// The field takes no more characters than this.
pub const MAX_PASSWORD_CHARS: usize = 256;
/// Capacity reserved for password buffers: 4 bytes cover any UTF-8
/// character. A `String` that grows reallocates and frees the old buffer
/// without zeroing it; with the capacity reserved and the character limit,
/// that never happens.
pub const PASSWORD_CAPACITY: usize = 1024;

/// The one message for a wrong password and a tampered file.
pub const AUTH_FAILED: &'static str = "Password errata o file danneggiato.";
/// The message when the two passwords of the create screen differ.
pub const MISMATCH: &'static str = "Le password non coincidono.";

/// `String::with_capacity`: an empty string whose buffer holds `capacity`
/// bytes without reallocating.
#[verifier::external_body]
pub(crate) fn string_with_capacity(capacity: usize) -> (s: String)
    ensures
        s@ == Seq::<char>::empty(),
{
    String::with_capacity(capacity)
}

/// Delay before another attempt after `failures` consecutive failures: none
/// for the first two, then 1 s, 2 s, and 4 s for every later attempt.
pub open spec fn delay_after(failures: u32) -> Option<u64> {
    if failures <= 2 {
        None
    } else if failures == 3 {
        Some(SECOND)
    } else if failures == 4 {
        Some((2 * SECOND) as u64)
    } else {
        Some((4 * SECOND) as u64)
    }
}

/// Delay, in nanoseconds, before another attempt after `failures` failures.
pub fn retry_delay(failures: u32) -> (r: Option<u64>)
    ensures
        r == delay_after(failures),
{
    if failures <= 2 {
        None
    } else if failures == 3 {
        Some(SECOND)
    } else if failures == 4 {
        Some(2 * SECOND)
    } else {
        Some(4 * SECOND)
    }
}

/// The password fields of the unlock and create screens. No `Debug` or `Clone`.
pub struct PasswordForm {
    password: String,
    confirm: String,
    notice: Option<String>,
    /// An informative message, not an error: "Vault bloccato.", for instance.
    info: Option<String>,
    /// Consecutive failed unlock attempts. Changing screen does not reset them.
    failures: u32,
    /// When another attempt is allowed, on the monotonic clock.
    retry_at: Option<u64>,
    wants_focus: bool,
    /// Enter in the first field of the create screen: the focus moves to the
    /// confirmation only after it has processed the frame, otherwise it would
    /// take the same Enter and lose the focus at once.
    confirm_focus: bool,
}

/// `Some(s@)` for `Some(s)`.
pub open spec fn text_of(s: Option<String>) -> Option<Seq<char>> {
    match s {
        Some(t) => Some(t@),
        None => None,
    }
}

/// The state of a [`PasswordForm`].
pub struct FormState {
    pub password: Seq<char>,
    pub confirm: Seq<char>,
    pub notice: Option<Seq<char>>,
    pub info: Option<Seq<char>>,
    pub failures: u32,
    pub retry_at: Option<u64>,
    pub wants_focus: bool,
    pub confirm_focus: bool,
}

/// The form after a failed unlock at `now`: one more failure (at most
/// `u32::MAX`), the delay it earns, the one message of a wrong password, and
/// the focus back on the field.
pub open spec fn failed_state(s: FormState, now: u64) -> FormState {
    let failures = if s.failures == u32::MAX { u32::MAX } else { (s.failures + 1) as u32 };
    FormState {
        failures,
        retry_at: match delay_after(failures) {
            Some(d) => if now + d <= u64::MAX { Some((now + d) as u64) } else { None },
            None => None,
        },
        notice: Some(AUTH_FAILED@),
        wants_focus: true,
        ..s
    }
}

impl View for PasswordForm {
    type V = FormState;

    closed spec fn view(&self) -> FormState {
        FormState {
            password: self.password@,
            confirm: self.confirm@,
            notice: text_of(self.notice),
            info: text_of(self.info),
            failures: self.failures,
            retry_at: self.retry_at,
            wants_focus: self.wants_focus,
            confirm_focus: self.confirm_focus,
        }
    }
}

/// The form with both fields emptied.
pub open spec fn wiped(f: FormState) -> FormState {
    FormState { password: Seq::empty(), confirm: Seq::empty(), ..f }
}

/// The form after [`PasswordForm::reset`].
pub open spec fn reset_state(f: FormState) -> FormState {
    FormState { notice: None, info: None, wants_focus: true, confirm_focus: false, ..wiped(f) }
}

/// The form after [`PasswordForm::take_password`].
pub open spec fn taken(f: FormState) -> FormState {
    FormState { notice: None, ..wiped(f) }
}

/// Time left before another attempt, if any, at `now`.
pub open spec fn wait_left(f: FormState, now: u64) -> Option<u64> {
    match f.retry_at {
        Some(at) => if at > now { Some((at - now) as u64) } else { None },
        None => None,
    }
}

/// The unlock button is enabled.
pub open spec fn unlock_enabled(f: FormState, busy: bool, now: u64) -> bool {
    !busy && wait_left(f, now) is None && f.password.len() > 0
}

/// The create button is enabled.
pub open spec fn create_enabled(f: FormState, busy: bool) -> bool {
    !busy && f.password.len() > 0 && f.confirm.len() > 0
}

impl Default for PasswordForm {
    fn default() -> (f: Self)
        ensures
            f@ == (FormState {
                password: Seq::empty(),
                confirm: Seq::empty(),
                notice: None,
                info: None,
                failures: 0,
                retry_at: None,
                wants_focus: true,
                confirm_focus: false,
            }),
    {
        PasswordForm {
            password: string_with_capacity(PASSWORD_CAPACITY),
            confirm: string_with_capacity(PASSWORD_CAPACITY),
            notice: None,
            info: None,
            failures: 0,
            retry_at: None,
            wants_focus: true,
            confirm_focus: false,
        }
    }
}

impl PasswordForm {
    /// Both fields overwritten and emptied, their buffers kept.
    pub fn wipe(&mut self)
        ensures
            final(self)@ == wiped(old(self)@),
    {
        wipe_string(&mut self.password);
        wipe_string(&mut self.confirm);
    }

    /// Fields wiped and focus on the password, for a new screen. The count of
    /// failed attempts stays.
    pub fn reset(&mut self)
        ensures
            final(self)@ == reset_state(old(self)@),
    {
        self.wipe();
        self.notice = None;
        self.info = None;
        self.wants_focus = true;
        self.confirm_focus = false;
    }

    pub fn show_info(&mut self, text: String)
        ensures
            final(self)@ == (FormState { info: Some(text@), ..old(self)@ }),
    {
        self.info = Some(text);
    }

    /// Unlock or creation succeeded: the count of attempts goes back to zero too.
    pub fn succeeded(&mut self)
        ensures
            final(self)@ == (FormState { failures: 0, retry_at: None, ..reset_state(old(self)@) }),
    {
        self.reset();
        self.failures = 0;
        self.retry_at = None;
    }

    /// A failed unlock at `now`: one more failure, and from the third on a
    /// delay before the next attempt.
    pub fn failed(&mut self, now: u64)
        ensures
            final(self)@ == failed_state(old(self)@, now),
    {
        self.failures = self.failures.saturating_add(1);
        self.retry_at = match retry_delay(self.failures) {
            Some(d) => now.checked_add(d),
            None => None,
        };
        self.notice = Some(AUTH_FAILED.to_owned());
        self.wants_focus = true;
    }

    /// Consecutive failed unlock attempts.
    pub fn failures(&self) -> (r: u32)
        ensures
            r == self@.failures,
    {
        self.failures
    }

    /// Time before another attempt is allowed, if there is any left at `now`.
    pub fn retry_remaining(&self, now: u64) -> (r: Option<u64>)
        ensures
            r == wait_left(self@, now),
    {
        match self.retry_at {
            Some(at) => if at > now {
                Some(at - now)
            } else {
                None
            },
            None => None,
        }
    }

    /// A copy of the password for the worker; both fields are wiped. The copy
    /// has exactly its length as capacity, so it never reallocates.
    pub fn take_password(&mut self) -> (r: String)
        ensures
            r@ == old(self)@.password,
            final(self)@ == taken(old(self)@),
    {
        let password = self.password.as_str().to_owned();
        self.wipe();
        self.notice = None;
        password
    }

    /// The buffer of the password field.
    pub fn password_buffer(&mut self) -> (r: &mut String)
        ensures
            r@ == old(self)@.password,
            final(self)@ == (FormState { password: final(r)@, ..old(self)@ }),
    {
        &mut self.password
    }

    /// The buffer of the confirmation field.
    pub fn confirm_buffer(&mut self) -> (r: &mut String)
        ensures
            r@ == old(self)@.confirm,
            final(self)@ == (FormState { confirm: final(r)@, ..old(self)@ }),
    {
        &mut self.confirm
    }

    /// The error shown under the fields, if any.
    pub fn notice(&self) -> (r: Option<&str>)
        ensures
            match r {
                Some(s) => self@.notice == Some(s@),
                None => self@.notice is None,
            },
    {
        match &self.notice {
            Some(n) => Some(n.as_str()),
            None => None,
        }
    }

    /// The informative message shown under the fields, if any.
    pub fn info(&self) -> (r: Option<&str>)
        ensures
            match r {
                Some(s) => self@.info == Some(s@),
                None => self@.info is None,
            },
    {
        match &self.info {
            Some(n) => Some(n.as_str()),
            None => None,
        }
    }

    /// Whether the password field is to take the focus in this frame; the
    /// request is used up unless the form is busy.
    pub fn take_focus(&mut self, busy: bool) -> (r: bool)
        ensures
            r == (old(self)@.wants_focus && !busy),
            final(self)@ == (FormState { wants_focus: old(self)@.wants_focus && busy, ..old(self)@ }),
    {
        let hit = self.wants_focus && !busy;
        if hit {
            self.wants_focus = false;
        }
        hit
    }

    /// Whether the confirmation field is to take the focus in this frame.
    pub fn take_confirm_focus(&mut self, busy: bool) -> (r: bool)
        ensures
            r == (old(self)@.confirm_focus && !busy),
            final(self)@ == (FormState { confirm_focus: old(self)@.confirm_focus && busy, ..old(self)@ }),
    {
        let hit = self.confirm_focus && !busy;
        if hit {
            self.confirm_focus = false;
        }
        hit
    }

    /// Enter in the first field of the create screen: the focus moves to the
    /// confirmation on the next frame.
    pub fn first_field_submitted(&mut self)
        ensures
            final(self)@ == (FormState { confirm_focus: true, ..old(self)@ }),
    {
        self.confirm_focus = true;
    }

    /// Whether the unlock button is enabled: not busy, no delay running, a password typed.
    pub fn can_unlock(&self, busy: bool, now: u64) -> (r: bool)
        ensures
            r == unlock_enabled(self@, busy, now),
    {
        !busy && self.retry_remaining(now).is_none() && !self.password.as_str().is_empty()
    }

    /// Enter in the field (`enter`) or a click on the button (`clicked`) on
    /// the unlock screen: the password to try, when the button is enabled.
    /// Otherwise an Enter keeps the focus on the field.
    pub fn unlock_pressed(&mut self, busy: bool, now: u64, enter: bool, clicked: bool) -> (r: Option<String>)
        ensures
            unlock_enabled(old(self)@, busy, now) && (enter || clicked) ==> {
                &&& r matches Some(p) && p@ == old(self)@.password
                &&& final(self)@ == taken(old(self)@)
            },
            !(unlock_enabled(old(self)@, busy, now) && (enter || clicked)) ==> {
                &&& r is None
                &&& final(self)@ == (FormState { wants_focus: old(self)@.wants_focus || enter, ..old(self)@ })
            },
    {
        let can = self.can_unlock(busy, now);
        if can && (enter || clicked) {
            return Some(self.take_password());
        }
        if enter {
            self.wants_focus = true;
        }
        None
    }

    /// Whether the create button is enabled: not busy, both fields typed.
    pub fn can_create(&self, busy: bool) -> (r: bool)
        ensures
            r == create_enabled(self@, busy),
    {
        !busy && !self.password.as_str().is_empty() && !self.confirm.as_str().is_empty()
    }

    /// Enter in the confirmation field or a click on the button of the
    /// create screen: the new master password when the two fields agree.
    /// When they differ both are wiped and the form says so.
    pub fn create_pressed(&mut self, busy: bool, enter: bool, clicked: bool) -> (r: Option<String>)
        ensures
            create_enabled(old(self)@, busy) && (enter || clicked) && old(self)@.password == old(self)@.confirm ==> {
                &&& r matches Some(p) && p@ == old(self)@.password
                &&& final(self)@ == taken(old(self)@)
            },
            create_enabled(old(self)@, busy) && (enter || clicked) && old(self)@.password != old(self)@.confirm ==> {
                &&& r is None
                &&& final(self)@ == (FormState { notice: Some(MISMATCH@), wants_focus: true, ..wiped(old(self)@) })
            },
            !(create_enabled(old(self)@, busy) && (enter || clicked)) ==> {
                &&& r is None
                &&& final(self)@ == (FormState { wants_focus: old(self)@.wants_focus || enter, ..old(self)@ })
            },
    {
        if self.can_create(busy) && (enter || clicked) {
            if self.password == self.confirm {
                return Some(self.take_password());
            }
            self.wipe();
            self.notice = Some(MISMATCH.to_owned());
            self.wants_focus = true;
            return None;
        }
        if enter {
            self.wants_focus = true;
        }
        None
    }
}


/// After a failed attempt the wait never exceeds four seconds, and it never
/// shrinks as failures add up.
pub proof fn lemma_retry_delay_grows_to_a_cap(n: u32, m: u32)
    requires
        n <= m,
    ensures
        delay_after(m) matches Some(d) ==> d <= 4 * SECOND,
        delay_after(n) matches Some(d) ==> (delay_after(m) matches Some(e) && d <= e),
{
}

} // verus!
