//! Operational security of the graphical interface: the inactivity lock and
//! the clipboard that empties itself. Time is counted in nanoseconds.

use vstd::prelude::*;

use crate::text::{chars_of, parse_u64, trim, trimmed, u64_of};
use crate::wipe::wipe_string;

verus! {

/// Nanoseconds in a second.
pub const SECOND: u64 = 1_000_000_000;
/// Default inactivity lock: five minutes.
pub const DEFAULT_AUTOLOCK: u64 = 300_000_000_000;
/// Durations offered in the menu, in minutes.
pub const AUTOLOCK_CHOICES_MIN: [u64; 6] = [1, 2, 5, 10, 15, 30];
/// Environment variable with the initial inactivity lock, in seconds.
pub const AUTOLOCK_ENV: &'static str = "PWDV_AUTOLOCK_SECONDS";
/// Shortest inactivity lock accepted from the environment, in seconds.
pub const AUTOLOCK_MIN_SECS: u64 = 10;
/// Longest inactivity lock accepted from the environment, in seconds.
pub const AUTOLOCK_MAX_SECS: u64 = 86_400;
/// How long a copied value stays in the clipboard.
pub const CLIPBOARD_TTL: u64 = 20_000_000_000;

/// The current instant on two clocks, in nanoseconds: a monotonic clock that
/// stands still while the system sleeps, and the system clock (from the Unix
/// epoch), which does not. Deadlines look at both, so a laptop that wakes up
/// after an hour finds the vault already locked.
#[derive(Clone, Copy)]
pub struct Now {
    pub instant: u64,
    pub wall: i64,
}

impl Now {
    /// Both clocks `d` nanoseconds later.
    pub fn plus(self, d: u64) -> (r: Now)
        requires
            self.instant + d <= u64::MAX,
            self.wall + d <= i64::MAX,
        ensures
            r.instant == self.instant + d,
            r.wall == self.wall + d,
    {
        Now { instant: self.instant + d, wall: (self.wall as i128 + d as i128) as i64 }
    }
}

/// `later - earlier`, or zero when `later` is not after `earlier`.
pub open spec fn since(later: int, earlier: int) -> int {
    if later > earlier {
        later - earlier
    } else {
        0
    }
}

/// Time gone by from `start` to `now`: the larger of what the two clocks
/// measure. A system clock moved backwards measures nothing.
pub open spec fn elapsed(start: Now, now: Now) -> int {
    let monotonic = since(now.instant as int, start.instant as int);
    let wall = since(now.wall as int, start.wall as int);
    if monotonic >= wall {
        monotonic
    } else {
        wall
    }
}

/// What is left of `after` nanoseconds started at `start`, at `now`.
pub open spec fn left(after: u64, start: Now, now: Now) -> u64 {
    if elapsed(start, now) >= after {
        0
    } else {
        (after - elapsed(start, now)) as u64
    }
}

/// Expires when either clock has gone past the duration.
#[derive(Clone, Copy)]
pub struct Deadline {
    start: Now,
    after: u64,
}

impl View for Deadline {
    /// Start and duration.
    type V = (Now, u64);

    closed spec fn view(&self) -> (Now, u64) {
        (self.start, self.after)
    }
}

impl Deadline {
    /// A deadline `after` nanoseconds from `now`.
    pub fn new(after: u64, now: Now) -> (d: Self)
        ensures
            d@ == (now, after),
    {
        Deadline { start: now, after }
    }

    /// What is left at `now`: zero once either clock has measured the duration.
    pub fn remaining(&self, now: Now) -> (r: u64)
        ensures
            r == left(self@.1, self@.0, now),
    {
        let monotonic: u64 = if now.instant > self.start.instant { now.instant - self.start.instant } else { 0 };
        let wall: u64 = if now.wall > self.start.wall {
            (now.wall as i128 - self.start.wall as i128) as u64
        } else {
            0
        };
        let gone = if monotonic >= wall { monotonic } else { wall };
        if gone >= self.after {
            0
        } else {
            self.after - gone
        }
    }

    /// Nothing is left at `now`.
    pub fn expired(&self, now: Now) -> (r: bool)
        ensures
            r == (left(self@.1, self@.0, now) == 0),
    {
        self.remaining(now) == 0
    }
}

/// Inactivity timer: any input in the window starts it again.
pub struct IdleTimer {
    deadline: Deadline,
}

impl View for IdleTimer {
    /// When the last activity was, and the timeout.
    type V = (Now, u64);

    closed spec fn view(&self) -> (Now, u64) {
        self.deadline@
    }
}

impl IdleTimer {
    /// A timer of `timeout` nanoseconds, started at `now`.
    pub fn new(timeout: u64, now: Now) -> (t: Self)
        ensures
            t@ == (now, timeout),
    {
        IdleTimer { deadline: Deadline::new(timeout, now) }
    }

    /// The timeout, in nanoseconds.
    pub fn timeout(&self) -> (r: u64)
        ensures
            r == self@.1,
    {
        self.deadline.after
    }

    /// A new timeout, counted from `now`.
    pub fn set_timeout(&mut self, timeout: u64, now: Now)
        ensures
            final(self)@ == (now, timeout),
    {
        self.deadline = Deadline::new(timeout, now);
    }

    /// Activity at `now`: the countdown starts again, with the same timeout.
    pub fn touch(&mut self, now: Now)
        ensures
            final(self)@ == (now, old(self)@.1),
    {
        self.deadline.start = now;
    }

    pub fn remaining(&self, now: Now) -> (r: u64)
        ensures
            r == left(self@.1, self@.0, now),
    {
        self.deadline.remaining(now)
    }

    pub fn expired(&self, now: Now) -> (r: bool)
        ensures
            r == (left(self@.1, self@.0, now) == 0),
    {
        self.deadline.expired(now)
    }
}

/// A deadline has passed as soon as either clock has measured its duration:
/// after a suspend the system clock alone is enough.
pub proof fn lemma_deadline_on_either_clock(after: u64, start: Now, now: Now)
    ensures
        left(after, start, now) == 0 <==> (since(now.instant as int, start.instant as int) >= after
            || since(now.wall as int, start.wall as int) >= after),
{
}

/// A system clock moved backwards does not stretch a deadline: only the
/// monotonic clock counts then.
pub proof fn lemma_wall_clock_moved_back(after: u64, start: Now, now: Now)
    requires
        now.wall <= start.wall,
    ensures
        left(after, start, now) == (if since(now.instant as int, start.instant as int) >= after {
            0
        } else {
            after - since(now.instant as int, start.instant as int)
        }),
{
}

/// Nothing is left of a duration once it has gone by on the monotonic clock,
/// whatever the system clock says.
pub proof fn lemma_expires_after_duration(after: u64, start: Now, now: Now)
    requires
        now.instant >= start.instant + after,
    ensures
        left(after, start, now) == 0,
{
}

/// Before the duration has gone by on both clocks, some time is left, never
/// more than the duration.
pub proof fn lemma_left_within_duration(after: u64, start: Now, now: Now)
    ensures
        left(after, start, now) <= after,
        (after > 0 && now.instant < start.instant + after && now.wall < start.wall + after) ==> left(after, start, now) > 0,
{
}


/// The inactivity lock that the text of the environment variable asks for:
/// a number of seconds between 10 and 86400, surrounding whitespace allowed.
pub open spec fn autolock_of(value: Seq<char>) -> Option<u64> {
    match u64_of(trimmed(value)) {
        Some(secs) => if AUTOLOCK_MIN_SECS <= secs <= AUTOLOCK_MAX_SECS {
            Some((secs * SECOND) as u64)
        } else {
            None
        },
        None => None,
    }
}

/// The inactivity lock, in nanoseconds, given by the value of
/// `PWDV_AUTOLOCK_SECONDS`; `None` when the value is not acceptable.
pub fn parse_autolock(value: &str) -> (r: Option<u64>)
    ensures
        r == autolock_of(value@),
{
    let digits = chars_of(trim(value));
    match parse_u64(digits.as_slice()) {
        Some(secs) => {
            if AUTOLOCK_MIN_SECS <= secs && secs <= AUTOLOCK_MAX_SECS {
                Some(secs * SECOND)
            } else {
                None
            }
        },
        None => None,
    }
}

/// The initial inactivity lock: the one asked for by the environment variable
/// when it is set and acceptable, five minutes otherwise.
pub fn initial_autolock(value: Option<&str>) -> (r: u64)
    ensures
        r == (match value {
            Some(v) => match autolock_of(v@) {
                Some(t) => t,
                None => DEFAULT_AUTOLOCK,
            },
            None => DEFAULT_AUTOLOCK,
        }),
{
    match value {
        Some(v) => match parse_autolock(v) {
            Some(t) => t,
            None => DEFAULT_AUTOLOCK,
        },
        None => DEFAULT_AUTOLOCK,
    }
}


/// The events a window reports, one variant for each kind the window system
/// has, whatever they carry.
#[derive(Clone, Copy, Debug, PartialEq, Eq, Structural)]
pub enum WindowEvent {
    Copy,
    Cut,
    Paste,
    Text,
    Key,
    ModifiersChanged,
    PointerMoved,
    MouseMoved,
    PointerButton,
    PointerGone,
    Zoom,
    Rotate,
    Ime,
    Touch,
    MouseWheel,
    WindowFocused,
    Screenshot,
    /// A kind this list does not have.
    Other,
}

/// Input from the user: keyboard, mouse, touch. What the system reports on
/// its own (window focus, pointer gone, modifiers updated on a focus change,
/// a screenshot taken) is no activity.
pub open spec fn user_input(event: WindowEvent) -> bool {
    !(event is ModifiersChanged || event is PointerGone || event is WindowFocused || event is Screenshot
        || event is Other)
}

/// Keyboard, mouse and touch input is activity: keys (Tab, arrows, Enter
/// included), typed text, the clipboard shortcuts, pointer and mouse moves,
/// buttons, the wheel, pinch and rotate gestures, input-method composition.
pub proof fn lemma_keyboard_mouse_and_touch_are_activity(event: WindowEvent)
    requires
        event is Key || event is Text || event is Copy || event is Cut || event is Paste || event is Ime
            || event is PointerMoved || event is MouseMoved || event is PointerButton || event is MouseWheel
            || event is Zoom || event is Rotate || event is Touch,
    ensures
        user_input(event),
{
}

/// What the system reports on its own is no activity: a window getting or
/// losing focus, the pointer leaving it, modifiers updated on a focus change,
/// a screenshot, and any kind not listed.
pub proof fn lemma_system_events_are_not_activity(event: WindowEvent)
    requires
        event is WindowFocused || event is PointerGone || event is ModifiersChanged || event is Screenshot
            || event is Other,
    ensures
        !user_input(event),
{
}

/// Whether the event is input from the user, which restarts the inactivity
/// countdown.
pub fn is_user_input(event: WindowEvent) -> (r: bool)
    ensures
        r == user_input(event),
{
    match event {
        WindowEvent::Copy | WindowEvent::Cut | WindowEvent::Paste | WindowEvent::Text | WindowEvent::Key
        | WindowEvent::PointerMoved | WindowEvent::MouseMoved | WindowEvent::PointerButton | WindowEvent::Zoom
        | WindowEvent::Rotate | WindowEvent::Ime | WindowEvent::Touch | WindowEvent::MouseWheel => true,
        WindowEvent::ModifiersChanged | WindowEvent::PointerGone | WindowEvent::WindowFocused
        | WindowEvent::Screenshot | WindowEvent::Other => false,
    }
}

/// A request this program makes to the system clipboard.
pub enum ClipboardRequest {
    /// Put this text there.
    Put(Seq<char>),
    /// Empty it.
    Clear,
}

/// Access to the system clipboard: arboard in the application, a fake in tests.
/// An implementation is modelled by what the clipboard holds and by the
/// requests made through it so far. The two model functions have bodies only
/// so that types written outside verified code (the system clipboard, test
/// fakes) can implement the trait; the bodies are closed, and every proof
/// about a clipboard holds for any implementation, not for these bodies.
pub trait ClipboardBackend {
    /// What the clipboard holds, if it is text.
    closed spec fn content(&self) -> Option<Seq<char>> {
        None
    }

    /// The requests made through this handle, oldest first.
    closed spec fn requests(&self) -> Seq<ClipboardRequest> {
        Seq::empty()
    }

    /// Writes `text`, asking clipboard-history managers not to keep it.
    fn set_secret(&mut self, text: &str) -> (r: Result<(), String>)
        ensures
            final(self).requests() == old(self).requests().push(ClipboardRequest::Put(text@)),
            r is Ok ==> final(self).content() == Some(text@),
    ;

    /// What the clipboard holds now, if it is text. Asking changes nothing.
    fn get(&mut self) -> (r: Option<String>)
        ensures
            final(self).requests() == old(self).requests(),
            final(self).content() == old(self).content(),
            match r {
                Some(s) => old(self).content() == Some(s@),
                None => old(self).content() is None,
            },
    ;

    /// Empties the clipboard; when that fails, it is left as it was.
    fn clear(&mut self) -> (r: Result<(), String>)
        ensures
            final(self).requests() == old(self).requests().push(ClipboardRequest::Clear),
            r is Ok ==> final(self).content() is None,
            r is Err ==> final(self).content() == old(self).content(),
    ;
}

/// The last value copied by this program, until it leaves the clipboard.
struct Pending {
    value: String,
    deadline: Deadline,
}

impl Drop for Pending {
    fn drop(&mut self)
        opens_invariants none
        no_unwind
    {
        wipe_string(&mut self.value);
    }
}

/// The message of a copy refused for want of a system clipboard.
pub open spec fn no_clipboard_message() -> Seq<char> {
    "clipboard di sistema non disponibile"@
}

/// `b1` is `b0` after `text` was written to it: one `Put` request more, and
/// the text in the clipboard when the write succeeded.
pub open spec fn put_into<B: ClipboardBackend>(b0: B, b1: B, text: Seq<char>, written: bool) -> bool {
    &&& b1.requests() == b0.requests().push(ClipboardRequest::Put(text))
    &&& written ==> b1.content() == Some(text)
}

/// The clipboard before and after emptying it of `value`: asked to clear when
/// it still held `value`, with nothing in it when that succeeded; left as it
/// was, asked nothing, when it held something else. Without a system
/// clipboard there is nothing to do.
pub open spec fn cleared_if_ours<B: ClipboardBackend>(b0: Option<B>, b1: Option<B>, value: Seq<char>) -> bool {
    match b0 {
        None => b1 is None,
        Some(b0) => b1 matches Some(b1) && if b0.content() == Some(value) {
            &&& b1.requests() == b0.requests().push(ClipboardRequest::Clear)
            &&& (b1.content() is None || b1.content() == b0.content())
        } else {
            &&& b1.requests() == b0.requests()
            &&& b1.content() == b0.content()
        },
    }
}

/// `after` is `before` after a tick at `now`: when the deadline of the
/// copied value has passed, the value is forgotten and the clipboard emptied
/// of it if it still holds it; otherwise nothing changes.
pub open spec fn ticked<B: ClipboardBackend>(before: Clipboard<B>, after: Clipboard<B>, now: Now) -> bool {
    &&& after.has_backend() == before.has_backend()
    &&& after.reason() == before.reason()
    &&& match before.pending() {
        Some((v, (start, ttl))) => if left(ttl, start, now) == 0 {
            &&& after.pending() is None
            &&& cleared_if_ours(before.backend(), after.backend(), v)
        } else {
            &&& after.pending() == before.pending()
            &&& after.backend() == before.backend()
        },
        None => after.pending() is None && after.backend() == before.backend(),
    }
}

/// A value copied at `start` is forgotten by the first tick once
/// [`CLIPBOARD_TTL`] has gone by, and the clipboard is asked to clear it if
/// it still holds it; what was copied elsewhere in the meantime stays.
pub proof fn lemma_copied_value_is_cleared<B: ClipboardBackend>(
    before: Clipboard<B>,
    after: Clipboard<B>,
    value: Seq<char>,
    start: Now,
    now: Now,
)
    requires
        before.pending() == Some((value, (start, CLIPBOARD_TTL))),
        now.instant >= start.instant + CLIPBOARD_TTL || now.wall >= start.wall + CLIPBOARD_TTL,
        ticked(before, after, now),
    ensures
        after.pending() is None,
        before.backend() matches Some(b0) ==> after.backend() matches Some(b1) && if b0.content() == Some(value) {
            b1.requests() == b0.requests().push(ClipboardRequest::Clear)
        } else {
            b1.content() == b0.content() && b1.requests() == b0.requests()
        },
{
    lemma_deadline_on_either_clock(CLIPBOARD_TTL, start, now);
}

/// The application's clipboard. It lives as long as the application, not as
/// long as an open vault: it must be emptied at lock time and at exit too.
pub struct Clipboard<B: ClipboardBackend> {
    backend: Option<B>,
    pending: Option<Pending>,
    unavailable: Option<String>,
}

impl<B: ClipboardBackend> Clipboard<B> {
    /// The system clipboard, if there is one.
    pub closed spec fn backend(&self) -> Option<B> {
        self.backend
    }

    /// Whether there is a system clipboard to write to.
    pub open spec fn has_backend(&self) -> bool {
        self.backend() is Some
    }

    /// The value copied last and its deadline, while it is to be cleared.
    pub closed spec fn pending(&self) -> Option<(Seq<char>, (Now, u64))> {
        match self.pending {
            Some(p) => Some((p.value@, p.deadline@)),
            None => None,
        }
    }

    /// Why the system clipboard is not available, if it is not.
    pub closed spec fn reason(&self) -> Option<Seq<char>> {
        match self.unavailable {
            Some(r) => Some(r@),
            None => None,
        }
    }

    pub fn with_backend(backend: B) -> (c: Self)
        ensures
            c.has_backend(),
            c.pending() is None,
            c.reason() is None,
    {
        Clipboard { backend: Some(backend), pending: None, unavailable: None }
    }

    /// A clipboard that refuses to copy, for this reason.
    pub fn without_backend(reason: String) -> (c: Self)
        ensures
            !c.has_backend(),
            c.pending() is None,
            c.reason() == Some(reason@),
    {
        Clipboard { backend: None, pending: None, unavailable: Some(reason) }
    }

    /// Why the system clipboard is not available, if it is not.
    pub fn unavailable(&self) -> (r: Option<&str>)
        ensures
            match r {
                Some(s) => self.reason() == Some(s@),
                None => self.reason() is None,
            },
    {
        match &self.unavailable {
            Some(reason) => Some(reason.as_str()),
            None => None,
        }
    }

    /// The only place that writes to the clipboard. The value is taken away
    /// after [`CLIPBOARD_TTL`]; a later copy replaces the earlier one and
    /// restarts the countdown, so that it is cleared too.
    pub fn copy(&mut self, text: &str, now: Now) -> (r: Result<(), String>)
        ensures
            final(self).has_backend() == old(self).has_backend(),
            final(self).reason() == old(self).reason(),
            match old(self).backend() {
                None => r matches Err(m) && m@ == no_clipboard_message(),
                Some(b0) => final(self).backend() matches Some(b1) && put_into(b0, b1, text@, r is Ok),
            },
            r is Ok ==> final(self).pending() == Some((text@, (now, CLIPBOARD_TTL))),
            r is Err ==> final(self).pending() == old(self).pending(),
    {
        let mut backend = match self.backend.take() {
            Some(b) => b,
            None => return Err("clipboard di sistema non disponibile".to_owned()),
        };
        let written = backend.set_secret(text);
        self.backend = Some(backend);
        match written {
            Ok(()) => {
                self.pending = Some(Pending { value: text.to_owned(), deadline: Deadline::new(CLIPBOARD_TTL, now) });
                Ok(())
            },
            Err(e) => Err(e),
        }
    }

    /// Time left before the last copied value is cleared, if there is one.
    pub fn remaining(&self, now: Now) -> (r: Option<u64>)
        ensures
            r == (match self.pending() {
                Some((_, (start, after))) => Some(left(after, start, now)),
                None => None,
            }),
    {
        match &self.pending {
            Some(p) => Some(p.deadline.remaining(now)),
            None => None,
        }
    }

    /// To be called on every frame: when the deadline has passed, the
    /// clipboard is emptied.
    pub fn tick(&mut self, now: Now)
        ensures
            final(self).has_backend() == old(self).has_backend(),
            final(self).reason() == old(self).reason(),
            ticked(*old(self), *final(self), now),
    {
        let expired = match &self.pending {
            Some(p) => p.deadline.expired(now),
            None => false,
        };
        if expired {
            self.clear_now();
        }
    }

    /// Empties the clipboard now, but only if it still holds the value this
    /// program copied: what the user copied elsewhere stays where it is.
    pub fn clear_now(&mut self)
        ensures
            final(self).has_backend() == old(self).has_backend(),
            final(self).reason() == old(self).reason(),
            final(self).pending() is None,
            match old(self).pending() {
                Some((v, _)) => cleared_if_ours(old(self).backend(), final(self).backend(), v),
                None => final(self).backend() == old(self).backend(),
            },
    {
        let pending = match self.pending.take() {
            Some(p) => p,
            None => return,
        };
        let mut backend = match self.backend.take() {
            Some(b) => b,
            None => return,
        };
        let still_ours = match backend.get() {
            Some(current) => current == pending.value,
            None => false,
        };
        if still_ours {
            // If it fails there is nothing else to try: the value stays
            // until something else replaces it.
            let _ = backend.clear();
        }
        self.backend = Some(backend);
    }
}

} // verus!
