//! The main view of the graphical interface: the list of entries on the left,
//! the selected entry or the form that edits it on the right. This module
//! holds its state and every decision it takes; drawing is left to the caller.

use vstd::prelude::*;

use crate::app::Session;
use crate::search::{is_listing, listing};
use crate::security::{put_into, Clipboard, ClipboardBackend, Now, SECOND};
use crate::text::{push_str, trim, trimmed};
use crate::unlock::{string_with_capacity, text_of, PASSWORD_CAPACITY};
use crate::vault::{unix_now, Entry, VaultData};
use crate::wipe::{wipe_optional, wipe_string};

verus! {

/// How long a revealed password stays visible.
pub const REVEAL_FOR: u64 = 10_000_000_000;
/// Always the same number of dots: the length of a password does not show.
pub const MASK: &'static str = "••••••••••";

/// Why a draft cannot be saved.
pub const NAME_REQUIRED: &'static str = "Il nome è obbligatorio.";
pub const NAME_TAKEN: &'static str = "Esiste già una voce con questo nome.";
pub const PASSWORD_REQUIRED: &'static str = "La password è obbligatoria.";

/// `None` for an empty text.
pub open spec fn non_empty_text(s: Seq<char>) -> Option<Seq<char>> {
    if s.len() == 0 {
        None
    } else {
        Some(s)
    }
}

/// `Some(s)` unless `s` is empty.
pub fn optional(s: &str) -> (r: Option<&str>)
    ensures
        match r {
            Some(t) => t@ == s@ && s@.len() > 0,
            None => s@.len() == 0,
        },
{
    if s.is_empty() {
        None
    } else {
        Some(s)
    }
}

/// `Some(s)` unless `s` is empty.
pub fn non_empty(s: String) -> (r: Option<String>)
    ensures
        text_of(r) == non_empty_text(s@),
{
    if s.as_str().is_empty() {
        None
    } else {
        Some(s)
    }
}

/// A dash in place of an empty text.
pub fn or_dash(s: &str) -> (r: &str)
    ensures
        s@.len() > 0 ==> r@ == s@,
        s@.len() == 0 ==> r@ == "—"@,
{
    if s.is_empty() {
        "—"
    } else {
        s
    }
}

/// The contents of `s`, leaving it empty.
fn take_string(s: &mut String) -> (r: String)
    ensures
        r@ == old(s)@,
        final(s)@ == Seq::<char>::empty(),
{
    let mut out = String::new();
    std::mem::swap(s, &mut out);
    out
}

/// Puts `value` in `slot`; the old value is overwritten before it is freed.
pub fn replace(slot: &mut String, value: String)
    ensures
        final(slot)@ == value@,
{
    wipe_string(slot);
    *slot = value;
}

/// Puts `value` in `slot`; the old value is overwritten before it is freed.
pub fn replace_opt(slot: &mut Option<String>, value: Option<String>)
    ensures
        text_of(*final(slot)) == text_of(value),
{
    wipe_optional(slot);
    *slot = value;
}

/// The fields of a draft.
pub struct DraftState {
    pub name: Seq<char>,
    pub username: Seq<char>,
    pub password: Seq<char>,
    pub url: Seq<char>,
    pub notes: Seq<char>,
}

/// A draft with every field empty.
pub open spec fn blank_draft() -> DraftState {
    DraftState {
        name: Seq::empty(),
        username: Seq::empty(),
        password: Seq::empty(),
        url: Seq::empty(),
        notes: Seq::empty(),
    }
}

/// The draft of an entry: its fields, an absent URL or note as empty text.
pub open spec fn draft_of(e: Entry) -> DraftState {
    DraftState {
        name: e.name@,
        username: e.username@,
        password: e.password@,
        url: match e.url { Some(u) => u@, None => Seq::empty() },
        notes: match e.notes { Some(n) => n@, None => Seq::empty() },
    }
}

/// Every field of the draft is empty.
pub open spec fn draft_blank(d: DraftState) -> bool {
    d.name.len() == 0 && d.username.len() == 0 && d.password.len() == 0 && d.url.len() == 0 && d.notes.len() == 0
}

/// Saving the draft would change the entry.
pub open spec fn draft_differs(d: DraftState, e: Entry) -> bool {
    ||| trimmed(d.name) != e.name@
    ||| d.username != e.username@
    ||| d.password != e.password@
    ||| non_empty_text(d.url) != text_of(e.url)
    ||| non_empty_text(d.notes) != text_of(e.notes)
}

/// Another entry than `editing` already has this name.
pub open spec fn name_taken(name: Seq<char>, entries: Seq<Entry>, editing: Option<usize>) -> bool {
    exists|i: int| 0 <= i < entries.len() && Some(i as usize) != editing && #[trigger] entries[i].name@ == name
}

/// Why the draft cannot be saved, if it cannot.
pub open spec fn draft_problem(d: DraftState, entries: Seq<Entry>, editing: Option<usize>) -> Option<Seq<char>> {
    if trimmed(d.name).len() == 0 {
        Some(NAME_REQUIRED@)
    } else if name_taken(trimmed(d.name), entries, editing) {
        Some(NAME_TAKEN@)
    } else if d.password.len() == 0 {
        Some(PASSWORD_REQUIRED@)
    } else {
        None
    }
}

/// The entry that a draft makes: trimmed name, an empty URL or note left out.
pub open spec fn made_from(e: Entry, d: DraftState) -> bool {
    &&& e.name@ == trimmed(d.name)
    &&& e.username@ == d.username
    &&& e.password@ == d.password
    &&& text_of(e.url) == non_empty_text(d.url)
    &&& text_of(e.notes) == non_empty_text(d.notes)
}

/// The draft of an entry. It holds a password: no `Debug` or `Clone`, every
/// field overwritten when it is dropped.
pub struct Draft {
    pub name: String,
    pub username: String,
    pub password: String,
    pub url: String,
    pub notes: String,
}

impl Drop for Draft {
    fn drop(&mut self)
        opens_invariants none
        no_unwind
    {
        wipe_string(&mut self.name);
        wipe_string(&mut self.username);
        wipe_string(&mut self.password);
        wipe_string(&mut self.url);
        wipe_string(&mut self.notes);
    }
}

impl View for Draft {
    type V = DraftState;

    open spec fn view(&self) -> DraftState {
        DraftState {
            name: self.name@,
            username: self.username@,
            password: self.password@,
            url: self.url@,
            notes: self.notes@,
        }
    }
}

impl Draft {
    /// A draft with every field empty, for a new entry. The password field
    /// reserves `PASSWORD_CAPACITY` bytes so that typing never reallocates it;
    /// the capacity an allocator gave is not stated.
    pub fn empty() -> (d: Self)
        ensures
            d@ == blank_draft(),
    {
        Draft {
            name: String::new(),
            username: String::new(),
            password: string_with_capacity(PASSWORD_CAPACITY),
            url: String::new(),
            notes: String::new(),
        }
    }

    /// A draft holding the fields of `entry`, for editing it.
    pub fn of(entry: &Entry) -> (d: Self)
        ensures
            d@ == draft_of(*entry),
    {
        let mut draft = Draft::empty();
        push_str(&mut draft.name, entry.name.as_str());
        push_str(&mut draft.username, entry.username.as_str());
        push_str(&mut draft.password, entry.password.as_str());
        match &entry.url {
            Some(url) => push_str(&mut draft.url, url.as_str()),
            None => {},
        }
        match &entry.notes {
            Some(notes) => push_str(&mut draft.notes, notes.as_str()),
            None => {},
        }
        assert(draft@.name =~= draft_of(*entry).name);
        assert(draft@.username =~= draft_of(*entry).username);
        assert(draft@.password =~= draft_of(*entry).password);
        assert(draft@.url =~= draft_of(*entry).url);
        assert(draft@.notes =~= draft_of(*entry).notes);
        draft
    }

    /// Every field is empty.
    pub fn is_blank(&self) -> (r: bool)
        ensures
            r == draft_blank(self@),
    {
        self.name.as_str().is_empty() && self.username.as_str().is_empty() && self.password.as_str().is_empty()
            && self.url.as_str().is_empty() && self.notes.as_str().is_empty()
    }

    /// Saving the draft would change `entry`.
    pub fn differs_from(&self, entry: &Entry) -> (r: bool)
        ensures
            r == draft_differs(self@, *entry),
    {
        let name = trim(self.name.as_str());
        if !str_equal(name, entry.name.as_str()) {
            return true;
        }
        if !str_equal(self.username.as_str(), entry.username.as_str()) {
            return true;
        }
        if !str_equal(self.password.as_str(), entry.password.as_str()) {
            return true;
        }
        !same_optional(optional(self.url.as_str()), &entry.url) || !same_optional(optional(self.notes.as_str()), &entry.notes)
    }

    /// Why the draft cannot be saved, if it cannot: `editing` is the entry it
    /// edits, which may keep its own name.
    pub fn problem(&self, entries: &[Entry], editing: Option<usize>) -> (r: Option<&'static str>)
        ensures
            match r {
                Some(m) => draft_problem(self@, entries@, editing) == Some(m@),
                None => draft_problem(self@, entries@, editing) is None,
            },
    {
        let name = trim(self.name.as_str());
        if name.is_empty() {
            return Some(NAME_REQUIRED);
        }
        let mut i: usize = 0;
        while i < entries.len()
            invariant
                i <= entries@.len(),
                name@ == trimmed(self@.name),
                name@.len() > 0,
                forall|j: int| 0 <= j < i && Some(j as usize) != editing ==> #[trigger] entries@[j].name@ != name@,
            decreases entries@.len() - i,
        {
            if editing != Some(i) && str_equal(entries[i].name.as_str(), name) {
                assert(entries@[i as int].name@ == trimmed(self@.name));
                assert(name_taken(trimmed(self@.name), entries@, editing));
                return Some(NAME_TAKEN);
            }
            i = i + 1;
        }
        if self.password.as_str().is_empty() {
            return Some(PASSWORD_REQUIRED);
        }
        None
    }

    /// A new entry from the draft, whose fields are left empty.
    pub fn take_entry(&mut self) -> (e: Entry)
        ensures
            made_from(e, old(self)@),
            e.created == e.modified,
            final(self)@ == blank_draft(),
    {
        let name = trim(self.name.as_str()).to_owned();
        wipe_string(&mut self.name);
        let username = take_string(&mut self.username);
        let password = take_string(&mut self.password);
        let url = non_empty(take_string(&mut self.url));
        let notes = non_empty(take_string(&mut self.notes));
        Entry::new(name, username, password, url, notes)
    }

    /// Writes the draft onto the entry, now modified. The old values are
    /// overwritten before they are freed; the draft is left empty.
    pub fn apply_to(&mut self, entry: &mut Entry)
        ensures
            made_from(*final(entry), old(self)@),
            final(entry).created == old(entry).created,
            final(self)@ == blank_draft(),
    {
        self.apply_at(entry, unix_now());
    }

    /// [`Draft::apply_to`] with the time of the change, in seconds since the
    /// Unix epoch.
    pub fn apply_at(&mut self, entry: &mut Entry, now: u64)
        ensures
            made_from(*final(entry), old(self)@),
            final(entry).created == old(entry).created,
            final(entry).modified == now,
            final(self)@ == blank_draft(),
    {
        let name = trim(self.name.as_str()).to_owned();
        wipe_string(&mut self.name);
        replace(&mut entry.name, name);
        replace(&mut entry.username, take_string(&mut self.username));
        replace(&mut entry.password, take_string(&mut self.password));
        replace_opt(&mut entry.url, non_empty(take_string(&mut self.url)));
        replace_opt(&mut entry.notes, non_empty(take_string(&mut self.notes)));
        entry.modified = now;
    }
}

/// Whether two strings are equal.
fn str_equal(a: &str, b: &str) -> (r: bool)
    ensures
        r == (a@ == b@),
{
    let x = a.to_owned();
    let y = b.to_owned();
    x == y
}

/// Whether an optional text is the one an entry holds.
fn same_optional(a: Option<&str>, b: &Option<String>) -> (r: bool)
    ensures
        r == ((match a { Some(s) => Some(s@), None => None::<Seq<char>> }) == text_of(*b)),
{
    match (a, b) {
        (Some(x), Some(y)) => str_equal(x, y.as_str()),
        (None, None) => true,
        _ => false,
    }
}

/// The control that takes the keyboard focus on the next frame.
#[derive(Clone, Copy, Debug, PartialEq, Eq, Structural)]
pub enum Focus {
    Search,
    FirstEntry,
    Name,
    DeleteConfirm,
}

/// The field of the shown entry copied last.
#[derive(Clone, Copy, Debug, PartialEq, Eq, Structural)]
pub enum Copied {
    Username,
    Password,
}

/// What the detail pane shows.
pub enum Mode {
    View,
    /// Editing the selected entry.
    Edit(Draft),
    New(Draft),
}

/// The confirmation dialog of a deletion: the name of the entry has to be typed.
pub struct DeleteDialog {
    pub index: usize,
    pub typed: String,
}

/// What the user asked for in this frame; applied after drawing.
pub enum Action {
    Idle,
    Select(usize),
    New,
    Edit,
    Cancel,
    Save,
    AskDelete,
    CancelDelete,
    ConfirmDelete,
    Retry,
    Copy(Copied),
    ToggleReveal,
}

/// What the caller does after an action: write the vault and report the
/// outcome with [`MainView::saved`]; drop the undo history of the password
/// field, which holds copies of what was typed.
pub struct Effects {
    pub persist: bool,
    pub forget_secrets: bool,
}

/// What the detail pane shows, as values.
pub enum ModeState {
    View,
    Edit(DraftState),
    New(DraftState),
}

/// The values of a mode.
pub open spec fn mode_state(m: Mode) -> ModeState {
    match m {
        Mode::View => ModeState::View,
        Mode::Edit(d) => ModeState::Edit(d@),
        Mode::New(d) => ModeState::New(d@),
    }
}

/// The state of a [`MainView`].
pub struct ViewState {
    pub query: Seq<char>,
    /// Rows of the list: indices of the entries that pass the filter, in order.
    pub visible: Seq<usize>,
    pub selected: Option<usize>,
    pub mode: ModeState,
    /// Until when the password stays revealed, on the monotonic clock.
    pub reveal_until: Option<u64>,
    /// Entry and field of the last copy, for the countdown.
    pub copied: Option<(usize, Copied)>,
    pub copy_error: Option<Seq<char>>,
    /// Entry to delete and the text typed to confirm.
    pub delete: Option<(usize, Seq<char>)>,
    /// The last failed save: shown until a save succeeds.
    pub save_error: Option<Seq<char>>,
    pub focus: Option<Focus>,
}

/// The state of the view. It lives in the session, drafts included, and goes with it.
pub struct MainView {
    query: String,
    visible: Vec<usize>,
    selected: Option<usize>,
    mode: Mode,
    reveal_until: Option<u64>,
    copied: Option<(usize, Copied)>,
    copy_error: Option<String>,
    delete: Option<DeleteDialog>,
    save_error: Option<String>,
    focus: Option<Focus>,
}

impl View for MainView {
    type V = ViewState;

    closed spec fn view(&self) -> ViewState {
        ViewState {
            query: self.query@,
            visible: self.visible@,
            selected: self.selected,
            mode: mode_state(self.mode),
            reveal_until: self.reveal_until,
            copied: self.copied,
            copy_error: text_of(self.copy_error),
            delete: match self.delete {
                Some(d) => Some((d.index, d.typed@)),
                None => None,
            },
            save_error: text_of(self.save_error),
            focus: self.focus,
        }
    }
}

/// Time left before a revealed password is masked again, if any, at `now`.
pub open spec fn reveal_left(v: ViewState, now: u64) -> Option<u64> {
    match v.reveal_until {
        Some(until) => if until > now { Some((until - now) as u64) } else { None },
        None => None,
    }
}

/// The row that a committed draft ends up in, if the draft can be committed.
pub open spec fn commit_outcome(mode: ModeState, selected: Option<usize>, entries: Seq<Entry>) -> Option<usize> {
    match mode {
        ModeState::New(d) => if draft_blank(d) || draft_problem(d, entries, None) is Some {
            None
        } else {
            Some(entries.len() as usize)
        },
        ModeState::Edit(d) => match selected {
            Some(index) => if draft_problem(d, entries, Some(index)) is Some || index >= entries.len()
                || !draft_differs(d, entries[index as int]) {
                None
            } else {
                Some(index)
            },
            None => None,
        },
        ModeState::View => None,
    }
}

/// `after` is `before` with the draft of `mode` committed at `index`.
pub open spec fn committed(mode: ModeState, index: usize, before: Seq<Entry>, after: Seq<Entry>) -> bool {
    match mode {
        ModeState::New(d) => {
            &&& after.len() == before.len() + 1
            &&& after.subrange(0, before.len() as int) == before
            &&& made_from(after[before.len() as int], d)
            &&& after[before.len() as int].created == after[before.len() as int].modified
        },
        ModeState::Edit(d) => {
            &&& after.len() == before.len()
            &&& forall|j: int| 0 <= j < before.len() && j != index ==> after[j] == before[j]
            &&& made_from(after[index as int], d)
            &&& after[index as int].created == before[index as int].created
        },
        ModeState::View => false,
    }
}

/// The view of an empty query over these entries.
pub open spec fn fresh_view(v: ViewState, entries: Seq<Entry>) -> bool {
    &&& v.query == Seq::<char>::empty()
    &&& is_listing(v.visible, Seq::<char>::empty(), entries)
    &&& v.selected is None
    &&& v.mode is View
    &&& v.reveal_until is None
    &&& v.copied is None
    &&& v.copy_error is None
    &&& v.delete is None
    &&& v.save_error is None
    &&& v.focus == Some(if entries.len() == 0 { Focus::FirstEntry } else { Focus::Search })
}

/// Applies the draft to the entries; the index of the saved entry, or `None`
/// when there is nothing valid to save, and then nothing changes.
fn commit(mode: &mut Mode, selected: Option<usize>, entries: &mut Vec<Entry>) -> (r: Option<usize>)
    ensures
        r == commit_outcome(mode_state(*old(mode)), selected, old(entries)@),
        r is None ==> final(entries)@ == old(entries)@ && mode_state(*final(mode)) == mode_state(*old(mode)),
        r matches Some(index) ==> {
            &&& committed(mode_state(*old(mode)), index, old(entries)@, final(entries)@)
            &&& (mode_state(*final(mode)) matches ModeState::New(d) && d == blank_draft())
                || (mode_state(*final(mode)) matches ModeState::Edit(d) && d == blank_draft())
        },
{
    match mode {
        Mode::New(draft) => {
            if draft.is_blank() || draft.problem(entries.as_slice(), None).is_some() {
                return None;
            }
            let entry = draft.take_entry();
            let ghost before = entries@;
            entries.push(entry);
            assert(entries@.subrange(0, before.len() as int) =~= before);
            Some(entries.len() - 1)
        },
        Mode::Edit(draft) => {
            let index = match selected {
                Some(i) => i,
                None => return None,
            };
            if draft.problem(entries.as_slice(), Some(index)).is_some() {
                return None;
            }
            if index >= entries.len() {
                return None;
            }
            if !draft.differs_from(&entries[index]) {
                return None;
            }
            draft.apply_to(&mut entries[index]);
            Some(index)
        },
        Mode::View => None,
    }
}

impl MainView {
    /// The view of a vault just opened: no query, nothing selected.
    pub fn new(data: &VaultData) -> (v: Self)
        ensures
            fresh_view(v@, data.entries@),
    {
        let query = String::new();
        let visible = listing(query.as_str(), data.entries.as_slice());
        MainView {
            query,
            visible,
            selected: None,
            mode: Mode::View,
            reveal_until: None,
            copied: None,
            copy_error: None,
            delete: None,
            save_error: None,
            focus: Some(if data.entries.len() == 0 { Focus::FirstEntry } else { Focus::Search }),
        }
    }

    /// The rows again, after a change of the entries or of the query.
    pub fn refresh(&mut self, entries: &[Entry])
        ensures
            is_listing(final(self)@.visible, old(self)@.query, entries@),
            final(self)@ == (ViewState { visible: final(self)@.visible, ..old(self)@ }),
    {
        self.visible = listing(self.query.as_str(), entries);
    }

    /// Time left before the revealed password is masked again, if any.
    pub fn revealed(&self, now: u64) -> (r: Option<u64>)
        ensures
            r == reveal_left(self@, now),
    {
        match self.reveal_until {
            Some(until) => if until > now {
                Some(until - now)
            } else {
                None
            },
            None => None,
        }
    }

    /// Masks the password again.
    pub fn conceal(&mut self)
        ensures
            final(self)@ == (ViewState { reveal_until: None, ..old(self)@ }),
    {
        self.reveal_until = None;
    }

    /// Deadlines of the revealed password and of the clipboard countdown: an
    /// expired reveal is dropped, and so is the copied field once the
    /// clipboard has nothing left to clear.
    pub fn expire<B: ClipboardBackend>(&mut self, now: Now, clipboard: &Clipboard<B>)
        ensures
            final(self)@ == (ViewState {
                reveal_until: if reveal_left(old(self)@, now.instant) is None { None } else { old(self)@.reveal_until },
                copied: if clipboard.pending() is None { None } else { old(self)@.copied },
                ..old(self)@
            }),
    {
        if self.revealed(now.instant).is_none() {
            self.reveal_until = None;
        }
        if clipboard.remaining(now).is_none() {
            self.copied = None;
        }
    }

    /// Whether `which` is to take the focus in this frame; the request is used up.
    pub fn take_focus(&mut self, which: Focus) -> (r: bool)
        ensures
            r == (old(self)@.focus == Some(which)),
            final(self)@ == (ViewState { focus: if r { None } else { old(self)@.focus }, ..old(self)@ }),
    {
        let hit = self.focus == Some(which);
        if hit {
            self.focus = None;
        }
        hit
    }

    /// The outcome of writing the vault: the error stays on screen until a
    /// save succeeds.
    pub fn saved(&mut self, error: Option<String>)
        ensures
            final(self)@ == (ViewState { save_error: text_of(error), ..old(self)@ }),
    {
        self.save_error = error;
    }

    /// The search field.
    pub fn query_buffer(&mut self) -> (r: &mut String)
        ensures
            r@ == old(self)@.query,
            final(self)@ == (ViewState { query: final(r)@, ..old(self)@ }),
    {
        &mut self.query
    }

    /// The rows of the list.
    pub fn visible(&self) -> (r: &[usize])
        ensures
            r@ == self@.visible,
    {
        self.visible.as_slice()
    }

    /// The selected entry.
    pub fn selected(&self) -> (r: Option<usize>)
        ensures
            r == self@.selected,
    {
        self.selected
    }

    /// The field copied last, if it belongs to the shown entry.
    pub fn copied(&self) -> (r: Option<Copied>)
        ensures
            r == (match self@.copied {
                Some((index, which)) => if self@.selected == Some(index) { Some(which) } else { None },
                None => None,
            }),
    {
        match self.copied {
            Some((index, which)) => if self.selected == Some(index) {
                Some(which)
            } else {
                None
            },
            None => None,
        }
    }

    /// Why the last copy failed, if it did.
    pub fn copy_error(&self) -> (r: Option<&str>)
        ensures
            match r {
                Some(s) => self@.copy_error == Some(s@),
                None => self@.copy_error is None,
            },
    {
        match &self.copy_error {
            Some(e) => Some(e.as_str()),
            None => None,
        }
    }

    /// Why the last save failed, if it did.
    pub fn save_error(&self) -> (r: Option<&str>)
        ensures
            match r {
                Some(s) => self@.save_error == Some(s@),
                None => self@.save_error is None,
            },
    {
        match &self.save_error {
            Some(e) => Some(e.as_str()),
            None => None,
        }
    }

    /// The draft being edited or created, if any.
    pub fn draft(&mut self) -> (r: Option<&mut Draft>)
        ensures
            match old(self)@.mode {
                ModeState::View => r is None && final(self)@ == old(self)@,
                ModeState::Edit(d) => r matches Some(draft) && draft@ == d
                    && final(self)@ == (ViewState { mode: ModeState::Edit(final(draft)@), ..old(self)@ }),
                ModeState::New(d) => r matches Some(draft) && draft@ == d
                    && final(self)@ == (ViewState { mode: ModeState::New(final(draft)@), ..old(self)@ }),
            },
    {
        match &mut self.mode {
            Mode::View => None,
            Mode::Edit(d) => Some(d),
            Mode::New(d) => Some(d),
        }
    }

    /// The entry that the open form edits: the selected one when editing,
    /// none for a new entry or without a form.
    pub fn editing(&self) -> (r: Option<usize>)
        ensures
            r == (if self@.mode is Edit { self@.selected } else { None }),
    {
        match self.mode {
            Mode::Edit(_) => self.selected,
            _ => None,
        }
    }

    /// The state of the "Save" button of the form: whether saving would
    /// change anything, and why it cannot be saved, if it cannot.
    pub fn form_status(&self, entries: &[Entry]) -> (r: (bool, Option<&'static str>))
        ensures
            match self@.mode {
                ModeState::View => r == (false, None::<&'static str>),
                ModeState::New(d) => r.0 == !draft_blank(d) && match r.1 {
                    Some(m) => draft_problem(d, entries@, None) == Some(m@),
                    None => draft_problem(d, entries@, None) is None,
                },
                ModeState::Edit(d) => {
                    &&& r.0 == (self@.selected matches Some(i) && i < entries@.len() && draft_differs(d, entries@[i as int]))
                    &&& match r.1 {
                        Some(m) => draft_problem(d, entries@, self@.selected) == Some(m@),
                        None => draft_problem(d, entries@, self@.selected) is None,
                    }
                },
            },
    {
        match &self.mode {
            Mode::View => (false, None),
            Mode::New(draft) => (!draft.is_blank(), draft.problem(entries, None)),
            Mode::Edit(draft) => {
                let changed = match self.selected {
                    Some(i) => i < entries.len() && draft.differs_from(&entries[i]),
                    None => false,
                };
                (changed, draft.problem(entries, self.selected))
            },
        }
    }

    /// The entry whose deletion waits for confirmation, if any.
    pub fn deleting(&self) -> (r: Option<usize>)
        ensures
            r == (match self@.delete {
                Some((i, _)) => Some(i),
                None => None,
            }),
    {
        match &self.delete {
            Some(d) => Some(d.index),
            None => None,
        }
    }

    /// The field of the deletion dialog where the name is typed.
    pub fn delete_field(&mut self) -> (r: Option<&mut String>)
        ensures
            match old(self)@.delete {
                Some((i, typed)) => r matches Some(f) && f@ == typed
                    && final(self)@ == (ViewState { delete: Some((i, final(f)@)), ..old(self)@ }),
                None => r is None && final(self)@ == old(self)@,
            },
    {
        match &mut self.delete {
            Some(d) => Some(&mut d.typed),
            None => None,
        }
    }

    /// The deletion can be confirmed: the exact name of the entry was typed.
    pub fn delete_confirmed(&self, entries: &[Entry]) -> (r: bool)
        ensures
            r == (self@.delete matches Some((i, typed)) && i < entries@.len() && typed == entries@[i as int].name@),
    {
        match &self.delete {
            Some(d) => d.index < entries.len() && d.typed == entries[d.index].name,
            None => false,
        }
    }

    /// The list can be used: no form open and no deletion to confirm.
    pub fn list_enabled(&self) -> (r: bool)
        ensures
            r == (self@.mode is View && self@.delete is None),
    {
        match self.mode {
            Mode::View => self.delete.is_none(),
            _ => false,
        }
    }
}

/// The message of a copy that failed.
pub open spec fn copy_failed_message(e: Seq<char>) -> Seq<char> {
    "Copia non riuscita: "@ + e + "."@
}

/// Applies the action asked for in this frame. Copying goes through the
/// clipboard; writing the vault and dropping undo state are left to the
/// caller, as the returned effects say.
pub fn apply<B: ClipboardBackend>(action: Action, session: &mut Session, clipboard: &mut Clipboard<B>, now: Now) -> (fx: Effects)
    ensures
        final(session).path == old(session).path,
        final(session).key@ == old(session).key@,
        final(session).data.version == old(session).data.version,
        final(clipboard).has_backend() == old(clipboard).has_backend(),
        final(clipboard).reason() == old(clipboard).reason(),
        !(action is Copy) ==> final(clipboard).pending() == old(clipboard).pending(),
        !(action is Copy) ==> final(clipboard).backend() == old(clipboard).backend(),
        ({
            let v0 = old(session).view@;
            let v1 = final(session).view@;
            let e0 = old(session).data.entries@;
            let e1 = final(session).data.entries@;
            match action {
                Action::Idle => v1 == v0 && e1 == e0 && !fx.persist && !fx.forget_secrets,
                Action::Select(i) => {
                    &&& v1 == (ViewState { selected: Some(i), reveal_until: None, ..v0 })
                    &&& e1 == e0 && !fx.persist && !fx.forget_secrets
                },
                Action::New => {
                    &&& v1 == (ViewState { mode: ModeState::New(blank_draft()), reveal_until: None, focus: Some(Focus::Name), ..v0 })
                    &&& e1 == e0 && !fx.persist && !fx.forget_secrets
                },
                Action::Edit => {
                    &&& e1 == e0 && !fx.persist && !fx.forget_secrets
                    &&& (v0.selected matches Some(i) && i < e0.len()) ==> v1 == (ViewState {
                        mode: ModeState::Edit(draft_of(e0[v0.selected->0 as int])),
                        reveal_until: None,
                        focus: Some(Focus::Name),
                        ..v0
                    })
                    &&& !(v0.selected matches Some(i) && i < e0.len()) ==> v1 == v0
                },
                Action::Cancel => {
                    &&& v1 == (ViewState { mode: ModeState::View, reveal_until: None, ..v0 })
                    &&& e1 == e0 && !fx.persist && fx.forget_secrets
                },
                Action::Save => match commit_outcome(v0.mode, v0.selected, e0) {
                    Some(index) => {
                        &&& committed(v0.mode, index, e0, e1)
                        &&& is_listing(v1.visible, v0.query, e1)
                        &&& v1 == (ViewState {
                            mode: ModeState::View,
                            reveal_until: None,
                            selected: Some(index),
                            visible: v1.visible,
                            ..v0
                        })
                        &&& fx.persist && fx.forget_secrets
                    },
                    None => v1 == v0 && e1 == e0 && !fx.persist && !fx.forget_secrets,
                },
                Action::AskDelete => {
                    &&& e1 == e0 && !fx.persist && !fx.forget_secrets
                    &&& v0.selected matches Some(i) ==> v1 == (ViewState {
                        delete: Some((i, Seq::<char>::empty())),
                        reveal_until: None,
                        focus: Some(Focus::DeleteConfirm),
                        ..v0
                    })
                    &&& v0.selected is None ==> v1 == v0
                },
                Action::CancelDelete => {
                    &&& v1 == (ViewState { delete: None, ..v0 })
                    &&& e1 == e0 && !fx.persist && !fx.forget_secrets
                },
                Action::ConfirmDelete => match v0.delete {
                    Some((i, typed)) => if i < e0.len() {
                        &&& e1 == e0.remove(i as int)
                        &&& is_listing(v1.visible, v0.query, e1)
                        &&& v1 == (ViewState {
                            delete: None,
                            selected: None,
                            copied: None,
                            visible: v1.visible,
                            focus: if e1.len() == 0 { Some(Focus::FirstEntry) } else { v0.focus },
                            ..v0
                        })
                        &&& fx.persist && !fx.forget_secrets
                    } else {
                        v1 == (ViewState { delete: None, ..v0 }) && e1 == e0 && !fx.persist && !fx.forget_secrets
                    },
                    None => v1 == v0 && e1 == e0 && !fx.persist && !fx.forget_secrets,
                },
                Action::Retry => v1 == v0 && e1 == e0 && fx.persist && !fx.forget_secrets,
                Action::Copy(which) => {
                    &&& e1 == e0 && !fx.persist && !fx.forget_secrets
                    &&& (v0.selected matches Some(i) && i < e0.len()) ==> {
                        let entry = e0[v0.selected->0 as int];
                        let text = match which { Copied::Username => entry.username@, Copied::Password => entry.password@ };
                        ||| v1 == (ViewState { copied: Some((v0.selected->0, which)), copy_error: None, ..v0 })
                            && final(clipboard).pending() == Some((text, (now, crate::security::CLIPBOARD_TTL)))
                            && (match old(clipboard).backend() {
                                Some(b0) => final(clipboard).backend() matches Some(b1) && put_into(b0, b1, text, true),
                                None => false,
                            })
                        ||| (exists|e: Seq<char>| v1 == (ViewState { copy_error: Some(#[trigger] copy_failed_message(e)), ..v0 })
                                && (old(clipboard).backend() is None ==> e == crate::security::no_clipboard_message()))
                            && final(clipboard).pending() == old(clipboard).pending()
                            && (match old(clipboard).backend() {
                                Some(b0) => final(clipboard).backend() matches Some(b1) && put_into(b0, b1, text, false),
                                None => final(clipboard).backend() is None,
                            })
                    }
                    &&& !(v0.selected matches Some(i) && i < e0.len()) ==> v1 == v0 && final(clipboard).pending() == old(clipboard).pending()
                        && final(clipboard).backend() == old(clipboard).backend()
                },
                Action::ToggleReveal => {
                    &&& v1 == (ViewState {
                        reveal_until: if reveal_left(v0, now.instant) is Some {
                            None
                        } else if now.instant + REVEAL_FOR <= u64::MAX {
                            Some((now.instant + REVEAL_FOR) as u64)
                        } else {
                            None
                        },
                        ..v0
                    })
                    &&& e1 == e0 && !fx.persist && !fx.forget_secrets
                },
            }
        }),
{
    let quiet = Effects { persist: false, forget_secrets: false };
    match action {
        Action::Idle => quiet,
        Action::Select(index) => {
            session.view.selected = Some(index);
            session.view.conceal();
            quiet
        },
        Action::New => {
            session.view.mode = Mode::New(Draft::empty());
            session.view.conceal();
            session.view.focus = Some(Focus::Name);
            quiet
        },
        Action::Edit => {
            match session.view.selected {
                Some(i) => if i < session.data.entries.len() {
                    session.view.mode = Mode::Edit(Draft::of(&session.data.entries[i]));
                    session.view.conceal();
                    session.view.focus = Some(Focus::Name);
                },
                None => {},
            }
            quiet
        },
        Action::Cancel => {
            session.view.mode = Mode::View;
            session.view.conceal();
            Effects { persist: false, forget_secrets: true }
        },
        Action::Save => {
            let selected = session.view.selected;
            match commit(&mut session.view.mode, selected, &mut session.data.entries) {
                Some(index) => {
                    session.view.mode = Mode::View;
                    session.view.conceal();
                    session.view.selected = Some(index);
                    session.view.refresh(session.data.entries.as_slice());
                    Effects { persist: true, forget_secrets: true }
                },
                None => quiet,
            }
        },
        Action::AskDelete => {
            match session.view.selected {
                Some(index) => {
                    session.view.delete = Some(DeleteDialog { index, typed: String::new() });
                    session.view.conceal();
                    session.view.focus = Some(Focus::DeleteConfirm);
                },
                None => {},
            }
            quiet
        },
        Action::CancelDelete => {
            session.view.delete = None;
            quiet
        },
        Action::ConfirmDelete => {
            match session.view.delete.take() {
                Some(dialog) => {
                    if dialog.index < session.data.entries.len() {
                        // The removed entry is overwritten when it is dropped.
                        let _removed = session.data.entries.remove(dialog.index);
                        session.view.selected = None;
                        session.view.copied = None;
                        session.view.refresh(session.data.entries.as_slice());
                        if session.data.entries.len() == 0 {
                            session.view.focus = Some(Focus::FirstEntry);
                        }
                        Effects { persist: true, forget_secrets: false }
                    } else {
                        quiet
                    }
                },
                None => quiet,
            }
        },
        Action::Retry => Effects { persist: true, forget_secrets: false },
        Action::Copy(which) => {
            let index = match session.view.selected {
                Some(i) => i,
                None => return quiet,
            };
            if index >= session.data.entries.len() {
                return quiet;
            }
            let entry = &session.data.entries[index];
            let text = match which {
                Copied::Username => entry.username.as_str(),
                Copied::Password => entry.password.as_str(),
            };
            match clipboard.copy(text, now) {
                Ok(()) => {
                    session.view.copied = Some((index, which));
                    session.view.copy_error = None;
                },
                Err(e) => {
                    let mut message = "Copia non riuscita: ".to_owned();
                    push_str(&mut message, e.as_str());
                    push_str(&mut message, ".");
                    proof {
                        reveal_strlit("Copia non riuscita: ");
                        reveal_strlit(".");
                    }
                    assert(message@ == copy_failed_message(e@));
                    session.view.copy_error = Some(message);
                },
            }
            quiet
        },
        Action::ToggleReveal => {
            session.view.reveal_until = match session.view.revealed(now.instant) {
                Some(_) => None,
                None => now.instant.checked_add(REVEAL_FOR),
            };
            quiet
        },
    }
}

/// Before a lock: a valid draft with changes is committed as with "Save".
/// The answer is whether the vault is then to be written: after that commit,
/// or after an earlier save that failed. An invalid draft cannot be saved and
/// is lost. If writing fails the lock happens anyway: the caller decides.
pub fn save_before_lock(session: &mut Session) -> (needs_save: bool)
    ensures
        ({
            let v0 = old(session).view@;
            let outcome = commit_outcome(v0.mode, v0.selected, old(session).data.entries@);
            &&& needs_save == (outcome is Some || v0.save_error is Some)
            &&& outcome matches Some(index) ==> committed(v0.mode, index, old(session).data.entries@, final(session).data.entries@)
            &&& outcome is None ==> final(session).data.entries@ == old(session).data.entries@
        }),
        final(session).path == old(session).path,
        final(session).key@ == old(session).key@,
{
    let selected = session.view.selected;
    let committed = commit(&mut session.view.mode, selected, &mut session.data.entries).is_some();
    committed || session.view.save_error.is_some()
}


/// The draft of an entry changes nothing while it is not edited, for an entry
/// that a draft could have made: a name without surrounding blanks, no empty
/// URL or note.
pub proof fn lemma_unedited_draft_is_unchanged(e: Entry)
    requires
        trimmed(e.name@) == e.name@,
        e.url is Some ==> e.url->0@.len() > 0,
        e.notes is Some ==> e.notes->0@.len() > 0,
    ensures
        !draft_differs(draft_of(e), e),
{
}

/// A draft differs from an entry exactly when saving it would give another
/// entry: a draft that does not differ makes this very entry, field by field
/// (the name without its surrounding blanks, an empty URL or note as none),
/// and one that does, changes at least one field. So "Save" is offered for
/// every change, a new password included, and for nothing else.
pub proof fn lemma_draft_differs_exactly_when_saving_changes(d: DraftState, e: Entry)
    ensures
        draft_differs(d, e) <==> !made_from(e, d),
        !draft_differs(d, e) ==> {
            &&& e.name@ == trimmed(d.name)
            &&& e.username@ == d.username
            &&& e.password@ == d.password
            &&& text_of(e.url) == non_empty_text(d.url)
            &&& text_of(e.notes) == non_empty_text(d.notes)
        },
{
}

/// The entry that a draft makes is the draft, to the blanks around the name:
/// applying it again changes nothing.
pub proof fn lemma_made_entry_matches_its_draft(e: Entry, d: DraftState)
    requires
        made_from(e, d),
        trimmed(d.name) == d.name,
    ensures
        !draft_differs(d, e),
{
}

} // verus!
