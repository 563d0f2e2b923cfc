//! Finding and ordering the entries of the list: fuzzy search on name,
//! username and URL, and alphabetical order regardless of case.

use vstd::prelude::*;

use crate::text::{chars_of, lower, lowercase, split_whitespace, words};
use crate::vault::Entry;
use core::cmp::Ordering;

verus! {

/// `p` is a subsequence of `t`: its characters appear in `t` in the same
/// order, not necessarily next to each other.
pub open spec fn subsequence(p: Seq<char>, t: Seq<char>) -> bool
    decreases t.len(),
{
    if p.len() == 0 {
        true
    } else if t.len() == 0 {
        false
    } else if p[0] == t[0] {
        subsequence(p.drop_first(), t.drop_first())
    } else {
        subsequence(p, t.drop_first())
    }
}

/// A search term finds a text when its lowercase letters appear, in order,
/// in the lowercase text: "gthb" finds "GitHub".
pub open spec fn finds(term: Seq<char>, text: Seq<char>) -> bool {
    subsequence(lower(term), lower(text))
}

/// Every word of the query finds the name, the username or the URL. Notes
/// and password are never searched.
pub open spec fn entry_matches(query: Seq<char>, e: Entry) -> bool {
    forall|k: int| 0 <= k < words(query).len() ==> {
        let term = #[trigger] words(query)[k];
        ||| finds(term, e.name@)
        ||| finds(term, e.username@)
        ||| (e.url matches Some(u) && finds(term, u@))
    }
}

/// Whether `p` is a subsequence of `t`.
fn is_subsequence(p: &[char], t: &[char]) -> (r: bool)
    ensures
        r == subsequence(p@, t@),
{
    let mut i: usize = 0;
    let mut j: usize = 0;
    assert(p@.skip(0) =~= p@ && t@.skip(0) =~= t@);
    while i < p.len()
        invariant
            i <= p@.len(),
            j <= t@.len(),
            subsequence(p@, t@) == subsequence(p@.skip(i as int), t@.skip(j as int)),
        decreases p@.len() - i + t@.len() - j,
    {
        if j >= t.len() {
            assert(t@.skip(j as int).len() == 0);
            return false;
        }
        let ghost ps = p@.skip(i as int);
        let ghost ts = t@.skip(j as int);
        assert(ps[0] == p@[i as int]);
        assert(ts[0] == t@[j as int]);
        assert(ts.drop_first() =~= t@.skip(j + 1));
        if p[i] == t[j] {
            assert(ps.drop_first() =~= p@.skip(i + 1));
            i = i + 1;
        }
        j = j + 1;
    }
    assert(p@.skip(i as int).len() == 0);
    true
}

/// Whether `term` finds `text`, regardless of case.
pub fn fuzzy(term: &[char], text: &str) -> (r: bool)
    ensures
        r == finds(term@, text@),
{
    let t = chars_of(text);
    let lt = lowercase(t.as_slice());
    let lp = lowercase(term);
    is_subsequence(lp.as_slice(), lt.as_slice())
}

/// Whether the query finds the entry: every word of it must appear, letters
/// in order, in the name, the username or the URL.
pub fn matches(query: &str, entry: &Entry) -> (r: bool)
    ensures
        r == entry_matches(query@, *entry),
{
    let q = chars_of(query);
    let terms = split_whitespace(q.as_slice());
    let mut k: usize = 0;
    while k < terms.len()
        invariant
            k <= terms@.len(),
            q@ == query@,
            terms@.len() == words(query@).len(),
            forall|m: int| 0 <= m < terms@.len() ==> #[trigger] terms@[m]@ == words(query@)[m],
            forall|m: int| 0 <= m < k ==> {
                let term = #[trigger] words(query@)[m];
                ||| finds(term, entry.name@)
                ||| finds(term, entry.username@)
                ||| (entry.url matches Some(u) && finds(term, u@))
            },
        decreases terms@.len() - k,
    {
        let term = terms[k].as_slice();
        assert(term@ == words(query@)[k as int]);
        let found = fuzzy(term, entry.name.as_str()) || fuzzy(term, entry.username.as_str()) || match &entry.url {
            Some(url) => fuzzy(term, url.as_str()),
            None => false,
        };
        if !found {
            return false;
        }
        k = k + 1;
    }
    true
}

/// Lexicographic comparison by code point: -1, 0 or 1. On the characters of
/// two strings it orders them as `str::cmp` does on their UTF-8 bytes.
pub open spec fn lex_order(a: Seq<char>, b: Seq<char>) -> int
    decreases a.len(),
{
    if a.len() == 0 {
        if b.len() == 0 { 0 } else { -1 }
    } else if b.len() == 0 {
        1
    } else if a[0] < b[0] {
        -1
    } else if a[0] > b[0] {
        1
    } else {
        lex_order(a.drop_first(), b.drop_first())
    }
}

/// Swapping two texts reverses their order.
pub proof fn lemma_lex_order_antisymmetric(a: Seq<char>, b: Seq<char>)
    ensures
        lex_order(a, b) == -lex_order(b, a),
        -1 <= lex_order(a, b) <= 1,
    decreases a.len(),
{
    if a.len() > 0 && b.len() > 0 && a[0] == b[0] {
        lemma_lex_order_antisymmetric(a.drop_first(), b.drop_first());
    }
}

/// Two texts are in a tie exactly when they are equal.
pub proof fn lemma_lex_order_equal(a: Seq<char>, b: Seq<char>)
    ensures
        lex_order(a, b) == 0 <==> a == b,
    decreases a.len(),
{
    if a.len() == 0 || b.len() == 0 {
        if a.len() == 0 && b.len() == 0 {
            assert(a =~= b);
        } else {
            assert(a.len() != b.len());
        }
    } else if a[0] == b[0] {
        lemma_lex_order_equal(a.drop_first(), b.drop_first());
        if a.drop_first() == b.drop_first() {
            assert(a =~= seq![a[0]] + a.drop_first());
            assert(b =~= seq![b[0]] + b.drop_first());
        } else if a == b {
            assert(a.drop_first() =~= b.drop_first());
        }
    } else {
        assert(a[0] != b[0]);
    }
}

/// A text comes before every longer text that starts with it, as `str::cmp`
/// puts a proper prefix first: "Google" before "Google Drive".
pub proof fn lemma_prefix_comes_first(a: Seq<char>, b: Seq<char>)
    requires
        b.len() > 0,
    ensures
        lex_order(a, a + b) == -1,
        lex_order(a + b, a) == 1,
    decreases a.len(),
{
    if a.len() > 0 {
        assert((a + b).drop_first() =~= a.drop_first() + b);
        assert((a + b)[0] == a[0]);
        lemma_prefix_comes_first(a.drop_first(), b);
    }
}

/// After a common beginning, the first differing character decides, by code
/// point, whatever follows.
pub proof fn lemma_first_difference_decides(p: Seq<char>, x: char, y: char, s: Seq<char>, t: Seq<char>)
    requires
        x < y,
    ensures
        lex_order(p + seq![x] + s, p + seq![y] + t) == -1,
        lex_order(p + seq![y] + t, p + seq![x] + s) == 1,
    decreases p.len(),
{
    let a = p + seq![x] + s;
    let b = p + seq![y] + t;
    if p.len() == 0 {
        assert(a[0] == x && b[0] == y);
    } else {
        assert(a[0] == p[0] && b[0] == p[0]);
        assert(a.drop_first() =~= p.drop_first() + seq![x] + s);
        assert(b.drop_first() =~= p.drop_first() + seq![y] + t);
        lemma_first_difference_decides(p.drop_first(), x, y, s, t);
    }
}

/// The order of texts is transitive, strictly so when one step is strict.
pub proof fn lemma_lex_order_transitive(a: Seq<char>, b: Seq<char>, c: Seq<char>)
    requires
        lex_order(a, b) <= 0,
        lex_order(b, c) <= 0,
    ensures
        lex_order(a, c) <= 0,
        lex_order(a, b) < 0 || lex_order(b, c) < 0 ==> lex_order(a, c) < 0,
    decreases a.len(),
{
    if a.len() > 0 && b.len() > 0 && c.len() > 0 && a[0] == b[0] && b[0] == c[0] {
        lemma_lex_order_transitive(a.drop_first(), b.drop_first(), c.drop_first());
    }
}

/// The order of the list: by lowercase name, then by exact name, then by
/// username. -1, 0 or 1.
pub open spec fn entry_order(a: Entry, b: Entry) -> int {
    let by_lower = lex_order(lower(a.name@), lower(b.name@));
    let by_name = lex_order(a.name@, b.name@);
    if by_lower != 0 {
        by_lower
    } else if by_name != 0 {
        by_name
    } else {
        lex_order(a.username@, b.username@)
    }
}

/// Swapping two entries reverses their order in the list.
pub proof fn lemma_entry_order_antisymmetric(a: Entry, b: Entry)
    ensures
        entry_order(a, b) == -entry_order(b, a),
{
    lemma_lex_order_antisymmetric(lower(a.name@), lower(b.name@));
    lemma_lex_order_antisymmetric(a.name@, b.name@);
    lemma_lex_order_antisymmetric(a.username@, b.username@);
}

/// The order of the list is transitive, strictly so when one step is strict.
pub proof fn lemma_entry_order_transitive(a: Entry, b: Entry, c: Entry)
    requires
        entry_order(a, b) <= 0,
        entry_order(b, c) <= 0,
    ensures
        entry_order(a, c) <= 0,
        entry_order(a, b) < 0 || entry_order(b, c) < 0 ==> entry_order(a, c) < 0,
{
    let (la, lb, lc) = (lower(a.name@), lower(b.name@), lower(c.name@));
    lemma_lex_order_antisymmetric(la, lb);
    lemma_lex_order_antisymmetric(lb, lc);
    lemma_lex_order_antisymmetric(a.name@, b.name@);
    lemma_lex_order_antisymmetric(b.name@, c.name@);
    lemma_lex_order_antisymmetric(a.username@, b.username@);
    lemma_lex_order_antisymmetric(b.username@, c.username@);
    lemma_lex_order_equal(la, lb);
    lemma_lex_order_equal(lb, lc);
    lemma_lex_order_equal(a.name@, b.name@);
    lemma_lex_order_equal(b.name@, c.name@);
    lemma_lex_order_transitive(la, lb, lc);
    if lex_order(la, lb) == 0 && lex_order(lb, lc) == 0 {
        lemma_lex_order_transitive(a.name@, b.name@, c.name@);
        if lex_order(a.name@, b.name@) == 0 && lex_order(b.name@, c.name@) == 0 {
            lemma_lex_order_transitive(a.username@, b.username@, c.username@);
        }
    }
}

/// An entry whose lowercase name is a proper beginning of another's comes
/// first in the list: "Google" before "Google Drive", "posta" before "Posta
/// certificata".
pub proof fn lemma_name_prefix_sorts_first(a: Entry, b: Entry, rest: Seq<char>)
    requires
        rest.len() > 0,
        lower(b.name@) == lower(a.name@) + rest,
    ensures
        entry_order(a, b) == -1,
        entry_order(b, a) == 1,
{
    lemma_prefix_comes_first(lower(a.name@), rest);
}

/// Row `i` comes before row `j` in the list: ties keep the order of the vault.
pub open spec fn row_before(entries: Seq<Entry>, i: int, j: int) -> bool {
    entry_order(entries[i], entries[j]) < 0 || (entry_order(entries[i], entries[j]) == 0 && i < j)
}

/// `rows` lists, in the order of the list, exactly the entries that the query finds.
pub open spec fn is_listing(rows: Seq<usize>, query: Seq<char>, entries: Seq<Entry>) -> bool {
    &&& forall|p: int| 0 <= p < rows.len() ==> rows[p] < entries.len() && entry_matches(query, entries[rows[p] as int])
    &&& forall|i: int| 0 <= i < entries.len() && entry_matches(query, entries[i]) ==> rows.contains(i as usize)
    &&& forall|p: int, q: int| 0 <= p < q < rows.len() ==> row_before(entries, rows[p] as int, rows[q] as int)
}

/// `lex_order` of two character slices.
fn compare_chars(a: &[char], b: &[char]) -> (r: i8)
    ensures
        r == lex_order(a@, b@),
{
    let mut i: usize = 0;
    assert(a@.skip(0) =~= a@ && b@.skip(0) =~= b@);
    while i < a.len() && i < b.len()
        invariant
            i <= a@.len(),
            i <= b@.len(),
            lex_order(a@, b@) == lex_order(a@.skip(i as int), b@.skip(i as int)),
        decreases a@.len() - i,
    {
        let ghost (sa, sb) = (a@.skip(i as int), b@.skip(i as int));
        assert(sa[0] == a@[i as int] && sb[0] == b@[i as int]);
        if a[i] < b[i] {
            return -1;
        }
        if a[i] > b[i] {
            return 1;
        }
        assert(sa.drop_first() =~= a@.skip(i + 1));
        assert(sb.drop_first() =~= b@.skip(i + 1));
        i = i + 1;
    }
    if i < a.len() {
        1
    } else if i < b.len() {
        -1
    } else {
        0
    }
}

/// What the list orders an entry by: lowercase name, name, username.
pub(crate) struct SortKey {
    lower_name: Vec<char>,
    name: Vec<char>,
    username: Vec<char>,
}

impl SortKey {
    pub(crate) closed spec fn of(self, e: Entry) -> bool {
        &&& self.lower_name@ == lower(e.name@)
        &&& self.name@ == e.name@
        &&& self.username@ == e.username@
    }

    pub(crate) fn new(e: &Entry) -> (k: SortKey)
        ensures
            k.of(*e),
    {
        let name = chars_of(e.name.as_str());
        let lower_name = lowercase(name.as_slice());
        SortKey { lower_name, name, username: chars_of(e.username.as_str()) }
    }

    pub(crate) fn compare(&self, other: &SortKey) -> (r: i8)
        ensures
            forall|a: Entry, b: Entry| self.of(a) && other.of(b) ==> r == entry_order(a, b),
    {
        let by_lower = compare_chars(self.lower_name.as_slice(), other.lower_name.as_slice());
        if by_lower != 0 {
            return by_lower;
        }
        let by_name = compare_chars(self.name.as_slice(), other.name.as_slice());
        if by_name != 0 {
            return by_name;
        }
        compare_chars(self.username.as_slice(), other.username.as_slice())
    }
}

/// Alphabetical regardless of case; on a tie, exact order of names, then of usernames.
pub fn alphabetical(a: &Entry, b: &Entry) -> (r: Ordering)
    ensures
        (r == Ordering::Less) == (entry_order(*a, *b) < 0),
        (r == Ordering::Equal) == (entry_order(*a, *b) == 0),
        (r == Ordering::Greater) == (entry_order(*a, *b) > 0),
{
    let c = SortKey::new(a).compare(&SortKey::new(b));
    proof {
        lemma_lex_order_antisymmetric(lower(a.name@), lower(b.name@));
        lemma_lex_order_antisymmetric(a.name@, b.name@);
        lemma_lex_order_antisymmetric(a.username@, b.username@);
    }
    if c < 0 {
        Ordering::Less
    } else if c > 0 {
        Ordering::Greater
    } else {
        Ordering::Equal
    }
}

/// The rows of the list for this query: the entries it finds, in
/// alphabetical order, ties in the order of the vault.
pub fn listing(query: &str, entries: &[Entry]) -> (rows: Vec<usize>)
    ensures
        is_listing(rows@, query@, entries@),
{
    let mut keys: Vec<SortKey> = Vec::new();
    let mut rows: Vec<usize> = Vec::new();
    let mut i: usize = 0;
    while i < entries.len()
        invariant
            i <= entries@.len(),
            keys@.len() == i,
            forall|m: int| 0 <= m < i ==> (#[trigger] keys@[m]).of(entries@[m]),
            forall|p: int| 0 <= p < rows@.len() ==> rows@[p] < i && entry_matches(query@, entries@[rows@[p] as int]),
            forall|m: int| 0 <= m < i && entry_matches(query@, entries@[m]) ==> rows@.contains(m as usize),
            forall|p: int, q: int| 0 <= p < q < rows@.len() ==> row_before(entries@, rows@[p] as int, rows@[q] as int),
        decreases entries@.len() - i,
    {
        let key = SortKey::new(&entries[i]);
        if matches(query, &entries[i]) {
            // First row that the new entry comes before.
            let mut at: usize = 0;
            while at < rows.len()
                invariant
                    at <= rows@.len(),
                    i < entries@.len(),
                    keys@.len() == i,
                    key.of(entries@[i as int]),
                    forall|m: int| 0 <= m < i ==> (#[trigger] keys@[m]).of(entries@[m]),
                    forall|p: int| 0 <= p < rows@.len() ==> rows@[p] < i,
                    forall|p: int| 0 <= p < at ==> entry_order(entries@[i as int], entries@[#[trigger] rows@[p] as int]) >= 0,
                ensures
                    at <= rows@.len(),
                    forall|p: int| 0 <= p < at ==> entry_order(entries@[i as int], entries@[#[trigger] rows@[p] as int]) >= 0,
                    at < rows@.len() ==> entry_order(entries@[i as int], entries@[rows@[at as int] as int]) < 0,
                decreases rows@.len() - at,
            {
                let other = rows[at];
                let c = key.compare(&keys[other]);
                assert(keys@[other as int].of(entries@[other as int]));
                if c < 0 {
                    break;
                }
                at = at + 1;
            }
            let ghost before = rows@;
            proof {
                assert forall|q: int| at <= q < before.len() implies entry_order(entries@[i as int], entries@[#[trigger] before[q] as int]) < 0 by {
                    if q > at {
                        assert(row_before(entries@, before[at as int] as int, before[q] as int));
                        lemma_entry_order_transitive(entries@[i as int], entries@[before[at as int] as int], entries@[before[q] as int]);
                    }
                }
                assert forall|p: int| 0 <= p < at implies entry_order(entries@[#[trigger] before[p] as int], entries@[i as int]) <= 0 by {
                    lemma_entry_order_antisymmetric(entries@[i as int], entries@[before[p] as int]);
                }
            }
            rows.insert(at, i);
            proof {
                assert(rows@ == before.insert(at as int, i));
                assert forall|p: int, q: int| 0 <= p < q < rows@.len() implies row_before(entries@, rows@[p] as int, rows@[q] as int) by {
                    if q < at {
                        assert(rows@[p] == before[p] && rows@[q] == before[q]);
                    } else if q == at {
                        assert(rows@[p] == before[p]);
                    } else if p < at {
                        assert(rows@[p] == before[p] && rows@[q] == before[q - 1]);
                    } else if p == at {
                        assert(rows@[q] == before[q - 1]);
                    } else {
                        assert(rows@[p] == before[p - 1] && rows@[q] == before[q - 1]);
                    }
                }
                assert forall|m: int| 0 <= m < i + 1 && entry_matches(query@, entries@[m]) implies rows@.contains(m as usize) by {
                    if m < i {
                        let p = choose|p: int| 0 <= p < before.len() && before[p] == m as usize;
                        if p < at {
                            assert(rows@[p] == m as usize);
                        } else {
                            assert(rows@[p + 1] == m as usize);
                        }
                    } else {
                        assert(rows@[at as int] == i);
                    }
                }
                assert forall|p: int| 0 <= p < rows@.len() implies rows@[p] < i + 1 && entry_matches(query@, entries@[rows@[p] as int]) by {
                    if p < at {
                        assert(rows@[p] == before[p]);
                    } else if p > at {
                        assert(rows@[p] == before[p - 1]);
                    }
                }
            }
        }
        keys.push(key);
        i = i + 1;
    }
    rows
}


/// The empty query, or one of blanks only, finds every entry.
pub proof fn lemma_blank_query_finds_everything(query: Seq<char>, e: Entry)
    requires
        words(query).len() == 0,
    ensures
        entry_matches(query, e),
{
}

/// Notes and password are never searched: two entries that differ only
/// there are found by the same queries.
pub proof fn lemma_search_ignores_notes_and_password(query: Seq<char>, a: Entry, b: Entry)
    requires
        a.name@ == b.name@,
        a.username@ == b.username@,
        a.url is Some <==> b.url is Some,
        a.url is Some ==> a.url->0@ == b.url->0@,
    ensures
        entry_matches(query, a) == entry_matches(query, b),
{
}

/// The order of the list is total: of two different rows, exactly one comes first.
pub proof fn lemma_rows_are_ordered(entries: Seq<Entry>, i: int, j: int)
    requires
        0 <= i < entries.len(),
        0 <= j < entries.len(),
        i != j,
    ensures
        row_before(entries, i, j) != row_before(entries, j, i),
{
    lemma_entry_order_antisymmetric(entries[i], entries[j]);
}

} // verus!
