//! The rules of the command line: the password generator and what each
//! command decides about the entries. Prompts, files and output are the
//! caller's.

use vstd::prelude::*;

use crate::search::{entry_order, lemma_entry_order_antisymmetric, lemma_entry_order_transitive, row_before, SortKey};
use crate::key::random_array;
use crate::text::{chars_of, push_char, push_str};
use crate::unlock::string_with_capacity;
use crate::vault::{Entry, VaultData};

verus! {

/// A class of characters for generated passwords.
#[derive(Clone, Copy, Debug, PartialEq, Eq, Structural)]
pub enum Charset {
    Lower,
    Upper,
    Digits,
    Symbols,
}

/// Every class, in the order the help shows them.
pub const ALL_CHARSETS: [Charset; 4] = [Charset::Lower, Charset::Upper, Charset::Digits, Charset::Symbols];

/// The characters of a class.
pub open spec fn charset_text(c: Charset) -> Seq<char> {
    match c {
        Charset::Lower => "abcdefghijklmnopqrstuvwxyz"@,
        Charset::Upper => "ABCDEFGHIJKLMNOPQRSTUVWXYZ"@,
        Charset::Digits => "0123456789"@,
        Charset::Symbols => "!#$%&()*+,-./:;<=>?@[]^_{|}~"@,
    }
}

/// Whether the byte `b` is a character of class `c`.
pub open spec fn in_charset(c: Charset, b: u8) -> bool {
    match c {
        Charset::Lower => 97 <= b <= 122,
        Charset::Upper => 65 <= b <= 90,
        Charset::Digits => 48 <= b <= 57,
        Charset::Symbols => b == 33 || (35 <= b <= 38) || (40 <= b <= 47) || (58 <= b <= 64) || b == 91 || b == 93
            || b == 94 || b == 95 || (123 <= b <= 126),
    }
}

/// The bytes to draw from for these classes.
pub open spec fn in_alphabet(charsets: Seq<Charset>, b: u8) -> bool {
    exists|i: int| 0 <= i < charsets.len() && in_charset(#[trigger] charsets[i], b)
}

impl Charset {
    /// Every class.
    pub fn all() -> (r: [Charset; 4])
        ensures
            r@ == seq![Charset::Lower, Charset::Upper, Charset::Digits, Charset::Symbols],
    {
        let r = [Charset::Lower, Charset::Upper, Charset::Digits, Charset::Symbols];
        assert(r@ =~= seq![Charset::Lower, Charset::Upper, Charset::Digits, Charset::Symbols]);
        r
    }

    /// The characters of the class.
    pub fn chars(self) -> (r: &'static str)
        ensures
            r@ == charset_text(self),
    {
        match self {
            Charset::Lower => "abcdefghijklmnopqrstuvwxyz",
            Charset::Upper => "ABCDEFGHIJKLMNOPQRSTUVWXYZ",
            Charset::Digits => "0123456789",
            Charset::Symbols => "!#$%&()*+,-./:;<=>?@[]^_{|}~",
        }
    }

    /// Whether `b` is a character of the class.
    pub fn has(self, b: u8) -> (r: bool)
        ensures
            r == in_charset(self, b),
    {
        match self {
            Charset::Lower => 97 <= b && b <= 122,
            Charset::Upper => 65 <= b && b <= 90,
            Charset::Digits => 48 <= b && b <= 57,
            Charset::Symbols => b == 33 || (35 <= b && b <= 38) || (40 <= b && b <= 47) || (58 <= b && b <= 64)
                || b == 91 || b == 93 || b == 94 || b == 95 || (123 <= b && b <= 126),
        }
    }
}

/// The union of the classes: every byte once, in increasing order.
pub fn alphabet(charsets: &[Charset]) -> (r: Vec<u8>)
    ensures
        forall|p: int, q: int| 0 <= p < q < r@.len() ==> r@[p] < r@[q],
        forall|b: u8| r@.contains(b) <==> in_alphabet(charsets@, b),
{
    let mut out: Vec<u8> = Vec::new();
    let mut b: u8 = 0;
    while b < 128
        invariant
            b <= 128,
            forall|p: int, q: int| 0 <= p < q < out@.len() ==> out@[p] < out@[q],
            forall|p: int| 0 <= p < out@.len() ==> out@[p] < b,
            forall|x: u8| x < b ==> (out@.contains(x) <==> in_alphabet(charsets@, x)),
            forall|x: u8| x >= b ==> !out@.contains(x),
        decreases 128 - b,
    {
        let mut found = false;
        let mut i: usize = 0;
        while i < charsets.len()
            invariant
                i <= charsets@.len(),
                found == exists|j: int| 0 <= j < i && in_charset(#[trigger] charsets@[j], b),
            decreases charsets@.len() - i,
        {
            if charsets[i].has(b) {
                found = true;
            }
            i = i + 1;
        }
        let ghost before = out@;
        if found {
            out.push(b);
            assert(in_alphabet(charsets@, b));
            assert forall|x: u8| x < b + 1 implies (out@.contains(x) <==> in_alphabet(charsets@, x)) by {
                if x == b {
                    assert(out@[out@.len() - 1] == b);
                } else {
                    if out@.contains(x) {
                        let k = choose|k: int| 0 <= k < out@.len() && out@[k] == x;
                        assert(before[k] == x);
                    }
                    if before.contains(x) {
                        let k = choose|k: int| 0 <= k < before.len() && before[k] == x;
                        assert(out@[k] == x);
                    }
                }
            }
            assert forall|x: u8| x >= b + 1 implies !out@.contains(x) by {
                if out@.contains(x) {
                    let k = choose|k: int| 0 <= k < out@.len() && out@[k] == x;
                    if k < before.len() {
                        assert(before[k] == x);
                    }
                }
            }
        } else {
            assert(!in_alphabet(charsets@, b));
        }
        b = b + 1;
    }
    out
}

/// The message of a generator that could not draw.
pub open spec fn rng_failed_message() -> Seq<char> {
    "the system's random generator failed"@
}

/// The number below 65536 that two random bytes make.
pub open spec fn draw_value(draw: Seq<u8>) -> int {
    draw[0] as int * 256 + draw[1] as int
}

/// The largest multiple of `n` up to 65536: draws at or above it are
/// rejected, so that every index below `n` is left with as many draws.
pub open spec fn draw_limit(n: int) -> int {
    65536int - 65536int % n
}

/// The index below `n` that a draw gives, or `None` for a rejected draw.
pub open spec fn index_of_draw(draw: Seq<u8>, n: int) -> Option<int> {
    if draw_value(draw) < draw_limit(n) {
        Some(draw_value(draw) % n)
    } else {
        None
    }
}

/// Every index below `n` is given by exactly the draws `q * n + k` with `q`
/// below `draw_limit(n) / n`: as many draws for each index, so that a draw of
/// uniform bytes gives a uniform index once the rejected ones are drawn again.
pub proof fn lemma_every_index_has_as_many_draws(n: int, v: int, k: int)
    requires
        0 < n <= 256,
        0 <= v < 65536,
        0 <= k < n,
    ensures
        draw_limit(n) == n * (65536int / n),
        (v < draw_limit(n) && v % n == k) <==> (exists|q: int| 0 <= q < 65536int / n && v == #[trigger] (q * n) + k),
{
    let m = 65536int / n;
    vstd::arithmetic::div_mod::lemma_fundamental_div_mod(65536int, n);
    vstd::arithmetic::div_mod::lemma_fundamental_div_mod(v, n);
    assert(draw_limit(n) == n * m);
    if v < draw_limit(n) && v % n == k {
        let q = v / n;
        assert(q * n == n * q) by (nonlinear_arith);
        assert(v == q * n + k);
        assert(0 <= q < m) by (nonlinear_arith)
            requires
                v == q * n + k,
                0 <= k < n,
                0 <= v < n * m,
                0 < n,
        ;
    }
    if exists|q: int| 0 <= q < 65536int / n && v == #[trigger] (q * n) + k {
        let q = choose|q: int| 0 <= q < 65536int / n && v == #[trigger] (q * n) + k;
        assert(q * n == n * q) by (nonlinear_arith);
        vstd::arithmetic::div_mod::lemma_mod_multiples_vanish(q, k, n);
        vstd::arithmetic::div_mod::lemma_small_mod(k as nat, n as nat);
        assert(v % n == k);
        assert(v < n * m) by (nonlinear_arith)
            requires
                v == q * n + k,
                0 <= k < n,
                0 <= q < m,
                0 < n,
        ;
    }
}

/// The byte of `alphabet` that two random bytes pick, or `None` for a
/// rejected draw, to be drawn again.
pub fn pick_from_draw(alphabet: &[u8], draw: [u8; 2]) -> (r: Option<u8>)
    requires
        0 < alphabet@.len() <= 256,
    ensures
        match index_of_draw(draw@, alphabet@.len() as int) {
            Some(k) => r == Some(alphabet@[k]),
            None => r is None,
        },
{
    let n = alphabet.len() as u32;
    let limit: u32 = 65536 - 65536 % n;
    let value: u32 = draw[0] as u32 * 256 + draw[1] as u32;
    if value < limit {
        Some(alphabet[(value % n) as usize])
    } else {
        None
    }
}

/// Attempts at drawing one byte before giving up. An attempt is rejected
/// with probability below 1/512, so giving up never happens in practice.
const DRAW_ATTEMPTS: u32 = 32;

/// A byte of `alphabet` drawn uniformly from the operating system's
/// generator, two random bytes at a time (see [`pick_from_draw`]). `None`
/// when the generator fails, or when every attempt was rejected.
fn draw_byte(alphabet: &[u8]) -> (r: Option<u8>)
    requires
        0 < alphabet@.len() <= 256,
    ensures
        r matches Some(b) ==> alphabet@.contains(b),
{
    let mut attempt: u32 = 0;
    while attempt < DRAW_ATTEMPTS
        invariant
            0 < alphabet@.len() <= 256,
        decreases DRAW_ATTEMPTS - attempt,
    {
        let draw: [u8; 2] = match random_array() {
            Ok(b) => b,
            Err(_) => return None,
        };
        match pick_from_draw(alphabet, draw) {
            Some(b) => {
                let ghost k = index_of_draw(draw@, alphabet@.len() as int)->0;
                assert(alphabet@[k] == b);
                return Some(b);
            },
            None => {},
        }
        attempt = attempt + 1;
    }
    None
}

/// A password of `length` characters drawn uniformly and independently from
/// the union of the classes. Fails when there is a character to draw and
/// nothing to draw it from, and when the system's generator fails.
pub fn generate(length: u16, charsets: &[Charset]) -> (r: Result<String, &'static str>)
    ensures
        (length > 0 && forall|b: u8| !#[trigger] in_alphabet(charsets@, b))
            ==> (r matches Err(m) && m@ == "empty character set"@),
        length == 0 ==> r is Ok,
        r matches Err(m) ==> length > 0 && if exists|b: u8| #[trigger] in_alphabet(charsets@, b) {
            m@ == rng_failed_message()
        } else {
            m@ == "empty character set"@
        },
        r matches Ok(s) ==> s@.len() == length && forall|k: int| 0 <= k < s@.len() ==> {
            let c = #[trigger] s@[k];
            0 <= c as int <= 127 && in_alphabet(charsets@, c as u8)
        },
{
    let alphabet = alphabet(charsets);
    if length > 0 && alphabet.len() == 0 {
        assert forall|b: u8| !#[trigger] in_alphabet(charsets@, b) by {
            if in_alphabet(charsets@, b) {
                assert(alphabet@.contains(b));
            }
        }
        return Err("empty character set");
    }
    proof {
        // Every byte of the alphabet is below 128 and they are strictly increasing.
        assert forall|p: int| 0 <= p < alphabet@.len() implies alphabet@[p] < 128 by {
            assert(alphabet@.contains(alphabet@[p]));
            let j = choose|j: int| 0 <= j < charsets@.len() && in_charset(charsets@[j], alphabet@[p]);
        }
        if alphabet@.len() > 128 {
            lemma_increasing_below(alphabet@, 127);
        }
    }
    let mut out = string_with_capacity(length as usize);
    let mut i: u16 = 0;
    while i < length
        invariant
            i <= length,
            out@.len() == i,
            length > 0 ==> 0 < alphabet@.len() <= 128,
            forall|p: int| 0 <= p < alphabet@.len() ==> alphabet@[p] < 128,
            forall|b: u8| alphabet@.contains(b) <==> in_alphabet(charsets@, b),
            forall|k: int| 0 <= k < out@.len() ==> {
                let c = #[trigger] out@[k];
                0 <= c as int <= 127 && in_alphabet(charsets@, c as u8)
            },
        decreases length - i,
    {
        let byte = match draw_byte(alphabet.as_slice()) {
            Some(b) => b,
            None => {
                assert(in_alphabet(charsets@, alphabet@[0]) && alphabet@.contains(alphabet@[0]));
                return Err("the system's random generator failed");
            },
        };
        let c = byte as char;
        push_char(&mut out, c);
        i = i + 1;
    }
    if length > 0 {
        assert(alphabet@.contains(alphabet@[0]));
    }
    Ok(out)
}

/// A strictly increasing sequence of bytes whose elements are at most `top`
/// has at most `top + 1` of them.
proof fn lemma_increasing_below(s: Seq<u8>, top: int)
    requires
        0 <= top,
        forall|p: int, q: int| 0 <= p < q < s.len() ==> s[p] < s[q],
        forall|p: int| 0 <= p < s.len() ==> s[p] <= top,
    ensures
        s.len() <= top + 1,
    decreases s.len(),
{
    if s.len() > top + 1 {
        // The elements are at least their positions.
        assert forall|p: int| 0 <= p < s.len() implies s[p] >= p by {
            lemma_increasing_at_least(s, p);
        }
        assert(s[top + 1] >= top + 1);
    }
}

/// In a strictly increasing sequence of bytes, the element at `p` is at least `p`.
proof fn lemma_increasing_at_least(s: Seq<u8>, p: int)
    requires
        0 <= p < s.len(),
        forall|a: int, b: int| 0 <= a < b < s.len() ==> s[a] < s[b],
    ensures
        s[p] >= p,
    decreases p,
{
    if p > 0 {
        lemma_increasing_at_least(s, p - 1);
    }
}


/// The first entry with this name.
pub open spec fn first_named(entries: Seq<Entry>, name: Seq<char>) -> Option<usize> {
    if exists|i: int| 0 <= i < entries.len() && #[trigger] entries[i].name@ == name {
        let i = choose|i: int| 0 <= i < entries.len() && #[trigger] entries[i].name@ == name
            && forall|j: int| 0 <= j < i ==> entries[j].name@ != name;
        Some(i as usize)
    } else {
        None
    }
}

/// The position of the first entry named `name`.
pub fn position(entries: &[Entry], name: &str) -> (r: Option<usize>)
    ensures
        match r {
            Some(i) => i < entries@.len() && entries@[i as int].name@ == name@
                && forall|j: int| 0 <= j < i ==> #[trigger] entries@[j].name@ != name@,
            None => forall|j: int| 0 <= j < entries@.len() ==> #[trigger] entries@[j].name@ != name@,
        },
{
    let target = name.to_owned();
    let mut i: usize = 0;
    while i < entries.len()
        invariant
            i <= entries@.len(),
            target@ == name@,
            forall|j: int| 0 <= j < i ==> #[trigger] entries@[j].name@ != name@,
        decreases entries@.len() - i,
    {
        if entries[i].name == target {
            return Some(i);
        }
        i = i + 1;
    }
    None
}

/// The message for an entry that is not there.
pub open spec fn missing_message(name: Seq<char>) -> Seq<char> {
    "no entry named '"@ + name + "'"@
}

/// The message for a name that is taken.
pub open spec fn taken_message(name: Seq<char>) -> Seq<char> {
    "entry '"@ + name + "' already exists"@
}

fn quoted(head: &str, name: &str, tail: &str) -> (r: String)
    ensures
        r@ == head@ + name@ + tail@,
{
    let mut s = head.to_owned();
    push_str(&mut s, name);
    push_str(&mut s, tail);
    s
}

/// `add`: the new entry's name must not be taken.
pub fn name_free(data: &VaultData, name: &str) -> (r: Result<(), String>)
    ensures
        r is Ok <==> forall|j: int| 0 <= j < data.entries@.len() ==> #[trigger] data.entries@[j].name@ != name@,
        r matches Err(m) ==> m@ == taken_message(name@),
{
    match position(data.entries.as_slice(), name) {
        Some(_) => Err(quoted("entry '", name, "' already exists")),
        None => Ok(()),
    }
}

/// `get`: the entry named `name`.
pub fn find_entry<'a>(data: &'a VaultData, name: &str) -> (r: Result<&'a Entry, String>)
    ensures
        match r {
            Ok(e) => exists|i: int| 0 <= i < data.entries@.len() && data.entries@[i] == *e
                && e.name@ == name@ && forall|j: int| 0 <= j < i ==> #[trigger] data.entries@[j].name@ != name@,
            Err(m) => m@ == missing_message(name@)
                && forall|j: int| 0 <= j < data.entries@.len() ==> #[trigger] data.entries@[j].name@ != name@,
        },
{
    match position(data.entries.as_slice(), name) {
        Some(i) => Ok(&data.entries[i]),
        None => Err(quoted("no entry named '", name, "'")),
    }
}

/// `rm`: removes the first entry named `name`.
pub fn remove_entry(data: &mut VaultData, name: &str) -> (r: Result<(), String>)
    ensures
        final(data).version == old(data).version,
        match r {
            Ok(()) => exists|i: int| 0 <= i < old(data).entries@.len() && old(data).entries@[i].name@ == name@
                && (forall|j: int| 0 <= j < i ==> #[trigger] old(data).entries@[j].name@ != name@)
                && final(data).entries@ == old(data).entries@.remove(i),
            Err(m) => m@ == missing_message(name@) && final(data).entries@ == old(data).entries@
                && forall|j: int| 0 <= j < old(data).entries@.len() ==> #[trigger] old(data).entries@[j].name@ != name@,
        },
{
    match position(data.entries.as_slice(), name) {
        Some(i) => {
            // The removed entry is overwritten when it is dropped.
            let _removed = data.entries.remove(i);
            Ok(())
        },
        None => Err(quoted("no entry named '", name, "'")),
    }
}

/// `passwd` and `init`: a new master password must not be empty.
pub fn check_not_empty(password: &str) -> (r: Result<(), &'static str>)
    ensures
        r is Ok <==> password@.len() > 0,
        r matches Err(m) ==> m@ == "password must not be empty"@,
{
    if password.is_empty() {
        Err("password must not be empty")
    } else {
        Ok(())
    }
}

/// The confirmation must repeat the new master password.
pub fn check_confirmed(password: &str, confirm: &str) -> (r: Result<(), &'static str>)
    ensures
        r is Ok <==> password@ == confirm@,
        r matches Err(m) ==> m@ == "passwords do not match"@,
{
    if password.to_owned() == confirm.to_owned() {
        Ok(())
    } else {
        Err("passwords do not match")
    }
}

/// `list`: every entry once, in the order of the window's list
/// (alphabetical regardless of case, then by exact name, then by username);
/// entries that compare equal keep the order of the vault.
pub fn by_name(entries: &[Entry]) -> (rows: Vec<usize>)
    ensures
        rows@.len() == entries@.len(),
        forall|i: usize| i < entries@.len() ==> #[trigger] rows@.contains(i),
        forall|p: int| 0 <= p < rows@.len() ==> rows@[p] < entries@.len(),
        forall|p: int, q: int| 0 <= p < q < rows@.len() ==> row_before(entries@, rows@[p] as int, rows@[q] as int),
{
    let mut keys: Vec<SortKey> = Vec::new();
    let mut rows: Vec<usize> = Vec::new();
    let mut i: usize = 0;
    while i < entries.len()
        invariant
            i <= entries@.len(),
            keys@.len() == i,
            rows@.len() == i,
            forall|m: int| 0 <= m < i ==> (#[trigger] keys@[m]).of(entries@[m]),
            forall|m: usize| m < i ==> #[trigger] rows@.contains(m),
            forall|p: int| 0 <= p < rows@.len() ==> rows@[p] < i,
            forall|p: int, q: int| 0 <= p < q < rows@.len() ==> row_before(entries@, rows@[p] as int, rows@[q] as int),
        decreases entries@.len() - i,
    {
        let key = SortKey::new(&entries[i]);
        let mut at: usize = 0;
        while at < rows.len()
            invariant
                at <= rows@.len(),
                i < entries@.len(),
                keys@.len() == i,
                key.of(entries@[i as int]),
                forall|m: int| 0 <= m < i ==> (#[trigger] keys@[m]).of(entries@[m]),
                forall|p: int| 0 <= p < rows@.len() ==> rows@[p] < i,
                forall|p: int| 0 <= p < at ==> entry_order(entries@[i as int], entries@[#[trigger] rows@[p] as int]) >= 0,
            ensures
                at <= rows@.len(),
                forall|p: int| 0 <= p < at ==> entry_order(entries@[i as int], entries@[#[trigger] rows@[p] as int]) >= 0,
                at < rows@.len() ==> entry_order(entries@[i as int], entries@[rows@[at as int] as int]) < 0,
            decreases rows@.len() - at,
        {
            let other = rows[at];
            assert(keys@[other as int].of(entries@[other as int]));
            if key.compare(&keys[other]) < 0 {
                break;
            }
            at = at + 1;
        }
        let ghost before = rows@;
        proof {
            assert forall|q: int| at <= q < before.len() implies entry_order(entries@[i as int], entries@[#[trigger] before[q] as int]) < 0 by {
                if q > at {
                    assert(row_before(entries@, before[at as int] as int, before[q] as int));
                    lemma_entry_order_transitive(entries@[i as int], entries@[before[at as int] as int], entries@[before[q] as int]);
                }
            }
            assert forall|p: int| 0 <= p < at implies entry_order(entries@[#[trigger] before[p] as int], entries@[i as int]) <= 0 by {
                lemma_entry_order_antisymmetric(entries@[i as int], entries@[before[p] as int]);
            }
        }
        rows.insert(at, i);
        proof {
            assert forall|p: int, q: int| 0 <= p < q < rows@.len() implies row_before(entries@, rows@[p] as int, rows@[q] as int) by {
                if q < at {
                    assert(rows@[p] == before[p] && rows@[q] == before[q]);
                } else if q == at {
                    assert(rows@[p] == before[p]);
                } else if p < at {
                    assert(rows@[p] == before[p] && rows@[q] == before[q - 1]);
                } else if p == at {
                    assert(rows@[q] == before[q - 1]);
                } else {
                    assert(rows@[p] == before[p - 1] && rows@[q] == before[q - 1]);
                }
            }
            assert forall|m: usize| m < i + 1 implies #[trigger] rows@.contains(m) by {
                if m < i {
                    assert(before.contains(m));
                    let p = choose|p: int| 0 <= p < before.len() && before[p] == m;
                    if p < at {
                        assert(rows@[p] == m);
                    } else {
                        assert(rows@[p + 1] == m);
                    }
                } else {
                    assert(rows@[at as int] == i);
                }
            }
            assert forall|p: int| 0 <= p < rows@.len() implies rows@[p] < i + 1 by {
                if p < at {
                    assert(rows@[p] == before[p]);
                } else if p > at {
                    assert(rows@[p] == before[p - 1]);
                }
            }
        }
        keys.push(key);
        i = i + 1;
    }
    rows
}

} // verus!
