//! Channel names of the exchange's subscription feed, such as
//! `book.BTC-PERPETUAL.100ms`: kind, instrument and interval joined by dots.
//!
//! A `Channel` keeps the byte offsets of its two separating dots in its
//! UTF-8 text, as `str::len` counts.

use vstd::prelude::*;
use vstd::string::*;
use vstd::utf8::*;

use crate::error::{AppError, AppResult};
use crate::utf8_text::{
    lemma_boundary_around_ascii, lemma_boundary_in_suffix, lemma_encode_concat, lemma_encode_dot,
    lemma_encode_no_dot, lemma_ascii_len,
};

verus! {

/// The least index at or after `from` that holds `x`, if any.
#[verifier::opaque]
pub open spec fn first_from<A>(s: Seq<A>, x: A, from: int) -> Option<int> {
    if exists|i: int| from <= i < s.len() && s[i] == x {
        Some(
            choose|i: int|
                from <= i < s.len() && s[i] == x && forall|j: int| from <= j < i ==> s[j] != x,
        )
    } else {
        None
    }
}

/// `p` is the first index at or after `from` that holds `x`.
pub open spec fn is_first_from<A>(s: Seq<A>, x: A, from: int, p: int) -> bool {
    &&& from <= p < s.len()
    &&& s[p] == x
    &&& forall|j: int| from <= j < p ==> s[j] != x
}

/// The text holds no dot.
pub open spec fn no_dot(s: Seq<char>) -> bool {
    forall|j: int| 0 <= j < s.len() ==> s[j] != '.'
}

/// The first index at or after `from` holding `x` is what `first_from` names.
pub proof fn lemma_first_from_is<A>(s: Seq<A>, x: A, from: int, p: int)
    requires
        is_first_from(s, x, from, p),
    ensures
        first_from(s, x, from) == Some(p),
{
    reveal(first_from);
    assert(exists|i: int| from <= i < s.len() && s[i] == x);
    let c = choose|i: int|
        from <= i < s.len() && s[i] == x && forall|j: int| from <= j < i ==> s[j] != x;
    if c < p {
        assert(s[c] != x);
    }
    if p < c {
        assert(s[p] != x);
    }
}

/// No `x` at or after `from` means `first_from` names none.
pub proof fn lemma_first_from_none<A>(s: Seq<A>, x: A, from: int)
    requires
        forall|j: int| from <= j < s.len() ==> s[j] != x,
    ensures
        first_from(s, x, from) == None::<int>,
{
    reveal(first_from);
}

/// Where some index at or after `from` holds `x`, a first such index exists.
proof fn lemma_first_exists<A>(s: Seq<A>, x: A, from: int, i: int)
    requires
        from <= i < s.len(),
        s[i] == x,
    ensures
        exists|p: int| is_first_from(s, x, from, p),
    decreases i - from,
{
    if exists|j: int| from <= j < i && s[j] == x {
        let j = choose|j: int| from <= j < i && s[j] == x;
        lemma_first_exists(s, x, from, j);
    } else {
        assert(is_first_from(s, x, from, i));
    }
}

/// What `first_from` names: the first index holding `x`, or none when no
/// index at or after `from` holds it.
pub proof fn lemma_first_from_cases<A>(s: Seq<A>, x: A, from: int)
    ensures
        match first_from(s, x, from) {
            Some(p) => is_first_from(s, x, from, p),
            None => forall|j: int| from <= j < s.len() ==> s[j] != x,
        },
{
    if exists|i: int| from <= i < s.len() && s[i] == x {
        let i = choose|i: int| from <= i < s.len() && s[i] == x;
        lemma_first_exists(s, x, from, i);
        let p = choose|p: int| is_first_from(s, x, from, p);
        lemma_first_from_is(s, x, from, p);
    } else {
        lemma_first_from_none(s, x, from);
    }
}

/// The positions of the first two occurrences of `x`.
pub open spec fn first_two<A>(s: Seq<A>, x: A) -> (Option<int>, Option<int>) {
    match first_from(s, x, 0) {
        Some(a) => (Some(a), first_from(s, x, a + 1)),
        None => (None, None),
    }
}

/// The character positions of the first two dots of a text.
pub open spec fn two_dots(s: Seq<char>) -> (Option<int>, Option<int>) {
    first_two(s, '.')
}

/// The byte offsets of the first two dots (byte 46) of UTF-8 bytes.
pub open spec fn two_dot_bytes(b: Seq<u8>) -> (Option<int>, Option<int>) {
    first_two(b, 46u8)
}

/// Finds the first two dots of `s` (positions in characters).
pub fn find_dots(s: &str) -> (r: (Option<usize>, Option<usize>))
    ensures
        r.0 matches Some(a) ==> two_dots(s@).0 == Some(a as int),
        r.0 is None ==> two_dots(s@).0 is None,
        r.1 matches Some(b) ==> two_dots(s@).1 == Some(b as int),
        r.1 is None ==> two_dots(s@).1 is None,
        r.0 matches Some(a) ==> a < s@.len(),
        r.1 matches Some(b) ==> r.0 matches Some(a) && a < b < s@.len(),
        r.1 is Some ==> r.0 is Some,
{
    let n = s.unicode_len();
    let mut first: Option<usize> = None;
    let mut second: Option<usize> = None;
    let mut idx: usize = 0;
    for c in it: s.chars()
        invariant
            n == s@.len(),
            it.seq() == s@,
            idx == it.index(),
            idx <= n,
            first is None ==> forall|j: int| 0 <= j < idx ==> s@[j] != '.',
            first matches Some(a) ==> a < idx && is_first_from(s@, '.', 0, a as int),
            first matches Some(a) ==> (second is None ==> forall|j: int|
                a < j < idx ==> s@[j] != '.'),
            second matches Some(b) ==> first matches Some(a) && a < b < idx && is_first_from(
                s@,
                '.',
                a + 1,
                b as int,
            ),
    {
        if c == '.' {
            if first.is_none() {
                first = Some(idx);
            } else if second.is_none() {
                second = Some(idx);
            }
        }
        idx = idx + 1;
    }
    proof {
        match first {
            Some(a) => {
                lemma_first_from_is(s@, '.', 0, a as int);
                match second {
                    Some(b) => lemma_first_from_is(s@, '.', a + 1, b as int),
                    None => lemma_first_from_none(s@, '.', a + 1),
                }
            },
            None => lemma_first_from_none(s@, '.', 0),
        }
    }
    (first, second)
}

/// Finds the byte offsets of the first two dots of `s`.
pub fn find_dot_bytes(s: &str) -> (r: (Option<usize>, Option<usize>))
    ensures
        r.0 matches Some(a) ==> two_dot_bytes(s.spec_bytes()).0 == Some(a as int),
        r.0 is None ==> two_dot_bytes(s.spec_bytes()).0 is None,
        r.1 matches Some(b) ==> two_dot_bytes(s.spec_bytes()).1 == Some(b as int),
        r.1 is None ==> two_dot_bytes(s.spec_bytes()).1 is None,
        r.0 matches Some(a) ==> a < s.spec_bytes().len(),
        r.1 matches Some(b) ==> r.0 matches Some(a) && a < b < s.spec_bytes().len(),
        r.1 is Some ==> r.0 is Some,
        r.0 matches Some(a) ==> s.spec_bytes()[a as int] == 46u8,
        r.1 matches Some(b) ==> s.spec_bytes()[b as int] == 46u8,
{
    let bytes = s.as_bytes();
    let n = bytes.len();
    let mut first: Option<usize> = None;
    let mut second: Option<usize> = None;
    let mut idx: usize = 0;
    while idx < n
        invariant
            n == bytes@.len(),
            bytes@ == s.spec_bytes(),
            idx <= n,
            first is None ==> forall|j: int| 0 <= j < idx ==> bytes@[j] != 46u8,
            first matches Some(a) ==> a < idx && is_first_from(bytes@, 46u8, 0, a as int),
            first matches Some(a) ==> (second is None ==> forall|j: int|
                a < j < idx ==> bytes@[j] != 46u8),
            second matches Some(b) ==> first matches Some(a) && a < b < idx && is_first_from(
                bytes@,
                46u8,
                a + 1,
                b as int,
            ),
        decreases n - idx,
    {
        if bytes[idx] == 46u8 {
            if first.is_none() {
                first = Some(idx);
            } else if second.is_none() {
                second = Some(idx);
            }
        }
        idx = idx + 1;
    }
    proof {
        match first {
            Some(a) => {
                lemma_first_from_is(bytes@, 46u8, 0, a as int);
                match second {
                    Some(b) => lemma_first_from_is(bytes@, 46u8, a + 1, b as int),
                    None => lemma_first_from_none(bytes@, 46u8, a + 1),
                }
            },
            None => lemma_first_from_none(bytes@, 46u8, 0),
        }
    }
    (first, second)
}

/// A channel name with the byte offsets of its two separating dots.
#[derive(Debug, Clone)]
pub struct Channel {
    /// The whole name, e.g. `book.BTC-PERPETUAL.100ms`.
    pub full: String,
    /// Byte offset of the first dot.
    pub kind_end: usize,
    /// Byte offset of the second dot.
    pub instrument_end: usize,
}

/// `kind.instrument.interval`.
pub open spec fn joined(kind: Seq<char>, instrument: Seq<char>, interval: Seq<char>) -> Seq<char> {
    kind + seq!['.'] + instrument + seq!['.'] + interval
}

/// Joins three parts with dots.
pub fn join_with_dots(kind: &str, instrument: &str, interval: &str) -> (r: String)
    ensures
        r@ == joined(kind@, instrument@, interval@),
{
    let mut full = kind.to_owned();
    full.append(".");
    full.append(instrument);
    full.append(".");
    full.append(interval);
    proof {
        reveal_strlit(".");
        assert(full@ =~= joined(kind@, instrument@, interval@));
    }
    full
}

/// The error for a text that is not a channel name.
pub open spec fn invalid_channel_message(s: Seq<char>) -> Seq<char> {
    "Invalid channel: "@ + s
}

/// The UTF-8 bytes of a channel's name.
pub open spec fn name_bytes(c: Channel) -> Seq<u8> {
    encode_utf8(c.full@)
}

/// The channel's offsets name two dot bytes, and the text can be cut just
/// before and just after each: all three parts can be read.
pub open spec fn separators_ok(c: Channel) -> bool {
    let b = name_bytes(c);
    &&& c.kind_end < c.instrument_end < b.len()
    &&& b[c.kind_end as int] == 46u8
    &&& b[c.instrument_end as int] == 46u8
    &&& is_char_boundary(b, c.kind_end as int)
    &&& is_char_boundary(b, c.kind_end + 1)
    &&& is_char_boundary(b, c.instrument_end as int)
    &&& is_char_boundary(b, c.instrument_end + 1)
}

/// Two dot bytes at `a < c` in the bytes of a text make readable separators.
pub proof fn lemma_dots_are_separators(b: Seq<u8>, a: int, c: int)
    requires
        valid_utf8(b),
        0 <= a < c < b.len(),
        b[a] == 46u8,
        b[c] == 46u8,
    ensures
        is_char_boundary(b, a),
        is_char_boundary(b, a + 1),
        is_char_boundary(b, c),
        is_char_boundary(b, c + 1),
{
    lemma_boundary_around_ascii(b, a);
    lemma_boundary_around_ascii(b, c);
}

/// The bytes of `kind.instrument.interval`.
pub proof fn lemma_joined_bytes(kind: Seq<char>, instrument: Seq<char>, interval: Seq<char>)
    ensures
        encode_utf8(joined(kind, instrument, interval)) == encode_utf8(kind) + seq![46u8]
            + encode_utf8(instrument) + seq![46u8] + encode_utf8(interval),
{
    lemma_encode_dot();
    let d = seq!['.'];
    lemma_encode_concat(kind, d);
    lemma_encode_concat(kind + d, instrument);
    lemma_encode_concat(kind + d + instrument, d);
    lemma_encode_concat(kind + d + instrument + d, interval);
}

impl Channel {
    /// The channel `kind.instrument.interval`; the dots sit at byte offsets
    /// `kind.len()` and `kind.len() + 1 + instrument.len()`.
    pub fn new(instrument: &str, kind: &str, interval: &str) -> (c: Channel)
        ensures
            c.full@ == joined(kind@, instrument@, interval@),
            c.kind_end == kind.spec_bytes().len(),
            c.instrument_end == kind.spec_bytes().len() + 1 + instrument.spec_bytes().len(),
            separators_ok(c),
    {
        let full = join_with_dots(kind, instrument, interval);
        let total = full.as_str().as_bytes().len();
        proof {
            lemma_joined_bytes(kind@, instrument@, interval@);
            encode_utf8_valid_utf8(full@);
        }
        let kind_end = kind.len();
        let instrument_end = kind_end + 1 + instrument.len();
        let c = Channel { full, kind_end, instrument_end };
        proof {
            let b = name_bytes(c);
            assert(b.len() == total);
            assert(b[kind_end as int] == 46u8);
            assert(b[instrument_end as int] == 46u8);
            lemma_dots_are_separators(b, kind_end as int, instrument_end as int);
        }
        c
    }

    /// The part before the first dot (`&full[..kind_end]`).
    pub fn kind(&self) -> (r: &str)
        requires
            is_char_boundary(name_bytes(*self), self.kind_end as int),
        ensures
            r.spec_bytes() == name_bytes(*self).subrange(0, self.kind_end as int),
            r@ == decode_utf8(name_bytes(*self).subrange(0, self.kind_end as int)),
    {
        let (head, _) = self.full.as_str().split_at(self.kind_end);
        proof {
            encode_utf8_decode_utf8(head@);
        }
        head
    }

    /// The part between the two dots (`&full[kind_end + 1..instrument_end]`).
    pub fn instrument(&self) -> (r: &str)
        requires
            self.kind_end + 1 <= self.instrument_end,
            is_char_boundary(name_bytes(*self), self.kind_end + 1),
            is_char_boundary(name_bytes(*self), self.instrument_end as int),
        ensures
            r.spec_bytes() == name_bytes(*self).subrange(
                self.kind_end + 1,
                self.instrument_end as int,
            ),
            r@ == decode_utf8(
                name_bytes(*self).subrange(self.kind_end + 1, self.instrument_end as int),
            ),
    {
        let b = Ghost(name_bytes(*self));
        let start = self.kind_end + 1;
        proof {
            encode_utf8_valid_utf8(self.full@);
            lemma_boundary_in_suffix(b@, start as int, self.instrument_end as int);
        }
        let (_, tail) = self.full.as_str().split_at(start);
        let (mid, _) = tail.split_at(self.instrument_end - start);
        proof {
            assert(mid.spec_bytes() =~= b@.subrange(start as int, self.instrument_end as int));
            encode_utf8_decode_utf8(mid@);
        }
        mid
    }

    /// The part after the second dot (`&full[instrument_end + 1..]`).
    pub fn interval(&self) -> (r: &str)
        requires
            is_char_boundary(name_bytes(*self), self.instrument_end + 1),
        ensures
            r.spec_bytes() == name_bytes(*self).subrange(
                self.instrument_end + 1,
                name_bytes(*self).len() as int,
            ),
            r@ == decode_utf8(
                name_bytes(*self).subrange(self.instrument_end + 1, name_bytes(*self).len() as int),
            ),
    {
        let n = self.full.as_str().as_bytes().len();
        proof {
            encode_utf8_valid_utf8(self.full@);
            lemma_boundary_in_suffix(name_bytes(*self), 0, self.instrument_end + 1);
        }
        let (_, tail) = self.full.as_str().split_at(self.instrument_end + 1);
        proof {
            encode_utf8_decode_utf8(tail@);
        }
        tail
    }

    /// The whole name.
    pub fn as_str(&self) -> (r: &str)
        ensures
            r@ == self.full@,
    {
        self.full.as_str()
    }

    /// Reads a channel name: its first two dots separate kind, instrument and
    /// interval, and their byte offsets are kept. A text with fewer than two
    /// dots is refused.
    pub fn parse(s: &str) -> (r: AppResult<Channel>)
        ensures
            match r {
                Ok(c) => two_dot_bytes(s.spec_bytes()).0 == Some(c.kind_end as int)
                    && two_dot_bytes(s.spec_bytes()).1 == Some(c.instrument_end as int) && c.full@
                    == s@ && separators_ok(c),
                Err(e) => (two_dot_bytes(s.spec_bytes()).0 is None || two_dot_bytes(
                    s.spec_bytes(),
                ).1 is None) && (e matches AppError::InternalError(m) && m@
                    == invalid_channel_message(s@)),
            },
    {
        let (first, second) = find_dot_bytes(s);
        match (first, second) {
            (Some(a), Some(b)) => {
                let c = Channel { full: s.to_owned(), kind_end: a, instrument_end: b };
                proof {
                    let bs = name_bytes(c);
                    assert(bs == s.spec_bytes());
                    encode_utf8_valid_utf8(s@);
                    lemma_dots_are_separators(bs, a as int, b as int);
                }
                Ok(c)
            },
            _ => {
                let mut msg = "Invalid channel: ".to_owned();
                msg.append(s);
                Err(AppError::InternalError(msg))
            },
        }
    }

    /// The ticker channel of an instrument, at 100ms.
    pub fn ticker(instrument_name: &str) -> (c: Channel)
        ensures
            c.full@ == joined("ticker"@, instrument_name@, "100ms"@),
            c.kind_end == 6,
            c.instrument_end == 7 + instrument_name.spec_bytes().len(),
            separators_ok(c),
    {
        proof {
            reveal_strlit("ticker");
            lemma_ascii_len("ticker"@);
        }
        Self::new(instrument_name, "ticker", "100ms")
    }

    /// The book channel of an instrument, at 100ms.
    pub fn book(instrument_name: &str) -> (c: Channel)
        ensures
            c.full@ == joined("book"@, instrument_name@, "100ms"@),
            c.kind_end == 4,
            c.instrument_end == 5 + instrument_name.spec_bytes().len(),
            separators_ok(c),
    {
        proof {
            reveal_strlit("book");
            lemma_ascii_len("book"@);
        }
        Self::new(instrument_name, "book", "100ms")
    }
}

/// In a name joined from a kind and an instrument without dots, the first
/// two dots are the two joining ones.
pub proof fn lemma_joined_dots(kind: Seq<char>, instrument: Seq<char>, interval: Seq<char>)
    requires
        no_dot(kind),
        no_dot(instrument),
    ensures
        two_dots(joined(kind, instrument, interval)) == (
            Some(kind.len() as int),
            Some((kind.len() + 1 + instrument.len()) as int),
        ),
{
    let s = joined(kind, instrument, interval);
    let a = kind.len() as int;
    let b = (kind.len() + 1 + instrument.len()) as int;
    assert(s[a] == '.');
    assert(s[b] == '.');
    assert forall|j: int| 0 <= j < a implies s[j] != '.' by {
        assert(s[j] == kind[j]);
    }
    assert forall|j: int| a + 1 <= j < b implies s[j] != '.' by {
        assert(s[j] == instrument[j - a - 1]);
    }
    lemma_first_from_is(s, '.', 0, a);
    lemma_first_from_is(s, '.', a + 1, b);
}

/// In the bytes of a name joined from a kind and an instrument without
/// dots, the first two dot bytes are the two joining ones, at `kind.len()`
/// and `kind.len() + 1 + instrument.len()` (byte lengths).
pub proof fn lemma_joined_dot_bytes(kind: Seq<char>, instrument: Seq<char>, interval: Seq<char>)
    requires
        no_dot(kind),
        no_dot(instrument),
    ensures
        two_dot_bytes(encode_utf8(joined(kind, instrument, interval))) == (
            Some(encode_utf8(kind).len() as int),
            Some((encode_utf8(kind).len() + 1 + encode_utf8(instrument).len()) as int),
        ),
{
    lemma_joined_bytes(kind, instrument, interval);
    lemma_encode_no_dot(kind);
    lemma_encode_no_dot(instrument);
    let ek = encode_utf8(kind);
    let ei = encode_utf8(instrument);
    let b = encode_utf8(joined(kind, instrument, interval));
    let a = ek.len() as int;
    let c = (ek.len() + 1 + ei.len()) as int;
    assert(b[a] == 46u8);
    assert(b[c] == 46u8);
    assert forall|j: int| 0 <= j < a implies b[j] != 46u8 by {
        assert(b[j] == ek[j]);
    }
    assert forall|j: int| a + 1 <= j < c implies b[j] != 46u8 by {
        assert(b[j] == ei[j - a - 1]);
    }
    lemma_first_from_is(b, 46u8, 0, a);
    lemma_first_from_is(b, 46u8, a + 1, c);
}

/// The bytes of a joined name, cut at its joining dots, give back the parts.
pub proof fn lemma_joined_byte_parts(kind: Seq<char>, instrument: Seq<char>, interval: Seq<char>)
    ensures
        ({
            let b = encode_utf8(joined(kind, instrument, interval));
            let a = encode_utf8(kind).len() as int;
            let c = (encode_utf8(kind).len() + 1 + encode_utf8(instrument).len()) as int;
            &&& decode_utf8(b.subrange(0, a)) == kind
            &&& decode_utf8(b.subrange(a + 1, c)) == instrument
            &&& decode_utf8(b.subrange(c + 1, b.len() as int)) == interval
        }),
{
    lemma_joined_bytes(kind, instrument, interval);
    let ek = encode_utf8(kind);
    let ei = encode_utf8(instrument);
    let ev = encode_utf8(interval);
    let b = encode_utf8(joined(kind, instrument, interval));
    let a = ek.len() as int;
    let c = (ek.len() + 1 + ei.len()) as int;
    assert(b.subrange(0, a) =~= ek);
    assert(b.subrange(a + 1, c) =~= ei);
    assert(b.subrange(c + 1, b.len() as int) =~= ev);
    encode_utf8_decode_utf8(kind);
    encode_utf8_decode_utf8(instrument);
    encode_utf8_decode_utf8(interval);
}

/// Reading back a channel made from a kind and an instrument without dots
/// finds the same separators: `parse` of what `new` made keeps the byte
/// offsets `kind.len()` and `kind.len() + 1 + instrument.len()`, and the
/// kind, instrument and interval read from it are the ones it was made of.
pub proof fn lemma_channel_round_trip(
    kind: Seq<char>,
    instrument: Seq<char>,
    interval: Seq<char>,
)
    requires
        no_dot(kind),
        no_dot(instrument),
    ensures
        ({
            let b = encode_utf8(joined(kind, instrument, interval));
            let a = encode_utf8(kind).len() as int;
            let c = (encode_utf8(kind).len() + 1 + encode_utf8(instrument).len()) as int;
            &&& two_dot_bytes(b) == (Some(a), Some(c))
            &&& decode_utf8(b.subrange(0, a)) == kind
            &&& decode_utf8(b.subrange(a + 1, c)) == instrument
            &&& decode_utf8(b.subrange(c + 1, b.len() as int)) == interval
        }),
{
    lemma_joined_dot_bytes(kind, instrument, interval);
    lemma_joined_byte_parts(kind, instrument, interval);
}

/// Channels are equal when their names are.
impl PartialEq for Channel {
    fn eq(&self, other: &Self) -> (r: bool) {
        self.full == other.full
    }
}

impl Eq for Channel {

}

impl vstd::std_specs::cmp::PartialEqSpecImpl for Channel {
    open spec fn obeys_eq_spec() -> bool {
        true
    }

    open spec fn eq_spec(&self, other: &Channel) -> bool {
        self.full@ == other.full@
    }
}

} // verus!
