//! Channel names held as their three parts.

use vstd::prelude::*;
use vstd::string::*;
use vstd::utf8::*;

use crate::channel::{
    find_dots, first_from, join_with_dots, joined, lemma_first_from_cases, lemma_first_from_is,
    lemma_first_from_none, lemma_joined_byte_parts, lemma_joined_dot_bytes, no_dot, two_dot_bytes,
    two_dots,
};
use crate::utf8_text::{lemma_encode_concat, lemma_encode_dot, lemma_encode_no_dot};
use crate::error::{AppError, AppResult};

verus! {

/// A channel name as kind, instrument and interval.
#[derive(Debug, Clone)]
pub struct ChannelName {
    pub instrument_name: String,
    pub kind: String,
    pub interval: String,
}

impl ChannelName {
    /// The channel `kind.instrument_name.interval`.
    pub fn new(instrument_name: &str, kind: &str, interval: &str) -> (c: ChannelName)
        ensures
            c.instrument_name@ == instrument_name@,
            c.kind@ == kind@,
            c.interval@ == interval@,
    {
        ChannelName {
            instrument_name: instrument_name.to_owned(),
            kind: kind.to_owned(),
            interval: interval.to_owned(),
        }
    }

    /// Reads `kind.instrument.interval`, split at the first two dots (the
    /// interval keeps any further dots). A text without a dot lacks the
    /// instrument; one with a single dot lacks the interval.
    pub fn parse(s: &str) -> (r: AppResult<ChannelName>)
        ensures
            match r {
                Ok(c) => two_dots(s@).0 matches Some(a) && two_dots(s@).1 matches Some(b)
                    && c.kind@ == s@.subrange(0, a) && c.instrument_name@ == s@.subrange(a + 1, b)
                    && c.interval@ == s@.subrange(b + 1, s@.len() as int),
                Err(e) => e matches AppError::InternalError(m) && if two_dots(s@).0 is None {
                    m@ == "Missing instrument in channel"@
                } else {
                    two_dots(s@).1 is None && m@ == "Missing interval in channel"@
                },
            },
    {
        let n = s.unicode_len();
        match find_dots(s) {
            (Some(a), Some(b)) => {
                let kind = s.substring_char(0, a);
                let instrument = s.substring_char(a + 1, b);
                let interval = s.substring_char(b + 1, n);
                Ok(Self::new(instrument, kind, interval))
            },
            (Some(_), None) => Err(AppError::InternalError("Missing interval in channel".to_owned())),
            (None, _) => Err(AppError::InternalError("Missing instrument in channel".to_owned())),
        }
    }

    /// The ticker channel of an instrument, at 100ms.
    pub fn ticker(instrument_name: &str) -> (c: ChannelName)
        ensures
            c.instrument_name@ == instrument_name@,
            c.kind@ == "ticker"@,
            c.interval@ == "100ms"@,
    {
        Self::new(instrument_name, "ticker", "100ms")
    }

    /// The book channel of an instrument, at 100ms.
    pub fn book(instrument_name: &str) -> (c: ChannelName)
        ensures
            c.instrument_name@ == instrument_name@,
            c.kind@ == "book"@,
            c.interval@ == "100ms"@,
    {
        Self::new(instrument_name, "book", "100ms")
    }

    /// The name as text: `kind.instrument_name.interval`.
    pub fn to_string(&self) -> (r: String)
        ensures
            r@ == joined(self.kind@, self.instrument_name@, self.interval@),
    {
        join_with_dots(self.kind.as_str(), self.instrument_name.as_str(), self.interval.as_str())
    }
}

/// The name of an instrument's ticker channel: `ticker.<instrument>.100ms`.
pub fn get_channel_name(instrument_name: &str) -> (r: String)
    ensures
        r@ == joined("ticker"@, instrument_name@, "100ms"@),
{
    join_with_dots("ticker", instrument_name, "100ms")
}

/// A text with a dot at character `a` and none elsewhere before `a` or from
/// `a + 1` on has one dot byte, at the byte length of the text before it.
proof fn lemma_one_dot_bytes(s: Seq<char>, a: int)
    requires
        0 <= a < s.len(),
        s[a] == '.',
        forall|j: int| 0 <= j < s.len() && j != a ==> s[j] != '.',
    ensures
        two_dot_bytes(encode_utf8(s)).0 == Some(encode_utf8(s.subrange(0, a)).len() as int),
        two_dot_bytes(encode_utf8(s)).1 is None,
{
    let k = s.subrange(0, a);
    let r = s.subrange(a + 1, s.len() as int);
    let d = seq!['.'];
    assert(s =~= k + d + r);
    assert(no_dot(k));
    assert(no_dot(r)) by {
        assert forall|j: int| 0 <= j < r.len() implies r[j] != '.' by {
            assert(r[j] == s[a + 1 + j]);
        }
    }
    lemma_encode_dot();
    lemma_encode_concat(k, d);
    lemma_encode_concat(k + d, r);
    lemma_encode_no_dot(k);
    lemma_encode_no_dot(r);
    let ek = encode_utf8(k);
    let er = encode_utf8(r);
    let b = encode_utf8(s);
    let x = ek.len() as int;
    assert(b =~= ek + seq![46u8] + er);
    assert(b[x] == 46u8);
    assert forall|j: int| 0 <= j < x implies b[j] != 46u8 by {
        assert(b[j] == ek[j]);
    }
    assert forall|j: int| x + 1 <= j < b.len() implies b[j] != 46u8 by {
        assert(b[j] == er[j - x - 1]);
    }
    lemma_first_from_is(b, 46u8, 0, x);
    lemma_first_from_none(b, 46u8, x + 1);
}

/// The two readers of a channel name agree on every text. `ChannelName::parse`
/// places the dots by character and `Channel::parse` by byte; the first
/// finds two dots exactly when the second does, and then the kind,
/// instrument and interval that the first holds are the texts that the
/// second's accessors read from its bytes, and those parts joined again by
/// dots (`ChannelName::to_string`) give the text back (`Channel::as_str`).
pub proof fn lemma_parsers_agree(s: Seq<char>)
    ensures
        (two_dots(s).0 is Some && two_dots(s).1 is Some) <==> (two_dot_bytes(
            encode_utf8(s),
        ).0 is Some && two_dot_bytes(encode_utf8(s)).1 is Some),
        ({
            let b = encode_utf8(s);
            let (d, e) = (two_dots(s), two_dot_bytes(b));
            let (a, c, x, y) = (d.0.unwrap(), d.1.unwrap(), e.0.unwrap(), e.1.unwrap());
            d.0 is Some && d.1 is Some ==> {
                &&& e.0 is Some && e.1 is Some
                &&& decode_utf8(b.subrange(0, x)) == s.subrange(0, a)
                &&& decode_utf8(b.subrange(x + 1, y)) == s.subrange(a + 1, c)
                &&& decode_utf8(b.subrange(y + 1, b.len() as int)) == s.subrange(
                    c + 1,
                    s.len() as int,
                )
                &&& joined(s.subrange(0, a), s.subrange(a + 1, c), s.subrange(c + 1, s.len() as int))
                    == s
            }
        }),
{
    let b = encode_utf8(s);
    lemma_first_from_cases(s, '.', 0);
    match first_from(s, '.', 0) {
        None => {
            lemma_encode_no_dot(s);
            lemma_first_from_none(b, 46u8, 0);
        },
        Some(a) => {
            lemma_first_from_cases(s, '.', a + 1);
            match first_from(s, '.', a + 1) {
                None => {
                    lemma_one_dot_bytes(s, a);
                },
                Some(c) => {
                    let kind = s.subrange(0, a);
                    let instrument = s.subrange(a + 1, c);
                    let interval = s.subrange(c + 1, s.len() as int);
                    assert(no_dot(kind));
                    assert(no_dot(instrument)) by {
                        assert forall|j: int| 0 <= j < instrument.len() implies instrument[j]
                            != '.' by {
                            assert(instrument[j] == s[a + 1 + j]);
                        }
                    }
                    assert(joined(kind, instrument, interval) =~= s);
                    lemma_joined_dot_bytes(kind, instrument, interval);
                    lemma_joined_byte_parts(kind, instrument, interval);
                    let x = encode_utf8(kind).len() as int;
                    let y = (encode_utf8(kind).len() + 1 + encode_utf8(instrument).len()) as int;
                    assert(b == encode_utf8(joined(kind, instrument, interval)));
                    assert(two_dots(s) == (Some(a), Some(c)));
                    assert(two_dot_bytes(b) == (Some(x), Some(y)));
                    assert(decode_utf8(b.subrange(0, x)) == kind);
                    assert(decode_utf8(b.subrange(x + 1, y)) == instrument);
                    assert(decode_utf8(b.subrange(y + 1, b.len() as int)) == interval);
                },
            }
        },
    }
}

} // verus!
