//! JSON-RPC 2.0 requests to the exchange, framed as compact JSON text:
//! `{"jsonrpc":"2.0","id":<id>,"method":"<method>","params":{...}}`.
//!
//! Each text is written by serde_json, which escapes it as JSON requires:
//! `"` and `\` take a backslash, backspace, form feed, newline, carriage
//! return and tab take their short escapes, other control characters below
//! U+0020 are written `\u00xx` (lowercase hex), and every other character
//! stands as it is. The frame around the texts, the member order and the
//! numbers are written here.

use vstd::prelude::*;

use crate::channel::joined;
use crate::channel_name::ChannelName;

verus! {

/// The character of a decimal digit.
pub open spec fn digit_char(d: nat) -> char {
    (48 + d) as char
}

/// The character of a lowercase hexadecimal digit.
pub open spec fn hex_char(d: nat) -> char {
    if d < 10 {
        (48 + d) as char
    } else {
        (87 + d) as char
    }
}

/// The decimal digits of `n`, without leading zeros.
pub open spec fn decimal(n: nat) -> Seq<char>
    decreases n,
{
    if n < 10 {
        seq![digit_char(n)]
    } else {
        decimal(n / 10).push(digit_char(n % 10))
    }
}

/// How one character is written inside a JSON string.
pub open spec fn escape_char(c: char) -> Seq<char> {
    if c == '"' {
        seq!['\\', '"']
    } else if c == '\\' {
        seq!['\\', '\\']
    } else if c == '\n' {
        seq!['\\', 'n']
    } else if c == '\r' {
        seq!['\\', 'r']
    } else if c == '\t' {
        seq!['\\', 't']
    } else if (c as u32) == 8 {
        seq!['\\', 'b']
    } else if (c as u32) == 12 {
        seq!['\\', 'f']
    } else if (c as u32) < 32 {
        seq!['\\', 'u', '0', '0', hex_char((c as u32 / 16) as nat), hex_char((c as u32 % 16) as nat)]
    } else {
        seq![c]
    }
}

/// A text's characters, each escaped.
pub open spec fn escaped(s: Seq<char>) -> Seq<char>
    decreases s.len(),
{
    if s.len() == 0 {
        Seq::empty()
    } else {
        escaped(s.drop_last()) + escape_char(s.last())
    }
}

/// A text as a JSON string literal.
pub open spec fn json_string(s: Seq<char>) -> Seq<char> {
    seq!['"'] + escaped(s) + seq!['"']
}

/// `serde_json::to_string` on a text: the text as a JSON string literal,
/// `json_string` above. Claimed from serde_json's compact formatter: a quote,
/// then each character of the text as `escape_char` gives it (serde_json's
/// escape table covers `"`, `\` and the bytes below 0x20, with short escapes
/// for backspace, tab, newline, form feed and carriage return and `\u00xx`
/// in lowercase hex for the rest), then a quote. Serialising a `str` into
/// memory cannot fail (serde_json reports errors only from a value's own
/// `Serialize` impl or from a map with non-text keys, and a `str` has
/// neither), so the fallback to an empty text is never taken.
#[verifier::external_body]
fn json_string_literal(s: &str) -> (r: String)
    ensures
        r@ == json_string(s@),
{
    serde_json::to_string(s).unwrap_or_default()
}

/// The value of one request parameter.
#[derive(Debug, Clone)]
pub enum ParamValue {
    Text(String),
    Number(u64),
    TextList(Vec<String>),
}

/// A list of texts as JSON string literals separated by commas.
pub open spec fn texts_joined(items: Seq<String>) -> Seq<char>
    decreases items.len(),
{
    if items.len() == 0 {
        Seq::empty()
    } else if items.len() == 1 {
        json_string(items[0]@)
    } else {
        texts_joined(items.drop_last()) + seq![','] + json_string(items.last()@)
    }
}

/// A parameter value as JSON.
pub open spec fn value_text(v: ParamValue) -> Seq<char> {
    match v {
        ParamValue::Text(t) => json_string(t@),
        ParamValue::Number(n) => decimal(n as nat),
        ParamValue::TextList(items) => seq!['['] + texts_joined(items@) + seq![']'],
    }
}

/// One `"key":value` member.
pub open spec fn member_text(m: (String, ParamValue)) -> Seq<char> {
    json_string(m.0@) + seq![':'] + value_text(m.1)
}

/// Members separated by commas.
pub open spec fn members_joined(ms: Seq<(String, ParamValue)>) -> Seq<char>
    decreases ms.len(),
{
    if ms.len() == 0 {
        Seq::empty()
    } else if ms.len() == 1 {
        member_text(ms[0])
    } else {
        members_joined(ms.drop_last()) + seq![','] + member_text(ms.last())
    }
}

/// A request for the exchange's JSON-RPC interface.
#[derive(Debug, Clone)]
pub struct Request {
    pub id: u64,
    pub method: String,
    /// The members of the `params` object, in the order they are written.
    pub params: Vec<(String, ParamValue)>,
}

/// The JSON text of a request.
pub open spec fn request_text(r: Request) -> Seq<char> {
    "{\"jsonrpc\":\"2.0\",\"id\":"@ + decimal(r.id as nat) + ",\"method\":"@ + json_string(r.method@)
        + ",\"params\":{"@ + members_joined(r.params@) + "}}"@
}

/// The text of one decimal digit.
fn digit_text(d: u8) -> (r: &'static str)
    requires
        d < 10,
    ensures
        r@ == seq![digit_char(d as nat)],
{
    match d {
        0 => {
            proof {
                reveal_strlit("0");
            }
            "0"
        },
        1 => {
            proof {
                reveal_strlit("1");
            }
            "1"
        },
        2 => {
            proof {
                reveal_strlit("2");
            }
            "2"
        },
        3 => {
            proof {
                reveal_strlit("3");
            }
            "3"
        },
        4 => {
            proof {
                reveal_strlit("4");
            }
            "4"
        },
        5 => {
            proof {
                reveal_strlit("5");
            }
            "5"
        },
        6 => {
            proof {
                reveal_strlit("6");
            }
            "6"
        },
        7 => {
            proof {
                reveal_strlit("7");
            }
            "7"
        },
        8 => {
            proof {
                reveal_strlit("8");
            }
            "8"
        },
        _ => {
            proof {
                reveal_strlit("9");
            }
            "9"
        },
    }
}

/// Appends the decimal digits of `n`.
pub fn write_decimal(out: &mut String, n: u64)
    ensures
        final(out)@ == old(out)@ + decimal(n as nat),
    decreases n,
{
    if n >= 10 {
        write_decimal(out, n / 10);
    }
    let d = (n % 10) as u8;
    out.append(digit_text(d));
    proof {
        assert(final(out)@ =~= old(out)@ + decimal(n as nat));
    }
}

/// Appends a text as a JSON string literal.
pub fn write_json_string(out: &mut String, s: &str)
    ensures
        final(out)@ == old(out)@ + json_string(s@),
{
    let literal = json_string_literal(s);
    out.append(literal.as_str());
}

/// Appends a list of texts as JSON string literals separated by commas.
fn write_texts(out: &mut String, items: &Vec<String>)
    ensures
        final(out)@ == old(out)@ + texts_joined(items@),
{
    let ghost start = out@;
    let mut i: usize = 0;
    while i < items.len()
        invariant
            i <= items@.len(),
            out@ == start + texts_joined(items@.take(i as int)),
        decreases items@.len() - i,
    {
        if i > 0 {
            write_str(out, ",");
        }
        write_json_string(out, items[i].as_str());
        proof {
            reveal_strlit(",");
            let t = items@.take(i + 1);
            assert(t.drop_last() =~= items@.take(i as int));
            if i == 0 {
                assert(items@.take(0) =~= Seq::<String>::empty());
            }
            assert(out@ =~= start + texts_joined(t));
        }
        i = i + 1;
    }
    proof {
        assert(items@.take(items@.len() as int) =~= items@);
    }
}

/// Appends a parameter value as JSON.
fn write_value(out: &mut String, v: &ParamValue)
    ensures
        final(out)@ == old(out)@ + value_text(*v),
{
    let ghost start = out@;
    match v {
        ParamValue::Text(t) => write_json_string(out, t.as_str()),
        ParamValue::Number(n) => write_decimal(out, *n),
        ParamValue::TextList(items) => {
            write_str(out, "[");
            write_texts(out, items);
            write_str(out, "]");
            proof {
                reveal_strlit("[");
                reveal_strlit("]");
                assert(out@ =~= start + value_text(*v));
            }
        },
    }
}

/// Appends the members of the `params` object, separated by commas.
fn write_members(out: &mut String, ms: &Vec<(String, ParamValue)>)
    ensures
        final(out)@ == old(out)@ + members_joined(ms@),
{
    let ghost start = out@;
    let mut i: usize = 0;
    while i < ms.len()
        invariant
            i <= ms@.len(),
            out@ == start + members_joined(ms@.take(i as int)),
        decreases ms@.len() - i,
    {
        let ghost before = out@;
        if i > 0 {
            write_str(out, ",");
        }
        let ghost mid = out@;
        write_json_string(out, ms[i].0.as_str());
        write_str(out, ":");
        write_value(out, &ms[i].1);
        proof {
            reveal_strlit(",");
            reveal_strlit(":");
            assert(out@ =~= mid + member_text(ms@[i as int]));
            let t = ms@.take(i + 1);
            assert(t.drop_last() =~= ms@.take(i as int));
            if i == 0 {
                assert(ms@.take(0) =~= Seq::<(String, ParamValue)>::empty());
            }
            assert(out@ =~= start + members_joined(t));
        }
        i = i + 1;
    }
    proof {
        assert(ms@.take(ms@.len() as int) =~= ms@);
    }
}

/// Appends a literal text.
fn write_str(out: &mut String, s: &str)
    ensures
        final(out)@ == old(out)@ + s@,
{
    out.append(s);
}

impl Request {
    /// A request with the given id, method and parameters.
    pub fn new(id: u64, method: &str, params: Vec<(String, ParamValue)>) -> (r: Request)
        ensures
            r.id == id,
            r.method@ == method@,
            r.params == params,
    {
        Request { id, method: method.to_owned(), params }
    }

    /// The request as compact JSON text (UTF-8), ready to be sent as a text
    /// frame.
    pub fn to_utf8bytes(&self) -> (r: String)
        ensures
            r@ == request_text(*self),
    {
        let mut out = String::new();
        write_str(&mut out, "{\"jsonrpc\":\"2.0\",\"id\":");
        write_decimal(&mut out, self.id);
        write_str(&mut out, ",\"method\":");
        write_json_string(&mut out, self.method.as_str());
        write_str(&mut out, ",\"params\":{");
        write_members(&mut out, &self.params);
        write_str(&mut out, "}}");
        proof {
            assert(out@ =~= request_text(*self));
        }
        out
    }

    /// `public/subscribe` to one channel: `{"channels":["<channel>"]}`.
    pub fn subscribe(id: u64, channel: &ChannelName) -> (r: Request)
        ensures
            r.id == id,
            r.method@ == "public/subscribe"@,
            r.params@.len() == 1,
            r.params@[0].0@ == "channels"@,
            r.params@[0].1 matches ParamValue::TextList(items) && items@.len() == 1
                && items@[0]@ == joined(channel.kind@, channel.instrument_name@, channel.interval@),
    {
        Self::channel_request(id, "public/subscribe", channel)
    }

    /// `public/unsubscribe` from one channel: `{"channels":["<channel>"]}`.
    pub fn unsubscribe(id: u64, channel: &ChannelName) -> (r: Request)
        ensures
            r.id == id,
            r.method@ == "public/unsubscribe"@,
            r.params@.len() == 1,
            r.params@[0].0@ == "channels"@,
            r.params@[0].1 matches ParamValue::TextList(items) && items@.len() == 1
                && items@[0]@ == joined(channel.kind@, channel.instrument_name@, channel.interval@),
    {
        Self::channel_request(id, "public/unsubscribe", channel)
    }

    fn channel_request(id: u64, method: &str, channel: &ChannelName) -> (r: Request)
        ensures
            r.id == id,
            r.method@ == method@,
            r.params@.len() == 1,
            r.params@[0].0@ == "channels"@,
            r.params@[0].1 matches ParamValue::TextList(items) && items@.len() == 1
                && items@[0]@ == joined(channel.kind@, channel.instrument_name@, channel.interval@),
    {
        let mut items: Vec<String> = Vec::new();
        items.push(channel.to_string());
        let mut params: Vec<(String, ParamValue)> = Vec::new();
        params.push(("channels".to_owned(), ParamValue::TextList(items)));
        Self::new(id, method, params)
    }

    /// `public/get_instruments` of a currency, optionally of one kind:
    /// `{"currency":...}` or `{"currency":...,"kind":...}`.
    pub fn get_instruments(id: u64, currency: &str, kind: Option<&str>) -> (r: Request)
        ensures
            r.id == id,
            r.method@ == "public/get_instruments"@,
            r.params@.len() == (if kind is Some { 2int } else { 1int }),
            r.params@[0].0@ == "currency"@,
            r.params@[0].1 matches ParamValue::Text(t) && t@ == currency@,
            kind matches Some(k) ==> (r.params@[1].0@ == "kind"@ && (r.params@[1].1 matches ParamValue::Text(t)
                && t@ == k@)),
    {
        let mut params: Vec<(String, ParamValue)> = Vec::new();
        params.push(("currency".to_owned(), ParamValue::Text(currency.to_owned())));
        match kind {
            Some(k) => params.push(("kind".to_owned(), ParamValue::Text(k.to_owned()))),
            None => {},
        }
        Self::new(id, "public/get_instruments", params)
    }

    /// `public/ticker` of an instrument: `{"instrument_name":...}`.
    pub fn ticker(id: u64, instrument_name: &str) -> (r: Request)
        ensures
            r.id == id,
            r.method@ == "public/ticker"@,
            r.params@.len() == 1,
            r.params@[0].0@ == "instrument_name"@,
            r.params@[0].1 matches ParamValue::Text(t) && t@ == instrument_name@,
    {
        let mut params: Vec<(String, ParamValue)> = Vec::new();
        params.push(("instrument_name".to_owned(), ParamValue::Text(instrument_name.to_owned())));
        Self::new(id, "public/ticker", params)
    }

    /// `public/get_order_book` of an instrument to a depth:
    /// `{"depth":...,"instrument_name":...}`.
    pub fn get_order_book(id: u64, instrument_name: &str, depth: u32) -> (r: Request)
        ensures
            r.id == id,
            r.method@ == "public/get_order_book"@,
            r.params@.len() == 2,
            r.params@[0].0@ == "depth"@,
            r.params@[0].1 == ParamValue::Number(depth as u64),
            r.params@[1].0@ == "instrument_name"@,
            r.params@[1].1 matches ParamValue::Text(t) && t@ == instrument_name@,
    {
        let mut params: Vec<(String, ParamValue)> = Vec::new();
        params.push(("depth".to_owned(), ParamValue::Number(depth as u64)));
        params.push(("instrument_name".to_owned(), ParamValue::Text(instrument_name.to_owned())));
        Self::new(id, "public/get_order_book", params)
    }

    /// `public/set_heartbeat` with an interval in seconds: `{"interval":...}`.
    pub fn set_heartbeat(id: u64, interval: u64) -> (r: Request)
        ensures
            r.id == id,
            r.method@ == "public/set_heartbeat"@,
            r.params@.len() == 1,
            r.params@[0].0@ == "interval"@,
            r.params@[0].1 == ParamValue::Number(interval),
    {
        let mut params: Vec<(String, ParamValue)> = Vec::new();
        params.push(("interval".to_owned(), ParamValue::Number(interval)));
        Self::new(id, "public/set_heartbeat", params)
    }

    /// `public/test`, the answer to a heartbeat test request: `{}`.
    pub fn test(id: u64) -> (r: Request)
        ensures
            r.id == id,
            r.method@ == "public/test"@,
            r.params@.len() == 0,
    {
        Self::new(id, "public/test", Vec::new())
    }
}

} // verus!
