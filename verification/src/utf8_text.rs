//! Facts about the UTF-8 bytes of texts: how they split at ASCII
//! separators, used to place separators by byte offset.

use vstd::prelude::*;
use vstd::utf8::*;

verus! {

/// The bytes of a concatenation are the concatenation of the bytes.
pub proof fn lemma_encode_concat(a: Seq<char>, b: Seq<char>)
    ensures
        encode_utf8(a + b) == encode_utf8(a) + encode_utf8(b),
    decreases a.len(),
{
    if a.len() == 0 {
        assert(a + b =~= b);
        assert(encode_utf8(a) + encode_utf8(b) =~= encode_utf8(b));
    } else {
        assert((a + b)[0] == a[0]);
        assert((a + b).drop_first() =~= a.drop_first() + b);
        lemma_encode_concat(a.drop_first(), b);
        assert(encode_utf8(a + b) =~= encode_utf8(a) + encode_utf8(b));
    }
}

/// A dot is the single byte 46.
pub proof fn lemma_encode_dot()
    ensures
        encode_utf8(seq!['.']) == seq![46u8],
{
    let s = seq!['.'];
    assert(s.drop_first() =~= Seq::<char>::empty());
    let u: u32 = '.' as u32;
    assert(u == 46);
    assert(((u & 0x7F) as u8) == 46u8) by (bit_vector)
        requires
            u == 46,
    ;
    assert(s[0] == '.');
    assert(s[0] as u32 == u);
    assert(has_width_1_encoding(u));
    assert(leading_byte_width_1(u) == 46u8);
    assert(encode_scalar(u) =~= seq![46u8]);
    assert(encode_utf8(s.drop_first()) =~= Seq::<u8>::empty());
    assert(encode_utf8(s) == encode_scalar(s[0] as u32) + encode_utf8(s.drop_first()));
    assert(encode_utf8(s) =~= seq![46u8]);
}

/// No byte of the encoding of a character other than a dot is 46.
pub proof fn lemma_encode_scalar_no_dot(c: char)
    requires
        c != '.',
    ensures
        forall|j: int| 0 <= j < encode_scalar(c as u32).len() ==> #[trigger] encode_scalar(c as u32)[j] != 46u8,
{
    let u = c as u32;
    char_is_scalar(c);
    if has_width_1_encoding(u) {
        assert(u != 46) by {
            char_u32_cast(c, u);
            if u == 46 {
                assert((u as char) == '.');
            }
        }
        assert(((u & 0x7F) as u8) != 46u8) by (bit_vector)
            requires
                u <= 0x7F,
                u != 46,
        ;
    } else {
        assert((0xC0u8 | ((u >> 6) & 0x1F) as u8) != 46u8) by (bit_vector);
        assert((0xE0u8 | ((u >> 12) & 0x0F) as u8) != 46u8) by (bit_vector);
        assert((0xF0u8 | ((u >> 18) & 0x7) as u8) != 46u8) by (bit_vector);
        assert((0x80u8 | (u & 0x3F) as u8) != 46u8) by (bit_vector);
        assert((0x80u8 | ((u >> 6) & 0x3F) as u8) != 46u8) by (bit_vector);
        assert((0x80u8 | ((u >> 12) & 0x3F) as u8) != 46u8) by (bit_vector);
    }
}

/// A text without dots has no byte 46.
pub proof fn lemma_encode_no_dot(s: Seq<char>)
    requires
        forall|j: int| 0 <= j < s.len() ==> s[j] != '.',
    ensures
        forall|j: int| 0 <= j < encode_utf8(s).len() ==> encode_utf8(s)[j] != 46u8,
    decreases s.len(),
{
    if s.len() > 0 {
        let rest = s.drop_first();
        assert forall|j: int| 0 <= j < rest.len() implies rest[j] != '.' by {
            assert(rest[j] == s[j + 1]);
        }
        lemma_encode_no_dot(rest);
        lemma_encode_scalar_no_dot(s[0]);
        let e = encode_scalar(s[0] as u32);
        assert forall|j: int| 0 <= j < encode_utf8(s).len() implies encode_utf8(s)[j] != 46u8 by {
            if j < e.len() {
                assert(encode_utf8(s)[j] == e[j]);
            } else {
                assert(encode_utf8(s)[j] == encode_utf8(rest)[j - e.len()]);
            }
        }
    }
}

/// In valid UTF-8, an ASCII byte starts a character, and so does the byte
/// after it.
pub proof fn lemma_boundary_around_ascii(b: Seq<u8>, k: int)
    requires
        valid_utf8(b),
        0 <= k < b.len(),
        b[k] < 0x80,
    ensures
        is_char_boundary(b, k),
        is_char_boundary(b, k + 1),
    decreases b.len(),
{
    is_char_boundary_iff_not_is_continuation_byte(b, k);
    let l = length_of_first_scalar(b);
    let rest = pop_first_scalar(b);
    if k == 0 {
        assert(is_leading_byte_width_1(b[0]));
        assert(l == 1);
        assert(is_char_boundary(rest, 0));
        assert(is_char_boundary(b, 1));
    } else {
        assert(is_char_boundary(b, k) == is_char_boundary(rest, k - l));
        assert(k - l >= 0);
        assert(valid_utf8(rest));
        assert(rest[k - l] == b[k]);
        lemma_boundary_around_ascii(rest, k - l);
        assert(is_char_boundary(b, k + 1) == is_char_boundary(rest, k + 1 - l));
    }
}

/// A boundary at or after a boundary `a` is a boundary of the bytes from
/// `a` on.
pub proof fn lemma_boundary_in_suffix(b: Seq<u8>, a: int, x: int)
    requires
        valid_utf8(b),
        is_char_boundary(b, a),
        is_char_boundary(b, x),
        a <= x,
    ensures
        x <= b.len(),
        is_char_boundary(b.subrange(a, b.len() as int), x - a),
{
    reveal_with_fuel(is_char_boundary, 1);
    if x > b.len() {
        assert(!is_char_boundary(b, x));
    }
    if a < 0 {
        assert(!is_char_boundary(b, a));
    }
    valid_utf8_split(b, a);
    let s = b.subrange(a, b.len() as int);
    if x == b.len() {
        is_char_boundary_start_end_of_seq(s);
        assert(s.len() == x - a);
    } else {
        is_char_boundary_iff_not_is_continuation_byte(b, x);
        is_char_boundary_iff_not_is_continuation_byte(s, x - a);
        assert(s[x - a] == b[x]);
    }
}

/// A text of ASCII characters has one byte per character.
pub proof fn lemma_ascii_len(s: Seq<char>)
    requires
        forall|j: int| 0 <= j < s.len() ==> (s[j] as u32) < 0x80,
    ensures
        encode_utf8(s).len() == s.len(),
    decreases s.len(),
{
    if s.len() > 0 {
        let rest = s.drop_first();
        assert forall|j: int| 0 <= j < rest.len() implies (rest[j] as u32) < 0x80 by {
            assert(rest[j] == s[j + 1]);
        }
        lemma_ascii_len(rest);
        assert(has_width_1_encoding(s[0] as u32));
    }
}

} // verus!
