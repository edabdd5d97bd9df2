//! Text: comparison, decimal numbers, trimming and UTF-8.
use crate::bytes::same_bytes;
use vstd::arithmetic::div_mod::lemma_div_denominator;
use vstd::arithmetic::power::{lemma_pow_positive, pow};
use vstd::prelude::*;
use vstd::string::{StrSliceExecFns, StringExecFns};
use vstd::utf8::{decode_utf8, encode_utf8_decode_utf8, valid_utf8};

verus! {

/// The value of an optional text.
pub open spec fn text_of(text: Option<String>) -> Option<Seq<char>> {
    match text {
        Some(text) => Some(text@),
        None => None,
    }
}

/// The values of pairs of texts.
pub open spec fn text_pairs(pairs: Seq<(String, String)>) -> Seq<(Seq<char>, Seq<char>)> {
    pairs.map_values(|pair: (String, String)| (pair.0@, pair.1@))
}

/// A character with the Unicode property `White_Space`.
pub open spec fn is_whitespace(c: char) -> bool {
    let n = c as u32;
    ||| 0x09 <= n <= 0x0d
    ||| n == 0x20
    ||| n == 0x85
    ||| n == 0xa0
    ||| n == 0x1680
    ||| 0x2000 <= n <= 0x200a
    ||| n == 0x2028
    ||| n == 0x2029
    ||| n == 0x202f
    ||| n == 0x205f
    ||| n == 0x3000
}

/// `s` without the white space at its beginning and end.
pub open spec fn trimmed(s: Seq<char>) -> Seq<char>
    decreases s.len(),
{
    if s.len() > 0 && is_whitespace(s.first()) {
        trimmed(s.drop_first())
    } else if s.len() > 0 && is_whitespace(s.last()) {
        trimmed(s.drop_last())
    } else {
        s
    }
}

/// One decimal digit.
pub open spec fn digit(d: nat) -> Seq<char> {
    seq![(0x30 + d) as char]
}

/// `n` in decimal, without leading zeros.
pub open spec fn decimal(n: nat) -> Seq<char>
    decreases n,
{
    if n < 10 {
        digit(n)
    } else {
        decimal(n / 10) + digit(n % 10)
    }
}

/// Whether a character is white space.
fn is_space(c: char) -> (space: bool)
    ensures
        space == is_whitespace(c),
{
    let n: u32 = c as u32;
    (0x09 <= n && n <= 0x0d) || n == 0x20 || n == 0x85 || n == 0xa0 || n == 0x1680 || (0x2000 <= n
        && n <= 0x200a) || n == 0x2028 || n == 0x2029 || n == 0x202f || n == 0x205f || n == 0x3000
}

/// The text without the white space at its beginning and end.
pub fn trim(s: &str) -> (t: &str)
    ensures
        t@ == trimmed(s@),
{
    let len = s.unicode_len();
    let mut start: usize = 0;
    proof {
        assert(s@.subrange(0, len as int) =~= s@);
    }
    while start < len && is_space(s.get_char(start))
        invariant
            start <= len == s@.len(),
            trimmed(s@.subrange(start as int, len as int)) == trimmed(s@),
        ensures
            start <= len,
            start < len ==> !is_whitespace(s@[start as int]),
            trimmed(s@.subrange(start as int, len as int)) == trimmed(s@),
        decreases len - start,
    {
        proof {
            assert(s@.subrange(start as int, len as int).drop_first() =~= s@.subrange(
                start + 1,
                len as int,
            ));
        }
        start = start + 1;
    }
    let mut end: usize = len;
    while end > start && is_space(s.get_char(end - 1))
        invariant
            start <= end <= len == s@.len(),
            start < end ==> !is_whitespace(s@[start as int]),
            trimmed(s@.subrange(start as int, end as int)) == trimmed(s@),
        ensures
            start <= end <= len,
            start < end ==> !is_whitespace(s@[start as int]) && !is_whitespace(s@[end - 1]),
            trimmed(s@.subrange(start as int, end as int)) == trimmed(s@),
        decreases end,
    {
        proof {
            assert(s@.subrange(start as int, end as int).drop_last() =~= s@.subrange(
                start as int,
                end - 1,
            ));
        }
        end = end - 1;
    }
    s.substring_char(start, end)
}

/// `String::from_utf8`: the text that the bytes encode in UTF-8, where they do.
#[verifier::external_body]
pub(crate) fn text_from_utf8(bytes: Vec<u8>) -> (text: Option<String>)
    ensures
        match text {
            Some(t) => valid_utf8(bytes@) && t@ == decode_utf8(bytes@),
            None => !valid_utf8(bytes@),
        },
{
    match String::from_utf8(bytes) {
        Ok(text) => Some(text),
        Err(_) => None,
    }
}

/// Adds a pair of texts.
pub(crate) fn push_pair(pairs: &mut Vec<(String, String)>, first: &str, second: &str)
    ensures
        text_pairs(final(pairs)@) == text_pairs(old(pairs)@).push((first@, second@)),
{
    pairs.push((first.to_owned(), second.to_owned()));
    proof {
        assert(text_pairs(pairs@) =~= text_pairs(old(pairs)@).push((first@, second@)));
    }
}

/// Whether two texts are the same.
pub fn same_text(a: &str, b: &str) -> (same: bool)
    ensures
        same == (a@ == b@),
{
    proof {
        encode_utf8_decode_utf8(a@);
        encode_utf8_decode_utf8(b@);
    }
    same_bytes(a.as_bytes(), b.as_bytes())
}

/// The digit `d`.
fn digit_text(d: u16) -> (text: &'static str)
    requires
        d < 10,
    ensures
        text@ == digit(d as nat),
{
    proof {
        reveal_strlit("0");
        reveal_strlit("1");
        reveal_strlit("2");
        reveal_strlit("3");
        reveal_strlit("4");
        reveal_strlit("5");
        reveal_strlit("6");
        reveal_strlit("7");
        reveal_strlit("8");
        reveal_strlit("9");
    }
    match d {
        0 => "0",
        1 => "1",
        2 => "2",
        3 => "3",
        4 => "4",
        5 => "5",
        6 => "6",
        7 => "7",
        8 => "8",
        _ => "9",
    }
}

/// Appends `n` in decimal.
pub fn push_decimal(out: &mut String, n: u16)
    ensures
        final(out)@ == old(out)@ + decimal(n as nat),
    decreases n,
{
    if n >= 10 {
        push_decimal(out, n / 10);
    }
    out.append(digit_text(n % 10));
    proof {
        assert(out@ =~= old(out)@ + decimal(n as nat));
    }
}

/// `n` in decimal.
pub fn decimal_text(n: u16) -> (text: String)
    ensures
        text@ == decimal(n as nat),
{
    let mut text = String::new();
    push_decimal(&mut text, n);
    proof {
        assert(text@ =~= decimal(n as nat));
    }
    text
}

/// White space is what Unicode calls so, and nothing else.
pub proof fn law_white_space(c: char)
    ensures
        is_whitespace(c) <==> (c == '\u{9}' || c == '\u{a}' || c == '\u{b}' || c == '\u{c}' || c
            == '\u{d}' || c == '\u{20}' || c == '\u{85}' || c == '\u{a0}' || c == '\u{1680}' || (
        '\u{2000}' <= c && c <= '\u{200a}') || c == '\u{2028}' || c == '\u{2029}' || c == '\u{202f}'
            || c == '\u{205f}' || c == '\u{3000}'),
{
}

/// The places between which the trimmed text stands.
proof fn lemma_trimmed_bounds(s: Seq<char>) -> (bounds: (int, int))
    ensures
        0 <= bounds.0 <= bounds.1 <= s.len(),
        trimmed(s) == s.subrange(bounds.0, bounds.1),
        forall|i: int| 0 <= i < bounds.0 ==> is_whitespace(#[trigger] s[i]),
        forall|i: int| bounds.1 <= i < s.len() ==> is_whitespace(#[trigger] s[i]),
        bounds.0 < bounds.1 ==> !is_whitespace(s[bounds.0]) && !is_whitespace(s[bounds.1 - 1]),
    decreases s.len(),
{
    if s.len() > 0 && is_whitespace(s.first()) {
        let rest = s.drop_first();
        let (start, end) = lemma_trimmed_bounds(rest);
        assert(rest.subrange(start, end) =~= s.subrange(start + 1, end + 1));
        assert forall|i: int| 0 <= i < start + 1 implies is_whitespace(#[trigger] s[i]) by {
            if i > 0 {
                assert(rest[i - 1] == s[i]);
            }
        }
        assert forall|i: int| end + 1 <= i < s.len() implies is_whitespace(#[trigger] s[i]) by {
            assert(rest[i - 1] == s[i]);
        }
        (start + 1, end + 1)
    } else if s.len() > 0 && is_whitespace(s.last()) {
        let rest = s.drop_last();
        let (start, end) = lemma_trimmed_bounds(rest);
        assert(rest.subrange(start, end) =~= s.subrange(start, end));
        assert forall|i: int| 0 <= i < start implies is_whitespace(#[trigger] s[i]) by {
            assert(rest[i] == s[i]);
        }
        assert forall|i: int| end <= i < s.len() implies is_whitespace(#[trigger] s[i]) by {
            if i < rest.len() {
                assert(rest[i] == s[i]);
            }
        }
        (start, end)
    } else {
        assert(s.subrange(0, s.len() as int) =~= s);
        (0, s.len() as int)
    }
}

/// Trimming takes white space away at the two ends and nothing else, and leaves none there.
pub proof fn law_trimming_takes_white_space_at_the_ends(s: Seq<char>)
    ensures
        exists|start: int, end: int|
            {
                &&& 0 <= start <= end <= s.len()
                &&& trimmed(s) == #[trigger] s.subrange(start, end)
                &&& forall|i: int| 0 <= i < start ==> is_whitespace(#[trigger] s[i])
                &&& forall|i: int| end <= i < s.len() ==> is_whitespace(#[trigger] s[i])
                &&& start < end ==> !is_whitespace(s[start]) && !is_whitespace(s[end - 1])
            },
{
    let (start, end) = lemma_trimmed_bounds(s);
    assert(trimmed(s) == s.subrange(start, end));
}

/// Each digit of a number in decimal stands for a power of ten, the highest power first,
/// and the first is not zero unless it is the only one.
pub proof fn law_decimal_digits_are_powers(n: nat)
    ensures
        decimal(n).len() > 0,
        n < pow(10, decimal(n).len()),
        decimal(n).len() > 1 ==> pow(10, (decimal(n).len() - 1) as nat) <= n,
        forall|i: int|
            0 <= i < decimal(n).len() ==> #[trigger] decimal(n)[i] as int == '0' as int + (n as int
                / pow(10, (decimal(n).len() - 1 - i) as nat)) % 10,
    decreases n,
{
    reveal(pow);
    let text = decimal(n);
    assert(pow(10, 0) == 1);
    assert(pow(10, 1) == 10 * pow(10, 0));
    if n >= 10 {
        let front = decimal(n / 10);
        law_decimal_digits_are_powers(n / 10);
        let len = front.len();
        assert(text.len() == len + 1);
        assert(pow(10, text.len()) == 10 * pow(10, len));
        assert(pow(10, len) == 10 * pow(10, (len - 1) as nat));
        assert forall|i: int| 0 <= i < text.len() implies #[trigger] text[i] as int == '0' as int
            + (n as int / pow(10, (text.len() - 1 - i) as nat)) % 10 by {
            if i < len {
                let behind = (len - 1 - i) as nat;
                assert(text[i] == front[i]);
                lemma_pow_positive(10, behind);
                lemma_div_denominator(n as int, 10, pow(10, behind));
                assert(pow(10, (text.len() - 1 - i) as nat) == 10 * pow(10, behind));
            }
        }
    }
}

/// The value of a list of pairs has the two texts of each pair at its place, and that of
/// an optional text has the text.
pub proof fn law_texts_are_kept(pairs: Seq<(String, String)>, text: String)
    ensures
        text_pairs(pairs).len() == pairs.len(),
        forall|i: int|
            0 <= i < pairs.len() ==> #[trigger] text_pairs(pairs)[i] == (pairs[i].0@, pairs[i].1@),
        text_of(Some(text)) == Some(text@),
        text_of(None) is None,
{
}

} // verus!
