//! Text as it crosses the boundary between bytes, strings and characters.

use vstd::prelude::*;
use vstd::slice::slice_subrange;
use vstd::utf8::{decode_utf8, encode_utf8, valid_utf8};

verus! {

/// Whether `c` is whitespace in the sense of Unicode: a tab, a line feed,
/// a vertical tab, a form feed, a carriage return, a space, the next-line
/// control, or one of the spaces and separators beyond them.
pub open spec fn is_white_space(c: char) -> bool {
    let n = c as u32;
    ||| 0x09 <= n <= 0x0D
    ||| n == 0x20
    ||| n == 0x85
    ||| n == 0xA0
    ||| n == 0x1680
    ||| 0x2000 <= n <= 0x200A
    ||| n == 0x2028
    ||| n == 0x2029
    ||| n == 0x202F
    ||| n == 0x205F
    ||| n == 0x3000
}

/// What `String::from_utf8_lossy` makes of `bytes`.
pub uninterp spec fn lossy_text(bytes: Seq<u8>) -> Seq<char>;

/// `s` without the whitespace it starts with.
pub open spec fn skip_leading(s: Seq<char>) -> Seq<char>
    decreases s.len(),
{
    if s.len() > 0 && is_white_space(s[0]) {
        skip_leading(s.drop_first())
    } else {
        s
    }
}

/// `s` without the whitespace it ends with.
pub open spec fn skip_trailing(s: Seq<char>) -> Seq<char>
    decreases s.len(),
{
    if s.len() > 0 && is_white_space(s.last()) {
        skip_trailing(s.drop_last())
    } else {
        s
    }
}

/// `s` without the whitespace at either end.
pub open spec fn trimmed(s: Seq<char>) -> Seq<char> {
    skip_trailing(skip_leading(s))
}

/// The number of characters of `s` before the first `stop`, or the length
/// of `s` if `stop` does not occur in it.
pub open spec fn span_len(s: Seq<char>, stop: char) -> int
    decreases s.len(),
{
    if s.len() == 0 || s[0] == stop {
        0
    } else {
        1 + span_len(s.drop_first(), stop)
    }
}

/// A span ends within the text, at the first `stop` if there is one.
pub proof fn lemma_span_len(s: Seq<char>, stop: char)
    ensures
        0 <= span_len(s, stop) <= s.len(),
        span_len(s, stop) < s.len() ==> s[span_len(s, stop)] == stop,
        forall|i: int| 0 <= i < span_len(s, stop) ==> s[i] != stop,
        s.len() > 0 && s[0] != stop ==> span_len(s, stop) > 0,
    decreases s.len(),
{
    if !(s.len() == 0 || s[0] == stop) {
        let rest = s.drop_first();
        lemma_span_len(rest, stop);
        assert forall|i: int| 0 <= i < span_len(s, stop) implies s[i] != stop by {
            if i > 0 {
                assert(s[i] == rest[i - 1]);
            }
        }
        if span_len(s, stop) < s.len() {
            assert(s[span_len(s, stop)] == rest[span_len(rest, stop)]);
        }
    }
}

/// Specifies `char::is_whitespace`: it tells whether a character is
/// whitespace in the sense of Unicode, which holds of the characters that
/// `is_white_space` lists and of no others.
pub assume_specification[ char::is_whitespace ](c: char) -> (b: bool)
    ensures
        b == is_white_space(c),
;

/// Decodes bytes as UTF-8, with U+FFFD in place of what is malformed.
///
/// Calls `String::from_utf8_lossy`. Trusted: the result depends on the
/// bytes alone, and well-formed UTF-8 is decoded as it stands.
#[verifier::external_body]
pub(crate) fn decode_lossy(bytes: &[u8]) -> (text: String)
    ensures
        text@ == lossy_text(bytes@),
        valid_utf8(bytes@) ==> text@ == decode_utf8(bytes@),
{
    String::from_utf8_lossy(bytes).into_owned()
}

/// `s` without the whitespace at its end.
pub fn trim_tail(s: &str) -> (r: String)
    ensures
        r@ == skip_trailing(s@),
{
    let chars = to_chars(s);
    let end: usize = tail_start(&chars, 0);
    assert(chars@.skip(0) =~= chars@);
    let r = from_chars(slice_subrange(chars.as_slice(), 0, end));
    assert(r@ =~= chars@.take(end as int));
    r
}

/// `s` without the whitespace at either end.
pub fn trim_both(s: &str) -> (r: String)
    ensures
        r@ == trimmed(s@),
{
    let chars = to_chars(s);
    let mut start: usize = 0;
    assert(chars@.skip(0) =~= chars@);
    while start < chars.len() && chars[start].is_whitespace()
        invariant
            start <= chars.len(),
            skip_leading(chars@) == skip_leading(chars@.skip(start as int)),
        decreases chars.len() - start,
    {
        assert(chars@.skip(start as int).drop_first() =~= chars@.skip(start + 1));
        start += 1;
    }
    let end: usize = tail_start(&chars, start);
    let r = from_chars(slice_subrange(chars.as_slice(), start, end));
    assert(r@ =~= chars@.skip(start as int).take(end - start));
    r
}

/// Where the whitespace begins with which `chars` end, looking no further
/// back than `from`.
fn tail_start(chars: &Vec<char>, from: usize) -> (end: usize)
    requires
        from <= chars.len(),
    ensures
        from <= end <= chars.len(),
        skip_trailing(chars@.skip(from as int)) == chars@.skip(from as int).take(end - from),
{
    let ghost rest = chars@.skip(from as int);
    let mut end: usize = chars.len();
    assert(rest.take(end - from) =~= rest);
    while end > from && chars[end - 1].is_whitespace()
        invariant
            from <= end <= chars.len(),
            rest == chars@.skip(from as int),
            skip_trailing(rest) == skip_trailing(rest.take(end - from)),
        decreases end,
    {
        assert(rest.take(end - from).last() == chars@[end - 1]);
        assert(rest.take(end - from).drop_last() =~= rest.take(end - from - 1));
        end -= 1;
    }
    proof {
        if end > from {
            assert(rest.take(end - from).last() == chars@[end - 1]);
        }
    }
    end
}

/// The bytes of two texts, one after the other, are the bytes of the one
/// text made of both.
pub proof fn lemma_encode_concat(a: Seq<char>, b: Seq<char>)
    ensures
        encode_utf8(a + b) == encode_utf8(a) + encode_utf8(b),
    decreases a.len(),
{
    if a.len() == 0 {
        assert(a + b =~= b);
        assert(encode_utf8(a) + encode_utf8(b) =~= encode_utf8(b));
    } else {
        lemma_encode_concat(a.drop_first(), b);
        assert((a + b).drop_first() =~= a.drop_first() + b);
        assert(encode_utf8(a + b) =~= encode_utf8(a) + encode_utf8(b));
    }
}

/// Calls `String::push`. Trusted: the character is added at the end.
#[verifier::external_body]
pub(crate) fn push_char(s: &mut String, c: char)
    ensures
        final(s)@ == old(s)@.push(c),
{
    s.push(c)
}

/// The characters of a string, one by one.
pub fn to_chars(s: &str) -> (chars: Vec<char>)
    ensures
        chars@ == s@,
{
    let mut chars: Vec<char> = Vec::new();
    for c in it: s.chars()
        invariant
            chars@ == it.seq().take(it.index()),
            it.seq() == s@,
    {
        chars.push(c);
    }
    chars
}

/// The place of the first `stop` at or after `from`, or the length of
/// `chars` if there is none.
pub fn span_end(chars: &Vec<char>, from: usize, stop: char) -> (end: usize)
    requires
        from <= chars.len(),
    ensures
        from <= end <= chars.len(),
        end - from == span_len(chars@.skip(from as int), stop),
{
    let mut end: usize = from;
    while end < chars.len() && chars[end] != stop
        invariant
            from <= end <= chars.len(),
            span_len(chars@.skip(from as int), stop) == (end - from) + span_len(
                chars@.skip(end as int),
                stop,
            ),
        decreases chars.len() - end,
    {
        assert(chars@.skip(end as int).drop_first() =~= chars@.skip(end + 1));
        end += 1;
    }
    end
}

/// The string made of the given characters.
pub fn from_chars(chars: &[char]) -> (s: String)
    ensures
        s@ == chars@,
{
    let mut s = String::new();
    let mut i: usize = 0;
    while i < chars.len()
        invariant
            i <= chars.len(),
            s@ == chars@.take(i as int),
        decreases chars.len() - i,
    {
        push_char(&mut s, chars[i]);
        i += 1;
    }
    s
}

} // verus!
