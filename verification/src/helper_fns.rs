//! Helpers of the terminal client: breaking a line into rows, and the
//! colour of a name.
//!
//! The length of a line and of its rows is measured in bytes. The place
//! of a break is looked for among characters, and the number found is
//! then taken as a number of bytes. On lines of one byte to the character
//! the two agree; on others a line can be broken only where the place
//! found happens to lie between two characters.

use vstd::prelude::*;
use std::collections::hash_map::DefaultHasher;
use std::hash::Hash;
use std::hash::Hasher;
use vstd::std_specs::hash::DefaultHasherAdditionalSpecFns;
use vstd::slice::slice_subrange;
use vstd::string::{StrSliceExecFns, StringExecFns};
use vstd::utf8::{decode_utf8, encode_utf8, encode_utf8_decode_utf8, is_char_boundary};
use crate::text::{from_chars, is_white_space, push_char, to_chars};

verus! {

/// What a line of the server itself starts with, as the client sees it.
pub const SYSTEM_MSG_PREFIX: &'static str = "SYSTEM: ";

/// `line` without the system prefix, if it starts with it.
pub open spec fn strip_system_prefix(line: Seq<char>) -> Seq<char> {
    if SYSTEM_MSG_PREFIX@.is_prefix_of(line) {
        line.skip(SYSTEM_MSG_PREFIX@.len() as int)
    } else {
        line
    }
}

/// The end of the last whitespace among the first `i` characters of `s`,
/// or 0 if there is none.
pub open spec fn last_break(s: Seq<char>, i: int) -> int
    decreases i,
{
    if i <= 0 {
        0
    } else if is_white_space(s[i - 1]) {
        i
    } else {
        last_break(s, i - 1)
    }
}

/// Where the first row ends of a text that is longer than `width`: behind
/// the last whitespace among the first `width` characters, or at `width`
/// if none of them is whitespace.
pub open spec fn row_len(s: Seq<char>, width: int) -> int {
    let i = last_break(s, width);
    if 0 < i <= width {
        i
    } else {
        width
    }
}

/// The bytes of the line `line` once a system prefix is left out.
pub open spec fn line_bytes(line: Seq<char>) -> Seq<u8> {
    encode_utf8(strip_system_prefix(line))
}

/// How many bytes the first row takes of a text of the bytes `b` that is
/// longer than `width`. The place is found by counting characters and is
/// then taken as a number of bytes.
pub open spec fn cut(b: Seq<u8>, width: int) -> int {
    row_len(decode_utf8(b), width)
}

/// The text of the bytes `b` can be broken into rows: wherever it is
/// longer than `width` bytes, it has `width` characters to look through
/// for whitespace, and the place found for the break lies between two
/// characters. A window without width breaks no text but the empty one.
pub open spec fn can_wrap(b: Seq<u8>, width: int) -> bool
    decreases b.len(),
{
    if b.len() <= width {
        true
    } else if width <= 0 {
        false
    } else {
        &&& decode_utf8(b).len() >= width
        &&& is_char_boundary(b, cut(b, width))
        &&& can_wrap(b.skip(cut(b, width)), width)
    }
}

/// The text of the bytes `b` with a newline put in after each row but
/// the last.
pub open spec fn wrapped(b: Seq<u8>, width: int) -> Seq<char>
    decreases b.len(),
{
    if width <= 0 || b.len() <= width {
        decode_utf8(b)
    } else {
        decode_utf8(b.take(cut(b, width))) + seq!['\n'] + wrapped(b.skip(cut(b, width)), width)
    }
}

/// The number of rows that the text of the bytes `b` is broken into.
pub open spec fn row_count(b: Seq<u8>, width: int) -> int
    decreases b.len(),
{
    if width <= 0 || b.len() <= width {
        1
    } else {
        1 + row_count(b.skip(cut(b, width)), width)
    }
}

/// The bytes of the rows that the text of the bytes `b` is broken into,
/// first to last.
pub open spec fn rows(b: Seq<u8>, width: int) -> Seq<Seq<u8>>
    decreases b.len(),
{
    if width <= 0 || b.len() <= width {
        seq![b]
    } else {
        seq![b.take(cut(b, width))] + rows(b.skip(cut(b, width)), width)
    }
}

/// The number of bytes of the last row.
pub open spec fn last_row_len(b: Seq<u8>, width: int) -> int {
    rows(b, width).last().len() as int
}

/// The number of rows that showing the text takes. Where the text is
/// being typed and its last row is full, the cursor takes one row more.
pub open spec fn lines_used(b: Seq<u8>, width: int, input_mode: bool) -> int {
    row_count(b, width) + if input_mode && last_row_len(b, width) == width {
        1int
    } else {
        0int
    }
}

/// A text has at least one row, and no more rows than bytes.
pub proof fn lemma_row_count_bounds(b: Seq<u8>, width: int)
    ensures
        1 <= row_count(b, width),
        row_count(b, width) <= b.len() || row_count(b, width) == 1,
    decreases b.len(),
{
    if !(width <= 0 || b.len() <= width) {
        lemma_row_count_bounds(b.skip(cut(b, width)), width);
    }
}

/// What breaking a text into rows comes to: the rows, put together, are
/// the text; there are as many as were counted; and none of them takes
/// more bytes than the window is wide.
pub proof fn lemma_rows(b: Seq<u8>, width: int)
    requires
        width >= 1,
    ensures
        rows(b, width).len() == row_count(b, width),
        rows(b, width).flatten() == b,
        forall|i: int|
            0 <= i < rows(b, width).len() ==> (#[trigger] rows(b, width)[i]).len() <= width,
        b.len() > width ==> rows(b, width).last() == rows(b.skip(cut(b, width)), width).last(),
    decreases b.len(),
{
    let all = rows(b, width);
    if b.len() <= width {
        assert(all.drop_first() =~= Seq::<Seq<u8>>::empty());
        assert(all.drop_first().flatten() =~= Seq::<u8>::empty());
        assert(all.flatten() =~= b);
    } else {
        let n = cut(b, width);
        let rest = rows(b.skip(n), width);
        lemma_rows(b.skip(n), width);
        lemma_row_count_bounds(b.skip(n), width);
        assert(all.drop_first() =~= rest);
        assert(all.flatten() =~= b.take(n) + rest.flatten());
        assert(b.take(n) + b.skip(n) =~= b);
        assert forall|i: int| 0 <= i < all.len() implies (#[trigger] all[i]).len() <= width by {
            if i > 0 {
                assert(all[i] == rest[i - 1]);
            }
        }
        assert(all.last() == rest.last());
    }
}

/// The colours in which the client shows lines.
#[derive(Clone, Copy, Debug, PartialEq, Eq, Structural)]
pub enum Color {
    LightGreen,
    LightBlue,
    LightMagenta,
    LightCyan,
    White,
    Blue,
    Magenta,
    Cyan,
    LightYellow,
    /// The colour that the terminal uses by itself.
    Reset,
}

/// What hashing the name `uname` writes into a hasher.
pub uninterp spec fn name_writes(uname: Seq<char>) -> Seq<Seq<u8>>;

/// The colours that names are shown in.
pub open spec fn palette() -> Seq<Color> {
    seq![
        Color::LightGreen,
        Color::LightBlue,
        Color::LightMagenta,
        Color::LightCyan,
        Color::White,
        Color::Blue,
        Color::Magenta,
        Color::Cyan,
    ]
}

/// The colour of the name `uname`: its hash picks it from the palette.
pub open spec fn name_color(uname: Seq<char>) -> Color {
    palette()[(DefaultHasher::spec_finish(name_writes(uname)) % 8) as int]
}

/// Hashes a name into `hasher`.
///
/// Calls `Hash::hash` of `str`. Trusted: what it writes into the hasher
/// depends on the name alone and comes after what was written before.
#[verifier::external_body]
fn hash_name(uname: &str, hasher: &mut DefaultHasher)
    ensures
        final(hasher)@ == old(hasher)@ + name_writes(uname@),
{
    uname.hash(hasher)
}

/// The colour in which the lines of `uname` are shown: always the same
/// for one name, and one of the eight of the palette.
pub fn gen_color(uname: String) -> (color: Color)
    ensures
        color == name_color(uname@),
        palette().contains(color),
{
    let mut hasher = DefaultHasher::new();
    hash_name(uname.as_str(), &mut hasher);
    let hash: u64 = hasher.finish();
    assert(hasher@ =~= name_writes(uname@));
    let colors = [
        Color::LightGreen,
        Color::LightBlue,
        Color::LightMagenta,
        Color::LightCyan,
        Color::White,
        Color::Blue,
        Color::Magenta,
        Color::Cyan,
    ];
    let index: u64 = hash % 8;
    assert(colors@ =~= palette());
    assert(palette()[index as int] == colors@[index as int]);
    colors[index as usize]
}

/// Whether `text` starts with `prefix`.
fn starts_with(text: &Vec<char>, prefix: &Vec<char>) -> (yes: bool)
    ensures
        yes == prefix@.is_prefix_of(text@),
{
    if prefix.len() > text.len() {
        return false;
    }
    let mut i: usize = 0;
    while i < prefix.len()
        invariant
            i <= prefix.len() <= text.len(),
            forall|j: int| 0 <= j < i ==> prefix@[j] == text@[j],
        decreases prefix.len() - i,
    {
        if prefix[i] != text[i] {
            assert(prefix@[i as int] != text@.subrange(0, prefix@.len() as int)[i as int]);
            return false;
        }
        i += 1;
    }
    assert(prefix@ =~= text@.subrange(0, prefix@.len() as int));
    true
}

/// Whether `chars` start with the system prefix.
pub fn has_system_prefix(chars: &Vec<char>) -> (yes: bool)
    ensures
        yes == SYSTEM_MSG_PREFIX@.is_prefix_of(chars@),
{
    let prefix = to_chars(SYSTEM_MSG_PREFIX);
    starts_with(chars, &prefix)
}

/// `line` without the system prefix, if it starts with it.
pub fn strip_prefix(line: &str) -> (rest: String)
    ensures
        rest@ == strip_system_prefix(line@),
{
    let chars = to_chars(line);
    let prefix = to_chars(SYSTEM_MSG_PREFIX);
    let start: usize = if starts_with(&chars, &prefix) {
        prefix.len()
    } else {
        0
    };
    let rest = from_chars(slice_subrange(chars.as_slice(), start, chars.len()));
    assert(rest@ =~= chars@.skip(start as int));
    rest
}

/// Breaks `text` into rows of at most `width` bytes. Returns the rows,
/// joined by newlines, their number, and the number of bytes of the last
/// of them; nothing where the text cannot be broken.
pub fn wrap_text(text: &str, width: usize) -> (r: Option<(String, usize, usize)>)
    ensures
        r is Some == can_wrap(encode_utf8(text@), width as int),
        match r {
            Some((out, count, last)) => {
                &&& out@ == wrapped(encode_utf8(text@), width as int)
                &&& count == row_count(encode_utf8(text@), width as int)
                &&& last == last_row_len(encode_utf8(text@), width as int)
            },
            None => true,
        },
{
    let ghost whole = encode_utf8(text@);
    let ghost w = width as int;
    let size: usize = text.as_bytes().len();
    let mut out = String::new();
    let mut cur: &str = text;
    let mut count: usize = 1;
    proof {
        lemma_row_count_bounds(whole, w);
    }
    while cur.as_bytes().len() > width
        invariant
            w == width,
            whole == encode_utf8(text@),
            whole.len() == size,
            can_wrap(encode_utf8(cur@), w) == can_wrap(whole, w),
            out@ + wrapped(encode_utf8(cur@), w) == wrapped(whole, w),
            count - 1 + row_count(encode_utf8(cur@), w) == row_count(whole, w),
            last_row_len(encode_utf8(cur@), w) == last_row_len(whole, w),
            count >= 1,
            row_count(whole, w) <= whole.len() || row_count(whole, w) == 1,
        decreases encode_utf8(cur@).len(),
    {
        let ghost b = encode_utf8(cur@);
        proof {
            encode_utf8_decode_utf8(cur@);
        }
        if width == 0 {
            return None;
        }
        let n: usize = cur.unicode_len();
        if n < width {
            return None;
        }
        let mut i: usize = width;
        while i >= 1 && !cur.get_char(i - 1).is_whitespace()
            invariant
                i <= width <= cur@.len(),
                last_break(cur@, width as int) == last_break(cur@, i as int),
            decreases i,
        {
            i -= 1;
        }
        if i == 0 {
            i = width;
        }
        assert(i == cut(b, w));
        if !cur.is_char_boundary(i) {
            return None;
        }
        let (left, right) = cur.split_at(i);
        proof {
            lemma_row_count_bounds(b.skip(i as int), w);
            lemma_rows(b, w);
            assert(encode_utf8(left@) =~= b.take(i as int));
            assert(encode_utf8(right@) =~= b.skip(i as int));
            encode_utf8_decode_utf8(left@);
        }
        let ghost before = out@;
        out.append(left);
        push_char(&mut out, '\n');
        assert(out@ =~= before + (decode_utf8(b.take(i as int)) + seq!['\n']));
        assert(out@ + wrapped(b.skip(i as int), w) =~= before + wrapped(b, w));
        count += 1;
        cur = right;
    }
    proof {
        encode_utf8_decode_utf8(cur@);
    }
    out.append(cur);
    Some((out, count, cur.as_bytes().len()))
}

/// Breaks `line` into rows as `split_line` does, where it can. Returns
/// the rows, joined by newlines, their number, and the number of bytes of
/// the last of them; nothing where `line` cannot be broken.
pub fn wrap_line(line: &str, width: usize) -> (r: Option<(String, usize, usize)>)
    ensures
        r is Some == can_wrap(line_bytes(line@), width as int),
        match r {
            Some((out, count, last)) => {
                &&& out@ == wrapped(line_bytes(line@), width as int)
                &&& count == row_count(line_bytes(line@), width as int)
                &&& last == last_row_len(line_bytes(line@), width as int)
            },
            None => true,
        },
{
    let rest = strip_prefix(line);
    wrap_text(rest.as_str(), width)
}

/// Breaks `line` into rows of at most `width` bytes, for a window that is
/// `width` wide.
///
/// A system prefix is left out. A row ends after the last whitespace
/// among its first `width` characters; a stretch without whitespace is
/// cut at `width`. The rows come back joined by newlines, with the number
/// of rows that the window needs for them.
pub fn split_line(line: &str, width: usize, input_mode: bool) -> (r: (String, u16))
    requires
        can_wrap(line_bytes(line@), width as int),
        lines_used(line_bytes(line@), width as int, input_mode) <= u16::MAX,
    ensures
        r.0@ == wrapped(line_bytes(line@), width as int),
        r.1 == lines_used(line_bytes(line@), width as int, input_mode),
{
    let (out, count, last) = wrap_line(line, width).unwrap();
    let mut lines: u16 = count as u16;
    if last == width && input_mode {
        lines += 1;
    }
    (out, lines)
}

/// Breaks `line` into rows as `split_line` does, where it can: where the
/// line can be broken for a window `width` wide and the rows that the
/// window needs can be counted in 16 bits. Otherwise nothing comes back.
pub fn try_split_line(line: &str, width: usize, input_mode: bool) -> (r: Option<(String, u16)>)
    ensures
        r is Some == (can_wrap(line_bytes(line@), width as int) && lines_used(
            line_bytes(line@),
            width as int,
            input_mode,
        ) <= u16::MAX),
        match r {
            Some((text, lines)) => {
                &&& text@ == wrapped(line_bytes(line@), width as int)
                &&& lines == lines_used(line_bytes(line@), width as int, input_mode)
            },
            None => true,
        },
{
    match wrap_line(line, width) {
        None => None,
        Some((_, count, last)) => {
            let caret: usize = if last == width && input_mode {
                1
            } else {
                0
            };
            if count > 65535 - caret {
                None
            } else {
                Some(split_line(line, width, input_mode))
            }
        },
    }
}

} // verus!
