//! What the terminal client keeps between two frames: the line being
//! typed, the cursor in it, and the lines received so far.
//!
//! The cursor is a number of bytes into the line and moves by one byte at
//! a time. A character goes in or out only where the cursor stands
//! between two characters.

use vstd::prelude::*;
use vstd::slice::slice_subrange;
use vstd::string::{StrSliceExecFns, StringExecFns};
use vstd::utf8::{
    decode_utf8, decode_utf8_encode_utf8, encode_utf8, encode_utf8_decode_utf8,
    encode_utf8_valid_utf8, is_char_boundary, valid_utf8, valid_utf8_split,
};
use crate::text::{
    decode_lossy, from_chars, lemma_encode_concat, lemma_span_len, lossy_text, push_char, span_end,
    span_len, to_chars,
};

verus! {

/// Most bytes that a line being typed may take before a character is added.
pub const MAX_LENGTH: usize = 1000;

/// Most bytes taken from the server in one read: a line typed in full,
/// with the time and the name that the server puts before it.
pub const RECEIVE_LENGTH: usize = MAX_LENGTH + 24;

/// The state of the client.
pub struct App {
    /// The line being typed.
    pub input: String,
    /// The number of bytes of `input` before the cursor.
    pub cursor_position: usize,
    /// The lines received, oldest first.
    pub messages: Vec<String>,
    /// Whether the user has asked to leave.
    pub should_quit: bool,
}

/// The state of the client, as contracts see it.
pub struct AppView {
    pub input: Seq<char>,
    pub cursor_position: int,
    pub messages: Seq<Seq<char>>,
    pub should_quit: bool,
}

impl View for App {
    type V = AppView;

    open spec fn view(&self) -> AppView {
        AppView {
            input: self.input@,
            cursor_position: self.cursor_position as int,
            messages: self.messages.deep_view(),
            should_quit: self.should_quit,
        }
    }
}

/// The number of bytes that `s` takes on the wire.
pub open spec fn byte_len(s: Seq<char>) -> nat {
    encode_utf8(s).len()
}

/// The cursor stands inside the line or at its end.
pub open spec fn cursor_in_line(app: AppView) -> bool {
    0 <= app.cursor_position <= byte_len(app.input)
}

/// The place `at` bytes into `input` lies between two characters, at the
/// start or at the end.
pub open spec fn between_chars(input: Seq<char>, at: int) -> bool {
    is_char_boundary(encode_utf8(input), at)
}

/// What stands in the first `at` bytes of `input`.
pub open spec fn text_before(input: Seq<char>, at: int) -> Seq<char> {
    decode_utf8(encode_utf8(input).take(at))
}

/// What stands in `input` behind its first `at` bytes.
pub open spec fn text_after(input: Seq<char>, at: int) -> Seq<char> {
    decode_utf8(encode_utf8(input).skip(at))
}

/// A place between two characters parts the line in two, and it lies
/// within the line. A line with a character put in there takes at least
/// one byte more than stand before the place, and a line with the
/// character behind the place taken out takes no fewer.
pub proof fn lemma_parts(input: Seq<char>, at: int, c: char)
    requires
        between_chars(input, at),
    ensures
        0 <= at <= byte_len(input),
        input == text_before(input, at) + text_after(input, at),
        byte_len(text_before(input, at)) == at,
        byte_len(text_before(input, at) + seq![c] + text_after(input, at)) > at,
        byte_len(text_before(input, at) + text_after(input, at).drop_first()) >= at,
{
    let b = encode_utf8(input);
    let left = text_before(input, at);
    let right = text_after(input, at);
    encode_utf8_valid_utf8(input);
    encode_utf8_decode_utf8(input);
    assert(0 <= at <= b.len()) by {
        reveal_with_fuel(is_char_boundary, 2);
    }
    valid_utf8_split(b, at);
    vstd::utf8::decode_utf8_split(b, at);
    assert(b.take(at) =~= b.subrange(0, at));
    assert(b.skip(at) =~= b.subrange(at, b.len() as int));
    decode_utf8_encode_utf8(b.take(at));
    lemma_encode_concat(left, seq![c] + right);
    lemma_encode_concat(left, right.drop_first());
    assert(left + seq![c] + right =~= left + (seq![c] + right));
    assert((seq![c] + right).drop_first() =~= right);
    assert(encode_utf8(seq![c] + right).len() > 0);
}


/// The lines of `s`, which newlines part, without those that are empty.
pub open spec fn nonempty_lines(s: Seq<char>) -> Seq<Seq<char>>
    decreases s.len(),
{
    let n = span_len(s, '\n');
    if s.len() == 0 {
        seq![]
    } else if 0 < n <= s.len() {
        seq![s.take(n)] + nonempty_lines(s.skip(n))
    } else {
        nonempty_lines(s.drop_first())
    }
}

/// `line` is not empty and holds no newline.
pub open spec fn is_line(line: Seq<char>) -> bool {
    line.len() > 0 && forall|j: int| 0 <= j < line.len() ==> line[j] != '\n'
}

/// None of the lines taken from a text is empty or holds a newline.
pub proof fn lemma_nonempty_lines(s: Seq<char>)
    ensures
        forall|i: int|
            0 <= i < nonempty_lines(s).len() ==> is_line(#[trigger] nonempty_lines(s)[i]),
    decreases s.len(),
{
    let n = span_len(s, '\n');
    let lines = nonempty_lines(s);
    lemma_span_len(s, '\n');
    if s.len() == 0 {
        assert(lines.len() == 0);
    } else if 0 < n <= s.len() {
        lemma_nonempty_lines(s.skip(n));
        let rest = nonempty_lines(s.skip(n));
        let first = s.take(n);
        assert(lines == seq![first] + rest);
        assert(is_line(first));
        assert forall|i: int| 0 <= i < lines.len() implies is_line(#[trigger] lines[i]) by {
            if i > 0 {
                assert(lines[i] == rest[i - 1]);
            }
        }
    } else {
        lemma_nonempty_lines(s.drop_first());
        assert(lines == nonempty_lines(s.drop_first()));
    }
}

impl App {
    /// A client that has typed and received nothing.
    pub fn new() -> (app: App)
        ensures
            app@ == (AppView {
                input: Seq::empty(),
                cursor_position: 0,
                messages: Seq::empty(),
                should_quit: false,
            }),
    {
        let app = App {
            input: String::new(),
            cursor_position: 0,
            messages: Vec::new(),
            should_quit: false,
        };
        assert(app.messages.deep_view() =~= Seq::<Seq<char>>::empty());
        app
    }

    /// Moves the cursor one byte to the left, unless it stands at the
    /// start.
    pub fn move_cursor_left(&mut self)
        ensures
            final(self)@ == (AppView {
                cursor_position: if old(self)@.cursor_position > 0 {
                    old(self)@.cursor_position - 1
                } else {
                    0
                },
                ..old(self)@
            }),
    {
        if self.cursor_position > 0 {
            self.cursor_position -= 1;
        }
    }

    /// Moves the cursor one byte to the right, unless it stands at the end
    /// of the line or beyond.
    pub fn move_cursor_right(&mut self)
        ensures
            final(self)@ == (AppView {
                cursor_position: if old(self)@.cursor_position < byte_len(old(self)@.input) {
                    old(self)@.cursor_position + 1
                } else {
                    old(self)@.cursor_position
                },
                ..old(self)@
            }),
    {
        if self.cursor_position < self.input.as_str().as_bytes().len() {
            self.cursor_position += 1;
        }
    }

    /// Puts `c` in at the cursor and moves the cursor one byte on. A line
    /// that already takes `MAX_LENGTH` bytes or more is left as it is.
    pub fn add_char(&mut self, c: char)
        requires
            byte_len(old(self)@.input) < MAX_LENGTH ==> between_chars(
                old(self)@.input,
                old(self)@.cursor_position,
            ),
        ensures
            byte_len(old(self)@.input) >= MAX_LENGTH ==> final(self)@ == old(self)@,
            byte_len(old(self)@.input) < MAX_LENGTH ==> final(self)@ == (AppView {
                input: text_before(old(self)@.input, old(self)@.cursor_position) + seq![c]
                    + text_after(old(self)@.input, old(self)@.cursor_position),
                cursor_position: old(self)@.cursor_position + 1,
                ..old(self)@
            }),
    {
        if self.input.as_str().as_bytes().len() >= MAX_LENGTH {
            return ;
        }
        let ghost line = self.input@;
        let ghost at = self.cursor_position as int;
        let (left, right) = self.input.as_str().split_at(self.cursor_position);
        let mut text = String::from_str(left);
        push_char(&mut text, c);
        text.append(right);
        proof {
            lemma_parts(line, at, c);
            assert(encode_utf8(left@) =~= encode_utf8(line).take(at));
            assert(encode_utf8(right@) =~= encode_utf8(line).skip(at));
            encode_utf8_decode_utf8(left@);
            encode_utf8_decode_utf8(right@);
            assert(text@ =~= text_before(line, at) + seq![c] + text_after(line, at));
        }
        self.input = text;
        self.move_cursor_right();
    }

    /// Takes out the character that begins one byte before the cursor and
    /// moves the cursor back by that byte, unless it stands at the start.
    pub fn remove_char(&mut self)
        requires
            old(self)@.cursor_position > 0 ==> old(self)@.cursor_position <= byte_len(
                old(self)@.input,
            ) && between_chars(old(self)@.input, old(self)@.cursor_position - 1),
        ensures
            old(self)@.cursor_position == 0 ==> final(self)@ == old(self)@,
            old(self)@.cursor_position > 0 ==> final(self)@ == (AppView {
                input: text_before(old(self)@.input, old(self)@.cursor_position - 1) + text_after(
                    old(self)@.input,
                    old(self)@.cursor_position - 1,
                ).drop_first(),
                cursor_position: old(self)@.cursor_position - 1,
                ..old(self)@
            }),
    {
        if self.cursor_position > 0 {
            self.cursor_position -= 1;
            let ghost line = self.input@;
            let ghost at = self.cursor_position as int;
            let (left, right) = self.input.as_str().split_at(self.cursor_position);
            proof {
                assert(encode_utf8(left@) =~= encode_utf8(line).take(at));
                assert(encode_utf8(right@) =~= encode_utf8(line).skip(at));
                encode_utf8_decode_utf8(left@);
                encode_utf8_decode_utf8(right@);
                assert(right@.len() > 0);
            }
            let rest = right.substring_char(1, right.unicode_len());
            assert(rest@ =~= right@.drop_first());
            let mut text = String::from_str(left);
            text.append(rest);
            self.input = text;
        }
    }

    /// Puts the cursor at the start of the line.
    pub fn reset_cursor(&mut self)
        ensures
            final(self)@ == (AppView { cursor_position: 0, ..old(self)@ }),
    {
        self.cursor_position = 0;
    }

    /// What is to be sent to the server when the line is submitted: the
    /// line as it stands, or nothing if it is empty.
    pub fn submit_message(&self) -> (send: Option<String>)
        ensures
            self@.input.len() == 0 ==> send is None,
            self@.input.len() > 0 ==> send is Some && send->0@ == self@.input,
    {
        if !self.input.as_str().is_empty() {
            Some(self.input.clone())
        } else {
            None
        }
    }

    /// Empties the line being typed.
    pub fn clear_input(&mut self)
        ensures
            final(self)@ == (AppView { input: Seq::empty(), ..old(self)@ }),
    {
        self.input = String::new();
    }

    /// Makes room for the next line once the line typed has been sent: the
    /// line is emptied and the cursor put at its start.
    pub fn line_sent(&mut self)
        ensures
            final(self)@ == (AppView { input: Seq::empty(), cursor_position: 0, ..old(self)@ }),
    {
        self.reset_cursor();
        self.clear_input();
    }

    /// Takes in what one read from the server gave: each line of it that
    /// is not empty is added to the lines received.
    pub fn get_messages(&mut self, received: &[u8])
        requires
            received@.len() == 0 || received@.last() == 10u8,
        ensures
            final(self)@ == (AppView {
                messages: old(self)@.messages + nonempty_lines(lossy_text(received@)),
                ..old(self)@
            }),
            valid_utf8(received@) ==> lossy_text(received@) == decode_utf8(received@),
    {
        let text = decode_lossy(received);
        let chars = to_chars(text.as_str());
        let ghost all = chars@;
        let ghost before = self@.messages;
        let mut pos: usize = 0;
        assert(all.skip(0) =~= all);
        while pos < chars.len()
            invariant
                pos <= chars.len(),
                all == chars@,
                self@ == (AppView {
                    messages: self@.messages,
                    ..old(self)@
                }),
                self@.messages + nonempty_lines(all.skip(pos as int)) == before + nonempty_lines(
                    all,
                ),
            decreases chars.len() - pos,
        {
            let ghost rest = all.skip(pos as int);
            let ghost sofar = self@.messages;
            proof {
                lemma_span_len(rest, '\n');
            }
            if chars[pos] == '\n' {
                assert(rest.drop_first() =~= all.skip(pos + 1));
                pos += 1;
            } else {
                let end: usize = span_end(&chars, pos, '\n');
                let line = from_chars(slice_subrange(chars.as_slice(), pos, end));
                assert(line@ =~= rest.take(span_len(rest, '\n')));
                assert(rest.skip(span_len(rest, '\n')) =~= all.skip(end as int));
                self.messages.push(line);
                assert(self@.messages =~= sofar.push(line@));
                assert(self@.messages + nonempty_lines(all.skip(end as int)) =~= sofar
                    + nonempty_lines(rest));
                pos = end;
            }
        }
        assert(nonempty_lines(all.skip(pos as int)) =~= Seq::<Seq<char>>::empty());
        assert(self@.messages =~= before + nonempty_lines(all));
    }
}

} // verus!
