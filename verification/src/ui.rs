//! What the client shows: where the parts of the screen lie, which lines
//! fit into the window, in which colours, and where the cursor stands.
//! Nothing is drawn here; a [`Screen`] says what is to be drawn.

use vstd::prelude::*;
use vstd::slice::slice_subrange;
use vstd::utf8::decode_utf8;
use crate::app::{App, AppView};
use crate::helper_fns::{
    can_wrap, gen_color, has_system_prefix, lemma_row_count_bounds, line_bytes, lines_used,
    name_color, row_count, strip_system_prefix, wrap_line, wrapped, Color, SYSTEM_MSG_PREFIX,
};
use crate::text::{from_chars, span_end, span_len, to_chars};

verus! {

/// A rectangle of cells of the terminal.
#[derive(Clone, Copy, Debug, PartialEq, Eq, Structural)]
pub struct Rect {
    pub x: u16,
    pub y: u16,
    pub width: u16,
    pub height: u16,
}

/// What is asked of the height of one part of the screen.
#[derive(Clone, Copy, Debug, PartialEq, Eq, Structural)]
pub enum Constraint {
    /// Exactly this many rows.
    Length(u16),
    /// At least this many rows.
    Min(u16),
}

/// One line of the window.
#[derive(Debug)]
pub struct Item {
    /// The text, broken into rows.
    pub text: String,
    pub color: Color,
}

/// What stands below the help line.
#[derive(Debug)]
pub enum Body {
    /// The terminal is too low for the line being typed: a warning takes
    /// the place of the input box.
    TooSmall,
    /// The window of lines, and the input box with the cursor in it.
    Chat { items: Vec<Item>, user_input: String, cursor: (u16, u16) },
}

/// What is to be drawn.
#[derive(Debug)]
pub struct Screen {
    /// Where the help line goes.
    pub help_area: Rect,
    /// Where the window of lines goes.
    pub messages_area: Rect,
    /// Where the input box goes.
    pub input_area: Rect,
    pub body: Body,
}

/// A line of the window, as contracts see it.
pub struct ItemView {
    pub text: Seq<char>,
    pub color: Color,
}

/// What stands below the help line, as contracts see it.
pub enum BodyView {
    TooSmall,
    Chat { items: Seq<ItemView>, user_input: Seq<char>, cursor: (int, int) },
}

/// What is to be drawn, as contracts see it.
pub struct ScreenView {
    pub help_area: Rect,
    pub messages_area: Rect,
    pub input_area: Rect,
    pub body: BodyView,
}

impl View for Item {
    type V = ItemView;

    open spec fn view(&self) -> ItemView {
        ItemView { text: self.text@, color: self.color }
    }
}

impl DeepView for Item {
    type V = ItemView;

    open spec fn deep_view(&self) -> ItemView {
        self@
    }
}

impl View for Body {
    type V = BodyView;

    open spec fn view(&self) -> BodyView {
        match self {
            Body::TooSmall => BodyView::TooSmall,
            Body::Chat { items, user_input, cursor } => BodyView::Chat {
                items: items.deep_view(),
                user_input: user_input@,
                cursor: (cursor.0 as int, cursor.1 as int),
            },
        }
    }
}

impl View for Screen {
    type V = ScreenView;

    open spec fn view(&self) -> ScreenView {
        ScreenView {
            help_area: self.help_area,
            messages_area: self.messages_area,
            input_area: self.input_area,
            body: self.body@,
        }
    }
}

/// `chunks` are parts of `area` from top to bottom: each is as wide as the
/// area, begins at its left edge and lies within its rows, and none
/// begins above the end of the one before it.
pub open spec fn parts_of(chunks: Seq<Rect>, area: Rect) -> bool {
    &&& forall|i: int|
        0 <= i < chunks.len() ==> {
            &&& (#[trigger] chunks[i]).x == area.x
            &&& chunks[i].width == area.width
            &&& area.y <= chunks[i].y
            &&& chunks[i].y + chunks[i].height <= area.y + area.height
        }
    &&& forall|i: int, j: int|
        0 <= i < j < chunks.len() ==> (#[trigger] chunks[i]).y + chunks[i].height <= (
        #[trigger] chunks[j]).y
}

/// Splits `area` from top to bottom.
///
/// Calls `ratatui::layout::Layout::split` on a vertical layout without
/// margin and with the given constraints. Trusted: there is one part for
/// each constraint; each part is as wide as the area and begins at its
/// left edge; and the solver is held to keep the parts within the rows of
/// the area and in order from top to bottom. How high each part is, is
/// the solver's choice, which may differ from call to call.
#[verifier::external_body]
pub(crate) fn split_vertical(area: Rect, constraints: &Vec<Constraint>) -> (chunks: Vec<Rect>)
    ensures
        chunks@.len() == constraints@.len(),
        parts_of(chunks@, area),
{
    let constraints = constraints.iter().map(|c| match c {
        Constraint::Length(n) => ratatui::layout::Constraint::Length(*n),
        Constraint::Min(n) => ratatui::layout::Constraint::Min(*n),
    });
    let (x, y, width, height) = (area.x, area.y, area.width, area.height);
    let area = ratatui::layout::Rect { x, y, width, height };
    let layout = ratatui::layout::Layout::default()
        .direction(ratatui::layout::Direction::Vertical)
        .constraints(constraints);
    let parts = layout.split(area);
    parts.iter().map(|r| Rect { x: r.x, y: r.y, width: r.width, height: r.height }).collect()
}

/// What stands between the first and the second space of `m`.
pub open spec fn second_field(m: Seq<char>) -> Seq<char> {
    let rest = m.skip(span_len(m, ' ') + 1);
    rest.take(span_len(rest, ' '))
}

/// `m` has a colour: it is a system line, or empty, or has a space, behind
/// which the name of its sender stands.
pub open spec fn can_color(m: Seq<char>) -> bool {
    SYSTEM_MSG_PREFIX@.is_prefix_of(m) || m.len() == 0 || span_len(m, ' ') < m.len()
}

/// The colour of the line `m`: light yellow for a system line, the colour
/// of the sender's name for a chat line, the terminal's own for an empty
/// line.
pub open spec fn color_of(m: Seq<char>) -> Color {
    if SYSTEM_MSG_PREFIX@.is_prefix_of(m) {
        Color::LightYellow
    } else if m.len() > 0 {
        name_color(second_field(m))
    } else {
        Color::Reset
    }
}

/// The number of rows that the line `m` takes in a window `width` wide.
pub open spec fn rows_of(m: Seq<char>, width: int) -> int {
    row_count(line_bytes(m), width)
}

/// The number of rows that `msgs` take together.
pub open spec fn total_rows(msgs: Seq<Seq<char>>, width: int) -> int
    decreases msgs.len(),
{
    if msgs.len() == 0 {
        0
    } else {
        rows_of(msgs[0], width) + total_rows(msgs.drop_first(), width)
    }
}

/// `msgs` without as many of the oldest as must go for the rest to fit
/// into `height` rows, two of which the border takes; nothing if not even
/// the border fits.
pub open spec fn fit_window(msgs: Seq<Seq<char>>, width: int, height: int) -> Option<
    Seq<Seq<char>>,
>
    decreases msgs.len(),
{
    if total_rows(msgs, width) + 2 <= height {
        Some(msgs)
    } else if msgs.len() == 0 {
        None
    } else {
        fit_window(msgs.drop_first(), width, height)
    }
}

/// `n` empty lines.
pub open spec fn blanks(n: int) -> Seq<Seq<char>> {
    Seq::new(n as nat, |i: int| Seq::<char>::empty())
}

/// The lines that the window shows: `msgs` below as many empty lines as
/// it takes to fill the window, or the newest of `msgs` that fit.
pub open spec fn spec_fit(msgs: Seq<Seq<char>>, width: int, height: int) -> Option<
    Seq<Seq<char>>,
> {
    let total = total_rows(msgs, width);
    if total + 2 < height {
        Some(blanks(height - 2 - total) + msgs)
    } else {
        fit_window(msgs, width, height)
    }
}

/// The number of newlines in `s`.
pub open spec fn newlines(s: Seq<char>) -> int
    decreases s.len(),
{
    if s.len() == 0 {
        0
    } else if s.last() == '\n' {
        newlines(s.drop_last()) + 1
    } else {
        newlines(s.drop_last())
    }
}

/// The number of characters of `s` behind its last newline.
pub open spec fn column(s: Seq<char>) -> int
    decreases s.len(),
{
    if s.len() == 0 || s.last() == '\n' {
        0
    } else {
        column(s.drop_last()) + 1
    }
}

/// The first place at or after `from` where a character of `s` stands
/// that is no newline and has `cursor` such characters before it; the
/// length of `s` if there is no such place.
pub open spec fn cursor_stop(s: Seq<char>, from: int, cursor: int) -> int
    decreases s.len() - from,
{
    if from < 0 || from >= s.len() {
        s.len() as int
    } else if s[from] != '\n' && from - newlines(s.take(from)) == cursor {
        from
    } else {
        cursor_stop(s, from + 1, cursor)
    }
}

/// Where the cursor stands in the text `s` that was broken into rows,
/// when `cursor` characters of the line stand before it: its column and
/// its row, both counted from 0.
pub open spec fn cursor_at(s: Seq<char>, cursor: int) -> (int, int) {
    let stop = cursor_stop(s, 0, cursor);
    (column(s.take(stop)), newlines(s.take(stop)))
}

/// The items that show `kept` in a window `width` wide.
pub open spec fn items_of(kept: Seq<Seq<char>>, width: int) -> Seq<ItemView> {
    Seq::new(
        kept.len(),
        |i: int| ItemView { text: wrapped(line_bytes(kept[i]), width), color: color_of(kept[i]) },
    )
}

/// Every line of `msgs` can be broken into rows for a window `width`
/// wide.
pub open spec fn all_wrap(msgs: Seq<Seq<char>>, width: int) -> bool {
    forall|i: int| 0 <= i < msgs.len() ==> can_wrap(line_bytes(#[trigger] msgs[i]), width)
}

/// The rows of `msgs` can be counted: each line can be broken into rows,
/// and the rows are no more than 65535 in all.
pub open spec fn can_measure(msgs: Seq<Seq<char>>, width: int) -> bool {
    &&& all_wrap(msgs, width)
    &&& total_rows(msgs, width) <= u16::MAX
}

/// Every line of `kept` has a colour.
pub open spec fn all_colored(kept: Seq<Seq<char>>) -> bool {
    forall|i: int| 0 <= i < kept.len() ==> can_color(#[trigger] kept[i])
}

/// The newest lines take no more rows than all of them.
pub proof fn lemma_total_rows_of_newest(msgs: Seq<Seq<char>>, width: int, k: int)
    requires
        0 <= k <= msgs.len(),
    ensures
        0 <= total_rows(msgs.skip(k), width) <= total_rows(msgs, width),
    decreases msgs.len(),
{
    if msgs.len() == 0 {
        assert(msgs.skip(k) =~= msgs);
    } else if k == 0 {
        assert(msgs.skip(0) =~= msgs);
        lemma_row_count_bounds(line_bytes(msgs[0]), width);
        lemma_total_rows_of_newest(msgs.drop_first(), width, 0);
        assert(msgs.drop_first().skip(0) =~= msgs.drop_first());
    } else {
        lemma_row_count_bounds(line_bytes(msgs[0]), width);
        lemma_total_rows_of_newest(msgs.drop_first(), width, k - 1);
        assert(msgs.drop_first().skip(k - 1) =~= msgs.skip(k));
    }
}

/// An empty line takes one row, stays empty when broken into rows, and
/// can be broken into rows for any window.
pub proof fn lemma_blank(width: int)
    ensures
        rows_of(Seq::<char>::empty(), width) == 1,
        width >= 0 ==> can_wrap(line_bytes(Seq::<char>::empty()), width),
        wrapped(line_bytes(Seq::<char>::empty()), width) == Seq::<char>::empty(),
{
    let blank = Seq::<char>::empty();
    assert(strip_system_prefix(blank).len() == 0);
    assert(line_bytes(blank).len() == 0);
    assert(line_bytes(blank) =~= Seq::<u8>::empty());
    assert(decode_utf8(Seq::<u8>::empty()) =~= Seq::<char>::empty());
}

/// Empty lines on top take one row each.
pub proof fn lemma_total_rows_with_blanks(msgs: Seq<Seq<char>>, width: int, n: int)
    requires
        0 <= n,
    ensures
        total_rows(blanks(n) + msgs, width) == n + total_rows(msgs, width),
    decreases n,
{
    if n == 0 {
        assert(blanks(0) + msgs =~= msgs);
    } else {
        let all = blanks(n) + msgs;
        assert(all.drop_first() =~= blanks(n - 1) + msgs);
        assert(all[0] =~= Seq::<char>::empty());
        lemma_blank(width);
        lemma_total_rows_with_blanks(msgs, width, n - 1);
    }
}

/// The newest lines that fit do fit, and are what was received but for
/// the oldest lines.
pub proof fn lemma_fit_window(msgs: Seq<Seq<char>>, width: int, height: int)
    requires
        fit_window(msgs, width, height) is Some,
    ensures
        total_rows(fit_window(msgs, width, height)->0, width) + 2 <= height,
        exists|k: int|
            0 <= k <= msgs.len() && fit_window(msgs, width, height)->0 == #[trigger] msgs.skip(k),
    decreases msgs.len(),
{
    if total_rows(msgs, width) + 2 <= height {
        assert(msgs.skip(0) =~= msgs);
    } else {
        let rest = msgs.drop_first();
        lemma_fit_window(rest, width, height);
        let k = choose|k: int|
            0 <= k <= rest.len() && fit_window(rest, width, height)->0 == #[trigger] rest.skip(k);
        assert(rest.skip(k) =~= msgs.skip(k + 1));
    }
}

/// What the window shows fits into it: it is all that was received, under
/// empty lines that fill the window to the row, or what was received but
/// for the oldest lines.
pub proof fn lemma_fit_fits(msgs: Seq<Seq<char>>, width: int, height: int)
    requires
        spec_fit(msgs, width, height) is Some,
    ensures
        total_rows(spec_fit(msgs, width, height)->0, width) + 2 <= height,
        total_rows(msgs, width) + 2 < height ==> total_rows(
            spec_fit(msgs, width, height)->0,
            width,
        ) + 2 == height,
        total_rows(msgs, width) + 2 >= height ==> exists|k: int|
            0 <= k <= msgs.len() && spec_fit(msgs, width, height)->0 == #[trigger] msgs.skip(k),
{
    let total = total_rows(msgs, width);
    if total + 2 < height {
        lemma_total_rows_with_blanks(msgs, width, height - 2 - total);
    } else {
        lemma_fit_window(msgs, width, height);
    }
}

/// Counts the rows that each of `messages` takes in a window `width`
/// wide, and their sum. Nothing comes back where they cannot be counted.
pub fn measure(messages: &Vec<String>, width: usize) -> (r: Option<(Vec<usize>, usize)>)
    ensures
        r is Some == can_measure(messages.deep_view(), width as int),
        match r {
            Some((rows, total)) => {
                &&& rows.len() == messages.len()
                &&& forall|i: int|
                    0 <= i < messages.len() ==> (#[trigger] rows[i]) == rows_of(
                        messages.deep_view()[i],
                        width as int,
                    )
                &&& total == total_rows(messages.deep_view(), width as int)
            },
            None => true,
        },
{
    let ghost msgs = messages.deep_view();
    let ghost w = width as int;
    let mut rows: Vec<usize> = Vec::new();
    let mut i: usize = 0;
    while i < messages.len()
        invariant
            i <= messages.len(),
            msgs == messages.deep_view(),
            w == width,
            rows.len() == i,
            forall|j: int| 0 <= j < i ==> (#[trigger] rows[j]) == rows_of(msgs[j], w),
            forall|j: int| 0 <= j < i ==> can_wrap(line_bytes(#[trigger] msgs[j]), w),
        decreases messages.len() - i,
    {
        assert(msgs[i as int] == messages[i as int]@);
        match wrap_line(messages[i].as_str(), width) {
            None => {
                return None;
            },
            Some((_, count, _)) => {
                rows.push(count);
            },
        }
        i += 1;
    }
    let mut total: usize = 0;
    let mut k: usize = messages.len();
    assert(msgs.skip(k as int) =~= Seq::<Seq<char>>::empty());
    while k > 0
        invariant
            k <= messages.len(),
            msgs == messages.deep_view(),
            w == width,
            rows.len() == messages.len(),
            forall|j: int| 0 <= j < rows.len() ==> (#[trigger] rows[j]) == rows_of(msgs[j], w),
            total == total_rows(msgs.skip(k as int), w),
            total <= u16::MAX,
        decreases k,
    {
        k -= 1;
        assert(msgs.skip(k as int).drop_first() =~= msgs.skip(k + 1));
        assert(msgs.skip(k as int)[0] == msgs[k as int]);
        proof {
            lemma_total_rows_of_newest(msgs, w, k as int);
        }
        if rows[k] > 65535 - total {
            return None;
        }
        total += rows[k];
    }
    assert(msgs.skip(0) =~= msgs);
    Some((rows, total))
}

/// How the window is filled with lines that take `rows` rows each and
/// `total` rows together: the number of empty lines on top and the place
/// of the oldest line shown. Nothing comes back where the window is too
/// low even when empty.
pub fn window(
    messages: &Vec<String>,
    rows: &Vec<usize>,
    total: usize,
    width: usize,
    height: usize,
) -> (r: Option<(usize, usize)>)
    requires
        rows.len() == messages.len(),
        forall|i: int|
            0 <= i < messages.len() ==> (#[trigger] rows[i]) == rows_of(
                messages.deep_view()[i],
                width as int,
            ),
        total == total_rows(messages.deep_view(), width as int),
        total <= u16::MAX,
    ensures
        r is None == spec_fit(messages.deep_view(), width as int, height as int) is None,
        match r {
            Some((pad, first)) => {
                &&& first <= messages.len()
                &&& spec_fit(messages.deep_view(), width as int, height as int) == Some(
                    blanks(pad as int) + messages.deep_view().skip(first as int),
                )
            },
            None => true,
        },
{
    let ghost msgs = messages.deep_view();
    let ghost w = width as int;
    let ghost h = height as int;
    assert(msgs.skip(0) =~= msgs);
    if total + 2 < height {
        return Some((height - 2 - total, 0));
    }
    let mut k: usize = 0;
    let mut left: usize = total;
    while left + 2 > height
        invariant
            k <= messages.len(),
            msgs == messages.deep_view(),
            rows.len() == messages.len(),
            forall|i: int| 0 <= i < messages.len() ==> (#[trigger] rows[i]) == rows_of(msgs[i], w),
            left == total_rows(msgs.skip(k as int), w),
            left <= u16::MAX,
            fit_window(msgs, w, h) == fit_window(msgs.skip(k as int), w, h),
            h == height,
            w == width,
            spec_fit(msgs, w, h) == fit_window(msgs, w, h),
        decreases messages.len() - k,
    {
        if k == messages.len() {
            assert(msgs.skip(k as int) =~= Seq::<Seq<char>>::empty());
            return None;
        }
        assert(msgs.skip(k as int).drop_first() =~= msgs.skip(k + 1));
        assert(msgs.skip(k as int)[0] == msgs[k as int]);
        proof {
            lemma_total_rows_of_newest(msgs, w, k + 1);
        }
        left -= rows[k];
        k += 1;
    }
    assert(blanks(0) + msgs.skip(k as int) =~= msgs.skip(k as int));
    Some((0, k))
}

/// The lines of `messages` that a window `width` wide and `height` high
/// shows, oldest first: all of them below as many empty lines as fill the
/// window, or the newest that fit. Nothing comes back where the rows of
/// the lines cannot be counted, or where the window is too low even when
/// empty.
pub fn fit_messages(messages: &Vec<String>, width: usize, height: usize) -> (kept: Option<
    Vec<String>,
>)
    ensures
        kept is Some == (can_measure(messages.deep_view(), width as int) && spec_fit(
            messages.deep_view(),
            width as int,
            height as int,
        ) is Some),
        kept is Some ==> Some(kept->0.deep_view()) == spec_fit(
            messages.deep_view(),
            width as int,
            height as int,
        ),
{
    let ghost msgs = messages.deep_view();
    match measure(messages, width) {
        None => None,
        Some((rows, total)) => {
            match window(messages, &rows, total, width, height) {
                None => None,
                Some((pad, first)) => {
                    let mut kept: Vec<String> = Vec::new();
                    let mut i: usize = 0;
                    while i < pad
                        invariant
                            i <= pad,
                            kept.deep_view() == blanks(i as int),
                        decreases pad - i,
                    {
                        let ghost above = kept.deep_view();
                        let blank = String::new();
                        kept.push(blank);
                        assert(kept.deep_view() =~= above.push(blank@));
                        i += 1;
                        assert(kept.deep_view() =~= blanks(i as int));
                    }
                    let mut j: usize = first;
                    while j < messages.len()
                        invariant
                            first <= j <= messages.len(),
                            msgs == messages.deep_view(),
                            kept.deep_view() == blanks(pad as int) + msgs.subrange(
                                first as int,
                                j as int,
                            ),
                        decreases messages.len() - j,
                    {
                        let ghost before = kept.deep_view();
                        kept.push(messages[j].clone());
                        assert(kept.deep_view() =~= before.push(messages[j as int]@));
                        assert(msgs[j as int] == messages[j as int]@);
                        j += 1;
                        assert(kept.deep_view() =~= blanks(pad as int) + msgs.subrange(
                            first as int,
                            j as int,
                        ));
                    }
                    assert(msgs.subrange(first as int, j as int) =~= msgs.skip(first as int));
                    Some(kept)
                },
            }
        },
    }
}

/// The colour of the line `chars`, or nothing if it has none.
pub fn color_for(chars: &Vec<char>) -> (color: Option<Color>)
    ensures
        color is Some == can_color(chars@),
        color is Some ==> color->0 == color_of(chars@),
{
    if has_system_prefix(chars) {
        return Some(Color::LightYellow);
    }
    if chars.len() == 0 {
        return Some(Color::Reset);
    }
    let first: usize = span_end(chars, 0, ' ');
    assert(chars@.skip(0) =~= chars@);
    if first == chars.len() {
        return None;
    }
    let second: usize = span_end(chars, first + 1, ' ');
    let name = from_chars(slice_subrange(chars.as_slice(), first + 1, second));
    assert(name@ =~= second_field(chars@));
    Some(gen_color(name))
}

/// The colour in which the line `m` is shown.
pub fn line_color(m: &str) -> (color: Color)
    requires
        can_color(m@),
    ensures
        color == color_of(m@),
{
    let chars = to_chars(m);
    match color_for(&chars) {
        Some(color) => color,
        None => Color::Reset,
    }
}

/// Where the cursor stands in `text`: its column and its row.
pub fn cursor_cell(text: &Vec<char>, cursor: usize) -> (cell: (usize, usize))
    ensures
        (cell.0 as int, cell.1 as int) == cursor_at(text@, cursor as int),
{
    let mut k: usize = 0;
    let mut x: usize = 0;
    let mut y: usize = 0;
    assert(text@.take(0) =~= Seq::<char>::empty());
    while k < text.len()
        invariant
            k <= text.len(),
            x == column(text@.take(k as int)),
            y == newlines(text@.take(k as int)),
            x <= k,
            y <= k,
            cursor_stop(text@, 0, cursor as int) == cursor_stop(text@, k as int, cursor as int),
        decreases text.len() - k,
    {
        assert(text@.take(k + 1).drop_last() =~= text@.take(k as int));
        assert(text@.take(k + 1).last() == text@[k as int]);
        if text[k] == '\n' {
            x = 0;
            y += 1;
        } else {
            if k - y == cursor {
                return (x, y);
            }
            x += 1;
        }
        k += 1;
    }
    assert(text@.take(k as int) =~= text@);
    (x, y)
}

/// The item that shows the line `m` in a window `width` wide, or nothing
/// if the line has no colour.
pub fn item_for(m: &str, width: usize) -> (item: Option<Item>)
    requires
        can_wrap(line_bytes(m@), width as int),
    ensures
        item is Some == can_color(m@),
        item is Some ==> item->0@ == (ItemView {
            text: wrapped(line_bytes(m@), width as int),
            color: color_of(m@),
        }),
{
    let chars = to_chars(m);
    match color_for(&chars) {
        None => None,
        Some(color) => {
            match wrap_line(m, width) {
                Some((text, _, _)) => Some(Item { text, color }),
                None => None,
            }
        },
    }
}

/// The items of a window that shows `pad` empty lines and, below them,
/// `messages` from `first` on. Nothing comes back where one of the lines
/// has no colour.
pub fn build_items(messages: &Vec<String>, pad: usize, first: usize, width: usize) -> (items:
    Option<Vec<Item>>)
    requires
        first <= messages.len(),
        all_wrap(messages.deep_view(), width as int),
    ensures
        items is Some == all_colored(
            blanks(pad as int) + messages.deep_view().skip(first as int),
        ),
        items is Some ==> items->0.deep_view() == items_of(
            blanks(pad as int) + messages.deep_view().skip(first as int),
            width as int,
        ),
{
    let ghost msgs = messages.deep_view();
    let ghost kept = blanks(pad as int) + msgs.skip(first as int);
    let ghost w = width as int;
    let mut items: Vec<Item> = Vec::new();
    let mut i: usize = 0;
    while i < pad
        invariant
            i <= pad,
            w == width,
            kept == blanks(pad as int) + msgs.skip(first as int),
            items.len() == i,
            forall|j: int| 0 <= j < i ==> (#[trigger] items[j])@ == items_of(kept, w)[j],
            forall|j: int| 0 <= j < i ==> can_color(#[trigger] kept[j]),
        decreases pad - i,
    {
        let blank = String::new();
        assert(kept[i as int] =~= blank@);
        proof {
            lemma_blank(w);
        }
        match item_for(blank.as_str(), width) {
            Some(item) => {
                items.push(item);
            },
            None => {
                return None;
            },
        }
        i += 1;
    }
    let mut j: usize = first;
    while j < messages.len()
        invariant
            first <= j <= messages.len(),
            w == width,
            msgs == messages.deep_view(),
            all_wrap(msgs, w),
            kept == blanks(pad as int) + msgs.skip(first as int),
            items.len() == pad + (j - first),
            forall|n: int| 0 <= n < items.len() ==> (#[trigger] items[n])@ == items_of(kept, w)[n],
            forall|n: int| 0 <= n < items.len() ==> can_color(#[trigger] kept[n]),
        decreases messages.len() - j,
    {
        let ghost at = pad + (j - first);
        assert(kept[at] == msgs[j as int]);
        assert(msgs[j as int] == messages[j as int]@);
        match item_for(messages[j].as_str(), width) {
            Some(item) => {
                items.push(item);
            },
            None => {
                assert(!can_color(kept[at]));
                return None;
            },
        }
        j += 1;
    }
    assert(items.deep_view() =~= items_of(kept, w)) by {
        assert forall|n: int| 0 <= n < items.len() implies items.deep_view()[n] == items_of(
            kept,
            w,
        )[n] by {
            assert(items.deep_view()[n] == items[n]@);
        }
    }
    Some(items)
}

/// What is drawn into the parts `chunks` of the screen for the client
/// `app`, whose line being typed, broken into rows, is `user_input`.
pub open spec fn spec_arrange(app: AppView, user_input: Seq<char>, chunks: Seq<Rect>) -> Option<
    ScreenView,
> {
    let window = chunks[1];
    let input_area = chunks[2];
    let width = window.width - 2;
    let height = window.height as int;
    if window.width < 2 || !can_measure(app.messages, width) {
        None
    } else {
        match spec_fit(app.messages, width, height) {
            None => Some(
                ScreenView {
                    help_area: chunks[0],
                    messages_area: window,
                    input_area,
                    body: BodyView::TooSmall,
                },
            ),
            Some(kept) => {
                let (column, row) = cursor_at(user_input, app.cursor_position);
                if !all_colored(kept) || input_area.x + 1 + column > u16::MAX || input_area.y + 1
                    + row > u16::MAX {
                    None
                } else {
                    Some(
                        ScreenView {
                            help_area: chunks[0],
                            messages_area: window,
                            input_area,
                            body: BodyView::Chat {
                                items: items_of(kept, width),
                                user_input,
                                cursor: (input_area.x + 1 + column, input_area.y + 1 + row),
                            },
                        },
                    )
                }
            },
        }
    }
}

/// Fills the three parts `chunks` of the screen: the help line, the
/// window of lines and the input box. Nothing comes back where the lines
/// cannot be laid out: the window is narrower than its border, a line
/// cannot be broken into rows or has no colour, or a number leaves the
/// range of the terminal's coordinates.
pub fn arrange(app: &App, user_input: String, chunks: &Vec<Rect>) -> (screen: Option<Screen>)
    requires
        chunks.len() == 3,
    ensures
        screen is Some == spec_arrange(app@, user_input@, chunks@) is Some,
        screen is Some ==> Some(screen->0@) == spec_arrange(app@, user_input@, chunks@),
{
    let window_area = chunks[1];
    let input_area = chunks[2];
    if window_area.width < 2 {
        return None;
    }
    let width: usize = (window_area.width - 2) as usize;
    let height: usize = window_area.height as usize;
    let (rows, total) = match measure(&app.messages, width) {
        None => {
            return None;
        },
        Some(measured) => measured,
    };
    let body = match window(&app.messages, &rows, total, width, height) {
        None => Body::TooSmall,
        Some((pad, first)) => {
            let items = match build_items(&app.messages, pad, first, width) {
                None => {
                    return None;
                },
                Some(items) => items,
            };
            let text = to_chars(user_input.as_str());
            let (column, row) = cursor_cell(&text, app.cursor_position);
            if input_area.x == 65535 || input_area.y == 65535 {
                return None;
            }
            if column > 65534 - input_area.x as usize || row > 65534 - input_area.y as usize {
                return None;
            }
            let cursor = ((input_area.x as usize + 1 + column) as u16, (input_area.y as usize + 1
                + row) as u16);
            Body::Chat { items, user_input, cursor }
        },
    };
    Some(Screen { help_area: chunks[0], messages_area: window_area, input_area, body })
}

/// Where the window can be measured and every line has a colour, the
/// parts can be filled wherever they lie within an area whose rows leave
/// room for the cursor.
pub proof fn lemma_arrange_fills(
    app: AppView,
    user_input: Seq<char>,
    chunks: Seq<Rect>,
    area: Rect,
)
    requires
        chunks.len() == 3,
        parts_of(chunks, area),
        area.width >= 2,
        can_measure(app.messages, area.width - 2),
        all_colored(app.messages),
        area.x + 1 + cursor_at(user_input, app.cursor_position).0 <= u16::MAX,
        area.y + area.height + 1 + cursor_at(user_input, app.cursor_position).1 <= u16::MAX,
    ensures
        spec_arrange(app, user_input, chunks) is Some,
{
    let width = area.width - 2;
    let height = chunks[1].height as int;
    let msgs = app.messages;
    assert(chunks[1].width == area.width);
    assert(chunks[2].x == area.x);
    assert(chunks[2].y + chunks[2].height <= area.y + area.height);
    match spec_fit(msgs, width, height) {
        None => {},
        Some(kept) => {
            let total = total_rows(msgs, width);
            if total + 2 < height {
                let n = height - 2 - total;
                assert forall|i: int| 0 <= i < kept.len() implies can_color(
                    #[trigger] kept[i],
                ) by {
                    if i < n {
                        assert(kept[i] =~= Seq::<char>::empty());
                    } else {
                        assert(kept[i] == msgs[i - n]);
                    }
                }
            } else {
                lemma_fit_window(msgs, width, height);
                let k = choose|k: int|
                    0 <= k <= msgs.len() && fit_window(msgs, width, height)->0
                        == #[trigger] msgs.skip(k);
                assert forall|i: int| 0 <= i < kept.len() implies can_color(
                    #[trigger] kept[i],
                ) by {
                    assert(kept[i] == msgs[i + k]);
                }
            }
        },
    }
}

/// The heights asked of the three parts of the screen when the line being
/// typed takes `lines` rows: one row of help, a window of at least one
/// row, and an input box of the rows of the line and two of border.
pub open spec fn spec_constraints(lines: int) -> Seq<Constraint> {
    seq![Constraint::Length(1), Constraint::Min(1), Constraint::Length((2 + lines) as u16)]
}

/// The heights asked of the three parts of the screen.
pub fn screen_constraints(lines: u16) -> (constraints: Vec<Constraint>)
    requires
        lines <= u16::MAX - 2,
    ensures
        constraints@ == spec_constraints(lines as int),
{
    let mut constraints: Vec<Constraint> = Vec::new();
    constraints.push(Constraint::Length(1));
    constraints.push(Constraint::Min(1));
    constraints.push(Constraint::Length(2 + lines));
    assert(constraints@ =~= spec_constraints(lines as int));
    constraints
}

/// The width that is left for the line being typed on a terminal of the
/// size `area`, whose border takes two columns.
pub open spec fn input_width(area: Rect) -> int {
    area.width - 2
}

/// The screen can be split into its parts for the client `app` on a
/// terminal of the size `area`: there is room for the border of the input
/// box, the line being typed can be broken into rows, and the rows with
/// the border are no more than 65535.
pub open spec fn can_split(app: AppView, area: Rect) -> bool {
    &&& area.width >= 2
    &&& can_wrap(line_bytes(app.input), input_width(area))
    &&& lines_used(line_bytes(app.input), input_width(area), true) + 2 <= u16::MAX
}

/// Whatever parts the screen is split into, they can be filled: the rows
/// of the lines received can be counted, each of them has a colour, and
/// the rows of the terminal leave room for the cursor.
pub open spec fn fills(app: AppView, area: Rect) -> bool {
    let text = wrapped(line_bytes(app.input), input_width(area));
    &&& can_measure(app.messages, input_width(area))
    &&& all_colored(app.messages)
    &&& area.x + 1 + cursor_at(text, app.cursor_position).0 <= u16::MAX
    &&& area.y + area.height + 1 + cursor_at(text, app.cursor_position).1 <= u16::MAX
}

/// Lays out the screen for the client `app` on a terminal of the size
/// `area`. The area is split from top to bottom under the heights that
/// `screen_constraints` asks for the rows of the line being typed: one
/// row of help on top, the input box at the bottom, and the window of
/// lines between them. How high the layout engine makes each part is its
/// choice; what goes into the parts is what `arrange` puts there. Nothing
/// comes back where the screen cannot be split or the parts cannot be
/// filled; a screen does come back where it can be split and any parts
/// can be filled.
pub fn ui(app: &App, area: Rect) -> (screen: Option<Screen>)
    ensures
        !can_split(app@, area) ==> screen is None,
        can_split(app@, area) && fills(app@, area) ==> screen is Some,
        can_split(app@, area) ==> exists|chunks: Seq<Rect>|
            {
                &&& chunks.len() == 3
                &&& parts_of(chunks, area)
                &&& screen is Some == (#[trigger] spec_arrange(
                    app@,
                    wrapped(line_bytes(app@.input), input_width(area)),
                    chunks,
                )) is Some
                &&& screen is Some ==> Some(screen->0@) == spec_arrange(
                    app@,
                    wrapped(line_bytes(app@.input), input_width(area)),
                    chunks,
                )
            },
{
    if area.width < 2 {
        return None;
    }
    let width: usize = (area.width - 2) as usize;
    let (user_input, count, last) = match wrap_line(app.input.as_str(), width) {
        None => {
            return None;
        },
        Some(wrapping) => wrapping,
    };
    let caret: usize = if last == width {
        1
    } else {
        0
    };
    if count > 65533 - caret {
        return None;
    }
    let lines: u16 = (count + caret) as u16;
    let constraints = screen_constraints(lines);
    let chunks = split_vertical(area, &constraints);
    proof {
        if fills(app@, area) {
            lemma_arrange_fills(app@, user_input@, chunks@, area);
        }
    }
    arrange(app, user_input, &chunks)
}

} // verus!
