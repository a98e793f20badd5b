//! Maps the tag engine's rows and byte columns to character offsets in a
//! text buffer.
//!
//! A buffer addresses its text by character offset. The tag engine addresses
//! it by row (the number of line feeds before a place) and column (the number
//! of UTF-8 bytes between the start of the row and the place). Every
//! character offset has exactly one such position; a position that is the
//! position of no character offset lies outside the text or inside the
//! encoding of a character.

use vstd::prelude::*;
use vstd::utf8::*;
use vstd::std_specs::iter::IteratorSpec;
use crate::symbol::{Position, Range};

verus! {

/// A range in a text buffer, in character offsets. The head is where the
/// cursor sits, the anchor is the other end.
#[derive(Clone, Copy, Debug, PartialEq, Eq, Structural)]
pub struct BufferRange {
    pub anchor: usize,
    pub head: usize,
}

/// The number of bytes in the UTF-8 encoding of `c`.
pub open spec fn char_width(c: char) -> nat {
    encode_scalar(c as u32).len()
}

/// The row of character offset `k`: the number of line feeds among the
/// first `k` characters.
pub open spec fn row_of(text: Seq<char>, k: int) -> nat
    decreases k,
{
    if k <= 0 {
        0
    } else if text[k - 1] == '\n' {
        row_of(text, k - 1) + 1
    } else {
        row_of(text, k - 1)
    }
}

/// The character offset at which the line that holds offset `k` begins.
pub open spec fn line_start(text: Seq<char>, k: int) -> int
    decreases k,
{
    if k <= 0 {
        0
    } else if text[k - 1] == '\n' {
        k
    } else {
        line_start(text, k - 1)
    }
}

/// The column of character offset `k`: the number of UTF-8 bytes between the
/// start of its line and `k`.
pub open spec fn column_of(text: Seq<char>, k: int) -> nat {
    encode_utf8(text.subrange(line_start(text, k), k)).len()
}

/// True when `pos` is the position of character offset `k` of `text`.
pub open spec fn is_offset_of(text: Seq<char>, pos: Position, k: int) -> bool {
    &&& 0 <= k <= text.len()
    &&& row_of(text, k) == pos.line
    &&& column_of(text, k) == pos.character
}

/// The character offset that `pos` points at, if there is one.
pub open spec fn buffer_offset(text: Seq<char>, pos: Position) -> Option<int> {
    if exists|k: int| is_offset_of(text, pos, k) {
        Some(choose|k: int| is_offset_of(text, pos, k))
    } else {
        None
    }
}

/// The pair of character offsets that `range` spans, if both of its ends
/// point at one.
pub open spec fn buffer_range(text: Seq<char>, range: Range) -> Option<(int, int)> {
    match (buffer_offset(text, range.start), buffer_offset(text, range.end)) {
        (Some(start), Some(end)) => Some((start, end)),
        _ => None,
    }
}

/// Appending one character appends its encoding.
pub proof fn lemma_encode_push(s: Seq<char>, c: char)
    ensures
        encode_utf8(s.push(c)) == encode_utf8(s) + encode_scalar(c as u32),
    decreases s.len(),
{
    if s.len() == 0 {
        assert(s.push(c).drop_first() =~= s);
        assert(encode_utf8(s.push(c)) =~= encode_utf8(s) + encode_scalar(c as u32));
    } else {
        lemma_encode_push(s.drop_first(), c);
        assert(s.push(c).drop_first() =~= s.drop_first().push(c));
        assert(encode_utf8(s.push(c)) =~= encode_utf8(s) + encode_scalar(c as u32));
    }
}

/// A character takes between one and four bytes.
pub proof fn lemma_char_width_bounds(c: char)
    ensures
        1 <= char_width(c) <= 4,
{
}

/// A text has at most as many characters as its encoding has bytes.
pub proof fn lemma_chars_at_most_bytes(s: Seq<char>)
    ensures
        s.len() <= encode_utf8(s).len(),
    decreases s.len(),
{
    if s.len() > 0 {
        lemma_chars_at_most_bytes(s.drop_first());
        lemma_char_width_bounds(s[0]);
    }
}

/// The line that holds `k` begins at or before `k`.
pub proof fn lemma_line_start_bounds(text: Seq<char>, k: int)
    requires
        0 <= k,
    ensures
        0 <= line_start(text, k) <= k,
    decreases k,
{
    if k > 0 && text[k - 1] != '\n' {
        lemma_line_start_bounds(text, k - 1);
    }
}

/// How row and column change from one character offset to the next.
pub proof fn lemma_position_step(text: Seq<char>, k: int)
    requires
        0 <= k < text.len(),
    ensures
        text[k] == '\n' ==> row_of(text, k + 1) == row_of(text, k) + 1 && column_of(text, k + 1)
            == 0,
        text[k] != '\n' ==> row_of(text, k + 1) == row_of(text, k) && column_of(text, k + 1)
            == column_of(text, k) + char_width(text[k]),
{
    if text[k] == '\n' {
        assert(text.subrange(k + 1, k + 1) =~= Seq::<char>::empty());
    } else {
        lemma_line_start_bounds(text, k);
        let s = line_start(text, k);
        assert(line_start(text, k + 1) == s);
        assert(text.subrange(s, k + 1) =~= text.subrange(s, k).push(text[k]));
        lemma_encode_push(text.subrange(s, k), text[k]);
    }
}

/// Positions grow with the character offset: a later offset lies on a later
/// row, or on the same row at a greater column.
pub proof fn lemma_positions_increase(text: Seq<char>, j: int, k: int)
    requires
        0 <= j < k <= text.len(),
    ensures
        row_of(text, j) < row_of(text, k) || (row_of(text, j) == row_of(text, k) && column_of(
            text,
            j,
        ) < column_of(text, k)),
    decreases k - j,
{
    lemma_position_step(text, k - 1);
    lemma_char_width_bounds(text[k - 1]);
    if j < k - 1 {
        lemma_positions_increase(text, j, k - 1);
    }
}

/// No two character offsets share a position.
pub proof fn lemma_offset_unique(text: Seq<char>, pos: Position, j: int, k: int)
    requires
        is_offset_of(text, pos, j),
        is_offset_of(text, pos, k),
    ensures
        j == k,
{
    if j < k {
        lemma_positions_increase(text, j, k);
    } else if k < j {
        lemma_positions_increase(text, k, j);
    }
}

/// `buffer_offset` is the offset whose position is `pos`.
pub proof fn lemma_buffer_offset_is(text: Seq<char>, pos: Position, k: int)
    requires
        is_offset_of(text, pos, k),
    ensures
        buffer_offset(text, pos) == Some(k),
{
    let chosen = choose|j: int| is_offset_of(text, pos, j);
    lemma_offset_unique(text, pos, chosen, k);
}

/// Once the position of an offset lies past `pos`, so does that of every
/// later offset.
proof fn lemma_none_beyond(text: Seq<char>, pos: Position, k: int)
    requires
        0 <= k < text.len(),
        row_of(text, k + 1) > pos.line || (row_of(text, k + 1) == pos.line && column_of(
            text,
            k + 1,
        ) > pos.character),
    ensures
        forall|j: int| k < j ==> !is_offset_of(text, pos, j),
{
    assert forall|j: int| k < j implies !is_offset_of(text, pos, j) by {
        if k + 1 < j <= text.len() {
            lemma_positions_increase(text, k + 1, j);
        }
    }
}

/// The number of bytes in the UTF-8 encoding of `c`.
pub fn utf8_width(c: char) -> (w: u32)
    ensures
        w == char_width(c),
{
    proof {
        char_is_scalar(c);
    }
    let v: u32 = c as u32;
    if v < 0x80 {
        1
    } else if v < 0x800 {
        2
    } else if v < 0x10000 {
        3
    } else {
        4
    }
}

/// Finds the character offset of `text` that `pos` points at.
///
/// Returns `None` when `pos` names a row past the last one, a column past the
/// end of its row, or a column inside the encoding of a character.
pub fn to_buffer_offset(text: &str, pos: Position) -> (r: Option<usize>)
    ensures
        match r {
            Some(k) => is_offset_of(text@, pos, k as int),
            None => forall|k: int| !is_offset_of(text@, pos, k),
        },
        match r {
            Some(k) => buffer_offset(text@, pos) == Some(k as int),
            None => buffer_offset(text@, pos) is None,
        },
{
    // A text has no more characters than bytes, so the offsets fit.
    let _byte_len = text.as_bytes().len();
    proof {
        lemma_chars_at_most_bytes(text@);
    }
    let mut chars = text.chars();
    let mut k: usize = 0;
    let mut row: u32 = 0;
    let mut col: u32 = 0;
    loop
        invariant
            text@.len() <= usize::MAX,
            0 <= k <= text@.len(),
            chars.remaining() == text@.subrange(k as int, text@.len() as int),
            row == row_of(text@, k as int),
            row <= pos.line,
            row == pos.line ==> col == column_of(text@, k as int) && col <= pos.character,
            forall|j: int| 0 <= j < k ==> !is_offset_of(text@, pos, j),
        decreases text@.len() - k,
    {
        if row == pos.line && col == pos.character {
            proof {
                lemma_buffer_offset_is(text@, pos, k as int);
            }
            return Some(k);
        }
        let next = chars.next();
        match next {
            None => {
                return None;
            },
            Some(c) => {
                proof {
                    lemma_position_step(text@, k as int);
                }
                if c == '\n' {
                    if row == pos.line {
                        proof {
                            lemma_none_beyond(text@, pos, k as int);
                        }
                        return None;
                    }
                    row = row + 1;
                    col = 0;
                } else if row == pos.line {
                    let w = utf8_width(c);
                    if w > pos.character - col {
                        proof {
                            lemma_none_beyond(text@, pos, k as int);
                        }
                        return None;
                    }
                    col = col + w;
                }
                k = k + 1;
            },
        }
    }
}

/// Translates a range of the tag engine into a range of the buffer that
/// holds `text`: the anchor is the offset of the range's start, the head
/// that of its end.
///
/// Returns `None` when either end points at no character offset.
pub fn to_buffer_range(text: &str, range: Range) -> (r: Option<BufferRange>)
    ensures
        match r {
            Some(b) => buffer_range(text@, range) == Some((b.anchor as int, b.head as int)),
            None => buffer_range(text@, range) is None,
        },
        r matches Some(b) ==> is_offset_of(text@, range.start, b.anchor as int) && is_offset_of(
            text@,
            range.end,
            b.head as int,
        ),
        r is None ==> (forall|k: int| !is_offset_of(text@, range.start, k)) || (forall|k: int|
            !is_offset_of(text@, range.end, k)),
{
    match to_buffer_offset(text, range.start) {
        None => None,
        Some(start) => match to_buffer_offset(text, range.end) {
            None => None,
            Some(end) => Some(BufferRange { anchor: start, head: end }),
        },
    }
}

/// True when the `n` characters from offset `start` on are a stretch of one
/// line that begins the line and holds one-byte characters only.
pub open spec fn is_ascii_line_prefix(text: Seq<char>, start: int, n: int) -> bool {
    &&& 0 <= start
    &&& 0 <= n
    &&& start + n <= text.len()
    &&& start == 0 || text[start - 1] == '\n'
    &&& forall|i: int|
        start <= i < start + n ==> text[i] != '\n' && '\0' <= #[trigger] text[i] <= '\u{7f}'
}

/// After `n` one-byte characters from the start of a line the column is `n`.
pub proof fn lemma_ascii_column(text: Seq<char>, start: int, n: int)
    requires
        is_ascii_line_prefix(text, start, n),
    ensures
        row_of(text, start + n) == row_of(text, start),
        column_of(text, start + n) == n,
    decreases n,
{
    if n == 0 {
        assert(text.subrange(start, start) =~= Seq::<char>::empty());
    } else {
        lemma_ascii_column(text, start, n - 1);
        lemma_position_step(text, start + n - 1);
        let c = text[start + n - 1];
        assert('\0' <= c <= '\u{7f}');
        assert(char_width(c) == 1);
    }
}

/// In a line of one-byte characters the translation is the identity on
/// columns: the columns `c0` and `c1` of the row that begins at offset
/// `start` map to the offsets `start + c0` and `start + c1`. On the first
/// row these are `c0` and `c1` themselves.
pub proof fn lemma_ascii_range_is_identity(text: Seq<char>, row: u32, c0: u32, c1: u32, start: int)
    requires
        c0 <= c1,
        is_ascii_line_prefix(text, start, c1 as int),
        row_of(text, start) == row,
    ensures
        buffer_range(
            text,
            Range {
                start: Position { line: row, character: c0 },
                end: Position { line: row, character: c1 },
            },
        ) == Some((start + c0, start + c1)),
        row == 0 ==> start == 0,
{
    lemma_ascii_column(text, start, c0 as int);
    lemma_ascii_column(text, start, c1 as int);
    lemma_buffer_offset_is(text, Position { line: row, character: c0 }, start + c0);
    lemma_buffer_offset_is(text, Position { line: row, character: c1 }, start + c1);
    if row == 0 && start > 0 {
        lemma_row_counts_line_feed(text, start);
    }
}

/// A range whose two ends are the same position is a cursor: both of its
/// offsets are the same.
pub proof fn lemma_empty_range_is_cursor(text: Seq<char>, pos: Position)
    ensures
        buffer_range(text, Range { start: pos, end: pos }) matches Some((start, end)) ==> start
            == end,
        buffer_range(text, Range { start: pos, end: pos }) is Some <==> buffer_offset(text, pos)
            is Some,
{
}

/// An offset that follows a line feed lies on a row other than the first.
pub proof fn lemma_row_counts_line_feed(text: Seq<char>, k: int)
    requires
        0 < k <= text.len(),
        text[k - 1] == '\n',
    ensures
        row_of(text, k) > 0,
{
}

} // verus!
