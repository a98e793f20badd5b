use symbol_picker::symbol::{Position, Range};
use symbol_picker::translate::{to_buffer_offset, to_buffer_range, utf8_width, BufferRange};

const TEXT: &str = "ab\ncd\u{e9}\nxyz";

fn at(line: u32, character: u32) -> Position {
    Position::new(line, character)
}

#[test]
fn width_of_each_encoding_length() {
    assert_eq!(utf8_width('a'), 1);
    assert_eq!(utf8_width('\u{7f}'), 1);
    assert_eq!(utf8_width('\u{80}'), 2);
    assert_eq!(utf8_width('\u{e9}'), 2);
    assert_eq!(utf8_width('\u{7ff}'), 2);
    assert_eq!(utf8_width('\u{800}'), 3);
    assert_eq!(utf8_width('\u{20ac}'), 3);
    assert_eq!(utf8_width('\u{ffff}'), 3);
    assert_eq!(utf8_width('\u{10000}'), 4);
    assert_eq!(utf8_width('\u{1f600}'), 4);
    for c in ['a', '\u{e9}', '\u{20ac}', '\u{1f600}'] {
        assert_eq!(utf8_width(c) as usize, c.len_utf8());
    }
}

#[test]
fn offsets_on_the_first_row_are_the_columns() {
    assert_eq!(to_buffer_offset(TEXT, at(0, 0)), Some(0));
    assert_eq!(to_buffer_offset(TEXT, at(0, 1)), Some(1));
    assert_eq!(to_buffer_offset(TEXT, at(0, 2)), Some(2));
}

#[test]
fn offsets_on_later_rows_count_from_the_line_start() {
    assert_eq!(to_buffer_offset(TEXT, at(1, 0)), Some(3));
    assert_eq!(to_buffer_offset(TEXT, at(1, 2)), Some(5));
    assert_eq!(to_buffer_offset(TEXT, at(2, 0)), Some(7));
    assert_eq!(to_buffer_offset(TEXT, at(2, 3)), Some(10));
}

#[test]
fn a_column_after_a_wide_character_counts_its_bytes() {
    assert_eq!(to_buffer_offset(TEXT, at(1, 4)), Some(6));
}

#[test]
fn a_column_inside_a_character_has_no_offset() {
    assert_eq!(to_buffer_offset(TEXT, at(1, 3)), None);
    assert_eq!(to_buffer_offset("\u{1f600}", at(0, 1)), None);
    assert_eq!(to_buffer_offset("\u{1f600}", at(0, 2)), None);
    assert_eq!(to_buffer_offset("\u{1f600}", at(0, 3)), None);
    assert_eq!(to_buffer_offset("\u{1f600}", at(0, 4)), Some(1));
}

#[test]
fn a_column_past_the_end_of_its_row_has_no_offset() {
    assert_eq!(to_buffer_offset(TEXT, at(0, 3)), None);
    assert_eq!(to_buffer_offset(TEXT, at(1, 5)), None);
    assert_eq!(to_buffer_offset(TEXT, at(2, 4)), None);
    assert_eq!(to_buffer_offset(TEXT, at(0, u32::MAX)), None);
}

#[test]
fn a_row_past_the_last_one_has_no_offset() {
    assert_eq!(to_buffer_offset(TEXT, at(3, 0)), None);
    assert_eq!(to_buffer_offset(TEXT, at(u32::MAX, 0)), None);
    assert_eq!(to_buffer_offset("", at(1, 0)), None);
}

#[test]
fn the_empty_text_has_one_offset() {
    assert_eq!(to_buffer_offset("", at(0, 0)), Some(0));
    assert_eq!(to_buffer_offset("", at(0, 1)), None);
}

#[test]
fn a_trailing_line_feed_opens_an_empty_last_row() {
    assert_eq!(to_buffer_offset("ab\n", at(1, 0)), Some(3));
    assert_eq!(to_buffer_offset("ab\n", at(1, 1)), None);
    assert_eq!(to_buffer_offset("ab\n", at(2, 0)), None);
}

#[test]
fn a_carriage_return_is_a_character_of_its_row() {
    assert_eq!(to_buffer_offset("a\r\nb", at(0, 2)), Some(2));
    assert_eq!(to_buffer_offset("a\r\nb", at(1, 1)), Some(4));
}

#[test]
fn range_in_ascii_text_maps_columns_to_offsets() {
    let text = "fn main() {}";
    let range = Range::new(at(0, 3), at(0, 7));
    assert_eq!(to_buffer_range(text, range), Some(BufferRange { anchor: 3, head: 7 }));
}

#[test]
fn range_on_a_later_ascii_row_is_shifted_by_the_line_start() {
    let text = "one\ntwo\nfn three() {}\n";
    let range = Range::new(at(2, 3), at(2, 8));
    assert_eq!(to_buffer_range(text, range), Some(BufferRange { anchor: 11, head: 16 }));
}

#[test]
fn range_after_wide_characters_is_in_characters() {
    let range = Range::new(at(1, 0), at(1, 4));
    assert_eq!(to_buffer_range(TEXT, range), Some(BufferRange { anchor: 3, head: 6 }));
}

#[test]
fn range_with_equal_ends_is_a_cursor() {
    let range = Range::new(at(2, 1), at(2, 1));
    assert_eq!(to_buffer_range(TEXT, range), Some(BufferRange { anchor: 8, head: 8 }));
}

#[test]
fn range_with_ends_in_reverse_keeps_them() {
    let range = Range::new(at(2, 2), at(0, 1));
    assert_eq!(to_buffer_range(TEXT, range), Some(BufferRange { anchor: 9, head: 1 }));
}

#[test]
fn range_with_one_bad_end_is_absent() {
    assert_eq!(to_buffer_range(TEXT, Range::new(at(1, 3), at(1, 4))), None);
    assert_eq!(to_buffer_range(TEXT, Range::new(at(1, 0), at(1, 3))), None);
    assert_eq!(to_buffer_range(TEXT, Range::new(at(0, 0), at(9, 0))), None);
    assert_eq!(to_buffer_range(TEXT, Range::new(at(9, 0), at(0, 0))), None);
}

#[test]
fn every_offset_is_found_from_its_own_position() {
    let text = "a\u{e9}\n\u{20ac}b\n\n\u{1f600}";
    let mut row = 0u32;
    let mut column = 0u32;
    for (k, c) in text.chars().enumerate() {
        assert_eq!(to_buffer_offset(text, at(row, column)), Some(k));
        if c == '\n' {
            row += 1;
            column = 0;
        } else {
            column += c.len_utf8() as u32;
        }
    }
    assert_eq!(to_buffer_offset(text, at(row, column)), Some(text.chars().count()));
}
