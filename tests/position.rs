use typster_core::completion::{byte_to_char_offset, char_to_byte_offset};
use typster_core::position::get_range_position;

#[test]
fn offset_of_second_c_maps_to_line_three() {
    assert_eq!(get_range_position("a\nbb\nccc", 7..8), (3, 2));
}

#[test]
fn positions_at_line_starts_and_ends() {
    assert_eq!(get_range_position("a\nbb\nccc", 0..1), (1, 0));
    assert_eq!(get_range_position("a\nbb\nccc", 1..2), (1, 1));
    assert_eq!(get_range_position("a\nbb\nccc", 2..3), (2, 0));
    assert_eq!(get_range_position("a\nbb\nccc", 3..4), (2, 1));
    assert_eq!(get_range_position("héllo\nx", 5..6), (1, 5));
    assert_eq!(get_range_position("héllo\nx", 6..7), (2, 0));
}

#[test]
fn positions_past_the_end_and_in_empty_text() {
    assert_eq!(get_range_position("a\nbb\nccc", 100..101), (3, 0));
    assert_eq!(get_range_position("", 0..0), (0, 0));
    assert_eq!(get_range_position("ab\r\ncd", 4..5), (2, 1));
}

#[test]
fn offsets_convert_between_chars_and_bytes() {
    assert_eq!(char_to_byte_offset("héllo", 2), 3);
    assert_eq!(char_to_byte_offset("héllo", 0), 0);
    assert_eq!(char_to_byte_offset("héllo", 100), 6);
    assert_eq!(byte_to_char_offset("héllo", 3), 2);
    assert_eq!(byte_to_char_offset("héllo", 6), 5);
}
