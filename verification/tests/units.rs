//! Unit tests for the small helpers.

use corepython::compile::round_to_multiple_of;
use corepython::location::Location;

#[test]
fn test_round_to_multiple_of() {
    assert_eq!(16, round_to_multiple_of(9, 8));
    assert_eq!(8, round_to_multiple_of(8, 4));
    assert_eq!(21, round_to_multiple_of(20, 7));
    assert_eq!(0, round_to_multiple_of(0, 3));
}

#[test]
fn location_renders_row_and_column() {
    let location = Location { row: 3, column: 7 };
    assert_eq!(location.get_text_for_user(), "3:7");
    let location = Location { row: 12, column: 105 };
    assert_eq!(location.get_text_for_user(), "12:105");
}
