//! Coordinate conversion and utility tests.

use quoridor_core::errors::GameError;
use quoridor_core::{abs_diff, algebraic_to_coord, coord_to_algebraic};

const TEST_SIZE: usize = 9;

#[test]
fn it_works() {
    assert_eq!(2 + 2, 4);
}

#[test]
fn test_coord_conversion() {
    assert_eq!(algebraic_to_coord("a1", TEST_SIZE), Ok((8, 0)));
    assert_eq!(algebraic_to_coord("i9", TEST_SIZE), Ok((0, 8)));
    assert_eq!(algebraic_to_coord("e5", TEST_SIZE), Ok((4, 4)));
    assert_eq!(algebraic_to_coord("e1", TEST_SIZE), Ok((8, 4)));
    assert_eq!(algebraic_to_coord("e9", TEST_SIZE), Ok((0, 4)));

    assert_eq!(coord_to_algebraic((8, 0), TEST_SIZE), "a1");
    assert_eq!(coord_to_algebraic((0, 8), TEST_SIZE), "i9");
    assert_eq!(coord_to_algebraic((4, 4), TEST_SIZE), "e5");
    assert_eq!(coord_to_algebraic((8, 4), TEST_SIZE), "e1");
    assert_eq!(coord_to_algebraic((0, 4), TEST_SIZE), "e9");
}

#[test]
fn test_alg_to_coord_with_wall_notation() {
    assert_eq!(algebraic_to_coord("a1h", TEST_SIZE), Ok((8, 0)));
    assert_eq!(algebraic_to_coord("e5v", TEST_SIZE), Ok((4, 4)));
}

#[test]
fn test_invalid_column_is_out_of_bounds() {
    assert_eq!(algebraic_to_coord("z5", TEST_SIZE), Err(GameError::OutOfBounds));
}

#[test]
fn test_invalid_row_number_is_out_of_bounds() {
    assert_eq!(algebraic_to_coord("a10", TEST_SIZE), Err(GameError::OutOfBounds));
    assert_eq!(algebraic_to_coord("a0", TEST_SIZE), Err(GameError::OutOfBounds));
}

#[test]
fn test_invalid_row_char_is_malformed() {
    assert_eq!(algebraic_to_coord("aX", TEST_SIZE), Err(GameError::MalformedNotation));
    assert_eq!(algebraic_to_coord("5e", TEST_SIZE), Err(GameError::MalformedNotation));
}

#[test]
fn test_too_short_is_malformed() {
    assert_eq!(algebraic_to_coord("a", TEST_SIZE), Err(GameError::MalformedNotation));
    assert_eq!(algebraic_to_coord("", TEST_SIZE), Err(GameError::MalformedNotation));
}

#[test]
fn test_round_trip_all_cells() {
    for size in [3usize, 5, 7, 9] {
        for r in 0..size {
            for c in 0..size {
                let label = coord_to_algebraic((r, c), size);
                assert_eq!(algebraic_to_coord(label.as_str(), size), Ok((r, c)));
            }
        }
    }
}

#[test]
fn test_leading_zero_rows_decode() {
    assert_eq!(algebraic_to_coord("a007", TEST_SIZE), Ok((2, 0)));
}

#[test]
fn test_abs_diff() {
    assert_eq!(abs_diff(5, 2), 3);
    assert_eq!(abs_diff(2, 5), 3);
    assert_eq!(abs_diff(5, 5), 0);
}
