//! The move notation: a bijection between board coordinates and
//! two-character cell labels (column letter + row digit), with a
//! three-character form (cell label + `h` or `v`) for wall moves.
//!
//! Row numbers count from 1 at the bottom edge of the board, while the
//! coordinate row index counts from 0 at the top edge, so the label row
//! digit is `size - row`.  Only boards up to size 9 are supported, which
//! keeps every cell label at exactly two characters.

use vstd::prelude::*;
use vstd::string::StrSliceExecFns;
use crate::errors::GameError;

verus! {

/// ASCII code of `'a'`.
pub const ASCII_LA: u8 = 97;

/// ASCII code of `'z'`.
pub const ASCII_LZ: u8 = 122;

/// ASCII code of `'A'`.
pub const ASCII_UA: u8 = 65;

/// ASCII code of `'Z'`.
pub const ASCII_UZ: u8 = 90;

/// ASCII code of `'0'`.
pub const ASCII_D0: u8 = 48;

/// ASCII code of `'9'`.
pub const ASCII_D9: u8 = 57;

/// ASCII code of `'h'`.
pub const ASCII_H: u8 = 104;

/// ASCII code of `'v'`.
pub const ASCII_V: u8 = 118;

/// A board coordinate: `(row, column)`, zero-indexed, `(0, 0)` top-left.
pub type Coord = (usize, usize);

/// The column letters of the notation, in column order.
pub open spec fn spec_col_letter(c: int) -> char {
    "abcdefghi"@[c]
}

/// The row digits of the notation; index `n` holds the digit for row number `n`.
pub open spec fn spec_row_digit(n: int) -> char {
    "0123456789"@[n]
}

/// The two-character label of a coordinate.
pub open spec fn spec_coord_label(coord: Coord, size: usize) -> Seq<char> {
    seq![spec_col_letter(coord.1 as int), spec_row_digit(size - coord.0)]
}

/// An ASCII letter.
pub open spec fn spec_is_alpha(ch: char) -> bool {
    ('a' <= ch && ch <= 'z') || ('A' <= ch && ch <= 'Z')
}

/// The column index a letter denotes, case-insensitively.
pub open spec fn spec_col_of(ch: char) -> int {
    if 'a' <= ch && ch <= 'z' {
        ch as int - 'a' as int
    } else {
        ch as int - 'A' as int
    }
}

/// An ASCII digit.
pub open spec fn spec_is_digit(ch: char) -> bool {
    '0' <= ch && ch <= '9'
}

/// Every character of `s` is a digit.
pub open spec fn spec_all_digits(s: Seq<char>) -> bool {
    forall|i: int| 0 <= i < s.len() ==> spec_is_digit(#[trigger] s[i])
}

/// The number a digit string denotes.
pub open spec fn spec_digits_val(s: Seq<char>) -> int
    decreases s.len(),
{
    if s.len() == 0 {
        0
    } else {
        spec_digits_val(s.drop_last()) * 10 + (s.last() as int - '0' as int)
    }
}

/// A wall-move label keeps only its leading cell label when decoded.
pub open spec fn spec_strip_wall_suffix(s: Seq<char>) -> Seq<char> {
    if s.len() > 2 && (s.last() == 'h' || s.last() == 'v') {
        s.subrange(0, 2)
    } else {
        s
    }
}

/// What decoding a label returns: the coordinate, or the error that
/// rejects it.  Non-ASCII text and non-digit row text are malformed; an
/// in-range label whose row number or column lies beyond the board is
/// out of bounds.
pub open spec fn spec_decode(s: Seq<char>, size: usize) -> Result<Coord, GameError> {
    if !vstd::utf8::is_ascii_chars(s) {
        Err(GameError::MalformedNotation)
    } else {
        let t = spec_strip_wall_suffix(s);
        if t.len() < 2 {
            Err(GameError::MalformedNotation)
        } else if !spec_is_alpha(t[0]) {
            Err(GameError::MalformedNotation)
        } else if !spec_all_digits(t.subrange(1, t.len() as int)) {
            Err(GameError::MalformedNotation)
        } else {
            let rv = spec_digits_val(t.subrange(1, t.len() as int));
            let col = spec_col_of(t[0]);
            if !(1 <= rv <= size) {
                Err(GameError::OutOfBounds)
            } else if !(col < size) {
                Err(GameError::OutOfBounds)
            } else {
                Ok((((size - rv) as usize), col as usize))
            }
        }
    }
}

/// Converts a cell label such as `"e1"` (or a wall label such as `"e8h"`,
/// whose orientation letter is ignored) to a board coordinate.
pub fn algebraic_to_coord(square: &str, board_size: usize) -> (r: Result<Coord, GameError>)
    requires
        board_size <= 9,
    ensures
        r == spec_decode(square@, board_size),
        r matches Ok(c) ==> c.0 < board_size && c.1 < board_size,
{
    proof {
        vstd::string::is_ascii_spec_bytes(square);
    }
    if !square.is_ascii() {
        return Err(GameError::MalformedNotation);
    }
    let n = square.unicode_len();
    // Strip a trailing orientation letter from a wall label.
    let stripped_len: usize = if n > 2 {
        let last = square.get_ascii(n - 1);
        if last == ASCII_H || last == ASCII_V {
            2
        } else {
            n
        }
    } else {
        n
    };
    let ghost t = spec_strip_wall_suffix(square@);
    proof {
        assert(t =~= square@.subrange(0, stripped_len as int));
    }
    if stripped_len < 2 {
        return Err(GameError::MalformedNotation);
    }
    let c0 = square.get_ascii(0);
    let is_lower = ASCII_LA <= c0 && c0 <= ASCII_LZ;
    let is_upper = ASCII_UA <= c0 && c0 <= ASCII_UZ;
    if !(is_lower || is_upper) {
        return Err(GameError::MalformedNotation);
    }
    let col: usize = if is_lower {
        (c0 - ASCII_LA) as usize
    } else {
        (c0 - ASCII_UA) as usize
    };
    assert(col == spec_col_of(t[0]));
    // Read the row number; values past the largest board size saturate,
    // which cannot change the in-range test below.
    let mut rv: usize = 0;
    let mut i: usize = 1;
    #[verifier::loop_isolation(false)]
    while i < stripped_len
        invariant
            1 <= i <= stripped_len,
            stripped_len <= square@.len(),
            t =~= square@.subrange(0, stripped_len as int),
            vstd::utf8::is_ascii_chars(square@),
            spec_all_digits(t.subrange(1, i as int)),
            rv == if spec_digits_val(t.subrange(1, i as int)) > 9 {
                10int
            } else {
                spec_digits_val(t.subrange(1, i as int))
            },
        decreases stripped_len - i,
    {
        let d = square.get_ascii(i);
        if !(ASCII_D0 <= d && d <= ASCII_D9) {
            assert(!spec_is_digit(t.subrange(1, stripped_len as int)[i - 1]));
            return Err(GameError::MalformedNotation);
        }
        let ghost pre = t.subrange(1, i as int);
        let ghost cur = t.subrange(1, i + 1);
        proof {
            assert(cur.drop_last() =~= pre);
            assert(cur.last() == t[i as int]);
        }
        rv = rv * 10 + ((d - ASCII_D0) as usize);
        if rv > 9 {
            rv = 10;
        }
        i += 1;
    }
    proof {
        assert(t.subrange(1, stripped_len as int) =~= t.subrange(1, i as int));
    }
    if !(1 <= rv && rv <= board_size) {
        return Err(GameError::OutOfBounds);
    }
    if !(col < board_size) {
        return Err(GameError::OutOfBounds);
    }
    Ok((board_size - rv, col))
}

/// Converts a board coordinate to its two-character cell label.
pub fn coord_to_algebraic(coord: Coord, board_size: usize) -> (r: String)
    requires
        coord.0 < board_size,
        coord.1 < board_size,
        board_size <= 9,
    ensures
        r@ == spec_coord_label(coord, board_size),
{
    let cols = "abcdefghi";
    let digs = "0123456789";
    proof {
        reveal_strlit("abcdefghi");
        reveal_strlit("0123456789");
    }
    let cpart = cols.substring_ascii(coord.1, coord.1 + 1);
    let row_num = board_size - coord.0;
    let dpart = digs.substring_ascii(row_num, row_num + 1);
    let r = String::from_str(cpart).concat(dpart);
    proof {
        assert(r@ =~= spec_coord_label(coord, board_size));
    }
    r
}

/// The absolute difference of two sizes.
pub fn abs_diff(a: usize, b: usize) -> (r: usize)
    ensures
        r == if a > b {
            a - b
        } else {
            b - a
        },
{
    if a > b {
        a - b
    } else {
        b - a
    }
}

/// Decoding a coordinate's own label returns that coordinate, on every
/// board the notation covers.
pub proof fn lemma_notation_round_trip(coord: Coord, size: usize)
    requires
        coord.0 < size,
        coord.1 < size,
        size <= 9,
    ensures
        spec_decode(spec_coord_label(coord, size), size) == Ok::<Coord, GameError>(coord),
{
    reveal_strlit("abcdefghi");
    reveal_strlit("0123456789");
    let s = spec_coord_label(coord, size);
    assert(vstd::utf8::is_ascii_chars(s)) by {
        assert(forall|i: int| 0 <= i < 9 ==> ("abcdefghi"@[i]) < 128);
        assert(forall|i: int| 0 <= i < 10 ==> ("0123456789"@[i]) < 128);
    }
    assert(spec_row_digit(1) == '1' && spec_row_digit(2) == '2' && spec_row_digit(3) == '3'
        && spec_row_digit(4) == '4' && spec_row_digit(5) == '5' && spec_row_digit(6) == '6'
        && spec_row_digit(7) == '7' && spec_row_digit(8) == '8' && spec_row_digit(9) == '9');
    assert(spec_col_letter(0) == 'a' && spec_col_letter(1) == 'b' && spec_col_letter(2) == 'c'
        && spec_col_letter(3) == 'd' && spec_col_letter(4) == 'e' && spec_col_letter(5) == 'f'
        && spec_col_letter(6) == 'g' && spec_col_letter(7) == 'h' && spec_col_letter(8) == 'i');
    let t = spec_strip_wall_suffix(s);
    assert(t == s);
    assert(spec_is_alpha(t[0]));
    let row_str = t.subrange(1, t.len() as int);
    assert(row_str =~= seq![spec_row_digit(size - coord.0)]);
    assert(spec_is_digit(row_str[0]));
    assert(row_str.drop_last() =~= Seq::<char>::empty());
    assert(spec_digits_val(Seq::<char>::empty()) == 0);
    assert(spec_digits_val(row_str) == spec_row_digit(size - coord.0) as int - '0' as int);
    assert(spec_digits_val(row_str) == size - coord.0);
    assert(spec_col_of(t[0]) == coord.1);
}

/// The decimal digits of a number.
pub open spec fn spec_dec_digits(n: int) -> Seq<char>
    decreases n,
{
    if n < 10 {
        seq![spec_row_digit(n)]
    } else {
        spec_dec_digits(n / 10).push(spec_row_digit(n % 10))
    }
}

/// Renders a number in decimal.
pub fn usize_to_string(n: usize) -> (r: String)
    ensures
        r@ == spec_dec_digits(n as int),
    decreases n,
{
    let digs = "0123456789";
    proof {
        reveal_strlit("0123456789");
    }
    if n < 10 {
        String::from_str(digs.substring_ascii(n, n + 1))
    } else {
        let head = usize_to_string(n / 10);
        let d = n % 10;
        let r = head.concat(digs.substring_ascii(d, d + 1));
        proof {
            assert(r@ =~= spec_dec_digits(n as int));
        }
        r
    }
}

} // verus!
