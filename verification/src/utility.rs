//! The cell reference formatter: column indices to bijective base-26
//! letter names, and `(row, column)` pairs to A1-style reference strings.

use crate::error::ExcelErr;
use vstd::prelude::*;

verus! {

/// A stateless handle for the formatting routines.
///
/// Construction cannot fail: the formatter keeps no compiled state, so
/// `new` returns the handle directly. The conversion functions themselves
/// are free functions; the handle exists for callers that want a value
/// to pass around.
pub struct Utility {}

impl Utility {
    /// A new formatting handle.
    pub fn new() -> (u: Utility) {
        Utility {}
    }
}

/// The letter standing for a bijective base-26 digit:
/// 1 is 'A', 2 is 'B', ..., 26 is 'Z'.
pub open spec fn letter_of(r: nat) -> char {
    if r == 1 { 'A' }
    else if r == 2 { 'B' }
    else if r == 3 { 'C' }
    else if r == 4 { 'D' }
    else if r == 5 { 'E' }
    else if r == 6 { 'F' }
    else if r == 7 { 'G' }
    else if r == 8 { 'H' }
    else if r == 9 { 'I' }
    else if r == 10 { 'J' }
    else if r == 11 { 'K' }
    else if r == 12 { 'L' }
    else if r == 13 { 'M' }
    else if r == 14 { 'N' }
    else if r == 15 { 'O' }
    else if r == 16 { 'P' }
    else if r == 17 { 'Q' }
    else if r == 18 { 'R' }
    else if r == 19 { 'S' }
    else if r == 20 { 'T' }
    else if r == 21 { 'U' }
    else if r == 22 { 'V' }
    else if r == 23 { 'W' }
    else if r == 24 { 'X' }
    else if r == 25 { 'Y' }
    else { 'Z' }
}

/// The character standing for a decimal digit: 0 is '0', ..., 9 is '9'.
pub open spec fn digit_of(d: nat) -> char {
    if d == 0 { '0' }
    else if d == 1 { '1' }
    else if d == 2 { '2' }
    else if d == 3 { '3' }
    else if d == 4 { '4' }
    else if d == 5 { '5' }
    else if d == 6 { '6' }
    else if d == 7 { '7' }
    else if d == 8 { '8' }
    else { '9' }
}

/// The letters naming the 1-based column ordinal `n` in bijective base-26:
/// the digits 1..26 of `n` (a remainder of 0 is remapped to the digit 26,
/// with the division compensating by one), most significant first.
pub open spec fn col_letters(n: nat) -> Seq<char>
    decreases n,
{
    if n == 0 {
        Seq::empty()
    } else {
        let r: nat = if n % 26 == 0 { 26 } else { n % 26 };
        col_letters(((n - 1) / 26) as nat).push(letter_of(r))
    }
}

/// The letter name of the zero-based column index `col`: "A" for 0,
/// "Z" for 25, "AA" for 26, and so on.
pub open spec fn col_name(col: nat) -> Seq<char> {
    col_letters(col + 1)
}

/// The decimal digits of `n`, most significant first, without leading
/// zeros (a single '0' for zero itself).
pub open spec fn dec_digits(n: nat) -> Seq<char>
    decreases n,
{
    if n < 10 {
        seq![digit_of(n)]
    } else {
        dec_digits(n / 10).push(digit_of(n % 10))
    }
}

/// The `$` marker of an absolute reference component: "$" when the flag
/// is set, empty otherwise.
pub open spec fn dollar_mark(abs: bool) -> Seq<char> {
    if abs { seq!['$'] } else { Seq::empty() }
}

/// The full A1-style reference for the zero-based `row` and `col`:
/// optional `$`, column letters, optional `$`, 1-based row number.
pub open spec fn cell_ref(row: nat, col: nat, row_abs: bool, col_abs: bool) -> Seq<char> {
    dollar_mark(col_abs) + col_name(col) + dollar_mark(row_abs) + dec_digits(row + 1)
}

/// The single-letter string for a bijective base-26 digit.
fn letter_str(r: usize) -> (s: &'static str)
    requires
        1 <= r <= 26,
    ensures
        s@ == seq![letter_of(r as nat)],
{
    let s: &'static str = match r {
        1 => "A",
        2 => "B",
        3 => "C",
        4 => "D",
        5 => "E",
        6 => "F",
        7 => "G",
        8 => "H",
        9 => "I",
        10 => "J",
        11 => "K",
        12 => "L",
        13 => "M",
        14 => "N",
        15 => "O",
        16 => "P",
        17 => "Q",
        18 => "R",
        19 => "S",
        20 => "T",
        21 => "U",
        22 => "V",
        23 => "W",
        24 => "X",
        25 => "Y",
        _ => "Z",
    };
    proof {
        reveal_strlit("A");
        reveal_strlit("B");
        reveal_strlit("C");
        reveal_strlit("D");
        reveal_strlit("E");
        reveal_strlit("F");
        reveal_strlit("G");
        reveal_strlit("H");
        reveal_strlit("I");
        reveal_strlit("J");
        reveal_strlit("K");
        reveal_strlit("L");
        reveal_strlit("M");
        reveal_strlit("N");
        reveal_strlit("O");
        reveal_strlit("P");
        reveal_strlit("Q");
        reveal_strlit("R");
        reveal_strlit("S");
        reveal_strlit("T");
        reveal_strlit("U");
        reveal_strlit("V");
        reveal_strlit("W");
        reveal_strlit("X");
        reveal_strlit("Y");
        reveal_strlit("Z");
        assert(s@ =~= seq![letter_of(r as nat)]);
    }
    s
}

/// The single-character string for a decimal digit.
fn digit_str(d: usize) -> (s: &'static str)
    requires
        d <= 9,
    ensures
        s@ == seq![digit_of(d as nat)],
{
    let s: &'static str = match d {
        0 => "0",
        1 => "1",
        2 => "2",
        3 => "3",
        4 => "4",
        5 => "5",
        6 => "6",
        7 => "7",
        8 => "8",
        _ => "9",
    };
    proof {
        reveal_strlit("0");
        reveal_strlit("1");
        reveal_strlit("2");
        reveal_strlit("3");
        reveal_strlit("4");
        reveal_strlit("5");
        reveal_strlit("6");
        reveal_strlit("7");
        reveal_strlit("8");
        reveal_strlit("9");
        assert(s@ =~= seq![digit_of(d as nat)]);
    }
    s
}

/// The letter name of the 1-based column ordinal `n`, built digit by
/// digit from the most significant end.
fn col_letters_string(n: usize) -> (s: String)
    ensures
        s@ == col_letters(n as nat),
    decreases n,
{
    if n == 0 {
        String::new()
    } else {
        let rem: usize = n % 26;
        let r: usize = if rem == 0 { 26 } else { rem };
        let mut s = col_letters_string((n - 1) / 26);
        s.append(letter_str(r));
        proof {
            assert(s@ =~= col_letters(n as nat));
        }
        s
    }
}

/// The decimal representation of `n`, built digit by digit from the most
/// significant end.
fn dec_string(n: usize) -> (s: String)
    ensures
        s@ == dec_digits(n as nat),
    decreases n,
{
    if n < 10 {
        String::from_str(digit_str(n))
    } else {
        let mut s = dec_string(n / 10);
        s.append(digit_str(n % 10));
        proof {
            assert(s@ =~= dec_digits(n as nat));
        }
        s
    }
}

/// Convert a zero-indexed column index to its letter name, optionally
/// prefixed with `$` for an absolute column reference.
///
/// The naming is the bijective base-26 numbering: 0 is "A", 25 is "Z",
/// 26 is "AA". On every admitted input the result is `Ok`; the error
/// path of the signature is a checked outcome that the verified body
/// never takes.
pub fn xl_col_to_name(col_num: usize, col_abs: bool) -> (r: Result<String, ExcelErr>)
    requires
        col_num < usize::MAX,
    ensures
        r matches Ok(s) && s@ == dollar_mark(col_abs) + col_name(col_num as nat),
{
    let mut s = String::new();
    if col_abs {
        proof {
            reveal_strlit("$");
        }
        s.append("$");
    }
    let letters = col_letters_string(col_num + 1);
    s.append(letters.as_str());
    proof {
        assert(s@ =~= dollar_mark(col_abs) + col_name(col_num as nat));
    }
    Ok(s)
}

/// Convert a zero-indexed row and column cell reference to an A1-style
/// string: optional `$`, column letters, optional `$`, 1-based row number.
///
/// On every admitted input the result is `Ok`; the error path of the
/// signature is a checked outcome that the verified body never takes.
pub fn xl_rowcol_to_cell(row: usize, col: usize, row_abs: bool, col_abs: bool) -> (r: Result<
    String,
    ExcelErr,
>)
    requires
        row < usize::MAX,
        col < usize::MAX,
    ensures
        r matches Ok(s) && s@ == cell_ref(row as nat, col as nat, row_abs, col_abs),
{
    let mut s = match xl_col_to_name(col, col_abs) {
        Ok(letters) => letters,
        Err(e) => {
            return Err(e);
        },
    };
    if row_abs {
        proof {
            reveal_strlit("$");
        }
        s.append("$");
    }
    let digits = dec_string(row + 1);
    s.append(digits.as_str());
    proof {
        assert(s@ =~= cell_ref(row as nat, col as nat, row_abs, col_abs));
    }
    Ok(s)
}

} // verus!
