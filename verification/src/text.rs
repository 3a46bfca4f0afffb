//! Texts: how a cell's value is rendered, how a text is folded into a token,
//! and how a cell's coordinate is written.

use vstd::prelude::*;
use vstd::string::*;
use crate::types::{Cell, CellValue};

verus! {

// The lowercase form of a text that `str::to_lowercase` returns.
pub uninterp spec fn lowercase(text: Seq<char>) -> Seq<char>;

/// Calls `str::to_lowercase`. The result is the lowercase form of the text by
/// Unicode's rules; it depends on the text alone and is named `lowercase`.
#[verifier::external_body]
pub(crate) fn to_lowercase(text: &str) -> (folded: String)
    ensures
        folded@ == lowercase(text@),
{
    text.to_lowercase()
}

/// `String::push` appends one character to the end of the string.
pub assume_specification[ std::string::String::push ](s: &mut std::string::String, c: char)
    ensures
        final(s)@ == old(s)@.push(c),
;

/// The text of a cell: nothing for an empty cell, `true` or `false` for a
/// boolean, the decimal text of a number, the string itself otherwise.
pub open spec fn text_of(cell: Cell) -> Seq<char> {
    match cell {
        Cell::Null => Seq::empty(),
        Cell::Text(s) => s,
        Cell::Number(t) => t,
        Cell::Boolean(b) => if b {
            seq!['t', 'r', 'u', 'e']
        } else {
            seq!['f', 'a', 'l', 's', 'e']
        },
    }
}

/// The token under which a cell's text is indexed and searched.
pub open spec fn token_of(cell: Cell) -> Seq<char> {
    lowercase(text_of(cell))
}

/// Renders a cell's value as text.
pub fn cell_to_string(cell: &CellValue) -> (text: String)
    ensures
        text@ == text_of(cell@),
{
    match cell {
        CellValue::Null => String::new(),
        CellValue::String(s) => s.clone(),
        CellValue::Number(t) => t.clone(),
        CellValue::Boolean(b) => {
            if *b {
                proof {
                    reveal_strlit("true");
                }
                let text = String::from_str("true");
                assert(text@ =~= seq!['t', 'r', 'u', 'e']);
                text
            } else {
                proof {
                    reveal_strlit("false");
                }
                let text = String::from_str("false");
                assert(text@ =~= seq!['f', 'a', 'l', 's', 'e']);
                text
            }
        },
    }
}

/// The decimal digit `d`, for `d` below ten.
pub open spec fn digit(d: nat) -> char {
    (48 + d) as char
}

/// The decimal numeral of `n`, without leading zeros.
pub open spec fn decimal(n: nat) -> Seq<char>
    decreases n,
{
    if n < 10 {
        seq![digit(n)]
    } else {
        decimal(n / 10).push(digit(n % 10))
    }
}

/// The `k`-th capital letter, counted from zero, for `k` below 26.
pub open spec fn letter(k: nat) -> char {
    (65 + k) as char
}

/// The letters that name column `col`: `A` to `Z`, then `AA`, `AB` and so on,
/// the bijective numeral of `col + 1` in base 26.
pub open spec fn column_letters(col: nat) -> Seq<char>
    decreases col,
{
    if col < 26 {
        seq![letter(col)]
    } else {
        column_letters((col / 26 - 1) as nat).push(letter(col % 26))
    }
}

/// The coordinate of the cell in row `row` and column `col`, both counted from
/// zero: the column's letters, then the row's number counted from one.
pub open spec fn cell_label(row: nat, col: nat) -> Seq<char> {
    column_letters(col) + decimal(row + 1)
}

fn push_decimal(out: &mut String, n: u128)
    ensures
        final(out)@ == old(out)@ + decimal(n as nat),
    decreases n,
{
    if n >= 10 {
        push_decimal(out, n / 10);
    }
    let d: u8 = (n % 10) as u8;
    out.push((48u8 + d) as char);
    assert(out@ =~= old(out)@ + decimal(n as nat));
}

fn push_letters(out: &mut String, col: usize)
    ensures
        final(out)@ == old(out)@ + column_letters(col as nat),
    decreases col,
{
    if col >= 26 {
        push_letters(out, col / 26 - 1);
    }
    let k: u8 = (col % 26) as u8;
    out.push((65u8 + k) as char);
    assert(out@ =~= old(out)@ + column_letters(col as nat));
}

/// Writes `n` in decimal.
pub fn decimal_text(n: u128) -> (text: String)
    ensures
        text@ == decimal(n as nat),
{
    let mut text = String::new();
    push_decimal(&mut text, n);
    assert(text@ =~= decimal(n as nat));
    text
}

/// Names column `col` by letters: 0 is `A`, 25 is `Z`, 26 is `AA`.
pub fn col_to_letter(col: usize) -> (letters: String)
    ensures
        letters@ == column_letters(col as nat),
{
    let mut letters = String::new();
    push_letters(&mut letters, col);
    assert(letters@ =~= column_letters(col as nat));
    letters
}

/// Writes the coordinate of a cell as a spreadsheet shows it.
pub fn cell_position_text(row: usize, col: usize) -> (label: String)
    ensures
        label@ == cell_label(row as nat, col as nat),
{
    let mut label = String::new();
    push_letters(&mut label, col);
    push_decimal(&mut label, row as u128 + 1);
    assert(label@ =~= cell_label(row as nat, col as nat));
    label
}

} // verus!
