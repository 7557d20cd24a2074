//! Laws of the cell reference formatter: the column-name alphabet, how
//! the name length grows with the column index, injectivity of the
//! naming, and the independent composition of the absolute flags.

use crate::utility::{cell_ref, col_letters, col_name, dec_digits, dollar_mark, letter_of};
use vstd::prelude::*;

verus! {

/// Whether `c` is one of the uppercase letters A..Z.
pub open spec fn is_upper_letter(c: char) -> bool {
    'A' as u32 <= c as u32 && c as u32 <= 'Z' as u32
}

/// For a 1-based ordinal `n >= 1`, its lowest bijective base-26 digit `r`
/// and the quotient `(n - 1) / 26` recompose `n`.
proof fn lemma_digit_decomposition(n: nat)
    requires
        n >= 1,
    ensures
        ({
            let r: nat = if n % 26 == 0 { 26 } else { n % 26 };
            1 <= r <= 26 && n == 26 * ((n - 1) / 26) + r
        }),
{
    let q = (n - 1) as nat / 26;
    let m = (n - 1) as nat % 26;
    assert(n - 1 == 26 * q + m && m < 26) by {
        vstd::arithmetic::div_mod::lemma_fundamental_div_mod((n - 1) as int, 26);
    }
    assert(n % 26 == (m + 1) % 26) by {
        vstd::arithmetic::div_mod::lemma_mod_multiples_vanish(q as int, (m + 1) as int, 26);
    }
    if m + 1 < 26 {
        assert((m + 1) as nat % 26 == m + 1) by {
            vstd::arithmetic::div_mod::lemma_small_mod((m + 1) as nat, 26);
        }
    }
}

/// The digit-to-letter mapping is injective on the digits 1..26.
proof fn lemma_letter_of_injective(r1: nat, r2: nat)
    requires
        1 <= r1 <= 26,
        1 <= r2 <= 26,
        letter_of(r1) == letter_of(r2),
    ensures
        r1 == r2,
{
}

/// Every character of a column name is an uppercase letter.
proof fn lemma_col_letters_chars(n: nat)
    ensures
        forall|i: int|
            0 <= i < col_letters(n).len() ==> is_upper_letter(#[trigger] col_letters(n)[i]),
    decreases n,
{
    if n >= 1 {
        let q = ((n - 1) / 26) as nat;
        let r: nat = if n % 26 == 0 { 26 } else { n % 26 };
        lemma_col_letters_chars(q);
        assert(is_upper_letter(letter_of(r)));
        assert forall|i: int| 0 <= i < col_letters(n).len() implies is_upper_letter(
            #[trigger] col_letters(n)[i],
        ) by {
            if i < col_letters(q).len() {
                assert(col_letters(n)[i] == col_letters(q)[i]);
            } else {
                assert(col_letters(n)[i] == letter_of(r));
            }
        }
    }
}

/// Every character of the name of a column index is one of the uppercase
/// letters A..Z.
pub proof fn lemma_col_name_chars(col: nat)
    ensures
        forall|i: int|
            0 <= i < col_name(col).len() ==> is_upper_letter(#[trigger] col_name(col)[i]),
{
    lemma_col_letters_chars(col + 1);
}

/// The largest 1-based column ordinal whose name has at most `k` letters:
/// 26 + 26^2 + ... + 26^k.
pub open spec fn max_ordinal_with_len(k: nat) -> nat
    decreases k,
{
    if k == 0 {
        0
    } else {
        26 * (max_ordinal_with_len((k - 1) as nat) + 1)
    }
}

/// A 1-based ordinal's name has at most `k` letters exactly when the
/// ordinal is at most 26 + 26^2 + ... + 26^k.
proof fn lemma_col_letters_len(n: nat, k: nat)
    ensures
        col_letters(n).len() <= k <==> n <= max_ordinal_with_len(k),
    decreases n,
{
    if n == 0 {
    } else if k == 0 {
        assert(col_letters(n).len() >= 1);
    } else {
        let q = ((n - 1) / 26) as nat;
        let s = max_ordinal_with_len((k - 1) as nat);
        lemma_col_letters_len(q, (k - 1) as nat);
        assert(col_letters(n).len() == col_letters(q).len() + 1);
        let m = (n - 1) as nat % 26;
        assert(n - 1 == 26 * q + m && m < 26) by {
            vstd::arithmetic::div_mod::lemma_fundamental_div_mod((n - 1) as int, 26);
        }
        assert(q <= s <==> n <= 26 * s + 26);
    }
}

/// The name of column index `col` has at most `k` letters exactly when
/// `col + 1` is at most `max_ordinal_with_len(k)`.
pub proof fn lemma_col_name_len(col: nat, k: nat)
    ensures
        col_name(col).len() <= k <==> col + 1 <= max_ordinal_with_len(k),
{
    lemma_col_letters_len(col + 1, k);
}

/// The length of a column name never decreases as the column index grows.
pub proof fn lemma_col_name_len_monotone(col1: nat, col2: nat)
    requires
        col1 <= col2,
    ensures
        col_name(col1).len() <= col_name(col2).len(),
{
    let k = col_name(col2).len();
    lemma_col_name_len(col2, k);
    lemma_col_name_len(col1, k);
}

/// The name length increases exactly where the column index crosses
/// 26 + 26^2 + ... + 26^k (that is, at 26, 702, 18278, ...): the column
/// index just below that bound is the last with a `k`-letter name, and
/// the bound itself is named with `k + 1` letters.
pub proof fn lemma_col_name_len_boundary(k: nat)
    requires
        k >= 1,
    ensures
        col_name((max_ordinal_with_len(k) - 1) as nat).len() == k,
        col_name(max_ordinal_with_len(k)).len() == k + 1,
{
    let s = max_ordinal_with_len(k);
    assert(s >= 26);
    lemma_col_name_len((s - 1) as nat, k);
    lemma_col_name_len((s - 1) as nat, (k - 1) as nat);
    assert(max_ordinal_with_len((k - 1) as nat) < s);
    lemma_col_name_len(s, k);
    lemma_col_name_len(s, (k + 1) as nat);
    assert(s + 1 <= max_ordinal_with_len((k + 1) as nat));
}

/// Distinct 1-based ordinals have distinct bijective base-26 names.
proof fn lemma_col_letters_injective(n1: nat, n2: nat)
    ensures
        col_letters(n1) == col_letters(n2) ==> n1 == n2,
    decreases n1 + n2,
{
    if col_letters(n1) == col_letters(n2) && n1 != n2 {
        if n1 == 0 || n2 == 0 {
            assert(col_letters(n1).len() == col_letters(n2).len());
        } else {
            let q1 = ((n1 - 1) / 26) as nat;
            let r1: nat = if n1 % 26 == 0 { 26 } else { n1 % 26 };
            let q2 = ((n2 - 1) / 26) as nat;
            let r2: nat = if n2 % 26 == 0 { 26 } else { n2 % 26 };
            lemma_digit_decomposition(n1);
            lemma_digit_decomposition(n2);
            assert(col_letters(n1).last() == letter_of(r1));
            assert(col_letters(n2).last() == letter_of(r2));
            lemma_letter_of_injective(r1, r2);
            assert(col_letters(n1).drop_last() =~= col_letters(q1));
            assert(col_letters(n2).drop_last() =~= col_letters(q2));
            lemma_col_letters_injective(q1, q2);
        }
    }
}

/// Bijectivity of the column naming: distinct column indices always get
/// distinct letter names.
pub proof fn lemma_col_name_injective(col1: nat, col2: nat)
    ensures
        col1 != col2 ==> col_name(col1) != col_name(col2),
{
    lemma_col_letters_injective(col1 + 1, col2 + 1);
}

/// The absolute flags compose independently: with both flags set, the
/// reference is a `$`, the bare column name (the column formatted with
/// its flag clear), a `$`, and the decimal 1-based row number.
pub proof fn lemma_abs_flags_compose(row: nat, col: nat)
    ensures
        cell_ref(row, col, true, true) == seq!['$'] + (dollar_mark(false) + col_name(col))
            + seq!['$'] + dec_digits(row + 1),
{
    assert(cell_ref(row, col, true, true) =~= seq!['$'] + (dollar_mark(false) + col_name(col))
        + seq!['$'] + dec_digits(row + 1));
}

} // verus!
