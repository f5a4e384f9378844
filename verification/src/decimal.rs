//! Decimal notation of natural numbers, as it appears in query strings.

use vstd::prelude::*;

verus! {

/// The character that denotes the digit `d`, for `d` from 0 to 9.
pub open spec fn digit_char(d: nat) -> char {
    if d == 0 {
        '0'
    } else if d == 1 {
        '1'
    } else if d == 2 {
        '2'
    } else if d == 3 {
        '3'
    } else if d == 4 {
        '4'
    } else if d == 5 {
        '5'
    } else if d == 6 {
        '6'
    } else if d == 7 {
        '7'
    } else if d == 8 {
        '8'
    } else {
        '9'
    }
}

/// The decimal notation of `n`: most significant digit first, no sign, no
/// padding, and the single digit `0` for zero.
pub open spec fn decimal(n: nat) -> Seq<char>
    decreases n,
{
    if n < 10 {
        seq![digit_char(n)]
    } else {
        decimal(n / 10).push(digit_char(n % 10))
    }
}

/// The number that a digit character denotes, if it is one.
pub open spec fn digit_value(c: char) -> Option<nat> {
    if c == '0' {
        Some(0)
    } else if c == '1' {
        Some(1)
    } else if c == '2' {
        Some(2)
    } else if c == '3' {
        Some(3)
    } else if c == '4' {
        Some(4)
    } else if c == '5' {
        Some(5)
    } else if c == '6' {
        Some(6)
    } else if c == '7' {
        Some(7)
    } else if c == '8' {
        Some(8)
    } else if c == '9' {
        Some(9)
    } else {
        None
    }
}

/// The number that a string of digits denotes, read in base ten. Characters
/// that are no digits count as zero.
pub open spec fn decimal_value(digits: Seq<char>) -> nat
    decreases digits.len(),
{
    if digits.len() == 0 {
        0
    } else {
        let last = match digit_value(digits.last()) {
            Some(d) => d,
            None => 0,
        };
        decimal_value(digits.drop_last()) * 10 + last
    }
}

/// Decimal notation loses nothing: reading the notation of `n` gives `n`
/// back, so two numbers with the same notation are equal.
pub proof fn lemma_decimal_value(n: nat)
    ensures
        decimal_value(decimal(n)) == n,
    decreases n,
{
    if n < 10 {
        let s = seq![digit_char(n)];
        assert(s.last() == digit_char(n));
        assert(s.drop_last().len() == 0);
        assert(decimal_value(s.drop_last()) == 0);
    } else {
        lemma_decimal_value(n / 10);
        let s = decimal(n / 10).push(digit_char(n % 10));
        assert(s.last() == digit_char(n % 10));
        assert(s.drop_last() =~= decimal(n / 10));
    }
}

/// The notation of a number is never empty and holds digits only.
pub proof fn lemma_decimal_shape(n: nat)
    ensures
        decimal(n).len() >= 1,
        forall|i: int|
            0 <= i < decimal(n).len() ==> digit_value(#[trigger] decimal(n)[i]).is_some(),
    decreases n,
{
    if n >= 10 {
        lemma_decimal_shape(n / 10);
        let head = decimal(n / 10);
        let s = head.push(digit_char(n % 10));
        assert forall|i: int| 0 <= i < s.len() implies digit_value(#[trigger] s[i]).is_some() by {
            if i < head.len() {
                assert(s[i] == head[i]);
            }
        }
    }
}

/// Whether a string holds digits only.
pub open spec fn all_digits(text: Seq<char>) -> bool {
    forall|i: int| 0 <= i < text.len() ==> digit_value(#[trigger] text[i]).is_some()
}

/// A run of digits ends where the first other character stands: when two
/// runs of digits, each followed by a text that begins with no digit, make
/// the same string, the runs are equal and so are the texts behind them.
pub proof fn lemma_digits_end_at_mark(
    digits: Seq<char>,
    rest: Seq<char>,
    other_digits: Seq<char>,
    other_rest: Seq<char>,
)
    requires
        all_digits(digits),
        all_digits(other_digits),
        rest.len() > 0 && digit_value(rest[0]).is_none(),
        other_rest.len() > 0 && digit_value(other_rest[0]).is_none(),
        digits + rest == other_digits + other_rest,
    ensures
        digits == other_digits,
        rest == other_rest,
{
    let whole = digits + rest;
    let other_whole = other_digits + other_rest;
    if digits.len() < other_digits.len() {
        assert(whole[digits.len() as int] == rest[0]);
        assert(other_whole[digits.len() as int] == other_digits[digits.len() as int]);
    }
    if other_digits.len() < digits.len() {
        assert(other_whole[other_digits.len() as int] == other_rest[0]);
        assert(whole[other_digits.len() as int] == digits[other_digits.len() as int]);
    }
    assert(digits.len() == other_digits.len());
    assert(whole.len() == other_whole.len());
    assert forall|i: int| 0 <= i < digits.len() implies digits[i] == other_digits[i] by {
        assert(whole[i] == digits[i]);
        assert(other_whole[i] == other_digits[i]);
    }
    assert(digits =~= other_digits);
    assert forall|i: int| 0 <= i < rest.len() implies rest[i] == other_rest[i] by {
        assert(whole[digits.len() + i] == rest[i]);
        assert(other_whole[digits.len() + i] == other_rest[i]);
    }
    assert(rest =~= other_rest);
}

/// Two numbers with the same decimal notation are the same number.
pub proof fn lemma_decimal_is_injective(n: nat, m: nat)
    requires
        decimal(n) == decimal(m),
    ensures
        n == m,
{
    lemma_decimal_value(n);
    lemma_decimal_value(m);
}

/// The one-character string for the digit `d`.
fn digit_str(d: usize) -> (text: &'static str)
    requires
        d < 10,
    ensures
        text@ == seq![digit_char(d as nat)],
{
    proof {
        reveal_strlit("0");
        reveal_strlit("1");
        reveal_strlit("2");
        reveal_strlit("3");
        reveal_strlit("4");
        reveal_strlit("5");
        reveal_strlit("6");
        reveal_strlit("7");
        reveal_strlit("8");
        reveal_strlit("9");
    }
    let text = if d == 0 {
        "0"
    } else if d == 1 {
        "1"
    } else if d == 2 {
        "2"
    } else if d == 3 {
        "3"
    } else if d == 4 {
        "4"
    } else if d == 5 {
        "5"
    } else if d == 6 {
        "6"
    } else if d == 7 {
        "7"
    } else if d == 8 {
        "8"
    } else {
        "9"
    };
    assert(text@ =~= seq![digit_char(d as nat)]);
    text
}

/// Appends the decimal notation of `n` to `out`.
pub fn push_decimal(out: &mut String, n: usize)
    ensures
        final(out)@ == old(out)@ + decimal(n as nat),
    decreases n,
{
    if n >= 10 {
        push_decimal(out, n / 10);
    }
    out.append(digit_str(n % 10));
    proof {
        if n >= 10 {
            assert(old(out)@ + decimal((n / 10) as nat) + seq![digit_char((n % 10) as nat)]
                =~= old(out)@ + decimal(n as nat));
        } else {
            assert(old(out)@ + seq![digit_char(n as nat)] =~= old(out)@ + decimal(n as nat));
        }
    }
}

/// The decimal notation of `n` as a string.
pub fn to_decimal(n: usize) -> (text: String)
    ensures
        text@ == decimal(n as nat),
{
    let mut text = String::new();
    push_decimal(&mut text, n);
    assert(Seq::<char>::empty() + decimal(n as nat) =~= decimal(n as nat));
    text
}

} // verus!
