//! Decimal text of integers, as the printer reads numbers: plain, padded with
//! zeros to a minimum width, and with a sign.

use vstd::prelude::*;

verus! {

/// The character that writes the digit `d`.
pub open spec fn digit(d: nat) -> char
    recommends
        d < 10,
{
    if d == 0 {
        '0'
    } else if d == 1 {
        '1'
    } else if d == 2 {
        '2'
    } else if d == 3 {
        '3'
    } else if d == 4 {
        '4'
    } else if d == 5 {
        '5'
    } else if d == 6 {
        '6'
    } else if d == 7 {
        '7'
    } else if d == 8 {
        '8'
    } else {
        '9'
    }
}

/// The digits of `n` in base ten, most significant first, without leading
/// zeros; zero is the single digit `0`.
pub open spec fn decimal(n: nat) -> Seq<char>
    decreases n,
{
    if n < 10 {
        seq![digit(n)]
    } else {
        decimal(n / 10).push(digit(n % 10))
    }
}

/// `count` zeros.
pub open spec fn zeros(count: nat) -> Seq<char> {
    Seq::new(count, |i: int| '0')
}

/// The digits of `n`, with zeros in front until there are at least `width`
/// characters. A number with more digits than `width` keeps them all.
pub open spec fn zero_padded(n: nat, width: nat) -> Seq<char> {
    if decimal(n).len() >= width {
        decimal(n)
    } else {
        zeros((width - decimal(n).len()) as nat) + decimal(n)
    }
}

/// The distance of `v` from zero.
pub open spec fn magnitude(v: int) -> nat {
    if v < 0 {
        (-v) as nat
    } else {
        v as nat
    }
}

/// The digits of `v`, with a minus sign in front if `v` is negative and no
/// sign otherwise.
pub open spec fn signed_decimal(v: int) -> Seq<char> {
    if v < 0 {
        seq!['-'] + decimal(magnitude(v))
    } else {
        decimal(magnitude(v))
    }
}

/// The sign of `v`, always written (`+` for zero and above), then the digits
/// of its magnitude with zeros in front until sign and digits together have
/// at least `width` characters.
pub open spec fn sign_padded(v: int, width: nat) -> Seq<char> {
    let sign = if v < 0 {
        '-'
    } else {
        '+'
    };
    let rest = if width > 0 {
        (width - 1) as nat
    } else {
        0
    };
    seq![sign] + zero_padded(magnitude(v), rest)
}

/// The number that a sequence of digits writes, read most significant first.
/// Leading zeros do not change it; the empty sequence writes zero.
pub open spec fn digits_value(s: Seq<char>) -> nat
    decreases s.len(),
{
    if s.len() == 0 {
        0
    } else {
        digits_value(s.drop_last()) * 10 + digit_value(s.last())
    }
}

/// The digit that the character `c` writes; zero for any other character.
pub open spec fn digit_value(c: char) -> nat {
    if '0' <= c <= '9' {
        (c as nat - '0' as nat) as nat
    } else {
        0
    }
}

/// The one-character text of the digit `d`.
fn digit_text(d: u64) -> (t: &'static str)
    requires
        d < 10,
    ensures
        t@ == seq![digit(d as nat)],
{
    proof {
        reveal_strlit("0");
        reveal_strlit("1");
        reveal_strlit("2");
        reveal_strlit("3");
        reveal_strlit("4");
        reveal_strlit("5");
        reveal_strlit("6");
        reveal_strlit("7");
        reveal_strlit("8");
        reveal_strlit("9");
    }
    if d == 0 {
        "0"
    } else if d == 1 {
        "1"
    } else if d == 2 {
        "2"
    } else if d == 3 {
        "3"
    } else if d == 4 {
        "4"
    } else if d == 5 {
        "5"
    } else if d == 6 {
        "6"
    } else if d == 7 {
        "7"
    } else if d == 8 {
        "8"
    } else {
        "9"
    }
}

/// Appends the digits of `n` to `out`.
pub fn append_decimal(out: &mut String, n: u64)
    ensures
        final(out)@ == old(out)@ + decimal(n as nat),
    decreases n,
{
    if n >= 10 {
        append_decimal(out, n / 10);
    }
    out.append(digit_text(n % 10));
}

/// How many digits `n` has.
pub fn digit_count(n: u64) -> (count: usize)
    ensures
        count == decimal(n as nat).len(),
        1 <= count <= 20,
{
    let mut count: usize = 1;
    let mut rest: u64 = n;
    proof {
        lemma_decimal_len(n as nat, 20);
        assert(pow10(20) == 100_000_000_000_000_000_000nat) by {
            reveal_with_fuel(pow10, 21);
        }
    }
    while rest >= 10
        invariant
            1 <= count,
            decimal(n as nat).len() == decimal(rest as nat).len() + count - 1,
            decimal(n as nat).len() <= 20,
        decreases rest,
    {
        rest = rest / 10;
        count = count + 1;
    }
    count
}

/// Appends `count` zeros to `out`.
pub fn append_zeros(out: &mut String, count: usize)
    ensures
        final(out)@ == old(out)@ + zeros(count as nat),
{
    let mut done: usize = 0;
    while done < count
        invariant
            done <= count,
            out@ == old(out)@ + zeros(done as nat),
        decreases count - done,
    {
        proof {
            reveal_strlit("0");
        }
        out.append("0");
        done = done + 1;
    }
}

/// Appends the digits of `n` to `out`, with zeros in front until there are
/// at least `width` characters.
pub fn append_zero_padded(out: &mut String, n: u64, width: usize)
    ensures
        final(out)@ == old(out)@ + zero_padded(n as nat, width as nat),
{
    let count = digit_count(n);
    if count < width {
        append_zeros(out, width - count);
    }
    append_decimal(out, n);
}

/// The magnitude of `v` as an unsigned number.
pub fn magnitude_of(v: i64) -> (m: u64)
    ensures
        m == magnitude(v as int),
{
    if v < 0 {
        // `-v` does not fit for the least value, so step away from it first.
        let above: i64 = v + 1;
        let m: u64 = (-above) as u64;
        m + 1
    } else {
        v as u64
    }
}

/// Appends the digits of `v` to `out`, after a minus sign if `v` is negative.
pub fn append_signed(out: &mut String, v: i64)
    ensures
        final(out)@ == old(out)@ + signed_decimal(v as int),
{
    if v < 0 {
        proof {
            reveal_strlit("-");
        }
        out.append("-");
    }
    append_decimal(out, magnitude_of(v));
}

/// Appends the sign of `v` to `out`, then the digits of its magnitude with
/// zeros in front until sign and digits together have at least `width`
/// characters.
pub fn append_sign_padded(out: &mut String, v: i64, width: usize)
    ensures
        final(out)@ == old(out)@ + sign_padded(v as int, width as nat),
{
    proof {
        reveal_strlit("-");
        reveal_strlit("+");
    }
    if v < 0 {
        out.append("-");
    } else {
        out.append("+");
    }
    let rest: usize = if width > 0 {
        width - 1
    } else {
        0
    };
    append_zero_padded(out, magnitude_of(v), rest);
}

/// Ten to the power `k`.
pub open spec fn pow10(k: nat) -> nat
    decreases k,
{
    if k == 0 {
        1
    } else {
        10 * pow10((k - 1) as nat)
    }
}

/// A number has at most `k` digits exactly when it is below ten to the
/// power `k`, and it always has at least one.
pub proof fn lemma_decimal_len(n: nat, k: nat)
    requires
        k >= 1,
    ensures
        decimal(n).len() >= 1,
        decimal(n).len() <= k <==> n < pow10(k),
    decreases n,
{
    if n < 10 {
        lemma_pow10_at_least_ten(k);
    } else {
        if k == 1 {
            assert(pow10(1) == 10) by {
                reveal_with_fuel(pow10, 2);
            }
            lemma_decimal_len(n / 10, 1);
        } else {
            lemma_decimal_len(n / 10, (k - 1) as nat);
        }
    }
}

/// Ten to a power of one or more is at least ten.
proof fn lemma_pow10_at_least_ten(k: nat)
    requires
        k >= 1,
    ensures
        pow10(k) >= 10,
    decreases k,
{
    if k > 1 {
        lemma_pow10_at_least_ten((k - 1) as nat);
    } else {
        reveal_with_fuel(pow10, 2);
    }
}

/// Every character of a number's digits is one of `0` to `9`.
pub proof fn lemma_decimal_chars(n: nat)
    ensures
        forall|i: int| 0 <= i < decimal(n).len() ==> '0' <= #[trigger] decimal(n)[i] <= '9',
    decreases n,
{
    if n >= 10 {
        lemma_decimal_chars(n / 10);
    }
    assert forall|i: int| 0 <= i < decimal(n).len() implies '0' <= #[trigger] decimal(n)[i]
        <= '9' by {
        if n >= 10 && i < decimal(n / 10).len() {
            assert(decimal(n)[i] == decimal(n / 10)[i]);
        }
    }
}

/// The digits of a number write that number: nothing is lost or rounded.
pub proof fn lemma_decimal_value(n: nat)
    ensures
        digits_value(decimal(n)) == n,
    decreases n,
{
    if n < 10 {
        assert(digits_value(decimal(n).drop_last()) == 0);
    } else {
        lemma_decimal_value(n / 10);
        assert(decimal(n).drop_last() =~= decimal(n / 10));
    }
}

/// Zeros in front of digits do not change the number written.
pub proof fn lemma_zeros_value(count: nat, s: Seq<char>)
    ensures
        digits_value(zeros(count) + s) == digits_value(s),
    decreases s.len(),
{
    if s.len() == 0 {
        lemma_all_zeros_value(count);
    } else {
        lemma_zeros_value(count, s.drop_last());
        assert((zeros(count) + s).drop_last() =~= zeros(count) + s.drop_last());
    }
}

/// A run of zeros writes zero.
proof fn lemma_all_zeros_value(count: nat)
    ensures
        digits_value(zeros(count)) == 0,
    decreases count,
{
    if count > 0 {
        lemma_all_zeros_value((count - 1) as nat);
        assert(zeros(count).drop_last() =~= zeros((count - 1) as nat));
    }
}

/// Padding never truncates: whatever the width, the padded text writes the
/// whole number, and it is at least `width` characters long.
pub proof fn lemma_zero_padded_value(n: nat, width: nat)
    ensures
        digits_value(zero_padded(n, width)) == n,
        zero_padded(n, width).len() >= width,
        zero_padded(n, width).len() >= decimal(n).len(),
{
    lemma_decimal_value(n);
    lemma_zeros_value((width - decimal(n).len()) as nat, decimal(n));
}

} // verus!
