//! Numbers written out in decimal.

use vstd::prelude::*;
use vstd::string::StringExecFns;

verus! {

/// The character of a decimal digit.
pub open spec fn digit_char(digit: nat) -> char {
    if digit == 0 {
        '0'
    } else if digit == 1 {
        '1'
    } else if digit == 2 {
        '2'
    } else if digit == 3 {
        '3'
    } else if digit == 4 {
        '4'
    } else if digit == 5 {
        '5'
    } else if digit == 6 {
        '6'
    } else if digit == 7 {
        '7'
    } else if digit == 8 {
        '8'
    } else {
        '9'
    }
}

/// A number in decimal, without leading zeros.
pub open spec fn decimal(n: nat) -> Seq<char>
    decreases n,
{
    if n < 10 {
        seq![digit_char(n)]
    } else {
        decimal(n / 10).push(digit_char(n % 10))
    }
}

/// A number in decimal, with a minus sign where it is negative.
pub open spec fn signed_decimal(n: int) -> Seq<char> {
    if n < 0 {
        seq!['-'] + decimal((-n) as nat)
    } else {
        decimal(n as nat)
    }
}

/// A number of `k` digits is at least `10^(k-1)`: every number has at
/// least one digit, and more digits mean a larger number.
pub proof fn lemma_decimal_len(n: nat)
    ensures
        decimal(n).len() >= 1,
        n < 10 <==> decimal(n).len() == 1,
        n >= 10 ==> decimal(n).len() == decimal(n / 10).len() + 1,
    decreases n,
{
    if n >= 10 {
        lemma_decimal_len(n / 10);
    }
}

/// The text of one digit.
fn digit_text(digit: u8) -> (text: &'static str)
    requires
        digit < 10,
    ensures
        text@ == seq![digit_char(digit as nat)],
{
    proof {
        reveal_strlit("0");
        reveal_strlit("1");
        reveal_strlit("2");
        reveal_strlit("3");
        reveal_strlit("4");
        reveal_strlit("5");
        reveal_strlit("6");
        reveal_strlit("7");
        reveal_strlit("8");
        reveal_strlit("9");
    }
    let text = if digit == 0 {
        "0"
    } else if digit == 1 {
        "1"
    } else if digit == 2 {
        "2"
    } else if digit == 3 {
        "3"
    } else if digit == 4 {
        "4"
    } else if digit == 5 {
        "5"
    } else if digit == 6 {
        "6"
    } else if digit == 7 {
        "7"
    } else if digit == 8 {
        "8"
    } else {
        "9"
    };
    assert(text@ =~= seq![digit_char(digit as nat)]);
    text
}

/// Appends a number in decimal.
pub fn append_decimal(out: &mut String, n: u64)
    ensures
        final(out)@ == old(out)@ + decimal(n as nat),
    decreases n,
{
    if n >= 10 {
        append_decimal(out, n / 10);
    }
    out.append(digit_text((n % 10) as u8));
    proof {
        if n >= 10 {
            assert(old(out)@ + decimal((n / 10) as nat) + seq![digit_char((n % 10) as nat)] =~= old(out)@
                + decimal(n as nat));
        }
    }
}

/// Appends a number in decimal, with its sign where it is negative.
pub fn append_signed_decimal(out: &mut String, n: i64)
    ensures
        final(out)@ == old(out)@ + signed_decimal(n as int),
{
    if n < 0 {
        proof {
            reveal_strlit("-");
        }
        out.append("-");
        let magnitude: u64 = ((-(n + 1)) as u64) + 1;
        append_decimal(out, magnitude);
        proof {
            assert("-"@ =~= seq!['-']);
            assert(old(out)@ + seq!['-'] + decimal(magnitude as nat) =~= old(out)@ + (seq!['-'] + decimal(
                (-n) as nat,
            )));
        }
    } else {
        append_decimal(out, n as u64);
    }
}

/// Number of decimal digits of a number.
pub fn decimal_width(n: u64) -> (width: usize)
    ensures
        width == decimal(n as nat).len(),
        1 <= width <= 20,
{
    let mut rest: u64 = n;
    let mut width: usize = 1;
    proof {
        assert(rest as nat * pow10(0) == n) by (nonlinear_arith)
            requires
                pow10(0) == 1,
                rest == n,
        ;
    }
    while rest >= 10
        invariant
            1 <= width,
            width + decimal(rest as nat).len() == decimal(n as nat).len() + 1,
            rest as nat * pow10((width - 1) as nat) <= n,
            width <= 20,
        decreases rest,
    {
        proof {
            lemma_decimal_len(rest as nat);
            lemma_pow10_step(rest as nat, (width - 1) as nat, n as nat);
        }
        rest = rest / 10;
        width = width + 1;
    }
    proof {
        lemma_decimal_len(rest as nat);
    }
    width
}

/// Ten to the power of `k`.
pub open spec fn pow10(k: nat) -> nat
    decreases k,
{
    if k == 0 {
        1
    } else {
        10 * pow10((k - 1) as nat)
    }
}

/// One more digit taken off a number that fits 64 bits leaves fewer than
/// twenty digits counted.
proof fn lemma_pow10_step(rest: nat, k: nat, n: nat)
    requires
        rest >= 10,
        rest * pow10(k) <= n,
        n <= u64::MAX,
        k <= 19,
    ensures
        (rest / 10) * pow10(k + 1) <= n,
        k + 1 <= 19,
{
    reveal_with_fuel(pow10, 2);
    assert((rest / 10) * pow10(k + 1) == (rest / 10) * 10 * pow10(k)) by (nonlinear_arith)
        requires
            pow10(k + 1) == 10 * pow10(k),
    ;
    assert((rest / 10) * 10 <= rest);
    assert((rest / 10) * 10 * pow10(k) <= rest * pow10(k)) by (nonlinear_arith)
        requires
            (rest / 10) * 10 <= rest,
    ;
    if k == 19 {
        lemma_pow10_19();
        assert(rest * pow10(19) >= 10 * pow10(19)) by (nonlinear_arith)
            requires
                rest >= 10,
        ;
    }
}

/// Ten to the power of 19 is the largest power of ten that fits 64 bits.
proof fn lemma_pow10_19()
    ensures
        pow10(19) == 10_000_000_000_000_000_000nat,
{
    reveal_with_fuel(pow10, 20);
}

} // verus!
