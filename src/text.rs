//! Text building blocks shared by the renderers: decimal numbers, fixed-point
//! rounding, durations and load percentages.

use vstd::prelude::*;
use vstd::string::*;

verus! {

/// The character of a decimal digit.
pub open spec fn digit_char(d: nat) -> char {
    if d == 0 { '0' }
    else if d == 1 { '1' }
    else if d == 2 { '2' }
    else if d == 3 { '3' }
    else if d == 4 { '4' }
    else if d == 5 { '5' }
    else if d == 6 { '6' }
    else if d == 7 { '7' }
    else if d == 8 { '8' }
    else { '9' }
}

/// The decimal notation of `n`, without sign or leading zeros.
pub open spec fn decimal(n: nat) -> Seq<char>
    decreases n,
{
    if n < 10 {
        seq![digit_char(n)]
    } else {
        decimal(n / 10).push(digit_char(n % 10))
    }
}

fn digit_str(d: u128) -> (r: &'static str)
    requires
        d < 10,
    ensures
        r@ == seq![digit_char(d as nat)],
{
    proof {
        reveal_strlit("0");
        reveal_strlit("1");
        reveal_strlit("2");
        reveal_strlit("3");
        reveal_strlit("4");
        reveal_strlit("5");
        reveal_strlit("6");
        reveal_strlit("7");
        reveal_strlit("8");
        reveal_strlit("9");
    }
    if d == 0 { "0" }
    else if d == 1 { "1" }
    else if d == 2 { "2" }
    else if d == 3 { "3" }
    else if d == 4 { "4" }
    else if d == 5 { "5" }
    else if d == 6 { "6" }
    else if d == 7 { "7" }
    else if d == 8 { "8" }
    else { "9" }
}

/// Appends the decimal notation of `n`.
pub fn push_decimal(out: &mut String, n: u128)
    ensures
        final(out)@ == old(out)@ + decimal(n as nat),
    decreases n,
{
    if n >= 10 {
        push_decimal(out, n / 10);
    }
    out.append(digit_str(n % 10));
    proof {
        assert(decimal(n as nat) == if n < 10 { seq![digit_char(n as nat)] } else {
            decimal((n / 10) as nat).push(digit_char((n % 10) as nat))
        });
    }
    assert(final(out)@ =~= old(out)@ + decimal(n as nat));
}


/// Ten to the power `d`.
pub open spec fn pow10(d: nat) -> nat
    decreases d,
{
    if d == 0 { 1 } else { 10 * pow10((d - 1) as nat) }
}

/// `k` zero digits.
pub open spec fn zeros(k: nat) -> Seq<char>
    decreases k,
{
    if k == 0 { seq![] } else { zeros((k - 1) as nat).push('0') }
}

/// The decimal notation of `r`, padded with leading zeros to `d` digits.
pub open spec fn padded(r: nat, d: nat) -> Seq<char> {
    if decimal(r).len() < d { zeros((d - decimal(r).len()) as nat) + decimal(r) } else { decimal(r) }
}

/// The number `m / 10^d` written with exactly `d` decimals.
pub open spec fn fixed(m: nat, d: nat) -> Seq<char> {
    if d == 0 {
        decimal(m)
    } else {
        decimal(m / pow10(d)) + seq!['.'] + padded(m % pow10(d), d)
    }
}

/// `n / d` rounded to the nearest integer, ties to the even neighbour.
pub open spec fn round_half_even(n: nat, d: nat) -> nat
    recommends
        d > 0,
{
    let q = n / d;
    let r = n % d;
    if 2 * r > d || (2 * r == d && q % 2 == 1) { q + 1 } else { q }
}

/// A quantity of `n / s` units, with two decimals below ten, one below a
/// hundred and none from there on.
pub open spec fn scaled_text(n: nat, s: nat) -> Seq<char> {
    if n < 10 * s {
        fixed(round_half_even(n * 100, s), 2)
    } else if n < 100 * s {
        fixed(round_half_even(n * 10, s), 1)
    } else {
        fixed(round_half_even(n, s), 0)
    }
}

/// A duration of `n` nanoseconds in the largest of ns, µs, ms and s in which
/// it stays under a thousand; past a thousand seconds, whole seconds.
pub open spec fn duration_text(n: nat) -> Seq<char> {
    if n < 1000 {
        scaled_text(n, 1) + "ns"@
    } else if n < 1_000_000 {
        scaled_text(n, 1000) + "µs"@
    } else if n < 1_000_000_000 {
        scaled_text(n, 1_000_000) + "ms"@
    } else if n < 1_000_000_000_000 {
        scaled_text(n, 1_000_000_000) + "s"@
    } else {
        decimal(round_half_even(n, 1_000_000_000)) + "s"@
    }
}

/// The percentage `100 * num / den` with three decimals; `NaN` for `0 / 0`
/// and `inf` for a positive share of nothing.
pub open spec fn percent_text(num: nat, den: nat) -> Seq<char> {
    if den == 0 {
        if num == 0 { "NaN"@ } else { "inf"@ }
    } else {
        fixed(round_half_even(100_000 * num, den), 3)
    }
}

proof fn lemma_decimal_len_small(n: nat)
    requires
        n < 1000,
    ensures
        n < 10 ==> decimal(n).len() == 1,
        10 <= n < 100 ==> decimal(n).len() == 2,
        100 <= n ==> decimal(n).len() == 3,
{
    reveal_with_fuel(decimal, 3);
}

/// `n / d` rounded half to even.
pub fn round_div(n: u128, d: u128) -> (r: u128)
    requires
        0 < d <= u64::MAX,
        n < u128::MAX / 2,
    ensures
        r == round_half_even(n as nat, d as nat),
{
    let q = n / d;
    let rem = n % d;
    assert(q <= n) by (nonlinear_arith)
        requires q == n / d, d > 0;
    if 2 * rem > d || (2 * rem == d && q % 2 == 1) {
        q + 1
    } else {
        q
    }
}

fn push_zeros(out: &mut String, k: usize)
    ensures
        final(out)@ == old(out)@ + zeros(k as nat),
{
    let ghost start = out@;
    let mut i: usize = 0;
    proof {
        reveal_strlit("0");
        assert(start + zeros(0) =~= start);
    }
    while i < k
        invariant
            i <= k,
            out@ == start + zeros(i as nat),
        decreases k - i,
    {
        proof {
            reveal_strlit("0");
        }
        out.append("0");
        i = i + 1;
        assert(out@ =~= start + zeros(i as nat));
    }
}

/// Appends `m / 10^d` written with `d` decimals.
pub fn push_fixed(out: &mut String, m: u128, d: u32)
    requires
        d <= 3,
    ensures
        final(out)@ == old(out)@ + fixed(m as nat, d as nat),
{
    let ghost start = out@;
    if d == 0 {
        push_decimal(out, m);
    } else {
        let p: u128 = if d == 1 { 10 } else if d == 2 { 100 } else { 1000 };
        assert(p == pow10(d as nat)) by {
            reveal_with_fuel(pow10, 4);
        }
        push_decimal(out, m / p);
        proof {
            reveal_strlit(".");
        }
        out.append(".");
        let frac = m % p;
        proof {
            lemma_decimal_len_small(frac as nat);
        }
        let len: u32 = if frac < 10 { 1 } else if frac < 100 { 2 } else { 3 };
        if len < d {
            push_zeros(out, (d - len) as usize);
        }
        push_decimal(out, frac);
        assert(out@ =~= start + fixed(m as nat, d as nat));
    }
}

/// Appends the rendering of a duration of `n` nanoseconds.
pub fn push_duration(out: &mut String, n: u64)
    ensures
        final(out)@ == old(out)@ + duration_text(n as nat),
{
    let ghost start = out@;
    let n = n as u128;
    if n < 1000 {
        push_scaled(out, n, 1);
        out.append("ns");
    } else if n < 1_000_000 {
        push_scaled(out, n, 1000);
        out.append("µs");
    } else if n < 1_000_000_000 {
        push_scaled(out, n, 1_000_000);
        out.append("ms");
    } else if n < 1_000_000_000_000 {
        push_scaled(out, n, 1_000_000_000);
        out.append("s");
    } else {
        push_decimal(out, round_div(n, 1_000_000_000));
        out.append("s");
    }
    assert(out@ =~= start + duration_text(n as nat));
}

fn push_scaled(out: &mut String, n: u128, s: u128)
    requires
        n <= u64::MAX,
        1 <= s <= 1_000_000_000,
    ensures
        final(out)@ == old(out)@ + scaled_text(n as nat, s as nat),
{
    if n < 10 * s {
        push_fixed(out, round_div(n * 100, s), 2);
    } else if n < 100 * s {
        push_fixed(out, round_div(n * 10, s), 1);
    } else {
        push_fixed(out, round_div(n, s), 0);
    }
}

/// Appends the percentage `100 * num / den` with three decimals.
pub fn push_percent(out: &mut String, num: u64, den: u64)
    ensures
        final(out)@ == old(out)@ + percent_text(num as nat, den as nat),
{
    if den == 0 {
        if num == 0 {
            out.append("NaN");
        } else {
            out.append("inf");
        }
    } else {
        let scaled = 100_000 * (num as u128);
        push_fixed(out, round_div(scaled, den as u128), 3);
    }
}

/// Whether two strings hold the same characters.
pub fn str_eq(a: &str, b: &str) -> (r: bool)
    ensures
        r == (a@ == b@),
{
    let n = a.unicode_len();
    if n != b.unicode_len() {
        return false;
    }
    let mut i: usize = 0;
    while i < n
        invariant
            n == a@.len(),
            n == b@.len(),
            i <= n,
            a@.subrange(0, i as int) == b@.subrange(0, i as int),
        decreases n - i,
    {
        if a.get_char(i) != b.get_char(i) {
            return false;
        }
        assert(a@.subrange(0, i + 1) =~= a@.subrange(0, i as int).push(a@[i as int]));
        assert(b@.subrange(0, i + 1) =~= b@.subrange(0, i as int).push(b@[i as int]));
        i = i + 1;
    }
    assert(a@ =~= a@.subrange(0, n as int));
    assert(b@ =~= b@.subrange(0, n as int));
    true
}

} // verus!
