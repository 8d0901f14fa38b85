use vstd::prelude::*;

verus! {

/// The character of a decimal digit.
pub open spec fn digit_char(d: nat) -> char {
    if d == 0 {
        '0'
    } else if d == 1 {
        '1'
    } else if d == 2 {
        '2'
    } else if d == 3 {
        '3'
    } else if d == 4 {
        '4'
    } else if d == 5 {
        '5'
    } else if d == 6 {
        '6'
    } else if d == 7 {
        '7'
    } else if d == 8 {
        '8'
    } else {
        '9'
    }
}

/// The decimal representation of `n`, without sign or leading zeros.
pub open spec fn dec(n: nat) -> Seq<char>
    decreases n,
{
    if n < 10 {
        seq![digit_char(n)]
    } else {
        dec(n / 10) + seq![digit_char(n % 10)]
    }
}

/// A value given in tenths, printed with exactly one decimal place
/// (`123` tenths is `12.3`).
pub open spec fn fixed1(tenths: nat) -> Seq<char> {
    dec(tenths / 10) + seq!['.'] + seq![digit_char(tenths % 10)]
}

/// `a / d` rounded to the nearest integer, halves going to the even
/// neighbour.
pub open spec fn div_round_even(a: nat, d: nat) -> nat
    recommends
        d > 0,
{
    let q = a / d;
    let r = a % d;
    if 2 * r > d {
        q + 1
    } else if 2 * r < d {
        q
    } else if q % 2 == 0 {
        q
    } else {
        q + 1
    }
}

/// The one-character text of a digit.
fn digit_str(d: u64) -> (s: &'static str)
    requires
        d < 10,
    ensures
        s@ == seq![digit_char(d as nat)],
{
    if d == 0 {
        proof { reveal_strlit("0"); }
        "0"
    } else if d == 1 {
        proof { reveal_strlit("1"); }
        "1"
    } else if d == 2 {
        proof { reveal_strlit("2"); }
        "2"
    } else if d == 3 {
        proof { reveal_strlit("3"); }
        "3"
    } else if d == 4 {
        proof { reveal_strlit("4"); }
        "4"
    } else if d == 5 {
        proof { reveal_strlit("5"); }
        "5"
    } else if d == 6 {
        proof { reveal_strlit("6"); }
        "6"
    } else if d == 7 {
        proof { reveal_strlit("7"); }
        "7"
    } else if d == 8 {
        proof { reveal_strlit("8"); }
        "8"
    } else {
        proof { reveal_strlit("9"); }
        "9"
    }
}

/// Append the decimal digits of `n` to `s`.
pub fn push_decimal(s: &mut String, n: u64)
    ensures
        final(s)@ == old(s)@ + dec(n as nat),
    decreases n,
{
    if n >= 10 {
        push_decimal(s, n / 10);
    }
    s.append(digit_str(n % 10));
    assert(n < 10 ==> n % 10 == n);
}

/// Append a tenths value with one decimal place to `s`.
pub fn push_fixed1(s: &mut String, tenths: u64)
    ensures
        final(s)@ == old(s)@ + fixed1(tenths as nat),
{
    push_decimal(s, tenths / 10);
    proof { reveal_strlit("."); }
    s.append(".");
    s.append(digit_str(tenths % 10));
}

/// The decimal text of `n`.
pub fn decimal(n: u64) -> (r: String)
    ensures
        r@ == dec(n as nat),
{
    let mut s = String::new();
    push_decimal(&mut s, n);
    assert(s@ =~= dec(n as nat));
    s
}

/// `a / d` rounded to the nearest integer, halves to even.
pub fn div_round_half_even(a: u128, d: u128) -> (q: u128)
    requires
        d > 0,
        a / d < u128::MAX,
    ensures
        q == div_round_even(a as nat, d as nat),
{
    let q = a / d;
    let r = a % d;
    if r > d - r {
        q + 1
    } else if r < d - r {
        q
    } else if q % 2 == 0 {
        q
    } else {
        q + 1
    }
}

/// The number a string of decimal digits stands for (most significant
/// digit first); each character counts as its code minus that of '0'.
pub open spec fn digits_value(s: Seq<char>) -> int
    decreases s.len(),
{
    if s.len() == 0 {
        0
    } else {
        digits_value(s.drop_last()) * 10 + (s.last() as int - '0' as int)
    }
}

/// Each digit character stands for its digit.
pub proof fn lemma_digit_char_value(d: nat)
    requires
        d < 10,
    ensures
        digit_char(d) as int - '0' as int == d,
        '0' <= digit_char(d) <= '9',
{
    assert('0' as int == 48);
    assert('1' as int == 49);
    assert('2' as int == 50);
    assert('3' as int == 51);
    assert('4' as int == 52);
    assert('5' as int == 53);
    assert('6' as int == 54);
    assert('7' as int == 55);
    assert('8' as int == 56);
    assert('9' as int == 57);
}

/// The decimal text of `n` is a non-empty string of the digits '0'..'9'
/// that reads back as `n`, with no leading zero unless `n` is 0.
pub proof fn lemma_dec_reads_back(n: nat)
    ensures
        dec(n).len() >= 1,
        forall|i: int| 0 <= i < dec(n).len() ==> '0' <= #[trigger] dec(n)[i] <= '9',
        digits_value(dec(n)) == n,
        n > 0 ==> dec(n)[0] != '0',
        n == 0 ==> dec(n) == seq!['0'],
    decreases n,
{
    lemma_digit_char_value(n % 10);
    if n >= 10 {
        lemma_dec_reads_back(n / 10);
        let s = dec(n);
        assert(s.drop_last() =~= dec(n / 10));
        assert(s[0] == dec(n / 10)[0]);
        assert(s.last() == digit_char(n % 10));
        assert(digits_value(s) == digits_value(dec(n / 10)) * 10 + (n % 10));
        assert(n == (n / 10) * 10 + n % 10);
    } else {
        assert(n % 10 == n);
        assert(dec(n).drop_last() =~= Seq::<char>::empty());
        assert(digits_value(dec(n).drop_last()) == 0);
        assert(dec(n).last() == digit_char(n));
    }
}

/// A one-decimal text is digits, a '.', and one digit; without the
/// point it reads back as the number of tenths.
pub proof fn lemma_fixed1_reads_back(tenths: nat)
    ensures
        fixed1(tenths).len() >= 3,
        fixed1(tenths)[fixed1(tenths).len() - 2] == '.',
        digits_value(fixed1(tenths).take(fixed1(tenths).len() - 2) + fixed1(tenths).skip(fixed1(tenths).len() - 1)) == tenths,
        forall|i: int| 0 <= i < fixed1(tenths).len() && i != fixed1(tenths).len() - 2
            ==> '0' <= #[trigger] fixed1(tenths)[i] <= '9',
{
    let f = fixed1(tenths);
    let w = dec(tenths / 10);
    lemma_dec_reads_back(tenths / 10);
    lemma_dec_reads_back(tenths % 10);
    lemma_digit_char_value(tenths % 10);
    let joined = f.take(f.len() - 2) + f.skip(f.len() - 1);
    assert(f.take(f.len() - 2) =~= w);
    assert(joined =~= w.push(digit_char(tenths % 10)));
    assert(joined.drop_last() =~= w);
    assert(dec(tenths % 10) =~= seq![digit_char(tenths % 10)]);
    assert(dec(tenths % 10).drop_last() =~= Seq::<char>::empty());
    assert forall|i: int| 0 <= i < f.len() && i != f.len() - 2 implies '0' <= #[trigger] f[i] <= '9' by {
        if i < w.len() {
            assert(f[i] == w[i]);
        } else {
            assert(f[i] == dec(tenths % 10)[0]);
        }
    }
}

/// Rounding to nearest: the result is within half a step of the exact
/// quotient, and an exact half goes to the even neighbour.
pub proof fn lemma_div_round_even_nearest(a: nat, d: nat)
    requires
        d > 0,
    ensures
        d * (2 * div_round_even(a, d)) <= 2 * a + d,
        2 * a <= d * (2 * div_round_even(a, d)) + d,
        (d * (2 * div_round_even(a, d)) == 2 * a + d || 2 * a == d * (2 * div_round_even(a, d)) + d)
            ==> div_round_even(a, d) % 2 == 0,
{
    let q = a / d;
    let r = a % d;
    assert(a == d * q + r) by (nonlinear_arith)
        requires q == a / d, r == a % d, d > 0;
    assert(0 <= r < d);
    assert(d * (2 * q) == 2 * (d * q)) by (nonlinear_arith);
    assert(d * (2 * (q + 1)) == 2 * (d * q) + 2 * d) by (nonlinear_arith);
}

} // verus!
