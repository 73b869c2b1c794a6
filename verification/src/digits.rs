//! Leading runs of ASCII digits in byte strings.

use vstd::prelude::*;
use vstd::slice::slice_subrange;

verus! {

/// Whether a byte is an ASCII digit.
pub open spec fn is_digit_byte(b: u8) -> bool {
    48 <= b <= 57
}

/// Number of leading `'0'` bytes.
pub open spec fn zeros_len(s: Seq<u8>) -> nat
    decreases s.len(),
{
    if s.len() > 0 && s[0] == 48 {
        1 + zeros_len(s.drop_first())
    } else {
        0
    }
}

/// Number of leading ASCII digit bytes.
pub open spec fn digit_run(s: Seq<u8>) -> nat
    decreases s.len(),
{
    if s.len() > 0 && is_digit_byte(s[0]) {
        1 + digit_run(s.drop_first())
    } else {
        0
    }
}

/// The digits of the leading number after its leading zeros.
pub open spec fn number_digits(s: Seq<u8>) -> Seq<u8> {
    s.subrange(zeros_len(s) as int, digit_run(s) as int)
}

/// What follows the leading run of digits.
pub open spec fn after_number(s: Seq<u8>) -> Seq<u8> {
    s.skip(digit_run(s) as int)
}

/// The suffix of `s` that starts at index `i`.
pub open spec fn suffix(s: Seq<u8>, i: usize) -> Seq<u8> {
    s.skip(i as int)
}

pub proof fn lemma_digit_run_bounds(s: Seq<u8>)
    ensures
        zeros_len(s) <= digit_run(s) <= s.len(),
        s.len() > 0 && is_digit_byte(s[0]) ==> digit_run(s) >= 1,
        forall|i: int| 0 <= i < zeros_len(s) ==> s[i] == 48,
        forall|i: int| 0 <= i < digit_run(s) ==> is_digit_byte(#[trigger] s[i]),
    decreases s.len(),
{
    if s.len() > 0 {
        lemma_digit_run_bounds(s.drop_first());
        assert forall|i: int| 0 <= i < zeros_len(s) implies s[i] == 48 by {
            if i > 0 {
                assert(s[i] == s.drop_first()[i - 1]);
            }
        }
        assert forall|i: int| 0 <= i < digit_run(s) implies is_digit_byte(#[trigger] s[i]) by {
            if i > 0 {
                assert(s[i] == s.drop_first()[i - 1]);
            }
        }
    }
}

/// Counts how many bytes at the start satisfy the leading-run definitions, one step at a time.
proof fn lemma_zeros_step(s: Seq<u8>, i: int)
    requires
        0 <= i < s.len(),
        s[i] == 48,
    ensures
        zeros_len(s.skip(i)) == 1 + zeros_len(s.skip(i + 1)),
{
    assert(s.skip(i).drop_first() =~= s.skip(i + 1));
}

proof fn lemma_digits_step(s: Seq<u8>, i: int)
    requires
        0 <= i < s.len(),
        is_digit_byte(s[i]),
    ensures
        digit_run(s.skip(i)) == 1 + digit_run(s.skip(i + 1)),
{
    assert(s.skip(i).drop_first() =~= s.skip(i + 1));
}

/// Splits a byte string into its leading zeros, the digits that follow them, and the rest.
pub fn parse_number(bytes: &[u8]) -> (res: (&[u8], &[u8], &[u8]))
    ensures
        res.0@ == bytes@.take(zeros_len(bytes@) as int),
        res.1@ == number_digits(bytes@),
        res.2@ == after_number(bytes@),
{
    proof {
        lemma_digit_run_bounds(bytes@);
    }
    let len = bytes.len();
    let mut zeros_end: usize = 0;
    assert(bytes@.skip(0) =~= bytes@);
    while zeros_end < len && bytes[zeros_end] == 48u8
        invariant
            zeros_end <= len == bytes@.len(),
            zeros_len(bytes@) == zeros_end + zeros_len(bytes@.skip(zeros_end as int)),
        decreases len - zeros_end,
    {
        proof {
            lemma_zeros_step(bytes@, zeros_end as int);
        }
        zeros_end = zeros_end + 1;
    }
    assert(zeros_len(bytes@.skip(zeros_end as int)) == 0);
    assert(digit_run(bytes@) == digit_run(bytes@.skip(0))) by {
        assert(bytes@.skip(0) =~= bytes@);
    }
    let mut digits_end: usize = 0;
    while digits_end < len && 48u8 <= bytes[digits_end] && bytes[digits_end] <= 57u8
        invariant
            digits_end <= len == bytes@.len(),
            digit_run(bytes@) == digits_end + digit_run(bytes@.skip(digits_end as int)),
        decreases len - digits_end,
    {
        proof {
            lemma_digits_step(bytes@, digits_end as int);
        }
        digits_end = digits_end + 1;
    }
    assert(digit_run(bytes@.skip(digits_end as int)) == 0);
    let leading_zeros = slice_subrange(bytes, 0, zeros_end);
    let digits = slice_subrange(bytes, zeros_end, digits_end);
    let rest = slice_subrange(bytes, digits_end, len);
    assert(leading_zeros@ =~= bytes@.take(zeros_end as int));
    assert(rest@ =~= bytes@.skip(digits_end as int));
    (leading_zeros, digits, rest)
}

/// A subrange that runs to the end is the suffix.
pub proof fn lemma_subrange_to_end(s: Seq<u8>, i: usize)
    requires
        i <= s.len(),
    ensures
        s.subrange(i as int, s.len() as int) == suffix(s, i),
{
    assert(s.subrange(i as int, s.len() as int) =~= suffix(s, i));
}

/// Skipping past the leading number of a suffix gives the suffix at the index after it.
pub proof fn lemma_after_number_suffix(s: Seq<u8>, i: usize, j: usize)
    requires
        i <= s.len(),
        j <= s.len(),
        after_number(suffix(s, i)).len() == s.len() - j,
    ensures
        suffix(s, j) == after_number(suffix(s, i)),
{
    lemma_digit_run_bounds(suffix(s, i));
    assert(suffix(s, j) =~= after_number(suffix(s, i)));
}

/// A sequence that starts with a digit is its leading zeros, then the rest of its number,
/// then what follows the number; the leading zeros are determined by their count.
pub proof fn lemma_number_split(s: Seq<u8>)
    ensures
        s =~= s.take(zeros_len(s) as int) + number_digits(s) + after_number(s),
        s.take(zeros_len(s) as int) =~= Seq::new(zeros_len(s), |i: int| 48u8),
        after_number(s).len() + digit_run(s) == s.len(),
{
    lemma_digit_run_bounds(s);
}

/// Two sequences whose leading numbers have the same digits and the same count of
/// leading zeros agree up to the end of that number.
pub proof fn lemma_same_number(a: Seq<u8>, b: Seq<u8>)
    requires
        number_digits(a) == number_digits(b),
        zeros_len(a) == zeros_len(b),
    ensures
        a.take(digit_run(a) as int) == b.take(digit_run(b) as int),
{
    lemma_number_split(a);
    lemma_number_split(b);
    lemma_digit_run_bounds(a);
    lemma_digit_run_bounds(b);
    assert(a.take(digit_run(a) as int) =~= a.take(zeros_len(a) as int) + number_digits(a));
    assert(b.take(digit_run(b) as int) =~= b.take(zeros_len(b) as int) + number_digits(b));
}

/// Ten to the power `n`.
pub open spec fn pow10(n: nat) -> nat
    decreases n,
{
    if n == 0 {
        1
    } else {
        10 * pow10((n - 1) as nat)
    }
}

/// The value of a sequence of decimal digits, the first one the most significant.
pub open spec fn digits_value(d: Seq<u8>) -> nat
    decreases d.len(),
{
    if d.len() == 0 {
        0
    } else {
        ((d[0] - 48) as nat) * pow10((d.len() - 1) as nat) + digits_value(d.drop_first())
    }
}

/// Every byte of `d` is a digit.
pub open spec fn all_digits(d: Seq<u8>) -> bool {
    forall|i: int| 0 <= i < d.len() ==> is_digit_byte(#[trigger] d[i])
}

pub proof fn lemma_pow10_positive(n: nat)
    ensures
        pow10(n) >= 1,
    decreases n,
{
    if n > 0 {
        lemma_pow10_positive((n - 1) as nat);
    }
}

pub proof fn lemma_pow10_monotone(a: nat, b: nat)
    requires
        a <= b,
    ensures
        pow10(a) <= pow10(b),
    decreases b,
{
    if a < b {
        lemma_pow10_monotone(a, (b - 1) as nat);
        lemma_pow10_positive((b - 1) as nat);
    }
}

/// A number of `n` digits is below ten to the power `n`.
pub proof fn lemma_value_below(d: Seq<u8>)
    requires
        all_digits(d),
    ensures
        digits_value(d) < pow10(d.len()),
    decreases d.len(),
{
    if d.len() > 0 {
        let rest = d.drop_first();
        assert(all_digits(rest)) by {
            assert forall|i: int| 0 <= i < rest.len() implies is_digit_byte(#[trigger] rest[i]) by {
                assert(rest[i] == d[i + 1]);
            }
        }
        lemma_value_below(rest);
        assert(is_digit_byte(d[0]));
        let c = (d[0] - 48) as nat;
        let p = pow10((d.len() - 1) as nat);
        assert(c <= 9);
        assert(c * p <= 9 * p) by (nonlinear_arith)
            requires
                c <= 9,
        ;
    }
}

/// A number of `n` digits whose first digit is not zero is at least ten to the power `n - 1`.
pub proof fn lemma_value_at_least(d: Seq<u8>)
    requires
        all_digits(d),
        d.len() > 0,
        d[0] != 48,
    ensures
        digits_value(d) >= pow10((d.len() - 1) as nat),
{
    assert(is_digit_byte(d[0]));
    let c = (d[0] - 48) as nat;
    let p = pow10((d.len() - 1) as nat);
    assert(c >= 1);
    assert(c * p >= p) by (nonlinear_arith)
        requires
            c >= 1,
    ;
}

/// Of two numbers with as many digits, the one with the smaller first digit is smaller.
pub proof fn lemma_value_first_digit(x: Seq<u8>, y: Seq<u8>)
    requires
        all_digits(x),
        all_digits(y),
        x.len() == y.len(),
        x.len() > 0,
        x[0] < y[0],
    ensures
        digits_value(x) < digits_value(y),
{
    let xr = x.drop_first();
    assert(all_digits(xr)) by {
        assert forall|i: int| 0 <= i < xr.len() implies is_digit_byte(#[trigger] xr[i]) by {
            assert(xr[i] == x[i + 1]);
        }
    }
    lemma_value_below(xr);
    assert(is_digit_byte(x[0]) && is_digit_byte(y[0]));
    let cx = (x[0] - 48) as nat;
    let cy = (y[0] - 48) as nat;
    let p = pow10((x.len() - 1) as nat);
    assert(cx * p + p <= cy * p) by (nonlinear_arith)
        requires
            cx + 1 <= cy,
    ;
}

/// Numbers with the same first digit compare as what follows it.
pub proof fn lemma_value_same_first_digit(x: Seq<u8>, y: Seq<u8>)
    requires
        x.len() == y.len(),
        x.len() > 0,
        x[0] == y[0],
    ensures
        digits_value(x) - digits_value(x.drop_first()) == digits_value(y) - digits_value(
            y.drop_first(),
        ),
{
}

/// Past its leading zeros, the digits of the leading number are digits and do not start with
/// a zero.
pub proof fn lemma_number_digits_canonical(s: Seq<u8>)
    ensures
        all_digits(number_digits(s)),
        number_digits(s).len() > 0 ==> number_digits(s)[0] != 48,
{
    lemma_digit_run_bounds(s);
    lemma_zeros_stop(s);
    let d = number_digits(s);
    assert forall|i: int| 0 <= i < d.len() implies is_digit_byte(#[trigger] d[i]) by {
        assert(d[i] == s[zeros_len(s) + i]);
    }
}

/// The leading zeros stop at a byte that is not a zero.
proof fn lemma_zeros_stop(s: Seq<u8>)
    ensures
        zeros_len(s) < s.len() ==> s[zeros_len(s) as int] != 48,
    decreases s.len(),
{
    if s.len() > 0 && s[0] == 48 {
        lemma_zeros_stop(s.drop_first());
    }
}

/// A digit run that ends inside `p` is not changed by what follows `p`.
pub proof fn lemma_run_in_prefix(p: Seq<u8>, x: Seq<u8>)
    requires
        digit_run(p) < p.len(),
    ensures
        digit_run(p + x) == digit_run(p),
        zeros_len(p + x) == zeros_len(p),
    decreases p.len(),
{
    if p.len() > 0 && is_digit_byte(p[0]) {
        assert((p + x).drop_first() =~= p.drop_first() + x);
        lemma_run_in_prefix(p.drop_first(), x);
    }
}

/// A number with fewer digits is smaller than one whose first digit is not a zero.
pub proof fn lemma_fewer_digits_smaller(x: Seq<u8>, y: Seq<u8>)
    requires
        all_digits(x),
        all_digits(y),
        x.len() < y.len(),
        y[0] != 48,
    ensures
        digits_value(x) < digits_value(y),
{
    lemma_value_below(x);
    lemma_value_at_least(y);
    lemma_pow10_monotone(x.len(), (y.len() - 1) as nat);
}

/// The decimal digits of `n`, as `format!` writes an integer: no leading zeros, and `0` for
/// zero.
pub open spec fn decimal(n: nat) -> Seq<u8>
    decreases n,
{
    if n < 10 {
        seq![(48 + n) as u8]
    } else {
        decimal(n / 10).push((48 + n % 10) as u8)
    }
}

/// `k` zero digits.
pub open spec fn zeros(k: nat) -> Seq<u8> {
    Seq::new(k, |i: int| 48u8)
}

/// `s` is empty or starts with something other than a digit.
pub open spec fn no_digit_first(s: Seq<u8>) -> bool {
    s.len() == 0 || !is_digit_byte(s[0])
}

/// Appending a digit multiplies the value by ten and adds the digit.
proof fn lemma_value_push(d: Seq<u8>, c: u8)
    requires
        all_digits(d),
        is_digit_byte(c),
    ensures
        digits_value(d.push(c)) == digits_value(d) * 10 + (c - 48),
    decreases d.len(),
{
    if d.len() > 0 {
        let rest = d.drop_first();
        assert(all_digits(rest)) by {
            assert forall|i: int| 0 <= i < rest.len() implies is_digit_byte(#[trigger] rest[i]) by {
                assert(rest[i] == d[i + 1]);
            }
        }
        lemma_value_push(rest, c);
        let e = d.push(c);
        assert(e.drop_first() =~= rest.push(c));
        assert(e[0] == d[0]);
        let h = (d[0] - 48) as nat;
        let p = pow10((d.len() - 1) as nat);
        assert(pow10(d.len()) == 10 * p);
        assert(digits_value(e) == h * pow10(d.len()) + digits_value(rest.push(c)));
        assert(digits_value(d) == h * p + digits_value(rest));
        assert(h * (10 * p) == (h * p) * 10) by (nonlinear_arith);
        assert((h * p + digits_value(rest)) * 10 == (h * p) * 10 + digits_value(rest) * 10)
            by (nonlinear_arith);
    } else {
        let e = d.push(c);
        assert(e.drop_first() =~= Seq::<u8>::empty());
        assert(pow10(0) == 1);
        assert(digits_value(e) == ((c - 48) as nat) * pow10(0) + digits_value(e.drop_first()));
    }
}

/// The decimal digits of `n` are digits, denote `n`, and start with a zero only for zero.
pub proof fn lemma_decimal(n: nat)
    ensures
        all_digits(decimal(n)),
        decimal(n).len() >= 1,
        digits_value(decimal(n)) == n,
        n > 0 ==> decimal(n)[0] != 48,
        n == 0 ==> decimal(n) == seq![48u8],
    decreases n,
{
    if n >= 10 {
        lemma_decimal(n / 10);
        let d = decimal(n / 10);
        let c = (48 + n % 10) as u8;
        assert(all_digits(d.push(c))) by {
            assert forall|i: int| 0 <= i < d.push(c).len() implies is_digit_byte(
                #[trigger] d.push(c)[i],
            ) by {
                if i < d.len() {
                    assert(d.push(c)[i] == d[i]);
                }
            }
        }
        lemma_value_push(d, c);
        assert(d.push(c)[0] == d[0]);
    } else {
        let d = decimal(n);
        assert(d.drop_first() =~= Seq::<u8>::empty());
        assert(d[0] == 48 + n);
        assert(pow10(0) == 1);
        assert(digits_value(d) == ((d[0] - 48) as nat) * pow10(0) + digits_value(d.drop_first()));
    }
}

/// A run of digits followed by no digit is the whole leading run.
proof fn lemma_run_of_digits(a: Seq<u8>, q: Seq<u8>)
    requires
        all_digits(a),
        no_digit_first(q),
    ensures
        digit_run(a + q) == a.len(),
    decreases a.len(),
{
    if a.len() > 0 {
        let rest = a.drop_first();
        assert(all_digits(rest)) by {
            assert forall|i: int| 0 <= i < rest.len() implies is_digit_byte(#[trigger] rest[i]) by {
                assert(rest[i] == a[i + 1]);
            }
        }
        assert((a + q).drop_first() =~= rest + q);
        lemma_run_of_digits(rest, q);
    } else {
        assert(a + q =~= q);
    }
}

/// Leading zeros in front of `r` add to the leading zeros of `r`.
proof fn lemma_zeros_prefix(k: nat, r: Seq<u8>)
    ensures
        zeros_len(zeros(k) + r) == k + zeros_len(r),
    decreases k,
{
    if k > 0 {
        assert((zeros(k) + r).drop_first() =~= zeros((k - 1) as nat) + r);
        lemma_zeros_prefix((k - 1) as nat, r);
    } else {
        assert(zeros(k) + r =~= r);
    }
}

/// The leading number of the digits of `n` followed by no digit is `n`, with a leading zero
/// only for zero; what follows it is the rest.
pub proof fn lemma_decimal_number(n: nat, q: Seq<u8>)
    requires
        no_digit_first(q),
    ensures
        digits_value(number_digits(decimal(n) + q)) == n,
        zeros_len(decimal(n) + q) == (if n == 0 {
            1nat
        } else {
            0nat
        }),
        after_number(decimal(n) + q) == q,
{
    lemma_decimal(n);
    let d = decimal(n);
    let s = d + q;
    lemma_run_of_digits(d, q);
    if n == 0 {
        assert(s.drop_first() =~= q);
        assert(zeros_len(s) == 1 + zeros_len(q));
        assert(number_digits(s) =~= Seq::<u8>::empty());
    } else {
        assert(s[0] == d[0]);
        assert(number_digits(s) =~= d);
    }
    assert(after_number(s) =~= q);
}

/// The leading number of `k` zeros and then the digits of a positive `v` is `v`, with `k`
/// leading zeros, and nothing follows it.
pub proof fn lemma_padded_number(k: nat, v: nat)
    requires
        v > 0,
    ensures
        digits_value(number_digits(zeros(k) + decimal(v))) == v,
        zeros_len(zeros(k) + decimal(v)) == k,
        after_number(zeros(k) + decimal(v)).len() == 0,
{
    lemma_decimal(v);
    let d = decimal(v);
    let x = zeros(k) + d;
    lemma_zeros_prefix(k, d);
    assert(zeros_len(d) == 0);
    assert(all_digits(x)) by {
        assert forall|i: int| 0 <= i < x.len() implies is_digit_byte(#[trigger] x[i]) by {
            if i >= k {
                assert(x[i] == d[i - k]);
            }
        }
    }
    lemma_run_of_digits(x, Seq::empty());
    assert(x + Seq::<u8>::empty() =~= x);
    assert(number_digits(x) =~= d);
}

} // verus!
