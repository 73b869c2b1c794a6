//! Natural ordering of strings: runs of ASCII digits are compared by their numeric value.

use std::cmp::Ordering;
use vstd::prelude::*;
use vstd::slice::slice_subrange;
use vstd::string::StringSliceAdditionalSpecFns;
use crate::digits::{
    after_number, all_digits, digit_run, digits_value, is_digit_byte, lemma_after_number_suffix,
    lemma_digit_run_bounds, lemma_fewer_digits_smaller, lemma_number_digits_canonical,
    lemma_number_split, lemma_run_in_prefix, lemma_same_number, lemma_subrange_to_end,
    lemma_value_below, lemma_value_first_digit,
    lemma_value_same_first_digit, number_digits, parse_number, suffix, zeros_len, decimal,
    lemma_decimal, lemma_decimal_number, lemma_padded_number, no_digit_first, zeros,
};

verus! {

/// Three-way comparison of two natural numbers.
pub open spec fn nat_order(a: nat, b: nat) -> Ordering {
    if a < b {
        Ordering::Less
    } else if a > b {
        Ordering::Greater
    } else {
        Ordering::Equal
    }
}

/// `first`, or `second` where `first` is `Equal`.
pub open spec fn then_order(first: Ordering, second: Ordering) -> Ordering {
    if first is Equal {
        second
    } else {
        first
    }
}

/// The opposite ordering.
pub open spec fn reversed_order(o: Ordering) -> Ordering {
    match o {
        Ordering::Less => Ordering::Greater,
        Ordering::Equal => Ordering::Equal,
        Ordering::Greater => Ordering::Less,
    }
}

/// Lexicographic order of byte sequences, as `Ord` for slices defines it.
pub open spec fn lex_order(a: Seq<u8>, b: Seq<u8>) -> Ordering
    decreases a.len(),
{
    if a.len() == 0 {
        if b.len() == 0 {
            Ordering::Equal
        } else {
            Ordering::Less
        }
    } else if b.len() == 0 {
        Ordering::Greater
    } else if a[0] < b[0] {
        Ordering::Less
    } else if a[0] > b[0] {
        Ordering::Greater
    } else {
        lex_order(a.drop_first(), b.drop_first())
    }
}

/// Comparison of the leading numbers of two sequences that both start with a digit:
/// the longer number (without leading zeros) is greater, numbers of equal length compare
/// lexicographically, and equal numbers are ordered by their count of leading zeros.
pub open spec fn number_order(l: Seq<u8>, r: Seq<u8>) -> Ordering {
    then_order(
        nat_order(number_digits(l).len(), number_digits(r).len()),
        then_order(
            lex_order(number_digits(l), number_digits(r)),
            nat_order(zeros_len(l), zeros_len(r)),
        ),
    )
}

/// The natural order of two byte sequences.
pub open spec fn natural_order(l: Seq<u8>, r: Seq<u8>) -> Ordering
    decreases l.len(),
{
    if l.len() == 0 {
        if r.len() == 0 {
            Ordering::Equal
        } else {
            Ordering::Less
        }
    } else if r.len() == 0 {
        Ordering::Greater
    } else if is_digit_byte(l[0]) && is_digit_byte(r[0]) {
        if number_order(l, r) is Equal {
            proof {
                lemma_digit_run_bounds(l);
            }
            natural_order(after_number(l), after_number(r))
        } else {
            number_order(l, r)
        }
    } else if l[0] < r[0] {
        Ordering::Less
    } else if l[0] > r[0] {
        Ordering::Greater
    } else {
        natural_order(l.drop_first(), r.drop_first())
    }
}

/// Three-way comparison of the lengths of two byte strings.
fn compare_lengths(a: &[u8], b: &[u8]) -> (res: Ordering)
    ensures
        res == nat_order(a@.len(), b@.len()),
{
    if a.len() < b.len() {
        Ordering::Less
    } else if a.len() > b.len() {
        Ordering::Greater
    } else {
        Ordering::Equal
    }
}

/// Lexicographic comparison of two byte strings.
fn compare_bytes(a: &[u8], b: &[u8]) -> (res: Ordering)
    ensures
        res == lex_order(a@, b@),
{
    let mut i: usize = 0;
    assert(suffix(a@, 0) =~= a@);
    assert(suffix(b@, 0) =~= b@);
    while i < a.len() && i < b.len()
        invariant
            i <= a@.len(),
            i <= b@.len(),
            lex_order(a@, b@) == lex_order(suffix(a@, i), suffix(b@, i)),
        decreases a.len() - i,
    {
        if a[i] < b[i] {
            return Ordering::Less;
        }
        if a[i] > b[i] {
            return Ordering::Greater;
        }
        assert(suffix(a@, i).drop_first() =~= a@.skip(i + 1));
        assert(suffix(b@, i).drop_first() =~= b@.skip(i + 1));
        i = i + 1;
    }
    if i == a.len() {
        if i == b.len() {
            Ordering::Equal
        } else {
            Ordering::Less
        }
    } else {
        Ordering::Greater
    }
}

/// Compares two strings in natural order: maximal runs of ASCII digits at the same position
/// are compared as numbers, everything else byte by byte.
pub fn compare(lhs: &str, rhs: &str) -> (res: Ordering)
    ensures
        res == natural_order(lhs.spec_bytes(), rhs.spec_bytes()),
{
    let l_bytes = lhs.as_bytes();
    let r_bytes = rhs.as_bytes();
    let mut l_ix: usize = 0;
    let mut r_ix: usize = 0;
    assert(suffix(l_bytes@, 0) =~= l_bytes@);
    assert(suffix(r_bytes@, 0) =~= r_bytes@);
    loop
        invariant
            l_bytes@ == lhs.spec_bytes(),
            r_bytes@ == rhs.spec_bytes(),
            l_ix <= l_bytes@.len(),
            r_ix <= r_bytes@.len(),
            natural_order(l_bytes@, r_bytes@) == natural_order(suffix(l_bytes@, l_ix), suffix(r_bytes@, r_ix)),
        decreases l_bytes@.len() - l_ix,
    {
        let ghost l = suffix(l_bytes@, l_ix);
        let ghost r = suffix(r_bytes@, r_ix);
        if l_ix == l_bytes.len() {
            if r_ix == r_bytes.len() {
                return Ordering::Equal;
            } else {
                return Ordering::Less;
            }
        }
        if r_ix == r_bytes.len() {
            return Ordering::Greater;
        }
        let l_val = l_bytes[l_ix];
        let r_val = r_bytes[r_ix];
        assert(l[0] == l_val && r[0] == r_val);
        if 48u8 <= l_val && l_val <= 57u8 && 48u8 <= r_val && r_val <= 57u8 {
            let (l_zeros, l_number, l_rest) = parse_number(slice_subrange(l_bytes, l_ix, l_bytes.len()));
            let (r_zeros, r_number, r_rest) = parse_number(slice_subrange(r_bytes, r_ix, r_bytes.len()));
            proof {
                lemma_subrange_to_end(l_bytes@, l_ix);
                lemma_subrange_to_end(r_bytes@, r_ix);
                lemma_digit_run_bounds(l);
                lemma_digit_run_bounds(r);
            }
            let mut order = compare_lengths(l_number, r_number);
            if matches!(order, Ordering::Equal) {
                order = compare_bytes(l_number, r_number);
            }
            if matches!(order, Ordering::Equal) {
                order = compare_lengths(l_zeros, r_zeros);
            }
            if !matches!(order, Ordering::Equal) {
                return order;
            }
            let new_l_ix = l_bytes.len() - l_rest.len();
            let new_r_ix = r_bytes.len() - r_rest.len();
            proof {
                lemma_after_number_suffix(l_bytes@, l_ix, new_l_ix);
                lemma_after_number_suffix(r_bytes@, r_ix, new_r_ix);
            }
            l_ix = new_l_ix;
            r_ix = new_r_ix;
        } else {
            if l_val < r_val {
                return Ordering::Less;
            }
            if l_val > r_val {
                return Ordering::Greater;
            }
            assert(l.drop_first() =~= l_bytes@.skip(l_ix + 1));
            assert(r.drop_first() =~= r_bytes@.skip(r_ix + 1));
            l_ix = l_ix + 1;
            r_ix = r_ix + 1;
        }
    }
}

proof fn lemma_lex_antisymmetric(a: Seq<u8>, b: Seq<u8>)
    ensures
        lex_order(a, b) == reversed_order(lex_order(b, a)),
    decreases a.len(),
{
    if a.len() > 0 && b.len() > 0 && a[0] == b[0] {
        lemma_lex_antisymmetric(a.drop_first(), b.drop_first());
    }
}

proof fn lemma_lex_equal(a: Seq<u8>, b: Seq<u8>)
    ensures
        lex_order(a, b) is Equal <==> a == b,
    decreases a.len(),
{
    if a.len() == 0 && b.len() == 0 {
        assert(a =~= b);
    }
    if a.len() > 0 && b.len() > 0 && a[0] == b[0] {
        lemma_lex_equal(a.drop_first(), b.drop_first());
        if a.drop_first() == b.drop_first() {
            assert(a =~= seq![a[0]] + a.drop_first());
            assert(b =~= seq![b[0]] + b.drop_first());
        }
    }
}

proof fn lemma_lex_transitive(a: Seq<u8>, b: Seq<u8>, c: Seq<u8>)
    requires
        lex_order(a, b) is Less,
        lex_order(b, c) is Less,
    ensures
        lex_order(a, c) is Less,
    decreases a.len(),
{
    if a.len() > 0 && b.len() > 0 && c.len() > 0 && a[0] == b[0] && b[0] == c[0] {
        lemma_lex_transitive(a.drop_first(), b.drop_first(), c.drop_first());
    }
}

/// Equal leading numbers compare alike against any third sequence.
proof fn lemma_number_order_substitute(a: Seq<u8>, b: Seq<u8>, c: Seq<u8>)
    requires
        number_order(a, b) is Equal,
    ensures
        number_order(a, c) == number_order(b, c),
        number_order(c, a) == number_order(c, b),
        number_digits(a) == number_digits(b),
        zeros_len(a) == zeros_len(b),
{
    lemma_lex_equal(number_digits(a), number_digits(b));
}

proof fn lemma_number_order_antisymmetric(a: Seq<u8>, b: Seq<u8>)
    ensures
        number_order(a, b) == reversed_order(number_order(b, a)),
{
    lemma_lex_antisymmetric(number_digits(a), number_digits(b));
}

proof fn lemma_number_order_transitive(a: Seq<u8>, b: Seq<u8>, c: Seq<u8>)
    requires
        number_order(a, b) is Less,
        number_order(b, c) is Less,
    ensures
        number_order(a, c) is Less,
{
    let (na, nb, nc) = (number_digits(a), number_digits(b), number_digits(c));
    if na.len() == nb.len() && nb.len() == nc.len() {
        lemma_lex_equal(na, nb);
        lemma_lex_equal(nb, nc);
        lemma_lex_equal(na, nc);
        if lex_order(na, nb) is Less && lex_order(nb, nc) is Less {
            lemma_lex_transitive(na, nb, nc);
        }
    }
}

/// A string slice ordered naturally.
#[derive(Clone, Debug, Default, Eq, Hash, PartialEq)]
pub struct NaturalOrdStr<'a>(pub &'a str);

impl<'a> NaturalOrdStr<'a> {
    /// The natural order of the two strings.
    pub fn cmp(&self, other: &Self) -> (res: Ordering)
        ensures
            res == natural_order(self.0.spec_bytes(), other.0.spec_bytes()),
    {
        compare(self.0, other.0)
    }

    /// The natural order of the two strings; it is always defined.
    pub fn partial_cmp(&self, other: &Self) -> (res: Option<Ordering>)
        ensures
            res == Some(natural_order(self.0.spec_bytes(), other.0.spec_bytes())),
    {
        Some(self.cmp(other))
    }
}

/// Law: reversing the arguments reverses the natural order.
pub proof fn law_natural_order_antisymmetric(a: Seq<u8>, b: Seq<u8>)
    ensures
        natural_order(a, b) == reversed_order(natural_order(b, a)),
    decreases a.len(),
{
    if a.len() > 0 && b.len() > 0 {
        if is_digit_byte(a[0]) && is_digit_byte(b[0]) {
            lemma_number_order_antisymmetric(a, b);
            if number_order(a, b) is Equal {
                lemma_digit_run_bounds(a);
                law_natural_order_antisymmetric(after_number(a), after_number(b));
            }
        } else if a[0] == b[0] {
            law_natural_order_antisymmetric(a.drop_first(), b.drop_first());
        }
    }
}

/// Law: two byte strings are equal in the natural order exactly when they are the same.
pub proof fn law_natural_order_equal_iff_same(a: Seq<u8>, b: Seq<u8>)
    ensures
        natural_order(a, b) is Equal <==> a == b,
    decreases a.len(),
{
    if a.len() == 0 && b.len() == 0 {
        assert(a =~= b);
    }
    if a.len() > 0 && b.len() > 0 {
        if is_digit_byte(a[0]) && is_digit_byte(b[0]) {
            lemma_number_split(a);
            lemma_number_split(b);
            lemma_lex_equal(number_digits(a), number_digits(b));
            if number_order(a, b) is Equal {
                lemma_same_number(a, b);
                law_natural_order_equal_iff_same(after_number(a), after_number(b));
            }
            if a == b {
                assert(number_order(a, b) is Equal);
            }
        } else if a[0] == b[0] {
            law_natural_order_equal_iff_same(a.drop_first(), b.drop_first());
            if a.drop_first() == b.drop_first() {
                assert(a =~= seq![a[0]] + a.drop_first());
                assert(b =~= seq![b[0]] + b.drop_first());
            }
        }
    }
}

/// Law: the natural order is transitive.
pub proof fn law_natural_order_transitive(a: Seq<u8>, b: Seq<u8>, c: Seq<u8>)
    requires
        natural_order(a, b) is Less,
        natural_order(b, c) is Less,
    ensures
        natural_order(a, c) is Less,
    decreases a.len(),
{
    let (da, db, dc) = (is_digit_byte(a[0]), is_digit_byte(b[0]), is_digit_byte(c[0]));
    if a.len() == 0 || b.len() == 0 || c.len() == 0 {
    } else if da && db && dc {
        if number_order(a, b) is Equal {
            lemma_number_order_substitute(a, b, c);
            if number_order(b, c) is Equal {
                lemma_number_order_substitute(b, c, a);
                lemma_digit_run_bounds(a);
                law_natural_order_transitive(after_number(a), after_number(b), after_number(c));
            }
        } else if number_order(b, c) is Equal {
            lemma_number_order_substitute(b, c, a);
        } else {
            lemma_number_order_transitive(a, b, c);
        }
    } else if !da && !db && !dc && a[0] == b[0] && b[0] == c[0] {
        law_natural_order_transitive(a.drop_first(), b.drop_first(), c.drop_first());
    }
}

/// Law: a string compares equal to another exactly when the two strings are the same.
pub proof fn law_compare_equal_iff_same_string(a: &str, b: &str)
    ensures
        natural_order(a.spec_bytes(), b.spec_bytes()) is Equal <==> a@ == b@,
{
    law_natural_order_equal_iff_same(a.spec_bytes(), b.spec_bytes());
    vstd::utf8::encode_utf8_decode_utf8(a@);
    vstd::utf8::encode_utf8_decode_utf8(b@);
}

/// The value of the leading number of `s`.
pub open spec fn leading_value(s: Seq<u8>) -> nat {
    digits_value(number_digits(s))
}

/// For numbers with as many digits, the lexicographic order of the digits is the order of the
/// values.
proof fn lemma_lex_is_value_order(x: Seq<u8>, y: Seq<u8>)
    requires
        all_digits(x),
        all_digits(y),
        x.len() == y.len(),
    ensures
        lex_order(x, y) == nat_order(digits_value(x), digits_value(y)),
    decreases x.len(),
{
    if x.len() > 0 {
        if x[0] < y[0] {
            lemma_value_first_digit(x, y);
        } else if x[0] > y[0] {
            lemma_value_first_digit(y, x);
        } else {
            let (xr, yr) = (x.drop_first(), y.drop_first());
            assert(all_digits(xr)) by {
                assert forall|i: int| 0 <= i < xr.len() implies is_digit_byte(#[trigger] xr[i]) by {
                    assert(xr[i] == x[i + 1]);
                }
            }
            assert(all_digits(yr)) by {
                assert forall|i: int| 0 <= i < yr.len() implies is_digit_byte(#[trigger] yr[i]) by {
                    assert(yr[i] == y[i + 1]);
                }
            }
            lemma_lex_is_value_order(xr, yr);
            lemma_value_same_first_digit(x, y);
        }
    }
}

/// The order of two leading numbers is the order of their values, then of their counts of
/// leading zeros.
proof fn lemma_number_order_is_value_order(a: Seq<u8>, b: Seq<u8>)
    ensures
        number_order(a, b) == then_order(
            nat_order(leading_value(a), leading_value(b)),
            nat_order(zeros_len(a), zeros_len(b)),
        ),
{
    let (x, y) = (number_digits(a), number_digits(b));
    lemma_number_digits_canonical(a);
    lemma_number_digits_canonical(b);
    lemma_value_below(x);
    lemma_value_below(y);
    if x.len() < y.len() {
        lemma_fewer_digits_smaller(x, y);
    } else if x.len() > y.len() {
        lemma_fewer_digits_smaller(y, x);
    } else {
        lemma_lex_is_value_order(x, y);
    }
}

/// A common beginning that does not end with a digit leaves the natural order to what
/// follows it.
proof fn lemma_common_prefix(p: Seq<u8>, x: Seq<u8>, y: Seq<u8>)
    requires
        p.len() == 0 || !is_digit_byte(p.last()),
    ensures
        natural_order(p + x, p + y) == natural_order(x, y),
    decreases p.len(),
{
    let (s, t) = (p + x, p + y);
    if p.len() == 0 {
        assert(s =~= x);
        assert(t =~= y);
    } else if is_digit_byte(p[0]) {
        lemma_digit_run_bounds(p);
        if digit_run(p) == p.len() {
            assert(is_digit_byte(p[p.len() - 1]));
        }
        lemma_run_in_prefix(p, x);
        lemma_run_in_prefix(p, y);
        assert(number_digits(s) =~= number_digits(t));
        lemma_lex_equal(number_digits(s), number_digits(t));
        assert(number_order(s, t) is Equal);
        let q = after_number(p);
        assert(after_number(s) =~= q + x);
        assert(after_number(t) =~= q + y);
        assert(q.last() == p.last());
        lemma_common_prefix(q, x, y);
    } else {
        let q = p.drop_first();
        assert(s.drop_first() =~= q + x);
        assert(t.drop_first() =~= q + y);
        if q.len() > 0 {
            assert(q.last() == p.last());
        }
        lemma_common_prefix(q, x, y);
    }
}

/// Law: numbers at the same position, after the same text that does not end with a digit,
/// compare by their values, equal values by their counts of leading zeros, and where both
/// agree the comparison goes on with what follows the numbers.
pub proof fn law_numbers_compare_by_value(p: Seq<u8>, x: Seq<u8>, y: Seq<u8>)
    requires
        p.len() == 0 || !is_digit_byte(p.last()),
        x.len() > 0 && is_digit_byte(x[0]),
        y.len() > 0 && is_digit_byte(y[0]),
    ensures
        natural_order(p + x, p + y) == then_order(
            then_order(
                nat_order(leading_value(x), leading_value(y)),
                nat_order(zeros_len(x), zeros_len(y)),
            ),
            natural_order(after_number(x), after_number(y)),
        ),
{
    lemma_common_prefix(p, x, y);
    lemma_number_order_is_value_order(x, y);
}

/// Law: two integers written in decimal at the same position, after the same text that does
/// not end with a digit and each followed by text that does not start with one, compare as
/// the integers do.
pub proof fn law_integers_compare_by_value(p: Seq<u8>, n: nat, q: Seq<u8>, m: nat, r: Seq<u8>)
    requires
        p.len() == 0 || !is_digit_byte(p.last()),
        no_digit_first(q),
        no_digit_first(r),
        n != m,
    ensures
        natural_order(p + decimal(n) + q, p + decimal(m) + r) == nat_order(n, m),
{
    lemma_decimal(n);
    lemma_decimal(m);
    lemma_decimal_number(n, q);
    lemma_decimal_number(m, r);
    let (x, y) = (decimal(n) + q, decimal(m) + r);
    assert(p + decimal(n) + q =~= p + x);
    assert(p + decimal(m) + r =~= p + y);
    assert(x[0] == decimal(n)[0]);
    assert(y[0] == decimal(m)[0]);
    law_numbers_compare_by_value(p, x, y);
}

/// Law: the same positive integer written with `k` and with `j` leading zeros compares as
/// `k` and `j` do.
pub proof fn law_leading_zeros_order(k: nat, j: nat, v: nat)
    requires
        v > 0,
    ensures
        natural_order(zeros(k) + decimal(v), zeros(j) + decimal(v)) == nat_order(k, j),
{
    lemma_decimal(v);
    lemma_padded_number(k, v);
    lemma_padded_number(j, v);
    let (x, y) = (zeros(k) + decimal(v), zeros(j) + decimal(v));
    if k > 0 {
        assert(x[0] == 48);
    } else {
        assert(x[0] == decimal(v)[0]);
    }
    if j > 0 {
        assert(y[0] == 48);
    } else {
        assert(y[0] == decimal(v)[0]);
    }
    assert(Seq::<u8>::empty() + x =~= x);
    assert(Seq::<u8>::empty() + y =~= y);
    law_numbers_compare_by_value(Seq::empty(), x, y);
}

} // verus!
