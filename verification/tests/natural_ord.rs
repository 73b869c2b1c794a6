use std::cmp::Ordering;

use ndf::natural_ord::{compare, NaturalOrdStr};

fn assert_total_order(sequence: &[&str]) {
    for (i, lhs) in sequence.iter().copied().enumerate() {
        for (j, rhs) in sequence.iter().copied().enumerate() {
            let expected = i.cmp(&j);
            let result = compare(lhs, rhs);
            let symbol = |ordering| match ordering {
                Ordering::Less => '<',
                Ordering::Equal => '=',
                Ordering::Greater => '>',
            };
            assert_eq!(
                expected,
                result,
                "expected {lhs:?} {} {rhs:?}, got {lhs:?} {} {rhs:?}",
                symbol(expected),
                symbol(result),
            );
        }
    }
}

#[test]
fn total_order() {
    assert_total_order(&[
        "", "\0", ".", ".foo", "0", "00", "0000", "1", "01", "0001", "2", "3", "3_", "3_1",
        "3_tail", "4", "20", "21", "199", "abc", "d1", "d01", "d2", "d3_e1", "d3_e2", "d3_e12",
        "d3_f1", "d9", "d10", "d32", "z",
    ])
}

#[test]
fn numbers_compare_by_value() {
    assert_eq!(compare("file9", "file10"), Ordering::Less);
    assert_eq!(compare("file10", "file9"), Ordering::Greater);
    assert_eq!(compare("a100b", "a100b"), Ordering::Equal);
    assert_eq!(compare("x007", "x7"), Ordering::Greater);
    assert_eq!(compare("é1", "é2"), Ordering::Less);
}

#[test]
fn natural_ord_str_wrapper() {
    assert_eq!(
        NaturalOrdStr("v2").cmp(&NaturalOrdStr("v10")),
        Ordering::Less
    );
    assert_eq!(
        NaturalOrdStr("v10").partial_cmp(&NaturalOrdStr("v2")),
        Some(Ordering::Greater)
    );
}

#[test]
fn numbers_at_the_same_position_compare_by_value() {
    assert_eq!(compare("pkg-10-x", "pkg-9-y"), Ordering::Greater);
    assert_eq!(compare("v2", "v10"), Ordering::Less);
    assert_eq!(compare("a1000b", "a999b"), Ordering::Greater);
    // Equal values: the one with more leading zeros is greater.
    assert_eq!(compare("x007", "x07"), Ordering::Greater);
    assert_eq!(compare("x0", "x00"), Ordering::Less);
    // Equal numbers with equal zeros: what follows decides.
    assert_eq!(compare("n12a", "n12b"), Ordering::Less);
}

#[test]
fn formatted_integers_compare_by_value_and_zeros() {
    let numbers: [u64; 7] = [0, 1, 9, 10, 99, 1000, u64::MAX];
    for (p, q, r) in [("", "", ""), ("pkg-", "-x", "-y"), ("a.b", ".c", "")] {
        for n in numbers {
            for m in numbers {
                if n != m {
                    assert_eq!(compare(&format!("{p}{n}{q}"), &format!("{p}{m}{r}")), n.cmp(&m));
                }
            }
        }
    }
    for v in [1u64, 42, 700] {
        for k in 0..3usize {
            for j in 0..3usize {
                let l = format!("{}{v}", "0".repeat(k));
                let r = format!("{}{v}", "0".repeat(j));
                assert_eq!(compare(&l, &r), k.cmp(&j));
            }
        }
    }
}
