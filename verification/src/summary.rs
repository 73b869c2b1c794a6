//! Results of evaluating derivation paths, their comparison, and the summary shown at the end.

use vstd::prelude::*;
use crate::attr_path::{display_text, display_width_of, saturating, AttrPath, AttrPathView};
use crate::styles::{push_styled, styled, EQUAL, EVAL_ERROR, EVAL_SUCCESS, HEADER, NOT_EQUAL, UNKNOWN};
use crate::text::{push_char, push_str};

verus! {

/// One comparison: the attribute path on the new side, the one on the old side where it is
/// another (`base`), and what evaluating each gave.
#[derive(Debug)]
pub struct SummaryItem {
    pub base: Option<AttrPath>,
    pub attr_path: AttrPath,
    pub result_old: EvalResult,
    pub result_new: EvalResult,
}

/// All comparisons, in the order of the attribute paths.
#[derive(Debug)]
pub struct Summary {
    pub items: Vec<SummaryItem>,
}

/// The outcome of evaluating the derivation path of an attribute.
#[derive(Clone, Debug, PartialEq, Eq)]
pub enum EvalResult {
    DrvPath(String),
    Error,
}

/// How two evaluation outcomes compare.
#[derive(Clone, Copy, Debug, Eq, PartialEq, Structural)]
pub enum EvalResultCmp {
    Equal,
    NotEqual,
    Unknown,
}

/// The comparison of two outcomes: equal or different derivation paths, unknown where either
/// evaluation failed.
pub open spec fn compare_results(old: EvalResult, new: EvalResult) -> EvalResultCmp {
    match (old, new) {
        (EvalResult::DrvPath(o), EvalResult::DrvPath(n)) => if o@ == n@ {
            EvalResultCmp::Equal
        } else {
            EvalResultCmp::NotEqual
        },
        _ => EvalResultCmp::Unknown,
    }
}

/// The symbol shown for a comparison.
pub open spec fn symbol_text(c: EvalResultCmp) -> Seq<char> {
    match c {
        EvalResultCmp::Equal => "=="@,
        EvalResultCmp::NotEqual => "!="@,
        EvalResultCmp::Unknown => "??"@,
    }
}

/// How an outcome is displayed.
pub open spec fn eval_result_text(r: EvalResult) -> Seq<char> {
    match r {
        EvalResult::DrvPath(p) => styled(EVAL_SUCCESS, p@),
        EvalResult::Error => styled(EVAL_ERROR, "error"@),
    }
}

/// How a comparison is displayed.
pub open spec fn cmp_text(c: EvalResultCmp) -> Seq<char> {
    match c {
        EvalResultCmp::Equal => styled(EQUAL, symbol_text(c)),
        EvalResultCmp::NotEqual => styled(NOT_EQUAL, symbol_text(c)),
        EvalResultCmp::Unknown => styled(UNKNOWN, symbol_text(c)),
    }
}

/// `n` spaces.
pub open spec fn spaces(n: int) -> Seq<char> {
    Seq::new(n as nat, |i: int| ' ')
}

/// The padding that brings two widths to the larger of them.
pub open spec fn padding(lhs: int, rhs: int) -> (int, int) {
    let max = if lhs >= rhs {
        lhs
    } else {
        rhs
    };
    (max - lhs, max - rhs)
}

/// The width of a displayed attribute path, as [`AttrPath::display_width`] computes it.
pub open spec fn path_width(p: AttrPathView) -> int {
    saturating(display_width_of(p))
}

/// The two lines that show one comparison.
pub open spec fn summary_item_text(
    base: Option<AttrPathView>,
    attr_path: AttrPathView,
    old: EvalResult,
    new: EvalResult,
) -> Seq<char> {
    let status = compare_results(old, new);
    match base {
        None => {
            let (lhs_pad, rhs_pad) = padding(path_width(attr_path), 2);
            "  "@ + display_text(attr_path) + spaces(lhs_pad) + " "@ + eval_result_text(old)
                + "\n"@ + "  "@ + cmp_text(status) + spaces(rhs_pad) + " "@ + eval_result_text(
                new,
            ) + "\n"@
        },
        Some(b) => {
            let (lhs_pad, rhs_pad) = padding(path_width(b), path_width(attr_path));
            "  "@ + spaces(2) + " "@ + display_text(b) + spaces(lhs_pad) + " "@
                + eval_result_text(old) + "\n"@ + "  "@ + cmp_text(status) + " "@ + display_text(
                attr_path,
            ) + spaces(rhs_pad) + " "@ + eval_result_text(new) + "\n"@
        },
    }
}

/// The optional model of an optional attribute path.
pub open spec fn opt_path_view(p: Option<AttrPath>) -> Option<AttrPathView> {
    match p {
        Some(q) => Some(q@),
        None => None,
    }
}

/// How a summary item is displayed.
#[verifier::opaque]
pub open spec fn item_text(item: SummaryItem) -> Seq<char> {
    summary_item_text(
        opt_path_view(item.base),
        item.attr_path@,
        item.result_old,
        item.result_new,
    )
}

/// The displayed items, each followed by an empty line.
pub open spec fn items_text(items: Seq<SummaryItem>) -> Seq<char>
    decreases items.len(),
{
    if items.len() == 0 {
        Seq::empty()
    } else {
        items_text(items.drop_last()) + item_text(items.last()) + "\n"@
    }
}

/// The exit code for one comparison: 0 when equal, 1 when different, 2 when unknown.
pub open spec fn cmp_code(c: EvalResultCmp) -> u8 {
    match c {
        EvalResultCmp::Equal => 0,
        EvalResultCmp::NotEqual => 1,
        EvalResultCmp::Unknown => 2,
    }
}

/// The `i`-th item of a summary.
pub open spec fn nth_item(items: Seq<SummaryItem>, i: usize) -> SummaryItem {
    items[i as int]
}

/// The status of the `i`-th item of a summary.
pub open spec fn item_status(items: Seq<SummaryItem>, i: usize) -> EvalResultCmp {
    compare_results(nth_item(items, i).result_old, nth_item(items, i).result_new)
}

impl EvalResult {
    /// Compares the outcomes on the old side (`self`) and on the new side.
    pub fn compare(&self, other: &Self) -> (res: EvalResultCmp)
        ensures
            res == compare_results(*self, *other),
    {
        match (self, other) {
            (EvalResult::DrvPath(old), EvalResult::DrvPath(new)) => {
                if old.eq(new) {
                    EvalResultCmp::Equal
                } else {
                    EvalResultCmp::NotEqual
                }
            },
            _ => EvalResultCmp::Unknown,
        }
    }

    /// Renders the outcome for the user, with styles.
    pub fn display(&self) -> (res: String)
        ensures
            res@ == eval_result_text(*self),
    {
        let mut out = String::new();
        match self {
            EvalResult::DrvPath(drv_path) => push_styled(&mut out, EVAL_SUCCESS, drv_path.as_str()),
            EvalResult::Error => push_styled(&mut out, EVAL_ERROR, "error"),
        }
        out
    }

    /// A copy of this outcome.
    pub fn duplicate(&self) -> (res: Self)
        ensures
            res == *self,
    {
        match self {
            EvalResult::DrvPath(p) => EvalResult::DrvPath(p.clone()),
            EvalResult::Error => EvalResult::Error,
        }
    }
}

impl EvalResultCmp {
    /// The symbol shown for the comparison.
    pub fn symbol(self) -> (res: &'static str)
        ensures
            res@ == symbol_text(self),
    {
        match self {
            EvalResultCmp::Equal => "==",
            EvalResultCmp::NotEqual => "!=",
            EvalResultCmp::Unknown => "??",
        }
    }

    /// The width of the symbol.
    pub fn display_width(self) -> (res: usize)
        ensures
            res == 2,
    {
        2
    }

    /// Renders the comparison for the user, with styles.
    pub fn display(self) -> (res: String)
        ensures
            res@ == cmp_text(self),
    {
        let mut out = String::new();
        let symbol = self.symbol();
        match self {
            EvalResultCmp::Equal => push_styled(&mut out, EQUAL, symbol),
            EvalResultCmp::NotEqual => push_styled(&mut out, NOT_EQUAL, symbol),
            EvalResultCmp::Unknown => push_styled(&mut out, UNKNOWN, symbol),
        }
        out
    }
}

/// The padding that brings two widths to the larger of them.
pub fn get_padding(lhs_width: usize, rhs_width: usize) -> (res: (usize, usize))
    ensures
        res.0 == padding(lhs_width as int, rhs_width as int).0,
        res.1 == padding(lhs_width as int, rhs_width as int).1,
{
    let max_width = if lhs_width >= rhs_width {
        lhs_width
    } else {
        rhs_width
    };
    (max_width - lhs_width, max_width - rhs_width)
}

/// Appends `n` spaces.
pub fn push_spaces(out: &mut String, n: usize)
    ensures
        final(out)@ == old(out)@ + spaces(n as int),
{
    let ghost start = out@;
    let mut i: usize = 0;
    while i < n
        invariant
            i <= n,
            out@ == start + spaces(i as int),
        decreases n - i,
    {
        push_char(out, ' ');
        assert(spaces(i + 1) =~= spaces(i as int).push(' '));
        i = i + 1;
    }
}

impl SummaryItem {
    /// Renders the comparison as two lines, with styles.
    pub fn display(&self) -> (res: String)
        ensures
            res@ == item_text(*self),
    {
        reveal(item_text);
        let status = self.result_old.compare(&self.result_new);
        let status_width = status.display_width();
        let status_text = status.display();
        let old_text = self.result_old.display();
        let new_text = self.result_new.display();
        let path_text = self.attr_path.display();
        let mut out = String::new();
        match &self.base {
            None => {
                let (lhs_pad, rhs_pad) = get_padding(self.attr_path.display_width(), status_width);
                push_str(&mut out, "  ");
                push_str(&mut out, path_text.as_str());
                push_spaces(&mut out, lhs_pad);
                push_str(&mut out, " ");
                push_str(&mut out, old_text.as_str());
                push_str(&mut out, "\n");
                push_str(&mut out, "  ");
                push_str(&mut out, status_text.as_str());
                push_spaces(&mut out, rhs_pad);
                push_str(&mut out, " ");
                push_str(&mut out, new_text.as_str());
                push_str(&mut out, "\n");
            },
            Some(base) => {
                let (lhs_pad, rhs_pad) = get_padding(
                    base.display_width(),
                    self.attr_path.display_width(),
                );
                let base_text = base.display();
                push_str(&mut out, "  ");
                push_spaces(&mut out, status_width);
                push_str(&mut out, " ");
                push_str(&mut out, base_text.as_str());
                push_spaces(&mut out, lhs_pad);
                push_str(&mut out, " ");
                push_str(&mut out, old_text.as_str());
                push_str(&mut out, "\n");
                push_str(&mut out, "  ");
                push_str(&mut out, status_text.as_str());
                push_str(&mut out, " ");
                push_str(&mut out, path_text.as_str());
                push_spaces(&mut out, rhs_pad);
                push_str(&mut out, " ");
                push_str(&mut out, new_text.as_str());
                push_str(&mut out, "\n");
            },
        }
        out
    }
}

impl Summary {
    /// Renders the summary: a header, then each comparison followed by an empty line.
    pub fn display(&self) -> (res: String)
        ensures
            res@ == styled(HEADER, "Summary:"@) + "\n"@ + items_text(self.items@),
    {
        let mut out = String::new();
        push_styled(&mut out, HEADER, "Summary:");
        push_str(&mut out, "\n");
        let ghost head = out@;
        for i in 0..self.items.len()
            invariant
                out@ == head + items_text(self.items@.take(i as int)),
        {
            let text = self.items[i].display();
            push_str(&mut out, text.as_str());
            push_str(&mut out, "\n");
            assert(self.items@.take(i + 1).drop_last() =~= self.items@.take(i as int));
        }
        assert(self.items@.take(self.items@.len() as int) =~= self.items@);
        out
    }

    /// The program's exit code: 0 if all derivations are the same, 1 if any are different,
    /// and 2 if any could not be evaluated.
    pub fn exit_code(&self) -> (res: u8)
        ensures
            res == 0 <==> forall|i: usize|
                i < self.items@.len() ==> item_status(self.items@, i) == EvalResultCmp::Equal,
            res == 2 <==> exists|i: usize|
                i < self.items@.len() && item_status(self.items@, i) == EvalResultCmp::Unknown,
            res == 1 <==> (exists|i: usize|
                i < self.items@.len() && item_status(self.items@, i)
                    == EvalResultCmp::NotEqual) && forall|i: usize|
                i < self.items@.len() ==> item_status(self.items@, i)
                    != EvalResultCmp::Unknown,
            res <= 2,
    {
        let mut code: u8 = 0;
        for i in 0..self.items.len()
            invariant
                code <= 2,
                code == 0 <==> forall|j: usize|
                    j < i ==> item_status(self.items@, j) == EvalResultCmp::Equal,
                code == 2 <==> exists|j: usize|
                    j < i && item_status(self.items@, j) == EvalResultCmp::Unknown,
                code == 1 <==> (exists|j: usize|
                    j < i && item_status(self.items@, j) == EvalResultCmp::NotEqual)
                    && forall|j: usize|
                    j < i ==> item_status(self.items@, j) != EvalResultCmp::Unknown,
        {
            let item = &self.items[i];
            let status = item.result_old.compare(&item.result_new);
            let item_code: u8 = match status {
                EvalResultCmp::Equal => 0,
                EvalResultCmp::NotEqual => 1,
                EvalResultCmp::Unknown => 2,
            };
            assert(nth_item(self.items@, i) == *item);
            assert(item_status(self.items@, i) == status);
            if item_code > code {
                code = item_code;
            }
        }
        code
    }
}

/// Law: padding brings both widths to the larger of them, and pads at most one of them.
pub proof fn law_padding_aligns(lhs: int, rhs: int)
    ensures
        lhs + padding(lhs, rhs).0 == rhs + padding(lhs, rhs).1,
        padding(lhs, rhs).0 == 0 || padding(lhs, rhs).1 == 0,
        padding(lhs, rhs).0 >= 0 && padding(lhs, rhs).1 >= 0,
{
}

/// Law: comparing two outcomes gives the same answer in either order.
pub proof fn law_compare_symmetric(a: EvalResult, b: EvalResult)
    ensures
        compare_results(a, b) == compare_results(b, a),
{
}

/// Law: an outcome equals itself unless its evaluation failed.
pub proof fn law_compare_reflexive(a: EvalResult)
    ensures
        compare_results(a, a) == if a is Error {
            EvalResultCmp::Unknown
        } else {
            EvalResultCmp::Equal
        },
{
}

/// Law: two outcomes compare equal exactly when both are derivation paths with the same text,
/// as different when both are derivation paths whose texts differ in any character, and as
/// unknown exactly when either evaluation failed.
pub proof fn law_compare_equal_iff_same_path(a: EvalResult, b: EvalResult)
    ensures
        (compare_results(a, b) is Equal) <==> (a matches EvalResult::DrvPath(o)
            && b matches EvalResult::DrvPath(n) && o@ == n@),
        (compare_results(a, b) is NotEqual) <==> (a matches EvalResult::DrvPath(o)
            && b matches EvalResult::DrvPath(n) && o@ != n@),
        (compare_results(a, b) is Unknown) <==> (a is Error || b is Error),
{
}

/// Law: two derivation paths that differ at any position compare as different.
pub proof fn law_paths_differing_somewhere_differ(o: String, n: String, k: int)
    requires
        0 <= k < o@.len(),
        k < n@.len(),
        o@[k] != n@[k],
    ensures
        compare_results(EvalResult::DrvPath(o), EvalResult::DrvPath(n)) == EvalResultCmp::NotEqual,
{
}

} // verus!
