//! Evaluating the derivation paths to compare, each at most once, and comparing them.

use vstd::prelude::*;
use crate::attr_path::{display_text, display_width_of, saturating, texts, AttrPath, AttrPathView};
use crate::command::{cmd_view, Cmd, CmdView, Program};
use crate::diff_spec::{DiffSpec, DiffTool};
use crate::nix::run_nix_diff;
use crate::styles::{push_styled, styled, FROM, TO};
use crate::summary::{get_padding, padding, push_spaces, spaces, EvalResult, SummaryItem};
use crate::text::push_str;
use crate::vcs::{revision_commit_id, revision_text, opt_str_text};

verus! {

/// One evaluation: an attribute path at a commit (the working tree where there is none).
#[derive(Clone, Copy, Debug)]
pub struct EvalSpec<'spec> {
    pub commit_id: Option<&'spec str>,
    pub attr_path: &'spec AttrPath,
}

/// The model of an [`EvalSpec`].
pub struct EvalSpecView {
    pub commit_id: Option<Seq<char>>,
    pub attr_path: AttrPathView,
}

impl<'spec> View for EvalSpec<'spec> {
    type V = EvalSpecView;

    open spec fn view(&self) -> EvalSpecView {
        EvalSpecView { commit_id: opt_str_text(self.commit_id), attr_path: self.attr_path@ }
    }
}

/// The evaluation on the old side for the attribute path `rhs` of the new side: at the `from`
/// revision, of the base path where there is one and of `rhs` otherwise.
pub open spec fn lhs_view(spec: DiffSpec, rhs: AttrPathView) -> EvalSpecView {
    EvalSpecView {
        commit_id: revision_commit_id(spec.from),
        attr_path: match spec.base {
            Some(b) => b@,
            None => rhs,
        },
    }
}

/// The evaluation on the new side for the attribute path `rhs`: at the `to` revision.
pub open spec fn rhs_view(spec: DiffSpec, rhs: AttrPathView) -> EvalSpecView {
    EvalSpecView { commit_id: revision_commit_id(spec.to), attr_path: rhs }
}

/// Whether two attribute paths are the same.
pub fn same_attr_path(a: &AttrPath, b: &AttrPath) -> (res: bool)
    ensures
        res == (a@ == b@),
{
    if a.leading_dot != b.leading_dot || a.nixos != b.nixos || a.parts.len() != b.parts.len() {
        proof {
            if a.parts.len() != b.parts.len() {
                assert(a@.parts.len() != b@.parts.len());
            }
        }
        return false;
    }
    let mut i: usize = 0;
    while i < a.parts.len()
        invariant
            a.parts.len() == b.parts.len(),
            i <= a.parts.len(),
            forall|j: int| 0 <= j < i ==> a.parts@[j]@ == b.parts@[j]@,
        decreases a.parts.len() - i,
    {
        if a.parts[i] != b.parts[i] {
            assert(a@.parts[i as int] != b@.parts[i as int]);
            return false;
        }
        i = i + 1;
    }
    assert(a@.parts =~= b@.parts);
    true
}

/// Whether two optional string slices hold the same text.
fn same_opt_str(a: Option<&str>, b: Option<&str>) -> (res: bool)
    ensures
        res == (opt_str_text(a) == opt_str_text(b)),
{
    match (a, b) {
        (Some(x), Some(y)) => {
            let r = x.to_owned() == y.to_owned();
            r
        },
        (None, None) => true,
        _ => false,
    }
}

impl<'spec> EvalSpec<'spec> {
    /// The evaluation on the old side for the attribute path `rhs_attr_path` of the new side.
    pub fn lhs(spec: &'spec DiffSpec, rhs_attr_path: &'spec AttrPath) -> (res: Self)
        ensures
            res@ == lhs_view(*spec, rhs_attr_path@),
    {
        let attr_path = match &spec.base {
            Some(base) => base,
            None => rhs_attr_path,
        };
        EvalSpec { commit_id: spec.from.commit_id(), attr_path }
    }

    /// The evaluation on the new side for the attribute path `rhs_attr_path`.
    pub fn rhs(spec: &'spec DiffSpec, rhs_attr_path: &'spec AttrPath) -> (res: Self)
        ensures
            res@ == rhs_view(*spec, rhs_attr_path@),
    {
        EvalSpec { commit_id: spec.to.commit_id(), attr_path: rhs_attr_path }
    }

    /// Whether two evaluations are the same.
    pub fn same(&self, other: &Self) -> (res: bool)
        ensures
            res == (self@ == other@),
    {
        same_opt_str(self.commit_id, other.commit_id) && same_attr_path(
            self.attr_path,
            other.attr_path,
        )
    }
}

/// What is shown before the differences of two derivations: the two attribute paths, padded to
/// the same width, each with its revision.
pub open spec fn pair_header_text(lhs: AttrPathView, rhs: AttrPathView, spec: DiffSpec) -> Seq<char> {
    let pad = padding(
        saturating(display_width_of(lhs)) as int,
        saturating(display_width_of(rhs)) as int,
    );
    styled(FROM, "-"@) + " "@ + display_text(lhs) + spaces(pad.0) + " "@ + revision_text(spec.from)
        + "\n"@ + styled(TO, "+"@) + " "@ + display_text(rhs) + spaces(pad.1) + " "@
        + revision_text(spec.to) + "\n"@
}

/// What to show between two evaluations whose derivations differ: the pair of attribute paths,
/// and the command that shows the differences.
#[derive(Debug)]
pub struct DiffAction {
    pub header: String,
    pub cmd: Cmd,
}

/// The differences to show for two outcomes, if any: with `nix-diff`, where both evaluations
/// gave a derivation path and the paths differ.
pub open spec fn diff_wanted(tool: DiffTool, old: EvalResult, new: EvalResult) -> Option<
    (Seq<char>, Seq<char>),
> {
    match (tool, old, new) {
        (DiffTool::NixDiff, EvalResult::DrvPath(o), EvalResult::DrvPath(n)) => if o@ != n@ {
            Some((o@, n@))
        } else {
            None
        },
        _ => None,
    }
}

/// Renders the pair of attribute paths shown before their differences.
pub fn print_pair_cmp(lhs: &AttrPath, rhs: &AttrPath, spec: &DiffSpec) -> (res: String)
    ensures
        res@ == pair_header_text(lhs@, rhs@, *spec),
{
    let width_l = lhs.display_width();
    let width_r = rhs.display_width();
    let (lhs_pad, rhs_pad) = get_padding(width_l, width_r);
    let mut out = String::new();
    push_styled(&mut out, FROM, "-");
    push_str(&mut out, " ");
    let l = lhs.display();
    push_str(&mut out, l.as_str());
    push_spaces(&mut out, lhs_pad);
    push_str(&mut out, " ");
    let from = spec.from.display();
    push_str(&mut out, from.as_str());
    push_str(&mut out, "\n");
    push_styled(&mut out, TO, "+");
    push_str(&mut out, " ");
    let r = rhs.display();
    push_str(&mut out, r.as_str());
    push_spaces(&mut out, rhs_pad);
    push_str(&mut out, " ");
    let to = spec.to.display();
    push_str(&mut out, to.as_str());
    push_str(&mut out, "\n");
    out
}

/// A copy of an optional attribute path.
fn duplicate_opt(p: &Option<AttrPath>) -> (res: Option<AttrPath>)
    ensures
        match (res, *p) {
            (Some(a), Some(b)) => a@ == b@,
            (None, None) => true,
            _ => false,
        },
{
    match p {
        Some(a) => Some(a.duplicate()),
        None => None,
    }
}

/// The summary item for `attr_path`, given the outcomes on both sides, and the differences to
/// show for it, if any.
pub fn compare_paths(
    attr_path: &AttrPath,
    spec: &DiffSpec,
    lhs: &EvalSpec,
    rhs: &EvalSpec,
    result_old: EvalResult,
    result_new: EvalResult,
) -> (res: (SummaryItem, Option<DiffAction>))
    ensures
        res.0.attr_path@ == attr_path@,
        match (res.0.base, spec.base) {
            (Some(a), Some(b)) => a@ == b@,
            (None, None) => true,
            _ => false,
        },
        res.0.result_old == result_old,
        res.0.result_new == result_new,
        match diff_wanted(spec.tool, result_old, result_new) {
            Some((o, n)) => res.1 matches Some(a) && a.header@ == pair_header_text(
                lhs.attr_path@,
                rhs.attr_path@,
                *spec,
            ) && a.cmd@ == cmd_view(
                Program::NixDiff,
                texts(spec.tool_extra_args@) + seq![o, n],
            ),
            None => res.1 is None,
        },
{
    let action = match (spec.tool, &result_old, &result_new) {
        (DiffTool::NixDiff, EvalResult::DrvPath(old), EvalResult::DrvPath(new)) => {
            if !old.eq(new) {
                let header = print_pair_cmp(lhs.attr_path, rhs.attr_path, spec);
                let cmd = run_nix_diff(&spec.tool_extra_args, old.as_str(), new.as_str());
                Some(DiffAction { header, cmd })
            } else {
                None
            }
        },
        _ => None,
    };
    let item = SummaryItem {
        base: duplicate_opt(&spec.base),
        attr_path: attr_path.duplicate(),
        result_old,
        result_new,
    };
    (item, action)
}

/// Whether `eval` may give the outcome `r` for the evaluation `k`.
pub open spec fn evaluates_to<'a, F: Fn(&EvalSpec<'a>) -> EvalResult>(
    eval: F,
    k: EvalSpecView,
    r: EvalResult,
) -> bool {
    exists|s: &EvalSpec<'a>| s@ == k && eval.ensures((s,), r)
}

/// The outcome remembered last for the evaluation `k` among `c`, if any.
pub open spec fn lookup<'a>(c: Seq<(EvalSpec<'a>, EvalResult)>, k: EvalSpecView) -> Option<
    EvalResult,
>
    decreases c.len(),
{
    if c.len() == 0 {
        None
    } else if c.last().0@ == k {
        Some(c.last().1)
    } else {
        lookup(c.drop_last(), k)
    }
}

/// Adding an outcome for `k` makes it the one looked up for `k`, and changes no other.
proof fn lemma_lookup_push<'a>(c: Seq<(EvalSpec<'a>, EvalResult)>, x: (EvalSpec<'a>, EvalResult), k: EvalSpecView)
    ensures
        lookup(c.push(x), k) == if x.0@ == k {
            Some(x.1)
        } else {
            lookup(c, k)
        },
{
    assert(c.push(x).drop_last() =~= c);
}

/// The outcome remembered for `key` among `results`: the last one given for it.
pub fn cached_result<'a>(results: &Vec<(EvalSpec<'a>, EvalResult)>, key: &EvalSpec<'a>) -> (res:
    Option<EvalResult>)
    ensures
        res == lookup(results@, key@),
{
    let mut i: usize = results.len();
    assert(results@.take(i as int) =~= results@);
    while i > 0
        invariant
            i <= results@.len(),
            lookup(results@.take(i as int), key@) == lookup(results@, key@),
        decreases i,
    {
        assert(results@.take(i as int).drop_last() =~= results@.take(i - 1));
        if results[i - 1].0.same(key) {
            return Some(results[i - 1].1.duplicate());
        }
        i = i - 1;
    }
    None
}

/// One step of the sequential evaluation: an evaluation whose outcome is needed next, the
/// differences to show for the path just compared, or the end.
#[derive(Debug)]
pub enum EvalStep<'a> {
    Evaluate(EvalSpec<'a>),
    Show(DiffAction),
    Done,
}

/// The sequential evaluation and comparison of the attribute paths of a [`DiffSpec`], one path
/// after another, as a state machine. It asks for an evaluation only when the path being
/// compared needs its outcome, and never for one whose outcome it already has; the outcomes it
/// is given are remembered.
pub struct SequentialEval<'a> {
    spec: &'a DiffSpec,
    outcomes: Vec<(EvalSpec<'a>, EvalResult)>,
    items: Vec<SummaryItem>,
    pending: Option<EvalSpec<'a>>,
}

/// No differences are shown for the items `from..to`.
pub open spec fn quiet(tool: DiffTool, items: Seq<SummaryItem>, from: int, to: int) -> bool {
    forall|j: int|
        from <= j < to ==> diff_wanted(tool, #[trigger] items[j].result_old, items[j].result_new)
            is None
}

impl<'a> SequentialEval<'a> {
    /// The specification being worked through.
    pub closed spec fn spec_of(&self) -> DiffSpec {
        *self.spec
    }

    /// The outcome given for the evaluation `k`, if it was asked for.
    pub closed spec fn outcome(&self, k: EvalSpecView) -> Option<EvalResult> {
        lookup(self.outcomes@, k)
    }

    /// The items of the paths compared so far, in order.
    pub closed spec fn done(&self) -> Seq<SummaryItem> {
        self.items@
    }

    /// The evaluation whose outcome is awaited, if any.
    pub closed spec fn waiting(&self) -> Option<EvalSpecView> {
        match self.pending {
            Some(k) => Some(k@),
            None => None,
        }
    }

    /// The evaluation on the old side of the `m`-th path.
    pub open spec fn lhs_of(&self, m: int) -> EvalSpecView {
        lhs_view(self.spec_of(), self.spec_of().attr_paths@[m]@)
    }

    /// The evaluation on the new side of the `m`-th path.
    pub open spec fn rhs_of(&self, m: int) -> EvalSpecView {
        rhs_view(self.spec_of(), self.spec_of().attr_paths@[m]@)
    }

    /// Item `j` compares the `j`-th path, with the outcomes given for its two evaluations.
    pub open spec fn recorded(&self, j: int) -> bool {
        let item = self.done()[j];
        &&& item.attr_path@ == self.spec_of().attr_paths@[j]@
        &&& match (item.base, self.spec_of().base) {
            (Some(a), Some(b)) => a@ == b@,
            (None, None) => true,
            _ => false,
        }
        &&& self.outcome(self.lhs_of(j)) == Some(item.result_old)
        &&& self.outcome(self.rhs_of(j)) == Some(item.result_new)
    }

    /// The state is consistent: every item compared so far is recorded, and an awaited
    /// evaluation is one of the next path that was not asked for before.
    pub open spec fn wf(&self) -> bool {
        let m = self.done().len() as int;
        &&& m <= self.spec_of().attr_paths@.len()
        &&& forall|j: int| 0 <= j < m ==> #[trigger] self.recorded(j)
        &&& self.waiting() matches Some(k) ==> {
            &&& m < self.spec_of().attr_paths@.len()
            &&& self.outcome(k) is None
            &&& (k == self.lhs_of(m) || k == self.rhs_of(m))
        }
    }

    /// How many outcomes of the next path are known.
    pub open spec fn known(&self, m: int) -> int {
        (if self.outcome(self.lhs_of(m)) is Some {
            1int
        } else {
            0int
        }) + (if self.outcome(self.rhs_of(m)) is Some {
            1int
        } else {
            0int
        })
    }

    /// What is left to do: three steps for each path not yet compared, less the outcomes of
    /// the next one that are known.
    pub open spec fn progress(&self) -> int {
        let n = self.spec_of().attr_paths@.len() as int;
        let m = self.done().len() as int;
        if m < n {
            3 * (n - m) - self.known(m)
        } else {
            0
        }
    }

    /// The start: nothing compared, nothing evaluated.
    pub fn new(spec: &'a DiffSpec) -> (res: Self)
        ensures
            res.wf(),
            res.spec_of() == *spec,
            res.done().len() == 0,
            res.waiting() is None,
            forall|k: EvalSpecView| #[trigger] res.outcome(k) is None,
    {
        SequentialEval { spec, outcomes: Vec::new(), items: Vec::new(), pending: None }
    }

    /// Goes on with the comparison until an outcome is missing, differences are to be shown,
    /// or every path is compared. Paths are compared in order; the old side's outcome of a path
    /// is asked for before its new side's, and an outcome is asked for only once.
    pub fn next(&mut self) -> (res: EvalStep<'a>)
        requires
            old(self).wf(),
            old(self).waiting() is None,
        ensures
            final(self).wf(),
            final(self).spec_of() == old(self).spec_of(),
            forall|k: EvalSpecView| #[trigger] final(self).outcome(k) == old(self).outcome(k),
            old(self).done().len() <= final(self).done().len(),
            final(self).done().take(old(self).done().len() as int) == old(self).done(),
            match res {
                EvalStep::Evaluate(k) => {
                    let m = final(self).done().len() as int;
                    &&& m < final(self).spec_of().attr_paths@.len()
                    &&& final(self).waiting() == Some(k@)
                    &&& old(self).outcome(k@) is None
                    &&& (k@ == final(self).lhs_of(m) || (final(self).outcome(final(self).lhs_of(m)) is Some
                        && k@ == final(self).rhs_of(m)))
                    &&& quiet(final(self).spec_of().tool, final(self).done(), old(self).done().len() as int, m)
                    &&& final(self).progress() <= old(self).progress()
                },
                EvalStep::Show(a) => {
                    let m = final(self).done().len() - 1;
                    let item = final(self).done()[m];
                    &&& old(self).done().len() <= m
                    &&& final(self).waiting() is None
                    &&& quiet(final(self).spec_of().tool, final(self).done(), old(self).done().len() as int, m)
                    &&& diff_wanted(final(self).spec_of().tool, item.result_old, item.result_new) matches Some((o, n))
                        && a.header@ == pair_header_text(
                            final(self).lhs_of(m).attr_path,
                            final(self).rhs_of(m).attr_path,
                            final(self).spec_of(),
                        ) && a.cmd@ == cmd_view(
                            Program::NixDiff,
                            texts(final(self).spec_of().tool_extra_args@) + seq![o, n],
                        )
                    &&& final(self).progress() < old(self).progress()
                },
                EvalStep::Done => {
                    &&& final(self).done().len() == final(self).spec_of().attr_paths@.len()
                    &&& final(self).waiting() is None
                    &&& quiet(final(self).spec_of().tool, final(self).done(), old(self).done().len() as int, final(self).done().len() as int)
                },
            },
    {
        let spec: &'a DiffSpec = self.spec;
        let n = spec.attr_paths.len();
        let ghost start = self.items@.len() as int;
        while self.items.len() < n
            invariant
                self.spec == old(self).spec,
                spec == self.spec,
                n == spec.attr_paths@.len(),
                self.outcomes@ == old(self).outcomes@,
                self.pending is None,
                start == old(self).items@.len(),
                start <= self.items@.len() <= n,
                self.items@.take(start) == old(self).items@,
                self.wf(),
                quiet(spec.tool, self.items@, start, self.items@.len() as int),
            decreases n - self.items@.len(),
        {
            let m = self.items.len();
            let path: &'a AttrPath = &spec.attr_paths[m];
            let lhs = EvalSpec::lhs(spec, path);
            let result_old = match cached_result(&self.outcomes, &lhs) {
                Some(r) => r,
                None => {
                    let ghost prior = *self;
                    self.pending = Some(lhs);
                    proof {
                        assert(lhs@ == self.lhs_of(m as int));
                        assert(self.outcome(lhs@) is None);
                        assert forall|j: int| 0 <= j < m implies #[trigger] self.recorded(j) by {
                            assert(prior.recorded(j));
                        }
                    }
                    return EvalStep::Evaluate(lhs);
                },
            };
            let rhs = EvalSpec::rhs(spec, path);
            let result_new = match cached_result(&self.outcomes, &rhs) {
                Some(r) => r,
                None => {
                    let ghost prior = *self;
                    self.pending = Some(rhs);
                    proof {
                        assert(rhs@ == self.rhs_of(m as int));
                        assert(self.outcome(rhs@) is None);
                        assert forall|j: int| 0 <= j < m implies #[trigger] self.recorded(j) by {
                            assert(prior.recorded(j));
                        }
                    }
                    return EvalStep::Evaluate(rhs);
                },
            };
            let (item, action) = compare_paths(path, spec, &lhs, &rhs, result_old, result_new);
            let ghost before = self.items@;
            let ghost prior = *self;
            self.items.push(item);
            proof {
                assert(self.items@.take(start) =~= before.take(start));
                assert(self.recorded(m as int));
                assert forall|j: int| 0 <= j < self.items@.len() implies #[trigger] self.recorded(j) by {
                    if j < m {
                        assert(self.items@[j] == before[j]);
                        assert(prior.recorded(j));
                    }
                }
            }
            match action {
                Some(a) => {
                    return EvalStep::Show(a);
                },
                None => {
                    proof {
                        assert forall|j: int| start <= j < self.items@.len() implies diff_wanted(
                            spec.tool,
                            #[trigger] self.items@[j].result_old,
                            self.items@[j].result_new,
                        ) is None by {
                            if j < m {
                                assert(self.items@[j] == before[j]);
                            }
                        }
                    }
                },
            }
        }
        EvalStep::Done
    }

    /// Hands over the outcome of the evaluation asked for last, which is remembered.
    pub fn give(&mut self, r: EvalResult)
        requires
            old(self).wf(),
            old(self).waiting() is Some,
        ensures
            final(self).wf(),
            final(self).spec_of() == old(self).spec_of(),
            final(self).done() == old(self).done(),
            final(self).waiting() is None,
            final(self).outcome(old(self).waiting()->0) == Some(r),
            forall|k: EvalSpecView|
                k != old(self).waiting()->0 ==> #[trigger] final(self).outcome(k) == old(self).outcome(k),
            final(self).progress() < old(self).progress(),
    {
        match self.pending {
            Some(k) => {
                let ghost before = self.outcomes@;
                self.outcomes.push((k, r));
                self.pending = None;
                proof {
                    assert forall|q: EvalSpecView| #[trigger] lookup(self.outcomes@, q) == if k@ == q {
                        Some(r)
                    } else {
                        lookup(before, q)
                    } by {
                        lemma_lookup_push(before, (k, r), q);
                    }
                    let m = self.items@.len() as int;
                    assert forall|j: int| 0 <= j < m implies #[trigger] self.recorded(j) by {
                        assert(old(self).recorded(j));
                    }
                }
            },
            None => {},
        }
    }

    /// The items of the paths compared, in order.
    pub fn finish(self) -> (res: Vec<SummaryItem>)
        ensures
            res@ == self.done(),
    {
        self.items
    }
}

/// Whether one evaluation has one outcome throughout the items: wherever two sides of the
/// items are the same evaluation, they have the same outcome.
pub open spec fn results_consistent(spec: DiffSpec, items: Seq<SummaryItem>) -> bool {
    forall|i: int, j: int|
        0 <= i < items.len() && 0 <= j < items.len() ==> {
            &&& lhs_view(spec, #[trigger] spec.attr_paths@[i]@) == lhs_view(
                spec,
                #[trigger] spec.attr_paths@[j]@,
            ) ==> items[i].result_old == items[j].result_old
            &&& lhs_view(spec, spec.attr_paths@[i]@) == rhs_view(spec, spec.attr_paths@[j]@)
                ==> items[i].result_old == items[j].result_new
            &&& rhs_view(spec, spec.attr_paths@[i]@) == rhs_view(spec, spec.attr_paths@[j]@)
                ==> items[i].result_new == items[j].result_new
        }
}

/// Item `i` compares the `i`-th attribute path, with outcomes that `eval` gave.
pub open spec fn item_evaluated<'a, F: Fn(&EvalSpec<'a>) -> EvalResult>(
    spec: DiffSpec,
    eval: F,
    items: Seq<SummaryItem>,
    i: int,
) -> bool {
    &&& items[i].attr_path@ == spec.attr_paths@[i]@
    &&& match (items[i].base, spec.base) {
        (Some(a), Some(b)) => a@ == b@,
        (None, None) => true,
        _ => false,
    }
    &&& evaluates_to(eval, lhs_view(spec, spec.attr_paths@[i]@), items[i].result_old)
    &&& evaluates_to(eval, rhs_view(spec, spec.attr_paths@[i]@), items[i].result_new)
}

/// Whether `show` may fail with the error `e`.
pub open spec fn show_failed<E, G: Fn(&DiffAction) -> Result<(), E>>(show: G, e: E) -> bool {
    exists|a: &DiffAction| show.ensures((a,), Err::<(), E>(e))
}


/// The evaluation `k` is one side of one of the attribute paths.
pub open spec fn needed(spec: DiffSpec, k: EvalSpecView) -> bool {
    exists|m: int|
        0 <= m < spec.attr_paths@.len() && (k == lhs_view(spec, #[trigger] spec.attr_paths@[m]@)
            || k == rhs_view(spec, spec.attr_paths@[m]@))
}

/// Whether `jobs` holds the evaluation `key`.
fn has_job<'a>(jobs: &Vec<EvalSpec<'a>>, key: &EvalSpec<'a>) -> (res: bool)
    ensures
        res == exists|i: int| 0 <= i < jobs@.len() && #[trigger] jobs@[i]@ == key@,
{
    let mut i: usize = 0;
    while i < jobs.len()
        invariant
            i <= jobs@.len(),
            forall|j: int| 0 <= j < i ==> #[trigger] jobs@[j]@ != key@,
        decreases jobs.len() - i,
    {
        if jobs[i].same(key) {
            return true;
        }
        i = i + 1;
    }
    false
}

/// Adds `key` to `jobs` where it is not there yet.
fn add_job<'a>(jobs: &mut Vec<EvalSpec<'a>>, key: EvalSpec<'a>)
    requires
        forall|i: int, j: int|
            0 <= i < j < old(jobs)@.len() ==> #[trigger] old(jobs)@[i]@ != #[trigger] old(jobs)@[j]@,
    ensures
        forall|i: int, j: int|
            0 <= i < j < final(jobs)@.len() ==> #[trigger] final(jobs)@[i]@ != #[trigger] final(jobs)@[j]@,
        final(jobs)@.len() >= old(jobs)@.len(),
        forall|i: int| 0 <= i < old(jobs)@.len() ==> #[trigger] final(jobs)@[i] == old(jobs)@[i],
        forall|i: int|
            old(jobs)@.len() <= i < final(jobs)@.len() ==> #[trigger] final(jobs)@[i]@ == key@,
        exists|i: int| 0 <= i < final(jobs)@.len() && #[trigger] final(jobs)@[i]@ == key@,
{
    if !has_job(jobs, &key) {
        jobs.push(key);
        assert(jobs@[jobs@.len() - 1]@ == key@);
    }
}

/// The evaluations that the attribute paths need, each once: for each path in order, its old
/// side and then its new side, where they are not there yet.
pub fn eval_jobs<'a>(spec: &'a DiffSpec) -> (res: Vec<EvalSpec<'a>>)
    ensures
        forall|i: int, j: int| 0 <= i < j < res@.len() ==> #[trigger] res@[i]@ != #[trigger] res@[j]@,
        forall|i: int| 0 <= i < res@.len() ==> needed(*spec, #[trigger] res@[i]@),
        forall|m: int|
            #![trigger spec.attr_paths@[m]]
            0 <= m < spec.attr_paths@.len() ==> (exists|i: int|
                0 <= i < res@.len() && #[trigger] res@[i]@ == lhs_view(*spec, spec.attr_paths@[m]@))
                && (exists|i: int|
                0 <= i < res@.len() && #[trigger] res@[i]@ == rhs_view(*spec, spec.attr_paths@[m]@)),
{
    let mut jobs: Vec<EvalSpec<'a>> = Vec::new();
    let mut m: usize = 0;
    while m < spec.attr_paths.len()
        invariant
            m <= spec.attr_paths@.len(),
            forall|i: int, j: int| 0 <= i < j < jobs@.len() ==> #[trigger] jobs@[i]@ != #[trigger] jobs@[j]@,
            forall|i: int| 0 <= i < jobs@.len() ==> needed(*spec, #[trigger] jobs@[i]@),
            forall|p: int|
                #![trigger spec.attr_paths@[p]]
                0 <= p < m ==> (exists|i: int|
                    0 <= i < jobs@.len() && #[trigger] jobs@[i]@ == lhs_view(*spec, spec.attr_paths@[p]@))
                    && (exists|i: int|
                    0 <= i < jobs@.len() && #[trigger] jobs@[i]@ == rhs_view(*spec, spec.attr_paths@[p]@)),
        decreases spec.attr_paths@.len() - m,
    {
        let path: &'a AttrPath = &spec.attr_paths[m];
        let ghost j0 = jobs@;
        let lhs = EvalSpec::lhs(spec, path);
        add_job(&mut jobs, lhs);
        let ghost j1 = jobs@;
        let rhs = EvalSpec::rhs(spec, path);
        add_job(&mut jobs, rhs);
        proof {
            assert(needed(*spec, lhs@));
            assert(needed(*spec, rhs@));
            assert forall|i: int| 0 <= i < jobs@.len() implies needed(*spec, #[trigger] jobs@[i]@) by {
                if i < j0.len() {
                    assert(jobs@[i] == j0[i]);
                } else if i < j1.len() {
                    assert(jobs@[i] == j1[i]);
                }
            }
            let il = choose|i: int| 0 <= i < j1.len() && #[trigger] j1[i]@ == lhs@;
            assert(jobs@[il] == j1[il]);
            assert forall|p: int| #![trigger spec.attr_paths@[p]] 0 <= p < m + 1 implies (exists|i: int|
                0 <= i < jobs@.len() && #[trigger] jobs@[i]@ == lhs_view(*spec, spec.attr_paths@[p]@))
                && (exists|i: int|
                0 <= i < jobs@.len() && #[trigger] jobs@[i]@ == rhs_view(*spec, spec.attr_paths@[p]@)) by {
                if p < m {
                    let a = choose|i: int|
                        0 <= i < j0.len() && #[trigger] j0[i]@ == lhs_view(*spec, spec.attr_paths@[p]@);
                    let b = choose|i: int|
                        0 <= i < j0.len() && #[trigger] j0[i]@ == rhs_view(*spec, spec.attr_paths@[p]@);
                    assert(j1[a] == j0[a]);
                    assert(jobs@[a] == j1[a]);
                    assert(j1[b] == j0[b]);
                    assert(jobs@[b] == j1[b]);
                } else {
                    assert(jobs@[il]@ == lhs_view(*spec, spec.attr_paths@[p]@));
                }
            }
        }
        m = m + 1;
    }
    assert forall|p: int|
        #![trigger spec.attr_paths@[p]]
        0 <= p < spec.attr_paths@.len() implies (exists|i: int|
            0 <= i < jobs@.len() && #[trigger] jobs@[i]@ == lhs_view(*spec, spec.attr_paths@[p]@))
            && (exists|i: int|
            0 <= i < jobs@.len() && #[trigger] jobs@[i]@ == rhs_view(*spec, spec.attr_paths@[p]@)) by {
        assert(p < m);
        assert(exists|i: int|
            0 <= i < jobs@.len() && #[trigger] jobs@[i]@ == lhs_view(*spec, spec.attr_paths@[p]@));
    }
    jobs
}

/// `show` was handed, and accepted, what shows the differences of the derivations `o` and `n`
/// of the `i`-th path: the header of its two sides and the `nix-diff` command on them.
pub open spec fn diff_shown<E, G: Fn(&DiffAction) -> Result<(), E>>(
    spec: DiffSpec,
    show: G,
    i: int,
    o: Seq<char>,
    n: Seq<char>,
) -> bool {
    exists|a: &DiffAction|
        {
            &&& a.header@ == pair_header_text(
                lhs_view(spec, spec.attr_paths@[i]@).attr_path,
                rhs_view(spec, spec.attr_paths@[i]@).attr_path,
                spec,
            )
            &&& a.cmd@ == cmd_view(Program::NixDiff, texts(spec.tool_extra_args@) + seq![o, n])
            &&& #[trigger] show.ensures((a,), Ok::<(), E>(()))
        }
}

/// Every item among the first `m` whose derivations differ went through `show`.
pub open spec fn diffs_shown<E, G: Fn(&DiffAction) -> Result<(), E>>(
    spec: DiffSpec,
    show: G,
    items: Seq<SummaryItem>,
    m: int,
) -> bool {
    forall|i: int|
        0 <= i < m ==> match diff_wanted(spec.tool, #[trigger] items[i].result_old, items[i].result_new) {
            Some((o, n)) => diff_shown(spec, show, i, o, n),
            None => true,
        }
}

/// Evaluates and compares the attribute paths one after another, by running a
/// [`SequentialEval`]: each evaluation is made once, when the path being compared first needs
/// its outcome, and where the derivations differ, `show` is handed what to show (and on
/// success has accepted it) before any evaluation for a later path. The first error of `show`
/// ends the run; without `nix-diff` nothing is shown and the run succeeds.
pub fn eval_and_compare_paths_sequential<'a, E, F, G>(spec: &'a DiffSpec, eval: F, show: G) -> (res:
    Result<Vec<SummaryItem>, E>) where
    F: Fn(&EvalSpec<'a>) -> EvalResult,
    G: Fn(&DiffAction) -> Result<(), E>,

    requires
        forall|s: &EvalSpec<'a>| eval.requires((s,)),
        forall|a: &DiffAction| show.requires((a,)),
    ensures
        res matches Ok(items) ==> {
            &&& items@.len() == spec.attr_paths@.len()
            &&& forall|i: int| 0 <= i < items@.len() ==> item_evaluated(*spec, eval, items@, i)
            &&& results_consistent(*spec, items@)
            &&& diffs_shown(*spec, show, items@, items@.len() as int)
        },
        res matches Err(e) ==> show_failed(show, e),
        spec.tool != DiffTool::NixDiff ==> res is Ok,
{
    let mut machine = SequentialEval::new(spec);
    let mut finished = false;
    while !finished
        invariant
            forall|s: &EvalSpec<'a>| eval.requires((s,)),
            forall|a: &DiffAction| show.requires((a,)),
            machine.wf(),
            machine.spec_of() == *spec,
            machine.waiting() is None,
            forall|k: EvalSpecView|
                #[trigger] machine.outcome(k) is Some ==> evaluates_to(eval, k, machine.outcome(k)->0),
            finished ==> machine.done().len() == spec.attr_paths@.len(),
            diffs_shown(*spec, show, machine.done(), machine.done().len() as int),
        decreases (if finished {
            0
        } else {
            machine.progress() + 1
        }),
    {
        let ghost before = machine;
        let step = machine.next();
        let ghost after = machine;
        proof {
            assert forall|i: int| 0 <= i < before.done().len() implies #[trigger] after.done()[i]
                == before.done()[i] by {
                assert(after.done().take(before.done().len() as int)[i] == after.done()[i]);
            }
        }
        match step {
            EvalStep::Evaluate(k) => {
                let r = eval(&k);
                proof {
                    assert(evaluates_to(eval, k@, r));
                }
                machine.give(r);
                proof {
                    assert forall|i: int| 0 <= i < machine.done().len() implies match diff_wanted(
                        spec.tool,
                        #[trigger] machine.done()[i].result_old,
                        machine.done()[i].result_new,
                    ) {
                        Some((o, n)) => diff_shown(*spec, show, i, o, n),
                        None => true,
                    } by {
                        if i < before.done().len() {
                            assert(after.done()[i] == before.done()[i]);
                        } else {
                            assert(diff_wanted(spec.tool, after.done()[i].result_old, after.done()[i].result_new) is None);
                        }
                    }
                }
            },
            EvalStep::Show(a) => {
                let shown = show(&a);
                match shown {
                    Ok(u) => {
                        proof {
                            let m = machine.done().len() - 1;
                            assert(shown == Ok::<(), E>(u));
                            assert(show.ensures((&a,), Ok::<(), E>(())));
                            assert forall|i: int| 0 <= i < machine.done().len() implies match diff_wanted(
                                spec.tool,
                                #[trigger] machine.done()[i].result_old,
                                machine.done()[i].result_new,
                            ) {
                                Some((o, n)) => diff_shown(*spec, show, i, o, n),
                                None => true,
                            } by {
                                if i < before.done().len() {
                                    assert(after.done()[i] == before.done()[i]);
                                } else if i < m {
                                    assert(diff_wanted(spec.tool, after.done()[i].result_old, after.done()[i].result_new) is None);
                                } else {
                                    assert(i == m);
                                }
                            }
                        }
                    },
                    Err(e) => {
                        assert(show_failed(show, e));
                        return Err(e);
                    },
                }
            },
            EvalStep::Done => {
                proof {
                    assert forall|i: int| 0 <= i < machine.done().len() implies match diff_wanted(
                        spec.tool,
                        #[trigger] machine.done()[i].result_old,
                        machine.done()[i].result_new,
                    ) {
                        Some((o, n)) => diff_shown(*spec, show, i, o, n),
                        None => true,
                    } by {
                        if i < before.done().len() {
                            assert(after.done()[i] == before.done()[i]);
                        } else {
                            assert(diff_wanted(spec.tool, after.done()[i].result_old, after.done()[i].result_new) is None);
                        }
                    }
                }
                finished = true;
            },
        }
    }
    let ghost m = machine;
    let items = machine.finish();
    proof {
        assert forall|i: int| 0 <= i < items@.len() implies item_evaluated(*spec, eval, items@, i) by {
            assert(m.recorded(i));
        }
        assert forall|a: int, b: int| 0 <= a < items@.len() && 0 <= b < items@.len() implies {
            &&& lhs_view(*spec, #[trigger] spec.attr_paths@[a]@) == lhs_view(
                *spec,
                #[trigger] spec.attr_paths@[b]@,
            ) ==> items@[a].result_old == items@[b].result_old
            &&& lhs_view(*spec, spec.attr_paths@[a]@) == rhs_view(*spec, spec.attr_paths@[b]@)
                ==> items@[a].result_old == items@[b].result_new
            &&& rhs_view(*spec, spec.attr_paths@[a]@) == rhs_view(*spec, spec.attr_paths@[b]@)
                ==> items@[a].result_new == items@[b].result_new
        } by {
            assert(m.recorded(a));
            assert(m.recorded(b));
        }
    }
    Ok(items)
}

/// The error left in place of a remembered error once it has been handed out.
pub open spec fn placeholder_error() -> Seq<char> {
    "failed to evaluate derivation path"@
}

/// Hands out a remembered outcome of an evaluation: a derivation path as a copy; an error
/// message, handed out once, as it is, leaving the placeholder error
/// "failed to evaluate derivation path" in its place for later requests.
pub fn extract_cached_drv_path_result(result: &mut Result<String, String>) -> (res: Result<
    String,
    String,
>)
    ensures
        match *old(result) {
            Ok(p) => res == Ok::<String, String>(p) && *final(result) == *old(result),
            Err(e) => res == Err::<String, String>(e) && (*final(result) matches Err(m) && m@
                == placeholder_error()),
        },
{
    let mut taken: Result<String, String> = Err("failed to evaluate derivation path".to_owned());
    std::mem::swap(result, &mut taken);
    match taken {
        Ok(drv_path) => {
            let copy = drv_path.clone();
            *result = Ok(drv_path);
            Ok(copy)
        },
        Err(e) => Err(e),
    }
}

} // verus!
