//! The decisions behind the command line: defaults, which revisions and attribute paths to
//! compare, how verbose to be and how many evaluations to run at once.

use vstd::prelude::*;
use crate::attr_path::{
    parse_attr_path, path_views, texts, AttrPath, AttrPathArgError, AttrPathView,
};
use crate::command::Cmd;
use crate::diff_spec::DiffTool;
use crate::glob::{parse_pattern_spec, Pattern, PatternArgError, PatternView};
use crate::nix::{flake_ref_text, opt_text, prefetch_flake_cmd, prefetch_repo_cmd};
use crate::order::{insert_all_paths, insert_all_unique, paths_strictly_sorted, strictly_sorted};
use crate::source::Source;
use crate::vcs::VcsMode;

verus! {

/// The extra arguments passed to a tool when none are given: none without a tool, and
/// `--skip-already-compared --character-oriented` for `nix-diff`.
pub open spec fn default_tool_args_spec(tool: DiffTool) -> Seq<Seq<char>> {
    match tool {
        DiffTool::NoTool => seq![],
        DiffTool::NixDiff => seq!["--skip-already-compared"@, "--character-oriented"@],
    }
}

/// The extra arguments passed to a tool when none are given.
pub fn default_tool_args(tool: DiffTool) -> (res: Vec<String>)
    ensures
        texts(res@) == default_tool_args_spec(tool),
{
    let mut res: Vec<String> = Vec::new();
    match tool {
        DiffTool::NoTool => {},
        DiffTool::NixDiff => {
            res.push("--skip-already-compared".to_owned());
            res.push("--character-oriented".to_owned());
        },
    }
    assert(texts(res@) =~= default_tool_args_spec(tool));
    res
}

/// The version control mode that `--git` or `--jj` asks for, if either; the two exclude each
/// other.
pub fn vcs_mode_override(git: bool, jj: bool) -> (res: Option<VcsMode>)
    requires
        !(git && jj),
    ensures
        git ==> res == Some(VcsMode::Git),
        jj ==> res == Some(VcsMode::Jujutsu),
        !git && !jj ==> res is None,
{
    if git {
        Some(VcsMode::Git)
    } else if jj {
        Some(VcsMode::Jujutsu)
    } else {
        None
    }
}

/// The version control mode: the one asked for, else Jujutsu where the repository root holds a
/// `.jj` entry, else Git.
pub fn vcs_mode(mode_override: Option<VcsMode>, has_jj: bool) -> (res: VcsMode)
    ensures
        mode_override matches Some(m) ==> res == m,
        mode_override is None ==> res == if has_jj {
            VcsMode::Jujutsu
        } else {
            VcsMode::Git
        },
{
    match mode_override {
        Some(m) => m,
        None => if has_jj {
            VcsMode::Jujutsu
        } else {
            VcsMode::Git
        },
    }
}

/// How much is logged, from the least to the most.
#[derive(Clone, Copy, Debug, Eq, PartialEq, Structural)]
pub enum LogLevel {
    Error,
    Warn,
    Info,
    Debug,
    Trace,
}

/// The log level for `verbose` times `--verbose` and `quiet` times `--quiet`: each cancels one
/// of the other; info by default, error at two or more quiet, trace at two or more verbose.
pub open spec fn log_level_spec(verbose: int, quiet: int) -> LogLevel {
    let d = verbose - quiet;
    if d <= -2 {
        LogLevel::Error
    } else if d == -1 {
        LogLevel::Warn
    } else if d == 0 {
        LogLevel::Info
    } else if d == 1 {
        LogLevel::Debug
    } else {
        LogLevel::Trace
    }
}

/// The log level for `verbose` times `--verbose` and `quiet` times `--quiet`.
pub fn default_log_level(verbose: u8, quiet: u8) -> (res: LogLevel)
    ensures
        res == log_level_spec(verbose as int, quiet as int),
{
    let d: i16 = verbose as i16 - quiet as i16;
    if d <= -2 {
        LogLevel::Error
    } else if d == -1 {
        LogLevel::Warn
    } else if d == 0 {
        LogLevel::Info
    } else if d == 1 {
        LogLevel::Debug
    } else {
        LogLevel::Trace
    }
}

/// Law: each `--quiet` cancels out one `--verbose` and vice versa.
pub proof fn law_quiet_cancels_verbose(verbose: int, quiet: int)
    ensures
        log_level_spec(verbose + 1, quiet + 1) == log_level_spec(verbose, quiet),
{
}

/// How many evaluations run at once for `--eval-jobs`: a positive value as it is; zero or
/// `-N` the available CPUs (one where their number is unknown) less `N`, but at least one.
pub open spec fn eval_threads_spec(eval_jobs: int, available: Option<usize>) -> int {
    if eval_jobs >= 1 {
        eval_jobs
    } else {
        let cpus: int = match available {
            Some(n) => n as int,
            None => 1,
        };
        if cpus + eval_jobs >= 1 {
            cpus + eval_jobs
        } else {
            1
        }
    }
}

/// How many evaluations run at once for `--eval-jobs`, given the number of available CPUs if
/// it could be found.
pub fn num_eval_threads(eval_jobs: isize, available: Option<usize>) -> (res: usize)
    ensures
        res == eval_threads_spec(eval_jobs as int, available),
        res >= 1,
{
    if eval_jobs >= 1 {
        eval_jobs as usize
    } else {
        let cpus: usize = match available {
            Some(n) => n,
            None => 1,
        };
        let reduce: usize = if eval_jobs == isize::MIN {
            (isize::MAX as usize) + 1
        } else {
            (-eval_jobs) as usize
        };
        if cpus > reduce {
            cpus - reduce
        } else {
            1
        }
    }
}

/// Which revisions to compare, as the user named them.
#[derive(Clone, Debug, Eq, PartialEq)]
pub enum RevisionPlan {
    /// The revision on the new side, compared with its first parent.
    WithFirstParent(String),
    /// One revision on both sides.
    Same(String),
    /// A revision on each side.
    Pair(String, String),
}

/// The revision that is meant where none is named: the working tree in Git mode, the
/// working-copy commit in Jujutsu mode.
pub open spec fn default_revision(mode: VcsMode) -> Seq<char> {
    match mode {
        VcsMode::Git => "[working tree]"@,
        VcsMode::Jujutsu => "@"@,
    }
}

/// The text of an optional revision, or the default.
pub open spec fn or_default(r: Option<&str>, mode: VcsMode) -> Seq<char> {
    match r {
        Some(s) => s@,
        None => default_revision(mode),
    }
}

/// Which revisions to compare for `-r`, `-f` and `-t` (`-r` excludes the other two), and
/// whether a base path is given: `-r` (or the default) alone compares a revision with its first
/// parent, or, with a base, with itself; otherwise `-f` and `-t`, each defaulting.
pub fn make_from_and_to(
    revision: Option<&str>,
    from: Option<&str>,
    to: Option<&str>,
    has_base: bool,
    mode: VcsMode,
) -> (res: RevisionPlan)
    requires
        revision is Some ==> from is None && to is None,
    ensures
        from is None && to is None && !has_base ==> (res matches RevisionPlan::WithFirstParent(r)
            && r@ == or_default(revision, mode)),
        from is None && to is None && has_base ==> (res matches RevisionPlan::Same(r) && r@
            == or_default(revision, mode)),
        (from is Some || to is Some) ==> (res matches RevisionPlan::Pair(f, t) && f@ == or_default(
            from,
            mode,
        ) && t@ == or_default(to, mode)),
{
    let default_rev: &str = match mode {
        VcsMode::Git => "[working tree]",
        VcsMode::Jujutsu => "@",
    };
    if from.is_none() && to.is_none() {
        let rev = match revision {
            Some(r) => r,
            None => default_rev,
        };
        if has_base {
            RevisionPlan::Same(rev.to_owned())
        } else {
            RevisionPlan::WithFirstParent(rev.to_owned())
        }
    } else {
        let f = match from {
            Some(r) => r,
            None => default_rev,
        };
        let t = match to {
            Some(r) => r,
            None => default_rev,
        };
        RevisionPlan::Pair(f.to_owned(), t.to_owned())
    }
}

/// A revision named on the command line that cannot be used: the Git working tree in
/// Jujutsu mode.
#[derive(Clone, Copy, Debug, Eq, PartialEq, Structural)]
pub struct WorktreeInJujutsuMode;

/// What a revision named on the command line stands for: the commit to look up, or `None`
/// for the Git working tree, written `[working tree]`, which only Git mode knows.
pub fn revision_target(mode: VcsMode, rev: &str) -> (res: Result<Option<&str>, WorktreeInJujutsuMode>)
    ensures
        rev@ == "[working tree]"@ ==> (match mode {
            VcsMode::Git => res == Ok::<Option<&str>, WorktreeInJujutsuMode>(None),
            VcsMode::Jujutsu => res is Err,
        }),
        rev@ != "[working tree]"@ ==> res == Ok::<Option<&str>, WorktreeInJujutsuMode>(Some(rev)),
{
    let is_worktree = rev.to_owned() == "[working tree]".to_owned();
    if is_worktree {
        match mode {
            VcsMode::Git => Ok(None),
            VcsMode::Jujutsu => Err(WorktreeInJujutsuMode),
        }
    } else {
        Ok(Some(rev))
    }
}

/// The revision that names the first parent of a revision: `HEAD` for the working tree,
/// `ID^` in Git mode and `ID-` in Jujutsu mode for the commit `ID`.
pub fn first_parent_rev(mode: VcsMode, commit_id: Option<&str>) -> (res: String)
    ensures
        res@ == match commit_id {
            None => "HEAD"@,
            Some(id) => id@ + match mode {
                VcsMode::Git => "^"@,
                VcsMode::Jujutsu => "-"@,
            },
        },
{
    match commit_id {
        None => "HEAD".to_owned(),
        Some(id) => {
            let mut rev = String::new();
            crate::text::push_str(&mut rev, id);
            match mode {
                VcsMode::Git => crate::text::push_str(&mut rev, "^"),
                VcsMode::Jujutsu => crate::text::push_str(&mut rev, "-"),
            }
            rev
        },
    }
}

/// The commit at which the `to` side is looked at separately: `Some` where it differs from the
/// `from` side's (`None` inside for the working tree), `None` where both are the same.
pub fn second_commit<'a>(from_commit: Option<&str>, to_commit: Option<&'a str>) -> (res: Option<
    Option<&'a str>,
>)
    ensures
        opt_text(from_commit) == opt_text(to_commit) ==> res is None,
        opt_text(from_commit) != opt_text(to_commit) ==> res == Some(to_commit),
{
    let same = match (from_commit, to_commit) {
        (Some(a), Some(b)) => a.to_owned() == b.to_owned(),
        (None, None) => true,
        _ => false,
    };
    if same {
        None
    } else {
        Some(to_commit)
    }
}

/// The attribute path that a command-line argument denotes for the source, or why it denotes
/// none.
pub open spec fn attr_path_arg(arg: Seq<char>, source: Source, nixos: bool) -> Result<
    AttrPathView,
    AttrPathArgError,
> {
    match parse_attr_path(arg) {
        Err(e) => Err(AttrPathArgError::Parse(e)),
        Ok(p) => if p.leading_dot && source is File {
            Err(AttrPathArgError::LeadingDotWithFile)
        } else {
            Ok(AttrPathView { nixos, ..p })
        },
    }
}

/// The pattern that a command-line argument denotes for the source, or why it denotes none.
pub open spec fn pattern_arg(arg: Seq<char>, source: Source) -> Result<PatternView, PatternArgError> {
    match parse_pattern_spec(arg) {
        Err(e) => Err(PatternArgError::Parse(e)),
        Ok(p) => if p.leading_dot && source is File {
            Err(PatternArgError::LeadingDotWithFile)
        } else {
            Ok(p)
        },
    }
}

/// Where the attribute paths to compare come from.
#[derive(Debug)]
pub enum AttrPathsPlan {
    /// None were given: the default outputs, named by Nix.
    Default,
    /// The outputs that match these patterns, named by Nix.
    Glob(Vec<Pattern>),
    /// These paths.
    Explicit(Vec<AttrPath>),
}

/// A positional argument that was refused, by its position.
#[derive(Debug)]
pub enum ArgError {
    AttrPath(usize, AttrPathArgError),
    Pattern(usize, PatternArgError),
}

/// Where the attribute paths to compare come from, given the positional arguments, whether
/// they are glob patterns, the source and whether NixOS configurations are compared; the
/// first argument that is refused gives the error.
pub fn get_attr_paths(args: &Vec<String>, glob: bool, source: &Source, nixos: bool) -> (res: Result<
    AttrPathsPlan,
    ArgError,
>)
    ensures
        args@.len() == 0 ==> res matches Ok(AttrPathsPlan::Default),
        args@.len() > 0 && glob ==> match res {
            Ok(AttrPathsPlan::Glob(v)) => v@.len() == args@.len() && forall|i: int|
                0 <= i < args@.len() ==> pattern_arg(#[trigger] args@[i]@, *source) == Ok::<
                    PatternView,
                    PatternArgError,
                >(v@[i]@),
            Err(ArgError::Pattern(k, e)) => k < args@.len() && pattern_arg(args@[k as int]@, *source)
                == Err::<PatternView, PatternArgError>(e) && forall|i: int|
                0 <= i < k ==> pattern_arg(#[trigger] args@[i]@, *source) is Ok,
            _ => false,
        },
        args@.len() > 0 && !glob ==> match res {
            Ok(AttrPathsPlan::Explicit(v)) => v@.len() == args@.len() && forall|i: int|
                0 <= i < args@.len() ==> attr_path_arg(#[trigger] args@[i]@, *source, nixos)
                    == Ok::<AttrPathView, AttrPathArgError>(v@[i]@),
            Err(ArgError::AttrPath(k, e)) => k < args@.len() && attr_path_arg(
                args@[k as int]@,
                *source,
                nixos,
            ) == Err::<AttrPathView, AttrPathArgError>(e) && forall|i: int|
                0 <= i < k ==> attr_path_arg(#[trigger] args@[i]@, *source, nixos) is Ok,
            _ => false,
        },
{
    if args.len() == 0 {
        return Ok(AttrPathsPlan::Default);
    }
    if glob {
        let mut patterns: Vec<Pattern> = Vec::new();
        for i in 0..args.len()
            invariant
                glob,
                args@.len() > 0,
                patterns@.len() == i,
                forall|j: int|
                    0 <= j < i ==> pattern_arg(#[trigger] args@[j]@, *source) == Ok::<
                        PatternView,
                        PatternArgError,
                    >(patterns@[j]@),
        {
            match Pattern::from_cli_arg(args[i].as_str(), source) {
                Ok(p) => {
                    patterns.push(p);
                },
                Err(e) => {
                    return Err(ArgError::Pattern(i, e));
                },
            }
        }
        Ok(AttrPathsPlan::Glob(patterns))
    } else {
        let mut paths: Vec<AttrPath> = Vec::new();
        for i in 0..args.len()
            invariant
                !glob,
                args@.len() > 0,
                paths@.len() == i,
                forall|j: int|
                    0 <= j < i ==> attr_path_arg(#[trigger] args@[j]@, *source, nixos) == Ok::<
                        AttrPathView,
                        AttrPathArgError,
                    >(paths@[j]@),
        {
            match AttrPath::from_cli_arg(args[i].as_str(), source, nixos) {
                Ok(p) => {
                    paths.push(p);
                },
                Err(e) => {
                    return Err(ArgError::AttrPath(i, e));
                },
            }
        }
        Ok(AttrPathsPlan::Explicit(paths))
    }
}

/// The names of the default outputs to compare, given those at the `from` revision and, where
/// the `to` revision is another commit, those at `to`: the names at `from` as they are, or else
/// the names of both, sorted and each once.
pub fn get_default_attr_names(from_names: Vec<String>, to_names: Option<Vec<String>>) -> (res: Vec<
    String,
>)
    ensures
        to_names is None ==> res@ == from_names@,
        to_names matches Some(t) ==> (strictly_sorted(texts(res@)) && forall|s: Seq<char>|
            #![trigger texts(res@).contains(s)]
            #![trigger texts(from_names@).contains(s)]
            #![trigger texts(t@).contains(s)]
            texts(res@).contains(s) <==> (texts(from_names@).contains(s) || texts(t@).contains(
                s,
            ))),
{
    match to_names {
        None => from_names,
        Some(t) => {
            let mut res: Vec<String> = Vec::new();
            assert(texts(res@) =~= Seq::<Seq<char>>::empty());
            let ghost f = texts(from_names@);
            let ghost g = texts(t@);
            insert_all_unique(&mut res, from_names);
            let ghost mid = texts(res@);
            insert_all_unique(&mut res, t);
            assert forall|s: Seq<char>| texts(res@).contains(s) <==> (f.contains(s) || g.contains(s)) by {
                assert(mid.contains(s) <==> (Seq::<Seq<char>>::empty().contains(s) || f.contains(s)));
                assert(texts(res@).contains(s) <==> (mid.contains(s) || g.contains(s)));
            }
            res
        },
    }
}

/// The commands that fetch the sources ahead of evaluation: for the `from` commit and, where it
/// is another, for the `to` commit, the flake at that commit, or for a file the repository at
/// that commit (nothing for the working tree). `fetch_repo_expr` is the expression that fetches
/// a repository.
pub fn prefetch_sources(
    source: &Source,
    repo_root: &str,
    fetch_repo_expr: &str,
    from_commit: Option<&str>,
    to_commit: Option<&str>,
) -> (res: Vec<Cmd>)
    ensures
        ({
            let wanted = prefetched_commits(*source, opt_text(from_commit), opt_text(to_commit));
            res@.len() == wanted.len() && forall|i: int|
                0 <= i < wanted.len() ==> prefetch_wanted(
                    *source,
                    repo_root@,
                    fetch_repo_expr@,
                    wanted[i],
                    #[trigger] res@[i]@,
                )
        }),
{
    let mut res: Vec<Cmd> = Vec::new();
    prefetch_commit(&mut res, source, repo_root, fetch_repo_expr, from_commit);
    let differ = match (from_commit, to_commit) {
        (Some(a), Some(b)) => {
            let same = a.to_owned() == b.to_owned();
            !same
        },
        (None, None) => false,
        _ => true,
    };
    if differ {
        prefetch_commit(&mut res, source, repo_root, fetch_repo_expr, to_commit);
    }
    res
}

/// The commits whose sources are fetched: `from` and, where it is another, `to`; for a file
/// only commits, not the working tree.
pub open spec fn prefetched_commits(
    source: Source,
    from: Option<Seq<char>>,
    to: Option<Seq<char>>,
) -> Seq<Option<Seq<char>>> {
    let first = if source is Flake || from is Some {
        seq![from]
    } else {
        seq![]
    };
    let second = if from != to && (source is Flake || to is Some) {
        seq![to]
    } else {
        seq![]
    };
    first + second
}

/// The command that fetches the source at `commit`, where one is wanted.
pub open spec fn prefetch_wanted(
    source: Source,
    repo_root: Seq<char>,
    fetch_repo_expr: Seq<char>,
    commit: Option<Seq<char>>,
    cmd: crate::command::CmdView,
) -> bool {
    match source {
        Source::Flake(flake_path) => cmd == crate::command::cmd_view(
            crate::command::Program::Nix,
            seq![
                "--extra-experimental-features"@,
                "nix-command flakes"@,
                "flake"@,
                "archive"@,
                "--"@,
                flake_ref_text(flake_path.spec_str(), commit),
            ],
        ),
        Source::File(_) => (commit matches Some(rev) && cmd == crate::command::cmd_view(
            crate::command::Program::NixInstantiate,
            crate::nix::instantiate_eval_json_args() + seq![
                "--expr"@,
                fetch_repo_expr,
                "--argstr"@,
                "repoRoot"@,
                repo_root,
                "--argstr"@,
                "rev"@,
                rev,
            ],
        )),
    }
}

/// Appends the command that fetches the source at `commit`, where one is wanted.
fn prefetch_commit(
    cmds: &mut Vec<Cmd>,
    source: &Source,
    repo_root: &str,
    fetch_repo_expr: &str,
    commit: Option<&str>,
)
    ensures
        (source is Flake || commit is Some) ==> final(cmds)@.len() == old(cmds)@.len() + 1
            && final(cmds)@.drop_last() == old(cmds)@ && prefetch_wanted(
            *source,
            repo_root@,
            fetch_repo_expr@,
            opt_text(commit),
            final(cmds)@.last()@,
        ),
        !(source is Flake || commit is Some) ==> final(cmds)@ == old(cmds)@,
{
    match source {
        Source::Flake(flake_path) => {
            let cmd = prefetch_flake_cmd(flake_path, commit);
            cmds.push(cmd);
        },
        Source::File(_) => {
            match commit {
                Some(rev) => {
                    let cmd = prefetch_repo_cmd(fetch_repo_expr, repo_root, rev);
                    cmds.push(cmd);
                },
                None => {},
            }
        },
    }
    assert(cmds@.len() > old(cmds)@.len() ==> cmds@.drop_last() =~= old(cmds)@);
}

/// Whether pattern `i` matched something at either commit.
pub open spec fn pattern_matched(from: Seq<Vec<AttrPath>>, to: Option<Vec<Vec<AttrPath>>>, i: int) -> bool {
    from[i]@.len() > 0 || (to matches Some(t) && t@[i]@.len() > 0)
}

/// Whether pattern `j` matched the attribute path `p` at either commit.
pub open spec fn matched_at(
    from: Seq<Vec<AttrPath>>,
    to: Option<Vec<Vec<AttrPath>>>,
    p: AttrPathView,
    j: int,
) -> bool {
    path_views(from[j]@).contains(p) || (to matches Some(t) && path_views(t@[j]@).contains(p))
}

/// Whether one of the first `n` patterns matched the attribute path `p` at either commit.
pub open spec fn matched_below(
    from: Seq<Vec<AttrPath>>,
    to: Option<Vec<Vec<AttrPath>>>,
    p: AttrPathView,
    n: int,
) -> bool {
    exists|j: int| 0 <= j < n && #[trigger] matched_at(from, to, p, j)
}

/// Whether some pattern matched the attribute path `p` at either commit.
pub open spec fn matched_by_some(
    from: Seq<Vec<AttrPath>>,
    to: Option<Vec<Vec<AttrPath>>>,
    p: AttrPathView,
) -> bool {
    matched_below(from, to, p, from.len() as int)
}

proof fn lemma_matched_below_step(
    from: Seq<Vec<AttrPath>>,
    to: Option<Vec<Vec<AttrPath>>>,
    p: AttrPathView,
    n: int,
)
    requires
        n >= 0,
    ensures
        matched_below(from, to, p, n + 1) <==> (matched_below(from, to, p, n) || matched_at(
            from,
            to,
            p,
            n,
        )),
{
    if matched_below(from, to, p, n + 1) {
        let j = choose|j: int| 0 <= j < n + 1 && #[trigger] matched_at(from, to, p, j);
        if j < n {
            assert(matched_below(from, to, p, n));
        }
    }
}

/// The attribute paths that match the patterns, given what each pattern matched at the `from`
/// commit and, where the `to` commit is another, at `to`: all of them, sorted, each once; and,
/// in order, the patterns that matched nothing at either, which the user is warned about.
pub fn get_matching_output_attrs(
    num_patterns: usize,
    from: Vec<Vec<AttrPath>>,
    to: Option<Vec<Vec<AttrPath>>>,
) -> (res: (Vec<AttrPath>, Vec<usize>))
    requires
        from@.len() == num_patterns,
        to matches Some(t) ==> t@.len() == num_patterns,
    ensures
        paths_strictly_sorted(path_views(res.0@)),
        forall|p: AttrPathView|
            #![trigger path_views(res.0@).contains(p)]
            path_views(res.0@).contains(p) <==> matched_by_some(from@, to, p),
        forall|a: int, b: int| 0 <= a < b < res.1@.len() ==> res.1@[a] < res.1@[b],
        forall|i: usize|
            i < num_patterns ==> (res.1@.contains(i) <==> !pattern_matched(from@, to, i as int)),
{
    let mut paths: Vec<AttrPath> = Vec::new();
    assert(path_views(paths@) =~= Seq::<AttrPathView>::empty());
    let mut unmatched: Vec<usize> = Vec::new();
    let mut i: usize = 0;
    while i < num_patterns
        invariant
            from@.len() == num_patterns,
            to matches Some(t) ==> t@.len() == num_patterns,
            i <= num_patterns,
            paths_strictly_sorted(path_views(paths@)),
            forall|p: AttrPathView|
                #![trigger path_views(paths@).contains(p)]
                path_views(paths@).contains(p) <==> matched_below(from@, to, p, i as int),
            forall|a: int, b: int| 0 <= a < b < unmatched@.len() ==> unmatched@[a] < unmatched@[b],
            forall|a: int| 0 <= a < unmatched@.len() ==> unmatched@[a] < i,
            forall|j: usize|
                j < i ==> (unmatched@.contains(j) <==> !pattern_matched(from@, to, j as int)),
        decreases num_patterns - i,
    {
        let ghost before = path_views(paths@);
        insert_all_paths(&mut paths, &from[i]);
        let ghost mid = path_views(paths@);
        let mut any = from[i].len() > 0;
        match &to {
            Some(t) => {
                insert_all_paths(&mut paths, &t[i]);
                if t[i].len() > 0 {
                    any = true;
                }
            },
            None => {},
        }
        proof {
            assert forall|p: AttrPathView|
                path_views(paths@).contains(p) <==> matched_below(from@, to, p, i + 1) by {
                lemma_matched_below_step(from@, to, p, i as int);
                assert(before.contains(p) <==> matched_below(from@, to, p, i as int));
                assert(mid.contains(p) <==> (before.contains(p) || path_views(
                    from@[i as int]@,
                ).contains(p)));
                match to {
                    Some(t) => {
                        assert(path_views(paths@).contains(p) <==> (mid.contains(p) || path_views(
                            t@[i as int]@,
                        ).contains(p)));
                    },
                    None => {},
                }
            }
        }
        let ghost before_unmatched = unmatched@;
        if !any {
            unmatched.push(i);
        }
        proof {
            assert(any == pattern_matched(from@, to, i as int));
            assert forall|j: usize| j < i + 1 implies (unmatched@.contains(j) <==> !pattern_matched(
                from@,
                to,
                j as int,
            )) by {
                if j < i {
                    if unmatched@.contains(j) {
                        let k = choose|k: int| 0 <= k < unmatched@.len() && unmatched@[k] == j;
                        if k < before_unmatched.len() {
                            assert(before_unmatched[k] == j);
                        }
                    }
                    if before_unmatched.contains(j) {
                        let k = choose|k: int| 0 <= k < before_unmatched.len() && before_unmatched[k] == j;
                        assert(unmatched@[k] == j);
                    }
                } else {
                    if !any {
                        assert(unmatched@[unmatched@.len() - 1] == j);
                    } else {
                        if unmatched@.contains(j) {
                            let k = choose|k: int| 0 <= k < unmatched@.len() && unmatched@[k] == j;
                            assert(before_unmatched[k] < i);
                        }
                    }
                }
            }
        }
        i = i + 1;
    }
    (paths, unmatched)
}

} // verus!
