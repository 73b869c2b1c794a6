//! Repositories and revisions: what Git and Jujutsu print, read back, and the cached state of
//! a repository.

use vstd::prelude::*;
use crate::styles::{push_styled, styled, WORKTREE};
use crate::text::{chars_of, push_char, push_str};
use crate::command::{cmd_view, Cmd, CmdView, Program};
use crate::json::{decode_bool, json_bool, JsonError};
use crate::display::{debug_str, debug_text};

verus! {

/// How revisions are parsed and displayed.
#[derive(Clone, Copy, Debug, Eq, PartialEq, Structural)]
pub enum VcsMode {
    Git,
    Jujutsu,
}

/// A commit: its full ID and how it is shown to the user.
#[derive(Clone, Debug)]
pub struct GitRevision {
    pub commit_id: String,
    pub display: String,
}

/// A revision: a commit, or the Git working tree.
#[derive(Clone, Debug)]
pub enum Revision {
    GitRevision(GitRevision),
    GitWorktree,
}

/// The commit ID of a revision, if it is a commit.
pub open spec fn revision_commit_id(r: Revision) -> Option<Seq<char>> {
    match r {
        Revision::GitRevision(g) => Some(g.commit_id@),
        Revision::GitWorktree => None,
    }
}

/// How a revision is displayed.
pub open spec fn revision_text(r: Revision) -> Seq<char> {
    match r {
        Revision::GitRevision(g) => g.display@,
        Revision::GitWorktree => styled(WORKTREE, "[worktree]"@),
    }
}

/// The text of an optional string slice.
pub open spec fn opt_str_text(o: Option<&str>) -> Option<Seq<char>> {
    match o {
        Some(s) => Some(s@),
        None => None,
    }
}

impl Revision {
    /// The commit ID, or `None` for the working tree.
    pub fn commit_id(&self) -> (res: Option<&str>)
        ensures
            opt_str_text(res) == revision_commit_id(*self),
    {
        match self {
            Revision::GitRevision(git_revision) => Some(git_revision.commit_id.as_str()),
            Revision::GitWorktree => None,
        }
    }

    /// Renders the revision for the user, with styles.
    pub fn display(&self) -> (res: String)
        ensures
            res@ == revision_text(*self),
    {
        match self {
            Revision::GitRevision(git_revision) => git_revision.display.clone(),
            Revision::GitWorktree => {
                let mut out = String::new();
                push_styled(&mut out, WORKTREE, "[worktree]");
                out
            },
        }
    }

    /// A copy of this revision.
    pub fn duplicate(&self) -> (res: Self)
        ensures
            revision_commit_id(res) == revision_commit_id(*self),
            revision_text(res) == revision_text(*self),
    {
        match self {
            Revision::GitRevision(g) => Revision::GitRevision(
                GitRevision { commit_id: g.commit_id.clone(), display: g.display.clone() },
            ),
            Revision::GitWorktree => Revision::GitWorktree,
        }
    }
}

/// What is wrong with the output of a Git or Jujutsu command; each holds the output.
#[derive(Clone, Debug, Eq, PartialEq)]
pub enum OutputError {
    /// The output does not end with a newline.
    MissingNewline(String),
    /// The commit ID is not 40 characters long.
    WrongLength(String),
    /// The commit ID holds something other than hexadecimal digits.
    NotHex(String),
    /// The `jj log` line lacks the `;` between commit ID and description.
    MissingSeparator(String),
}

/// The message shown for an error in the output of Git (in Git mode) or Jujutsu.
pub open spec fn output_error_text(e: OutputError, mode: VcsMode) -> Seq<char> {
    match e {
        OutputError::MissingNewline(o) => "expected 'git' command output to end with a newline, got "@
            + debug_text(o@),
        OutputError::WrongLength(o) => match mode {
            VcsMode::Git => "expected 'git rev-parse' command output to be 40 characters long, got "@
                + debug_text(o@),
            VcsMode::Jujutsu => "expected commit ID to be 40 characters long, got "@ + debug_text(o@),
        },
        OutputError::NotHex(o) => match mode {
            VcsMode::Git =>
                "expected 'git rev-parse' command output to contain only hexadecimal digits, got "@
                + debug_text(o@),
            VcsMode::Jujutsu => "expected commit ID to contain only hexadecimal digits, got "@
                + debug_text(o@),
        },
        OutputError::MissingSeparator(o) => "could not parse the output of `jj log` (missing ';'): "@
            + debug_text(o@),
    }
}

impl OutputError {
    /// The message shown to the user, for the output of Git in Git mode and of Jujutsu in
    /// Jujutsu mode.
    pub fn message(&self, mode: VcsMode) -> (res: String)
        ensures
            res@ == output_error_text(*self, mode),
    {
        let mut out = String::new();
        let shown = match self {
            OutputError::MissingNewline(o) => {
                push_str(&mut out, "expected 'git' command output to end with a newline, got ");
                o
            },
            OutputError::WrongLength(o) => {
                match mode {
                    VcsMode::Git => push_str(
                        &mut out,
                        "expected 'git rev-parse' command output to be 40 characters long, got ",
                    ),
                    VcsMode::Jujutsu => push_str(
                        &mut out,
                        "expected commit ID to be 40 characters long, got ",
                    ),
                }
                o
            },
            OutputError::NotHex(o) => {
                match mode {
                    VcsMode::Git => push_str(
                        &mut out,
                        "expected 'git rev-parse' command output to contain only hexadecimal digits, got ",
                    ),
                    VcsMode::Jujutsu => push_str(
                        &mut out,
                        "expected commit ID to contain only hexadecimal digits, got ",
                    ),
                }
                o
            },
            OutputError::MissingSeparator(o) => {
                push_str(&mut out, "could not parse the output of `jj log` (missing ';'): ");
                o
            },
        };
        let quoted = debug_str(shown.as_str());
        push_str(&mut out, quoted.as_str());
        out
    }
}

/// The length of the UTF-8 encoding of a text.
pub open spec fn byte_len(s: Seq<char>) -> nat {
    vstd::utf8::encode_utf8(s).len()
}

/// Whether `c` is an ASCII hexadecimal digit.
pub open spec fn is_hex_char(c: char) -> bool {
    ('0' <= c && c <= '9') || ('a' <= c && c <= 'f') || ('A' <= c && c <= 'F')
}

/// Whether every character of `s` is an ASCII hexadecimal digit.
pub open spec fn all_hex(s: Seq<char>) -> bool {
    forall|i: int| 0 <= i < s.len() ==> is_hex_char(#[trigger] s[i])
}

/// Whether every character of a string is an ASCII hexadecimal digit.
pub fn is_all_hex(s: &str) -> (res: bool)
    ensures
        res == all_hex(s@),
{
    let chars = chars_of(s);
    let mut i: usize = 0;
    while i < chars.len()
        invariant
            chars@ == s@,
            i <= chars@.len(),
            forall|j: int| 0 <= j < i ==> is_hex_char(#[trigger] chars@[j]),
        decreases chars.len() - i,
    {
        let c = chars[i];
        if !(('0' <= c && c <= '9') || ('a' <= c && c <= 'f') || ('A' <= c && c <= 'F')) {
            assert(!is_hex_char(s@[i as int]));
            return false;
        }
        i = i + 1;
    }
    true
}

/// Removes the last character of a string, which `String::pop` returns.
#[verifier::external_body]
fn pop_char(s: &mut String) -> (res: Option<char>)
    ensures
        old(s)@.len() == 0 ==> res is None && final(s)@ == old(s)@,
        old(s)@.len() > 0 ==> res == Some(old(s)@.last()) && final(s)@ == old(s)@.drop_last(),
{
    s.pop()
}

/// Removes the newline that ends a command's output; it is an error where there is none,
/// and the output is then left as it was.
pub fn strip_trailing_newline(git_output: &mut String) -> (res: Result<(), OutputError>)
    ensures
        old(git_output)@.len() > 0 && old(git_output)@.last() == '\n' ==> res is Ok
            && final(git_output)@ == old(git_output)@.drop_last(),
        !(old(git_output)@.len() > 0 && old(git_output)@.last() == '\n') ==> final(git_output)@
            == old(git_output)@ && (res matches Err(OutputError::MissingNewline(o)) && o@ == old(
            git_output,
        )@),
{
    let chars = chars_of(git_output.as_str());
    if chars.len() > 0 && chars[chars.len() - 1] == '\n' {
        pop_char(git_output);
        Ok(())
    } else {
        Err(OutputError::MissingNewline(git_output.clone()))
    }
}

/// Checks that a commit ID is 40 bytes of hexadecimal digits.
fn check_commit_id(id: String) -> (res: Result<String, OutputError>)
    ensures
        byte_len(id@) != 40 ==> (res matches Err(OutputError::WrongLength(o))
            && o == id),
        byte_len(id@) == 40 && !all_hex(id@) ==> (res matches Err(
            OutputError::NotHex(o),
        ) && o == id),
        byte_len(id@) == 40 && all_hex(id@) ==> res == Ok::<String, OutputError>(
            id,
        ),
{
    if id.as_str().as_bytes().len() != 40 {
        return Err(OutputError::WrongLength(id));
    }
    if !is_all_hex(id.as_str()) {
        return Err(OutputError::NotHex(id));
    }
    Ok(id)
}

/// The commit ID that `git rev-parse --verify` printed: its output without the final newline,
/// which must be 40 hexadecimal digits.
pub fn resolve_commit(output: String) -> (res: Result<String, OutputError>)
    ensures
        !(output@.len() > 0 && output@.last() == '\n') ==> (res matches Err(
            OutputError::MissingNewline(o),
        ) && o@ == output@),
        output@.len() > 0 && output@.last() == '\n' ==> match res {
            Ok(id) => id@ == output@.drop_last() && all_hex(id@) && byte_len(id@)
                == 40,
            Err(OutputError::WrongLength(o)) => o@ == output@.drop_last()
                && byte_len(o@) != 40,
            Err(OutputError::NotHex(o)) => o@ == output@.drop_last() && !all_hex(o@)
                && byte_len(o@) == 40,
            _ => false,
        },
{
    let mut output = output;
    strip_trailing_newline(&mut output)?;
    check_commit_id(output)
}

/// How `git show` displays a commit: its output without the final newline.
pub fn show_commit(output: String) -> (res: Result<String, OutputError>)
    ensures
        output@.len() > 0 && output@.last() == '\n' ==> (res matches Ok(d) && d@
            == output@.drop_last()),
        !(output@.len() > 0 && output@.last() == '\n') ==> (res matches Err(
            OutputError::MissingNewline(o),
        ) && o@ == output@),
{
    let mut output = output;
    strip_trailing_newline(&mut output)?;
    Ok(output)
}

/// An exit code of `git diff --quiet HEAD` that means neither clean nor changed: any code but
/// 0 and 1, or `None` where `git` was ended by a signal.
#[derive(Clone, Copy, Debug, Eq, PartialEq, Structural)]
pub struct UnexpectedExitCode(pub Option<i32>);

/// Whether `git diff --quiet HEAD` reported a clean working tree, given its exit code (`None`
/// where it was ended by a signal): 0 means clean, 1 means changes, anything else is an error.
pub fn working_tree_is_clean(exit_code: Option<i32>) -> (res: Result<bool, UnexpectedExitCode>)
    ensures
        exit_code == Some(0i32) ==> res == Ok::<bool, UnexpectedExitCode>(true),
        exit_code == Some(1i32) ==> res == Ok::<bool, UnexpectedExitCode>(false),
        exit_code != Some(0i32) && exit_code != Some(1i32) ==> res == Err::<bool, UnexpectedExitCode>(
            UnexpectedExitCode(exit_code),
        ),
{
    match exit_code {
        Some(0) => Ok(true),
        Some(1) => Ok(false),
        _ => Err(UnexpectedExitCode(exit_code)),
    }
}

/// The first index of `c` in `s`, if any.
pub open spec fn first_index(s: Seq<char>, c: char) -> Option<int> {
    if exists|i: int| 0 <= i < s.len() && s[i] == c {
        Some(choose|i: int| 0 <= i < s.len() && s[i] == c && forall|j: int| 0 <= j < i ==> s[j] != c)
    } else {
        None
    }
}

/// The characters of `s` from `from` up to `to`.
fn substring(s: &Vec<char>, from: usize, to: usize) -> (res: String)
    requires
        from <= to <= s@.len(),
    ensures
        res@ == s@.subrange(from as int, to as int),
{
    let mut res = String::new();
    let mut m = from;
    while m < to
        invariant
            from <= m <= to <= s@.len(),
            res@ == s@.subrange(from as int, m as int),
        decreases to - m,
    {
        push_char(&mut res, s[m]);
        assert(s@.subrange(from as int, m + 1) =~= s@.subrange(from as int, m as int).push(
            s@[m as int],
        ));
        m = m + 1;
    }
    res
}

/// The commit ID and the description that `jj log` printed as `ID;DESCRIPTION` (with an
/// optional final newline); the ID must be 40 hexadecimal digits.
pub fn resolve_and_show_commit(output: String) -> (res: Result<(String, String), OutputError>)
    ensures
        ({
            let line = if output@.len() > 0 && output@.last() == '\n' {
                output@.drop_last()
            } else {
                output@
            };
            match first_index(line, ';') {
                None => res matches Err(OutputError::MissingSeparator(o)) && o@ == line,
                Some(k) => {
                    let id = line.take(k);
                    let display = line.skip(k + 1);
                    match res {
                        Ok((i, d)) => i@ == id && d@ == display && all_hex(id)
                            && byte_len(i@) == 40,
                        Err(OutputError::WrongLength(o)) => o@ == id
                            && byte_len(o@) != 40,
                        Err(OutputError::NotHex(o)) => o@ == id && !all_hex(id)
                            && byte_len(o@) == 40,
                        _ => false,
                    }
                },
            }
        }),
{
    let all = chars_of(output.as_str());
    let end = if all.len() > 0 && all[all.len() - 1] == '\n' {
        all.len() - 1
    } else {
        all.len()
    };
    let ghost line = all@.take(end as int);
    assert(line =~= if output@.len() > 0 && output@.last() == '\n' {
        output@.drop_last()
    } else {
        output@
    });
    let mut k: usize = 0;
    while k < end && all[k] != ';'
        invariant
            k <= end <= all@.len(),
            line == all@.take(end as int),
            forall|j: int| 0 <= j < k ==> line[j] != ';',
        decreases end - k,
    {
        k = k + 1;
    }
    if k == end {
        assert(!exists|i: int| 0 <= i < line.len() && line[i] == ';');
        return Err(OutputError::MissingSeparator(substring(&all, 0, end)));
    }
    assert(line[k as int] == ';');
    let ghost found = choose|i: int|
        0 <= i < line.len() && line[i] == ';' && forall|j: int| 0 <= j < i ==> line[j] != ';';
    assert(found == k) by {
        if found < k {
            assert(line[found] != ';');
        }
        if found > k {
            assert(line[k as int] != ';');
        }
    }
    let commit_id = substring(&all, 0, k);
    let display = substring(&all, k + 1, end);
    assert(commit_id@ =~= line.take(k as int));
    assert(display@ =~= line.skip(k + 1));
    match check_commit_id(commit_id) {
        Ok(id) => Ok((id, display)),
        Err(e) => Err(e),
    }
}

/// Why a commit could not be resolved: running a command failed, or its output could not be
/// read.
#[derive(Debug)]
pub enum ResolveError<E> {
    Run(E),
    Output(OutputError),
}

/// `run` may have given `r` for a command with the model `cmd`.
pub open spec fn ran<E, F: Fn(&Cmd) -> Result<String, E>>(
    run: F,
    cmd: CmdView,
    r: Result<String, E>,
) -> bool {
    exists|k: &Cmd| k@ == cmd && #[trigger] run.ensures((k,), r)
}

/// The `git rev-parse` command that resolves `commit` at `root`.
pub open spec fn resolve_view(root: Seq<char>, commit: Seq<char>) -> CmdView {
    cmd_view(
        Program::Git,
        git_base_args(root) + seq!["rev-parse"@, "--verify"@, "--end-of-options"@, commit],
    )
}

/// The `git show` command that describes `commit_id` at `root`.
pub open spec fn show_view(root: Seq<char>, commit_id: Seq<char>) -> CmdView {
    cmd_view(Program::Git, git_base_args(root) + show_commit_args(commit_id))
}

/// The `jj log` command that prints the ID and description of `commit` at `root`.
pub open spec fn jj_resolve_view(root: Seq<char>, commit: Seq<char>) -> CmdView {
    cmd_view(
        Program::Jj,
        jj_log_args(root) + seq![
            "--template"@,
            "stringify(commit_id) ++ ';' ++ builtin_log_oneline"@,
            "--color"@,
            "always"@,
            "--revision"@,
            "exactly("@ + commit + ", 1)"@,
        ],
    )
}

/// Whether an output ends with a newline.
pub open spec fn ends_line(o: Seq<char>) -> bool {
    o.len() > 0 && o.last() == '\n'
}

/// Whether `id` is a commit ID: 40 hexadecimal digits.
pub open spec fn is_commit_id(id: Seq<char>) -> bool {
    all_hex(id) && byte_len(id) == 40
}

/// Why a commit ID `id` is refused.
pub open spec fn id_error(id: Seq<char>, e: OutputError) -> bool {
    if byte_len(id) != 40 {
        e matches OutputError::WrongLength(s) && s@ == id
    } else {
        !all_hex(id) && (e matches OutputError::NotHex(s) && s@ == id)
    }
}

/// Why the output `o` of `git rev-parse` is refused.
pub open spec fn rev_parse_error(o: Seq<char>, e: OutputError) -> bool {
    if !ends_line(o) {
        e matches OutputError::MissingNewline(s) && s@ == o
    } else {
        id_error(o.drop_last(), e)
    }
}

/// The line that `jj log` printed: its output without a final newline.
pub open spec fn jj_line(o: Seq<char>) -> Seq<char> {
    if ends_line(o) {
        o.drop_last()
    } else {
        o
    }
}

/// The output `o` of `jj log` gives the commit ID `id` and the description `d`.
pub open spec fn jj_read(o: Seq<char>, id: Seq<char>, d: Seq<char>) -> bool {
    let line = jj_line(o);
    first_index(line, ';') matches Some(k) && id == line.take(k) && d == line.skip(k + 1)
        && is_commit_id(id)
}

/// Why the output `o` of `jj log` is refused.
pub open spec fn jj_error(o: Seq<char>, e: OutputError) -> bool {
    let line = jj_line(o);
    match first_index(line, ';') {
        None => e matches OutputError::MissingSeparator(s) && s@ == line,
        Some(k) => id_error(line.take(k), e),
    }
}

/// What resolving the name `commit` at `root` gave, in terms of what `run` gave for the
/// commands: in Git mode the ID that `git rev-parse` printed is what `git show` is run on.
pub open spec fn resolved<E, F: Fn(&Cmd) -> Result<String, E>>(
    run: F,
    mode: VcsMode,
    root: Seq<char>,
    commit: Seq<char>,
    res: Result<Revision, ResolveError<E>>,
) -> bool {
    match mode {
        VcsMode::Git => match res {
            Ok(rev) => rev matches Revision::GitRevision(g) && exists|o1: String, o2: String|
                #![trigger ran(run, resolve_view(root, commit), Ok::<String, E>(o1)), ran(run, show_view(root, g.commit_id@), Ok::<String, E>(o2))]
                ran(run, resolve_view(root, commit), Ok::<String, E>(o1)) && ends_line(o1@)
                    && g.commit_id@ == o1@.drop_last() && is_commit_id(g.commit_id@)
                    && ran(run, show_view(root, g.commit_id@), Ok::<String, E>(o2))
                    && ends_line(o2@) && g.display@ == o2@.drop_last(),
            Err(ResolveError::Run(e)) => ran(run, resolve_view(root, commit), Err::<String, E>(e))
                || exists|o1: String|
                #![trigger ran(run, resolve_view(root, commit), Ok::<String, E>(o1))]
                ran(run, resolve_view(root, commit), Ok::<String, E>(o1)) && ends_line(o1@)
                    && is_commit_id(o1@.drop_last()) && ran(
                    run,
                    show_view(root, o1@.drop_last()),
                    Err::<String, E>(e),
                ),
            Err(ResolveError::Output(e)) => exists|o1: String|
                #![trigger ran(run, resolve_view(root, commit), Ok::<String, E>(o1))]
                ran(run, resolve_view(root, commit), Ok::<String, E>(o1)) && (rev_parse_error(
                    o1@,
                    e,
                ) || (ends_line(o1@) && is_commit_id(o1@.drop_last()) && exists|o2: String|
                    #![trigger ran(run, show_view(root, o1@.drop_last()), Ok::<String, E>(o2))]
                    ran(run, show_view(root, o1@.drop_last()), Ok::<String, E>(o2))
                        && !ends_line(o2@) && (e matches OutputError::MissingNewline(s) && s@
                        == o2@))),
        },
        VcsMode::Jujutsu => match res {
            Ok(rev) => rev matches Revision::GitRevision(g) && exists|o: String|
                #![trigger ran(run, jj_resolve_view(root, commit), Ok::<String, E>(o))]
                ran(run, jj_resolve_view(root, commit), Ok::<String, E>(o)) && jj_read(
                    o@,
                    g.commit_id@,
                    g.display@,
                ),
            Err(ResolveError::Run(e)) => ran(run, jj_resolve_view(root, commit), Err::<String, E>(e)),
            Err(ResolveError::Output(e)) => exists|o: String|
                #![trigger ran(run, jj_resolve_view(root, commit), Ok::<String, E>(o))]
                ran(run, jj_resolve_view(root, commit), Ok::<String, E>(o)) && jj_error(o@, e),
        },
    }
}

/// A repository: its root directory, and whether its working tree is clean once that has
/// been asked.
#[derive(Debug)]
pub struct Repository {
    root: String,
    worktree_is_clean: Option<bool>,
}

impl Repository {
    /// The absolute, canonicalized path to the repository root.
    pub closed spec fn spec_root(&self) -> Seq<char> {
        self.root@
    }

    /// What is known of the working tree.
    pub closed spec fn cached_clean(&self) -> Option<bool> {
        self.worktree_is_clean
    }

    /// A repository rooted at `root`, of whose working tree nothing is known yet.
    pub fn new(root: String) -> (res: Self)
        ensures
            res.spec_root() == root@,
            res.cached_clean() is None,
    {
        Repository { root, worktree_is_clean: None }
    }

    /// The repository root.
    pub fn root(&self) -> (res: &str)
        ensures
            res@ == self.spec_root(),
    {
        self.root.as_str()
    }

    /// Whether the working tree is clean: the remembered answer, or else what `check` says
    /// about the root, which is then remembered. `check` is called only where no answer is
    /// remembered: only then must it accept being called.
    pub fn worktree_is_clean<E, F: FnOnce(&str) -> Result<bool, E>>(&mut self, check: F) -> (res:
        Result<bool, E>)
        requires
            old(self).cached_clean() is None ==> forall|root: &str| check.requires((root,)),
        ensures
            final(self).spec_root() == old(self).spec_root(),
            old(self).cached_clean() matches Some(b) ==> res matches Ok(c) && c == b
                && final(self).cached_clean() == old(self).cached_clean(),
            old(self).cached_clean() is None ==> exists|root: &str|
                root@ == old(self).spec_root() && check.ensures((root,), res),
            old(self).cached_clean() is None ==> match res {
                Ok(b) => final(self).cached_clean() == Some(b),
                Err(_) => final(self).cached_clean() is None,
            },
    {
        match self.worktree_is_clean {
            Some(cached) => Ok(cached),
            None => {
                let res = check(self.root.as_str());
                match res {
                    Ok(is_clean) => {
                        self.worktree_is_clean = Some(is_clean);
                        Ok(is_clean)
                    },
                    Err(e) => Err(e),
                }
            },
        }
    }

    /// The revision that `commit` names, or the working tree where it is `None`. In Git mode,
    /// `run` runs `git rev-parse` on the name at the root, and then `git show` on the commit ID
    /// that it printed, at the same root; in Jujutsu mode it runs one `jj log` that prints
    /// both. The first failure of `run`, or the first output that cannot be read, ends it.
    pub fn resolve_commit<E, F: Fn(&Cmd) -> Result<String, E>>(
        &self,
        mode: VcsMode,
        commit: Option<&str>,
        run: F,
    ) -> (res: Result<Revision, ResolveError<E>>)
        requires
            forall|c: &Cmd| run.requires((c,)),
        ensures
            commit is None ==> res matches Ok(Revision::GitWorktree),
            commit matches Some(c) ==> resolved(run, mode, self.spec_root(), c@, res),
    {
        let name = match commit {
            None => {
                return Ok(Revision::GitWorktree);
            },
            Some(name) => name,
        };
        let root = self.root.as_str();
        match mode {
            VcsMode::Git => {
                let cmd = resolve_commit_cmd(name, root);
                let r1 = run(&cmd);
                assert(ran(run, resolve_view(root@, name@), r1));
                let output = match r1 {
                    Ok(o) => o,
                    Err(e) => {
                        return Err(ResolveError::Run(e));
                    },
                };
                let ghost o1 = output@;
                let commit_id = match resolve_commit(output) {
                    Ok(id) => id,
                    Err(e) => {
                        return Err(ResolveError::Output(e));
                    },
                };
                let cmd = show_commit_cmd(commit_id.as_str(), root);
                let r2 = run(&cmd);
                assert(ran(run, show_view(root@, commit_id@), r2));
                let output = match r2 {
                    Ok(o) => o,
                    Err(e) => {
                        return Err(ResolveError::Run(e));
                    },
                };
                let ghost o2 = output@;
                let display = match show_commit(output) {
                    Ok(d) => d,
                    Err(e) => {
                        return Err(ResolveError::Output(e));
                    },
                };
                Ok(Revision::GitRevision(GitRevision { commit_id, display }))
            },
            VcsMode::Jujutsu => {
                let cmd = resolve_and_show_commit_cmd(name, root);
                let r = run(&cmd);
                assert(ran(run, jj_resolve_view(root@, name@), r));
                let output = match r {
                    Ok(o) => o,
                    Err(e) => {
                        return Err(ResolveError::Run(e));
                    },
                };
                match resolve_and_show_commit(output) {
                    Ok((commit_id, display)) => Ok(
                        Revision::GitRevision(GitRevision { commit_id, display }),
                    ),
                    Err(e) => Err(ResolveError::Output(e)),
                }
            },
        }
    }
}

/// The arguments that make `git` work on the repository at `root`.
pub open spec fn git_base_args(root: Seq<char>) -> Seq<Seq<char>> {
    seq!["-C"@, root, "--git-dir"@, ".git"@]
}

/// `git`, working on the repository at `root`.
fn git_in(root: &str) -> (res: Cmd)
    ensures
        res@ == cmd_view(Program::Git, git_base_args(root@)),
{
    let mut cmd = Cmd::git();
    cmd.arg("-C");
    cmd.arg(root);
    cmd.arg("--git-dir");
    cmd.arg(".git");
    assert(cmd@.args =~= git_base_args(root@));
    cmd
}

/// The command whose exit code tells whether the working tree differs from `HEAD`; see
/// [`working_tree_is_clean`].
pub fn working_tree_is_clean_cmd(root: &str) -> (res: Cmd)
    ensures
        res@ == cmd_view(Program::Git, git_base_args(root@) + seq!["diff"@, "--quiet"@, "HEAD"@]),
{
    let mut cmd = git_in(root);
    cmd.arg("diff");
    cmd.arg("--quiet");
    cmd.arg("HEAD");
    assert(cmd@.args =~= git_base_args(root@) + seq!["diff"@, "--quiet"@, "HEAD"@]);
    cmd
}

/// The command that prints the commit ID that `commit` names; see [`resolve_commit`].
pub fn resolve_commit_cmd(commit: &str, root: &str) -> (res: Cmd)
    ensures
        res@ == cmd_view(
            Program::Git,
            git_base_args(root@) + seq!["rev-parse"@, "--verify"@, "--end-of-options"@, commit@],
        ),
{
    let mut cmd = git_in(root);
    cmd.arg("rev-parse");
    cmd.arg("--verify");
    cmd.arg("--end-of-options");
    cmd.arg(commit);
    assert(cmd@.args =~= git_base_args(root@) + seq![
        "rev-parse"@,
        "--verify"@,
        "--end-of-options"@,
        commit@,
    ]);
    cmd
}

/// The arguments of `git show` that describe a commit on one line, in colour.
pub open spec fn show_commit_args(commit_id: Seq<char>) -> Seq<Seq<char>> {
    seq![
        "show"@,
        "--color=always"@,
        "--pretty=oneline"@,
        "--abbrev-commit"@,
        "--decorate=short"@,
        "--no-patch"@,
        "--end-of-options"@,
        commit_id,
    ]
}

/// The command that describes a commit on one line; see [`show_commit`].
pub fn show_commit_cmd(commit_id: &str, root: &str) -> (res: Cmd)
    ensures
        res@ == cmd_view(Program::Git, git_base_args(root@) + show_commit_args(commit_id@)),
{
    let mut cmd = git_in(root);
    cmd.arg("show");
    cmd.arg("--color=always");
    cmd.arg("--pretty=oneline");
    cmd.arg("--abbrev-commit");
    cmd.arg("--decorate=short");
    cmd.arg("--no-patch");
    cmd.arg("--end-of-options");
    cmd.arg(commit_id);
    assert(cmd@.args =~= git_base_args(root@) + show_commit_args(commit_id@));
    cmd
}

/// The command that imports the refs of the Git repository underlying the Jujutsu workspace at
/// `root` (the one command that may touch its working copy).
pub fn git_import(root: &str) -> (res: Cmd)
    ensures
        res@ == cmd_view(Program::Jj, seq!["--repository"@, root@, "git"@, "import"@]),
{
    let mut cmd = Cmd::jj();
    cmd.arg("--repository");
    cmd.arg(root);
    cmd.arg("git");
    cmd.arg("import");
    assert(cmd@.args =~= seq!["--repository"@, root@, "git"@, "import"@]);
    cmd
}

/// The arguments that make `jj log` read the workspace at `root` without touching its working
/// copy and print without a graph.
pub open spec fn jj_log_args(root: Seq<char>) -> Seq<Seq<char>> {
    seq!["--repository"@, root, "--ignore-working-copy"@, "log"@, "--no-graph"@]
}

/// `jj log` on the workspace at `root`.
fn jj_log(root: &str) -> (res: Cmd)
    ensures
        res@ == cmd_view(Program::Jj, jj_log_args(root@)),
{
    let mut cmd = Cmd::jj();
    cmd.arg("--repository");
    cmd.arg(root);
    cmd.arg("--ignore-working-copy");
    cmd.arg("log");
    cmd.arg("--no-graph");
    assert(cmd@.args =~= jj_log_args(root@));
    cmd
}

/// The command that prints, as JSON, whether the working-copy commit is empty; see
/// [`working_copy_commit_is_empty`].
pub fn working_copy_commit_is_empty_cmd(root: &str) -> (res: Cmd)
    ensures
        res@ == cmd_view(
            Program::Jj,
            jj_log_args(root@) + seq![
                "--template"@,
                "if(empty, 'true', 'false')"@,
                "--revision"@,
                "exactly(@, 1)"@,
            ],
        ),
{
    let mut cmd = jj_log(root);
    cmd.arg("--template");
    cmd.arg("if(empty, 'true', 'false')");
    cmd.arg("--revision");
    cmd.arg("exactly(@, 1)");
    assert(cmd@.args =~= jj_log_args(root@) + seq![
        "--template"@,
        "if(empty, 'true', 'false')"@,
        "--revision"@,
        "exactly(@, 1)"@,
    ]);
    cmd
}

/// Whether the working-copy commit is empty, read out of the output of
/// [`working_copy_commit_is_empty_cmd`].
pub fn working_copy_commit_is_empty(output: &[u8]) -> (res: Result<bool, JsonError>)
    ensures
        match res {
            Ok(b) => json_bool(output@) == Some(b),
            Err(_) => json_bool(output@) is None,
        },
{
    decode_bool(output)
}

/// The command that prints the commit ID and the description of the one commit that
/// `commit` names, separated by `;`; see [`resolve_and_show_commit`].
pub fn resolve_and_show_commit_cmd(commit: &str, root: &str) -> (res: Cmd)
    ensures
        res@ == cmd_view(
            Program::Jj,
            jj_log_args(root@) + seq![
                "--template"@,
                "stringify(commit_id) ++ ';' ++ builtin_log_oneline"@,
                "--color"@,
                "always"@,
                "--revision"@,
                "exactly("@ + commit@ + ", 1)"@,
            ],
        ),
{
    let mut cmd = jj_log(root);
    cmd.arg("--template");
    cmd.arg("stringify(commit_id) ++ ';' ++ builtin_log_oneline");
    cmd.arg("--color");
    cmd.arg("always");
    cmd.arg("--revision");
    let mut revset = String::new();
    push_str(&mut revset, "exactly(");
    push_str(&mut revset, commit);
    push_str(&mut revset, ", 1)");
    cmd.arg(revset.as_str());
    assert(cmd@.args =~= jj_log_args(root@) + seq![
        "--template"@,
        "stringify(commit_id) ++ ';' ++ builtin_log_oneline"@,
        "--color"@,
        "always"@,
        "--revision"@,
        "exactly("@ + commit@ + ", 1)"@,
    ]);
    cmd
}

} // verus!
