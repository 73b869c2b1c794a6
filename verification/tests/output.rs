use ndf::attr_path::AttrPath;
use ndf::diff_spec::{DiffSpec, DiffTool};
use ndf::display::{display_command_arg, display_command_args};
use ndf::json::{decode_bool, decode_string, decode_string_list, encode_string_list};
use ndf::nix::{get_current_system, get_default_file_outputs, get_default_flake_outputs, get_drv_path, GetDrvPathResult};
use ndf::source::{FlakePath, Source};
use ndf::styles::{ATTR_PATH as A, EQUAL, EVAL_ERROR, EVAL_SUCCESS, HEADER, NOT_EQUAL, SOURCE, UNKNOWN, WORKTREE};
use ndf::summary::{get_padding, EvalResult, EvalResultCmp, Summary, SummaryItem};
use ndf::vcs::{
    resolve_and_show_commit, resolve_commit, show_commit, strip_trailing_newline,
    working_copy_commit_is_empty, working_tree_is_clean, GitRevision, OutputError, Repository,
    ResolveError, Revision, VcsMode,
};
use ndf::command::Cmd;

fn s(text: &str) -> String {
    String::from(text)
}

fn styled(prefix: String, text: &str, suffix: String) -> String {
    format!("{prefix}{text}{suffix}")
}

#[test]
fn command_arguments_are_quoted_where_needed() {
    assert_eq!(display_command_arg("abc"), "abc");
    assert_eq!(display_command_arg("--flag=a/b"), "--flag=a/b");
    assert_eq!(display_command_arg(""), "\"\"");
    assert_eq!(display_command_arg("a b"), "\"a b\"");
    assert_eq!(display_command_arg("it's"), "\"it's\"");
    assert_eq!(display_command_arg("tab\there"), "\"tab\\there\"");
    assert_eq!(display_command_args(&["nix-diff", "a b", "c"]), "nix-diff \"a b\" c");
    assert_eq!(display_command_args(&[]), "");
}

#[test]
fn padding_brings_widths_together() {
    assert_eq!(get_padding(3, 5), (2, 0));
    assert_eq!(get_padding(5, 3), (0, 2));
    assert_eq!(get_padding(4, 4), (0, 0));
    assert_eq!(EvalResultCmp::NotEqual.display_width(), 2);
    assert_eq!(EvalResultCmp::Unknown.symbol(), "??");
}

#[test]
fn results_compare() {
    let a = EvalResult::DrvPath(s("/nix/store/a.drv"));
    let b = EvalResult::DrvPath(s("/nix/store/b.drv"));
    assert_eq!(a.compare(&a), EvalResultCmp::Equal);
    assert_eq!(a.compare(&b), EvalResultCmp::NotEqual);
    assert_eq!(a.compare(&EvalResult::Error), EvalResultCmp::Unknown);
    assert_eq!(EvalResult::Error.compare(&EvalResult::Error), EvalResultCmp::Unknown);
    assert_eq!(b.compare(&a), a.compare(&b));
}

#[test]
fn summary_display_and_exit_code() {
    let item = SummaryItem {
        base: None,
        attr_path: AttrPath::new(false, vec![s("hello")], false),
        result_old: EvalResult::DrvPath(s("/a")),
        result_new: EvalResult::DrvPath(s("/b")),
    };
    let summary = Summary { items: vec![item] };
    let expected = format!(
        "{}\n  {} {}\n  {}    {}\n\n",
        styled(HEADER.prefix(), "Summary:", HEADER.suffix()),
        styled(A.prefix(), "hello", A.suffix()),
        styled(EVAL_SUCCESS.prefix(), "/a", EVAL_SUCCESS.suffix()),
        styled(NOT_EQUAL.prefix(), "!=", NOT_EQUAL.suffix()),
        styled(EVAL_SUCCESS.prefix(), "/b", EVAL_SUCCESS.suffix()),
    );
    assert_eq!(summary.display(), expected);
    assert_eq!(summary.exit_code(), 1);
    assert_eq!(Summary { items: vec![] }.exit_code(), 0);
    assert_eq!(EvalResult::Error.display(), styled(EVAL_ERROR.prefix(), "error", EVAL_ERROR.suffix()));
    assert_eq!(EvalResultCmp::Equal.display(), styled(EQUAL.prefix(), "==", EQUAL.suffix()));
    assert_eq!(EvalResultCmp::Unknown.display(), styled(UNKNOWN.prefix(), "??", UNKNOWN.suffix()));
}

#[test]
fn summary_item_with_base() {
    let item = SummaryItem {
        base: Some(AttrPath::new(false, vec![s("b")], false)),
        attr_path: AttrPath::new(false, vec![s("long")], false),
        result_old: EvalResult::DrvPath(s("/x")),
        result_new: EvalResult::DrvPath(s("/x")),
    };
    let expected = format!(
        "     {}    {}\n  {} {} {}\n",
        styled(A.prefix(), "b", A.suffix()),
        styled(EVAL_SUCCESS.prefix(), "/x", EVAL_SUCCESS.suffix()),
        styled(EQUAL.prefix(), "==", EQUAL.suffix()),
        styled(A.prefix(), "long", A.suffix()),
        styled(EVAL_SUCCESS.prefix(), "/x", EVAL_SUCCESS.suffix()),
    );
    assert_eq!(item.display(), expected);
}

#[test]
fn git_output_is_checked() {
    let id = "0123456789abcdef0123456789abcdef01234567";
    assert_eq!(resolve_commit(format!("{id}\n")), Ok(s(id)));
    assert_eq!(resolve_commit(s(id)), Err(OutputError::MissingNewline(s(id))));
    assert_eq!(resolve_commit(s("abc\n")), Err(OutputError::WrongLength(s("abc"))));
    let not_hex = "0123456789abcdef0123456789abcdef0123456g";
    assert_eq!(resolve_commit(format!("{not_hex}\n")), Err(OutputError::NotHex(s(not_hex))));
    assert_eq!(show_commit(s("abc desc\n")), Ok(s("abc desc")));
    let mut out = s("x\n\n");
    assert_eq!(strip_trailing_newline(&mut out), Ok(()));
    assert_eq!(out, "x\n");
    assert_eq!(working_tree_is_clean(Some(0)), Ok(true));
    assert_eq!(working_tree_is_clean(Some(1)), Ok(false));
    assert_eq!(working_tree_is_clean(Some(128)), Err(ndf::vcs::UnexpectedExitCode(Some(128))));
    assert_eq!(working_tree_is_clean(None), Err(ndf::vcs::UnexpectedExitCode(None)));
    assert_eq!(
        resolve_and_show_commit(format!("{id};abc desc;more\n")),
        Ok((s(id), s("abc desc;more")))
    );
    assert_eq!(
        resolve_and_show_commit(s("no separator\n")),
        Err(OutputError::MissingSeparator(s("no separator")))
    );
}

#[test]
fn json_output_is_decoded() {
    assert_eq!(decode_string_list(b"[\"a\",\"b\"]").ok(), Some(vec![s("a"), s("b")]));
    assert!(decode_string_list(b"{}").is_err());
    assert_eq!(decode_string(b"\"x86_64-linux\"").ok(), Some(s("x86_64-linux")));
    assert_eq!(decode_bool(b"true").ok(), Some(true));
    assert!(decode_bool(b"1").is_err());
    assert_eq!(encode_string_list(&["a", "b\"c"]).ok(), Some(s("[\"a\",\"b\\\"c\"]")));
    assert_eq!(get_current_system(b"\"aarch64-darwin\"\n").ok(), Some(s("aarch64-darwin")));
    assert_eq!(working_copy_commit_is_empty(b"false").ok(), Some(false));
    let paths = match get_default_flake_outputs(b"[\"a\",\"b\"]", true) {
        Ok(paths) => paths,
        Err(e) => panic!("{e:?}"),
    };
    assert_eq!(paths, vec![AttrPath::new(false, vec![s("a")], true), AttrPath::new(false, vec![s("b")], true)]);
    assert!(get_default_file_outputs(b"[1]", false).is_err());
}

#[test]
fn drv_path_answers() {
    assert_eq!(get_drv_path(GetDrvPathResult::DrvPath(s("/d"))), Ok(Some(s("/d"))));
    assert_eq!(get_drv_path(GetDrvPathResult::Missing), Ok(None));
    assert_eq!(
        get_drv_path(GetDrvPathResult::UnexpectedType(s("set"))),
        Err(s("expected a derivation, got set"))
    );
}

#[test]
fn repository_caches_cleanliness() {
    let mut repo = Repository::new(s("/repo"));
    assert_eq!(repo.root(), "/repo");
    let first: Result<bool, ()> = repo.worktree_is_clean(|root| {
        assert_eq!(root, "/repo");
        Ok(true)
    });
    assert_eq!(first, Ok(true));
    let second: Result<bool, ()> = repo.worktree_is_clean(|_| panic!("asked twice"));
    assert_eq!(second, Ok(true));
    let rev: Result<Revision, ResolveError<()>> =
        repo.resolve_commit(VcsMode::Git, None, |_: &Cmd| panic!("no command"));
    assert!(matches!(rev, Ok(Revision::GitWorktree)));
}

#[test]
fn commits_are_resolved_then_shown() {
    let repo = Repository::new(s("/repo"));
    let id = "0123456789abcdef0123456789abcdef01234567";
    let asked = std::cell::RefCell::new(Vec::<Vec<String>>::new());
    let run = |cmd: &Cmd| -> Result<String, ()> {
        asked.borrow_mut().push(cmd.args.clone());
        match cmd.args[4].as_str() {
            "rev-parse" => Ok(format!("{id}\n")),
            "show" => Ok(format!("{} desc\n", &cmd.args[11][..7])),
            _ => Err(()),
        }
    };
    let rev = repo.resolve_commit(VcsMode::Git, Some("main"), run);
    assert_eq!(asked.borrow().len(), 2);
    assert_eq!(asked.borrow()[0].last().map(String::as_str), Some("main"));
    // The ID, not the name, is shown.
    assert_eq!(asked.borrow()[1].last().map(String::as_str), Some(id));
    match rev {
        Ok(Revision::GitRevision(GitRevision { commit_id, display })) => {
            assert_eq!(commit_id, id);
            assert_eq!(display, "0123456 desc");
        }
        other => panic!("unexpected {other:?}"),
    }
    let bad = |_: &Cmd| -> Result<String, ()> { Ok(s("abc\n")) };
    match repo.resolve_commit(VcsMode::Git, Some("main"), bad) {
        Err(ResolveError::Output(OutputError::WrongLength(o))) => assert_eq!(o, "abc"),
        other => panic!("unexpected {other:?}"),
    }
    let jj = |_: &Cmd| -> Result<String, ()> { Ok(format!("{id};(desc)\n")) };
    match repo.resolve_commit(VcsMode::Jujutsu, Some("@"), jj) {
        Ok(Revision::GitRevision(GitRevision { commit_id, display })) => {
            assert_eq!(commit_id, id);
            assert_eq!(display, "(desc)");
        }
        other => panic!("unexpected {other:?}"),
    }
    let failing = |_: &Cmd| -> Result<String, String> { Err(s("git failed")) };
    match repo.resolve_commit(VcsMode::Git, Some("main"), failing) {
        Err(ResolveError::Run(e)) => assert_eq!(e, "git failed"),
        other => panic!("unexpected {other:?}"),
    }
}

#[test]
fn diff_spec_display() {
    let flake = match FlakePath::new(s("/repo")) {
        Ok(flake) => flake,
        Err(_) => panic!("valid flake path"),
    };
    let spec = DiffSpec {
        source: Source::Flake(flake),
        repo: Repository::new(s("/repo")),
        from: Revision::GitRevision(GitRevision { commit_id: s("1"), display: s("1 first") }),
        to: Revision::GitWorktree,
        impure: false,
        tool: DiffTool::NixDiff,
        tool_extra_args: vec![s("--a b")],
        base: None,
        attr_paths: vec![AttrPath::new(false, vec![s("hello")], false)],
    };
    let header = |name: &str, pad: usize| {
        format!("{}{}", styled(HEADER.prefix(), &format!("{name}:"), HEADER.suffix()), " ".repeat(pad))
    };
    let expected = format!(
        "{} {}\n{} /repo\n{} 1 first\n{} {}\n{} nix-diff \"--a b\"\n{}\n  {}\n",
        header("Flake", 0),
        styled(SOURCE.prefix(), "/repo", SOURCE.suffix()),
        header("Repo", 1),
        header("From", 1),
        header("To", 3),
        styled(WORKTREE.prefix(), "[worktree]", WORKTREE.suffix()),
        header("Tool", 1),
        header("Attribute paths", 0),
        styled(A.prefix(), "hello", A.suffix()),
    );
    assert_eq!(spec.display(), expected);
}

#[test]
fn error_messages() {
    let id = s("abc");
    assert_eq!(
        OutputError::WrongLength(id.clone()).message(ndf::vcs::VcsMode::Git),
        "expected 'git rev-parse' command output to be 40 characters long, got \"abc\""
    );
    assert_eq!(
        OutputError::NotHex(id.clone()).message(ndf::vcs::VcsMode::Jujutsu),
        "expected commit ID to contain only hexadecimal digits, got \"abc\""
    );
    assert_eq!(
        OutputError::MissingSeparator(s("a\"b")).message(ndf::vcs::VcsMode::Jujutsu),
        "could not parse the output of `jj log` (missing ';'): \"a\\\"b\""
    );
    assert_eq!(
        OutputError::MissingNewline(id).message(ndf::vcs::VcsMode::Git),
        "expected 'git' command output to end with a newline, got \"abc\""
    );
    assert_eq!(
        ndf::source::SourceError::UnsupportedPrefix("http://").message(),
        "paths starting with \"http://\" are not supported"
    );
    assert_eq!(
        ndf::source::SourceError::InvalidChar('\u{e9}').message(),
        "flake path contains an invalid character: \\u{e9}"
    );
    assert_eq!(
        ndf::source::SourceError::InvalidChar('#').message(),
        "flake path contains an invalid character: #"
    );
    assert_eq!(
        ndf::glob::PatternArgError::LeadingDotWithFile.message(),
        "attribute paths with leading dots cannot be used together with '--file'"
    );
}

#[test]
fn invalid_characters_are_escaped_as_std_does() {
    assert_eq!(
        ndf::source::SourceError::InvalidChar('\t').message(),
        "flake path contains an invalid character: \\t"
    );
    assert_eq!(
        ndf::source::SourceError::InvalidChar('\u{1f600}').message(),
        "flake path contains an invalid character: \\u{1f600}"
    );
}

#[test]
fn json_strings_are_escaped_as_serde_json_does() {
    let text = match encode_string_list(&["a\"b\\c", "\n\t\u{1}\u{8}\u{c}\r", "/é"]) {
        Ok(text) => text,
        Err(e) => panic!("{}", e.message),
    };
    assert_eq!(text, r#"["a\"b\\c","\n\t\u0001\b\f\r","/é"]"#);
}
