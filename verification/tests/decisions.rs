use ndf::attr_path::{AttrPath, AttrPathArgError, ParseError as AttrParseError};
use ndf::cli::{
    first_parent_rev, revision_target, second_commit, WorktreeInJujutsuMode,
    get_matching_output_attrs,
    default_log_level, default_tool_args, get_attr_paths, get_default_attr_names,
    make_from_and_to, num_eval_threads, prefetch_sources, vcs_mode, vcs_mode_override, ArgError,
    AttrPathsPlan, LogLevel, RevisionPlan,
};
use ndf::diff_spec::DiffTool;
use ndf::glob;
use ndf::glob::{ParseError as GlobParseError, PatternArgError};
use ndf::nix::{get_matching_outputs, MatchOutputError};
use ndf::order::{sort_unique, text_less};
use ndf::source::{FlakePath, Source};
use ndf::vcs::VcsMode;

fn strings(items: &[&str]) -> Vec<String> {
    items.iter().map(|s| String::from(*s)).collect()
}

fn flake_source() -> Source {
    match FlakePath::new(String::from("/repo")) {
        Ok(path) => Source::Flake(path),
        Err(_) => panic!("valid flake path"),
    }
}

#[test]
fn tool_args_default() {
    assert!(default_tool_args(DiffTool::NoTool).is_empty());
    assert_eq!(
        default_tool_args(DiffTool::NixDiff),
        strings(&["--skip-already-compared", "--character-oriented"])
    );
}

#[test]
fn vcs_mode_from_flags() {
    assert_eq!(vcs_mode_override(false, false), None);
    assert_eq!(vcs_mode_override(true, false), Some(VcsMode::Git));
    assert_eq!(vcs_mode_override(false, true), Some(VcsMode::Jujutsu));
}

#[test]
fn vcs_mode_from_override_or_repository() {
    assert_eq!(vcs_mode(Some(VcsMode::Git), true), VcsMode::Git);
    assert_eq!(vcs_mode(Some(VcsMode::Jujutsu), false), VcsMode::Jujutsu);
    assert_eq!(vcs_mode(None, true), VcsMode::Jujutsu);
    assert_eq!(vcs_mode(None, false), VcsMode::Git);
}

#[test]
fn log_level_from_counts() {
    assert_eq!(default_log_level(0, 0), LogLevel::Info);
    assert_eq!(default_log_level(1, 0), LogLevel::Debug);
    assert_eq!(default_log_level(2, 0), LogLevel::Trace);
    assert_eq!(default_log_level(200, 0), LogLevel::Trace);
    assert_eq!(default_log_level(0, 1), LogLevel::Warn);
    assert_eq!(default_log_level(0, 2), LogLevel::Error);
    assert_eq!(default_log_level(0, 255), LogLevel::Error);
    assert_eq!(default_log_level(3, 3), LogLevel::Info);
    assert_eq!(default_log_level(4, 3), LogLevel::Debug);
}

#[test]
fn eval_thread_counts() {
    assert_eq!(num_eval_threads(4, Some(16)), 4);
    assert_eq!(num_eval_threads(0, Some(16)), 16);
    assert_eq!(num_eval_threads(-2, Some(16)), 14);
    assert_eq!(num_eval_threads(-20, Some(16)), 1);
    assert_eq!(num_eval_threads(0, None), 1);
    assert_eq!(num_eval_threads(isize::MIN, Some(usize::MAX)), usize::MAX - isize::MAX as usize - 1);
    assert_eq!(num_eval_threads(isize::MAX, None), isize::MAX as usize);
}

#[test]
fn revisions_to_compare() {
    assert_eq!(
        make_from_and_to(None, None, None, false, VcsMode::Git),
        RevisionPlan::WithFirstParent(String::from("[working tree]"))
    );
    assert_eq!(
        make_from_and_to(None, None, None, true, VcsMode::Jujutsu),
        RevisionPlan::Same(String::from("@"))
    );
    assert_eq!(
        make_from_and_to(Some("main"), None, None, false, VcsMode::Jujutsu),
        RevisionPlan::WithFirstParent(String::from("main"))
    );
    assert_eq!(
        make_from_and_to(None, Some("a"), None, false, VcsMode::Git),
        RevisionPlan::Pair(String::from("a"), String::from("[working tree]"))
    );
    assert_eq!(
        make_from_and_to(None, None, Some("b"), true, VcsMode::Jujutsu),
        RevisionPlan::Pair(String::from("@"), String::from("b"))
    );
}

#[test]
fn attr_paths_from_arguments() {
    let flake = flake_source();
    let file = Source::File(String::from("/repo/default.nix"));
    assert!(matches!(
        get_attr_paths(&vec![], false, &flake, false),
        Ok(AttrPathsPlan::Default)
    ));
    match get_attr_paths(&strings(&["foo.bar", ".baz"]), false, &flake, true) {
        Ok(AttrPathsPlan::Explicit(paths)) => assert_eq!(
            paths,
            vec![
                AttrPath::new(false, strings(&["foo", "bar"]), true),
                AttrPath::new(true, strings(&["baz"]), true),
            ]
        ),
        other => panic!("unexpected {other:?}"),
    }
    match get_attr_paths(&strings(&["ok", ".dot"]), false, &file, false) {
        Err(ArgError::AttrPath(1, AttrPathArgError::LeadingDotWithFile)) => {}
        other => panic!("unexpected {other:?}"),
    }
    match get_attr_paths(&strings(&["a..b", "c."]), false, &flake, false) {
        Err(ArgError::AttrPath(0, AttrPathArgError::Parse(AttrParseError::ConsecutiveDots))) => {}
        other => panic!("unexpected {other:?}"),
    }
    match get_attr_paths(&strings(&["a*", "b**"]), true, &flake, false) {
        Err(ArgError::Pattern(1, PatternArgError::Parse(GlobParseError::ConsecutiveStars))) => {}
        other => panic!("unexpected {other:?}"),
    }
    match get_attr_paths(&strings(&["a*", "[bc]"]), true, &flake, false) {
        Ok(AttrPathsPlan::Glob(patterns)) => assert_eq!(patterns.len(), 2),
        other => panic!("unexpected {other:?}"),
    }
}

#[test]
fn default_names_are_merged_sorted_and_unique() {
    let from = strings(&["b", "a"]);
    assert_eq!(get_default_attr_names(from.clone(), None), from);
    let merged = get_default_attr_names(strings(&["pkg2", "pkg1", "pkg2"]), Some(strings(&["pkg3", "pkg1"])));
    assert_eq!(merged, strings(&["pkg1", "pkg2", "pkg3"]));
    assert_eq!(get_default_attr_names(vec![], Some(vec![])), Vec::<String>::new());
}

#[test]
fn string_order_matches_std() {
    let samples = ["", "a", "b", "ab", "aa", "B", "é", "z", "ä", "\u{10000}", "\u{ffff}"];
    for a in samples {
        for b in samples {
            assert_eq!(text_less(a, b), a < b, "{a:?} < {b:?}");
        }
    }
    let mut expected = strings(&samples);
    expected.sort();
    expected.dedup();
    let mut shuffled = strings(&samples);
    shuffled.reverse();
    shuffled.push(String::from("a"));
    assert_eq!(sort_unique(shuffled), expected);
}

#[test]
fn prefetch_plan() {
    let flake = flake_source();
    let cmds = prefetch_sources(&flake, "/repo", "EXPR", Some("a"), Some("a"));
    assert_eq!(cmds.len(), 1);
    let cmds = prefetch_sources(&flake, "/repo", "EXPR", Some("a"), None);
    assert_eq!(cmds.len(), 2);
    assert_eq!(cmds[1].args.last().map(String::as_str), Some("/repo"));
    let file = Source::File(String::from("/repo/default.nix"));
    let cmds = prefetch_sources(&file, "/repo", "EXPR", None, Some("b"));
    assert_eq!(cmds.len(), 1);
    assert_eq!(cmds[0].args.last().map(String::as_str), Some("b"));
    assert!(prefetch_sources(&file, "/repo", "EXPR", None, None).is_empty());
}

#[test]
fn glob_matches_are_merged() {
    let a = AttrPath::new(false, strings(&["a"]), false);
    let b = AttrPath::new(false, strings(&["b"]), false);
    let dot_a = AttrPath::new(true, strings(&["a"]), false);
    let ab = AttrPath::new(false, strings(&["a", "b"]), false);
    let (paths, unmatched) = get_matching_output_attrs(
        3,
        vec![vec![b.clone(), a.clone()], vec![], vec![]],
        Some(vec![vec![ab.clone()], vec![], vec![dot_a.clone(), a.clone()]]),
    );
    assert_eq!(paths, vec![a.clone(), dot_a, ab, b.clone()]);
    assert_eq!(unmatched, vec![1]);
    let (paths, unmatched) = get_matching_output_attrs(2, vec![vec![a.clone()], vec![]], None);
    assert_eq!(paths, vec![a]);
    assert_eq!(unmatched, vec![1]);
}

#[test]
fn patterns_become_regexes() {
    let pattern = match glob::parse_pattern("f.o*?[^a-z].\"x.y+\"") {
        Ok(pattern) => pattern,
        Err(e) => panic!("{e:?}"),
    };
    let regexes: Vec<String> = pattern.parts.iter().map(|part| part.regex()).collect();
    assert_eq!(regexes, vec!["f", "o.*.[^a-z]", "x\\.y\\+"]);
}

#[test]
fn glob_answers_are_read() {
    let out = b"[[[\"a\",\"b\"]],[]]";
    let result = match get_matching_outputs(out, &[true, false], true) {
        Ok(result) => result,
        Err(e) => panic!("{e:?}"),
    };
    assert_eq!(result, vec![vec![AttrPath::new(true, strings(&["a", "b"]), true)], vec![]]);
    assert!(matches!(
        get_matching_outputs(out, &[true], false),
        Err(MatchOutputError::WrongCount { expected: 1, got: 2 })
    ));
    assert!(matches!(get_matching_outputs(b"[1]", &[true], false), Err(MatchOutputError::Json(_))));
}

#[test]
fn revisions_named_on_the_command_line() {
    assert_eq!(revision_target(VcsMode::Git, "[working tree]"), Ok(None));
    assert_eq!(revision_target(VcsMode::Jujutsu, "[working tree]"), Err(WorktreeInJujutsuMode));
    assert_eq!(revision_target(VcsMode::Jujutsu, "@"), Ok(Some("@")));
    assert_eq!(revision_target(VcsMode::Git, "main"), Ok(Some("main")));
    assert_eq!(first_parent_rev(VcsMode::Git, None), "HEAD");
    assert_eq!(first_parent_rev(VcsMode::Git, Some("abc")), "abc^");
    assert_eq!(first_parent_rev(VcsMode::Jujutsu, Some("abc")), "abc-");
    assert_eq!(second_commit(Some("a"), Some("a")), None);
    assert_eq!(second_commit(None, None), None);
    assert_eq!(second_commit(Some("a"), None), Some(None));
    assert_eq!(second_commit(None, Some("b")), Some(Some("b")));
}

#[test]
fn default_names_become_one_part_paths() {
    let paths = ndf::nix::paths_of_names(strings(&["hello", "x.y"]), true);
    assert_eq!(
        paths,
        vec![
            AttrPath::new(false, strings(&["hello"]), true),
            AttrPath::new(false, strings(&["x.y"]), true),
        ]
    );
}
