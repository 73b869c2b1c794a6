use ndf::attr_path::AttrPath;
use ndf::command::{Cmd, Program};
use ndf::nix::{
    current_system_cmd, default_flake_outputs_cmd, drv_path_file_cmd, drv_path_flake_cmd,
    file_eval_cmd, nix_eval_json, nix_instantiate_eval_json, prefetch_flake_cmd,
    prefetch_repo_cmd, run_nix_diff,
};
use ndf::source::FlakePath;
use ndf::vcs::{
    git_import, resolve_and_show_commit_cmd, resolve_commit_cmd, show_commit_cmd,
    working_copy_commit_is_empty_cmd, working_tree_is_clean_cmd,
};

fn args(cmd: &Cmd) -> Vec<&str> {
    cmd.args.iter().map(String::as_str).collect()
}

fn flake() -> FlakePath {
    match FlakePath::new(String::from("/home/user/project")) {
        Ok(path) => path,
        Err(_) => panic!("valid flake path"),
    }
}

#[test]
fn program_names() {
    assert_eq!(Program::Nix.name(), "nix");
    assert_eq!(Program::NixInstantiate.name(), "nix-instantiate");
    assert_eq!(Program::NixDiff.name(), "nix-diff");
    assert_eq!(Program::Git.name(), "git");
    assert_eq!(Program::Jj.name(), "jj");
}

#[test]
fn builder_appends_in_order() {
    let mut cmd = Cmd::git();
    cmd.arg("a");
    cmd.args(&["b", "c"]);
    cmd.arg("");
    assert_eq!(cmd.program, Program::Git);
    assert_eq!(args(&cmd), vec!["a", "b", "c", ""]);
}

#[test]
fn eval_json_commands() {
    let cmd = nix_instantiate_eval_json();
    assert_eq!(cmd.program, Program::NixInstantiate);
    assert_eq!(args(&cmd), vec!["--eval", "--strict", "--json"]);
    let cmd = nix_eval_json(false);
    assert_eq!(cmd.program, Program::Nix);
    assert_eq!(
        args(&cmd),
        vec!["--extra-experimental-features", "nix-command flakes", "eval", "--json"]
    );
    let cmd = nix_eval_json(true);
    assert_eq!(args(&cmd).last(), Some(&"--impure"));
}

#[test]
fn argstr_arguments() {
    let mut cmd = nix_instantiate_eval_json();
    cmd.nix_argstr("name", "value");
    cmd.nix_argstr_nullable("rev", Some("abc"));
    cmd.nix_argstr_nullable("other", None);
    assert_eq!(
        args(&cmd)[3..],
        ["--argstr", "name", "value", "--argstr", "rev", "abc", "--arg", "other", "null"]
    );
}

#[test]
fn current_system_command() {
    let cmd = current_system_cmd();
    assert_eq!(
        args(&cmd),
        vec!["--eval", "--strict", "--json", "--expr", "builtins.currentSystem"]
    );
}

#[test]
fn default_flake_outputs_command() {
    let cmd = default_flake_outputs_cmd(&flake(), Some("0123"), false, false, "x86_64-linux");
    assert_eq!(
        args(&cmd)[4..],
        [
            "--apply",
            "flake: builtins.attrNames (flake.packages.\"x86_64-linux\" or { })",
            "--",
            "/home/user/project?rev=0123#.",
        ]
    );
    let cmd = default_flake_outputs_cmd(&flake(), None, true, true, "x86_64-linux");
    assert_eq!(
        args(&cmd)[4..],
        [
            "--impure",
            "--apply",
            "flake: builtins.attrNames (flake.nixosConfigurations or { })",
            "--",
            "/home/user/project#.",
        ]
    );
}

#[test]
fn file_eval_command() {
    let cmd = file_eval_cmd("EXPR", "/repo", "/repo/sub/default.nix", None);
    assert_eq!(
        args(&cmd)[3..],
        [
            "--expr",
            "EXPR",
            "--argstr",
            "repoRoot",
            "/repo",
            "--argstr",
            "pathInRepo",
            "sub/default.nix",
            "--arg",
            "rev",
            "null",
        ]
    );
}

#[test]
fn prefetch_commands() {
    let cmd = prefetch_flake_cmd(&flake(), Some("abc"));
    assert_eq!(
        args(&cmd),
        vec![
            "--extra-experimental-features",
            "nix-command flakes",
            "flake",
            "archive",
            "--",
            "/home/user/project?rev=abc",
        ]
    );
    let cmd = prefetch_repo_cmd("EXPR", "/repo", "abc");
    assert_eq!(
        args(&cmd)[3..],
        ["--expr", "EXPR", "--argstr", "repoRoot", "/repo", "--argstr", "rev", "abc"]
    );
}

#[test]
fn drv_path_commands() {
    let path = AttrPath::new(false, vec![String::from("hello")], false);
    let cmd = drv_path_flake_cmd("BASE", &flake(), None, &path, false, "x86_64-linux");
    assert_eq!(
        args(&cmd)[4..],
        [
            "--no-eval-cache",
            "--apply",
            "(BASE) { attrPath = [\"hello\"]; system = \"x86_64-linux\"; }",
            "--",
            "/home/user/project#.",
        ]
    );
    let cmd = match drv_path_file_cmd("EXPR", "/repo", "/repo/default.nix", Some("abc"), &path) {
        Ok(cmd) => cmd,
        Err(_) => panic!("a list of strings can be written as JSON"),
    };
    assert_eq!(
        args(&cmd)[3..],
        [
            "--read-write-mode",
            "--expr",
            "EXPR",
            "--argstr",
            "repoRoot",
            "/repo",
            "--argstr",
            "pathInRepo",
            "default.nix",
            "--argstr",
            "rev",
            "abc",
            "--argstr",
            "attrPathJson",
            "[\"hello\"]",
        ]
    );
}

#[test]
fn nix_diff_command() {
    let extra = vec![String::from("--skip-already-compared"), String::from("--character-oriented")];
    let cmd = run_nix_diff(&extra, "/nix/store/a.drv", "/nix/store/b.drv");
    assert_eq!(cmd.program, Program::NixDiff);
    assert_eq!(
        args(&cmd),
        vec![
            "--skip-already-compared",
            "--character-oriented",
            "/nix/store/a.drv",
            "/nix/store/b.drv",
        ]
    );
    let cmd = run_nix_diff(&vec![], "/a", "/b");
    assert_eq!(args(&cmd), vec!["/a", "/b"]);
}

#[test]
fn git_commands() {
    let cmd = working_tree_is_clean_cmd("/repo");
    assert_eq!(cmd.program, Program::Git);
    assert_eq!(
        args(&cmd),
        vec!["-C", "/repo", "--git-dir", ".git", "diff", "--quiet", "HEAD"]
    );
    let cmd = resolve_commit_cmd("main", "/repo");
    assert_eq!(args(&cmd)[4..], ["rev-parse", "--verify", "--end-of-options", "main"]);
    let cmd = show_commit_cmd("abc", "/repo");
    assert_eq!(
        args(&cmd)[4..],
        [
            "show",
            "--color=always",
            "--pretty=oneline",
            "--abbrev-commit",
            "--decorate=short",
            "--no-patch",
            "--end-of-options",
            "abc",
        ]
    );
}

#[test]
fn jj_commands() {
    let cmd = git_import("/ws");
    assert_eq!(cmd.program, Program::Jj);
    assert_eq!(args(&cmd), vec!["--repository", "/ws", "git", "import"]);
    let cmd = working_copy_commit_is_empty_cmd("/ws");
    assert_eq!(
        args(&cmd),
        vec![
            "--repository",
            "/ws",
            "--ignore-working-copy",
            "log",
            "--no-graph",
            "--template",
            "if(empty, 'true', 'false')",
            "--revision",
            "exactly(@, 1)",
        ]
    );
    let cmd = resolve_and_show_commit_cmd("main", "/ws");
    assert_eq!(
        args(&cmd)[5..],
        [
            "--template",
            "stringify(commit_id) ++ ';' ++ builtin_log_oneline",
            "--color",
            "always",
            "--revision",
            "exactly(main, 1)",
        ]
    );
}

#[test]
fn paths_in_repository() {
    assert!(ndf::nix::path_has_prefix("/repo", "/repo/a.nix"));
    assert!(ndf::nix::path_has_prefix("/repo", "/repo"));
    assert!(ndf::nix::path_has_prefix("/", "/a.nix"));
    assert!(!ndf::nix::path_has_prefix("/repo", "/repository/a.nix"));
    assert!(!ndf::nix::path_has_prefix("/repo/a", "/repo"));
    assert_eq!(ndf::nix::make_path_in_repo("/repo", "/repo/sub/a.nix"), "sub/a.nix");
    assert_eq!(ndf::nix::make_path_in_repo("/", "/a.nix"), "a.nix");
    assert_eq!(ndf::nix::make_path_in_repo("/a", "/a//b"), "b");
    assert_eq!(ndf::nix::make_path_in_repo("/a/", "/a/b"), "b");
    assert_eq!(ndf::nix::make_path_in_repo("/a", "/a/"), "");
    assert_eq!(ndf::nix::make_path_in_repo("/a", "/a"), "");
    let root = "/repo";
    let path = "/repo/sub/a.nix";
    assert_eq!(format!("{root}/{}", ndf::nix::make_path_in_repo(root, path)), path);
}

#[test]
fn path_in_repo_joins_back_by_components() {
    for (root, file) in [("/repo", "/repo/sub/a.nix"), ("/", "/a.nix"), ("/a", "/a//b"), ("/a/", "/a/b/c")] {
        let rel = ndf::nix::make_path_in_repo(root, file);
        assert!(std::path::Path::new(rel).is_relative());
        assert_eq!(std::path::Path::new(root).join(rel), std::path::PathBuf::from(file));
    }
}
