use ndf::examples::{
    default_nix_expr, derivation_expr, examples, flake_nix_expr, Args, CleanArgs, MakeArgs,
    Op, Plan,
};
use ndf::items::{
    Cli,
    get_default_paths, parse_path, GitRef, GitRev, Item, ItemPair, SourceType,
};

#[test]
fn nix_expressions() {
    assert_eq!(
        flake_nix_expr("drv = import ./drv.nix", "packages.x", &["a = 1", "b = 2"]),
        "{ outputs = inputs: let drv = import ./drv.nix; in { packages.x = {\n  a = 1;\n  b = 2;\n}; }; }\n"
    );
    assert_eq!(
        default_nix_expr("drv = import ./drv.nix", &[]),
        "let drv = import ./drv.nix; in {\n}\n"
    );
    assert_eq!(
        derivation_expr("x86_64-linux"),
        "derivation { inherit name; system = \"x86_64-linux\"; builder = builtins.toFile \"builder.sh\" ''\n#!/bin/sh\necho 'This derivation cannot be built!'\nexit 1\n''; }"
    );
}

#[test]
fn example_definitions() {
    let all = examples("sys");
    let names: Vec<&str> = all.iter().map(|e| e.name.as_str()).collect();
    assert_eq!(
        names,
        vec![
            "clean",
            "different-outputs",
            "dirty",
            "empty-repo",
            "function-file",
            "nested",
            "nixos",
            "no-outputs",
        ]
    );
    let clean = &all[0];
    assert_eq!(clean.ops.len(), 7);
    assert_eq!(clean.ops[3], Op::Commit(String::from("commit 1")));
    match &clean.ops[0] {
        Op::WriteFile(path, contents) => {
            assert_eq!(path, "drv.nix");
            assert!(contents.starts_with("name: derivation { inherit name; system = \"sys\";"));
        }
        other => panic!("unexpected {other:?}"),
    }
    assert_eq!(all[2].ops.len(), 6);
    let made = all[3].make();
    assert_eq!(
        made,
        vec![
            Op::RemoveDir,
            Op::CreateDir,
            Op::GitInit,
            Op::Commit(String::from("init")),
            Op::Commit(String::from("commit 1")),
            Op::Commit(String::from("commit 2")),
        ]
    );
    match &all[4].ops[1] {
        Op::WriteFile(path, contents) => {
            assert_eq!(path, "default.nix");
            assert!(contents.starts_with("{ arg1 ? \"1\" }: let drv = import ./drv.nix; in {\n"));
        }
        other => panic!("unexpected {other:?}"),
    }
}

#[test]
fn make_and_clean_plans() {
    let all = examples("sys");
    let plan = MakeArgs { names: Some(vec![String::from("nixos"), String::from("clean"), String::from("nixos")]) }.exec(&all);
    assert_eq!(plan.make, vec![0, 6]);
    assert_eq!(plan.undefined, None);
    let plan = MakeArgs { names: Some(vec![String::from("zzz"), String::from("clean")]) }.exec(&all);
    assert_eq!(plan.make, vec![0]);
    assert_eq!(plan.undefined, Some(String::from("zzz")));
    let plan = MakeArgs { names: None }.exec(&all);
    assert_eq!(plan.make, (0..8).collect::<Vec<usize>>());
    let plan = CleanArgs { names: None }.exec();
    assert_eq!(plan.remove, vec![String::from("examples")]);
    let plan = CleanArgs { names: Some(vec![String::from("clean"), String::from("/tmp/x")]) }.exec();
    assert_eq!(plan.remove, vec![String::from("examples/clean"), String::from("/tmp/x")]);
    assert!(matches!(Args::Clean(CleanArgs { names: None }).exec(&all), Plan::Clean(_)));
}

#[test]
fn legacy_refs_and_paths() {
    assert_eq!(GitRef::old_from_args(Some(String::from("v1")), &None), GitRef::Ref(String::from("v1")));
    assert_eq!(GitRef::old_from_args(None, &Some(String::from(".#x"))), GitRef::Worktree);
    assert_eq!(GitRef::old_from_args(None, &None), GitRef::Ref(String::from("HEAD")));
    assert_eq!(GitRef::new_from_args(None), GitRef::Worktree);
    assert_eq!(GitRef::new_from_args(Some(String::from("v2"))), GitRef::Ref(String::from("v2")));

    let resolve = |r: &str, p: &str| -> Result<String, String> { Ok(format!("{r}:{p}")) };
    assert_eq!(
        GitRef::Ref(String::from("main")).resolve(&SourceType::FlakeCurrentDir, &resolve),
        Ok(GitRev::Rev { orig_ref: String::from("main"), rev: String::from("main:.") })
    );
    assert_eq!(
        GitRef::Worktree.resolve(&SourceType::FlakeCurrentDir, &resolve),
        Ok(GitRev::Worktree)
    );

    assert_eq!(
        parse_path(String::from(".#hello"), &None, false),
        (SourceType::FlakeCurrentDir, String::from("hello"))
    );
    assert_eq!(
        parse_path(String::from(".#host"), &None, true),
        (
            SourceType::FlakeCurrentDir,
            String::from("nixosConfigurations.host.config.system.build.toplevel")
        )
    );
    let file = Some(String::from("default.nix"));
    assert_eq!(
        parse_path(String::from("pkg"), &file, false),
        (SourceType::File(String::from("default.nix")), String::from("pkg"))
    );
    assert_eq!(
        get_default_paths(&None, vec![String::from("a")]),
        vec![String::from(".#a")]
    );
    assert_eq!(
        get_default_paths(&file, vec![String::from("a")]),
        vec![String::from("a")]
    );
}

#[test]
fn legacy_display() {
    let old = Item::new(SourceType::FlakeCurrentDir, String::from("hello"), GitRev::Worktree);
    let new = Item::new(
        SourceType::File(String::from("default.nix")),
        String::from("hello"),
        GitRev::Rev { orig_ref: String::from("HEAD"), rev: String::from("abc") },
    );
    assert_eq!(
        old.display(),
        "\u{1b}[34m.\u{1b}[0m\u{1b}[36m#hello\u{1b}[0m \u{1b}[35m[worktree]\u{1b}[0m"
    );
    assert_eq!(
        new.display(),
        "\u{1b}[33m(\u{1b}[0m-f \u{1b}[34mdefault.nix\u{1b}[0m\u{1b}[33m)\u{1b}[0m\u{1b}[36m.hello\u{1b}[0m \u{1b}[33m(\u{1b}[0m\u{1b}[32mHEAD\u{1b}[0m abc\u{1b}[33m)\u{1b}[0m"
    );
    let pair = ItemPair::new(old.clone(), new.clone());
    assert_eq!(
        pair.display(),
        format!("\u{1b}[1m\u{1b}[31m-\u{1b}[0m {}\n\u{1b}[1m\u{1b}[32m+\u{1b}[0m {}", old.display(), new.display())
    );
}

#[test]
fn legacy_pairs_from_arguments() {
    let resolve = |r: &str, p: &str| -> Result<String, String> { Ok(format!("{r}@{p}")) };
    let args = Cli {
        old: None,
        new: None,
        lhs: None,
        paths: vec![],
        file: None,
        nixos: false,
    };
    let pairs = ItemPair::from_args(args, |_: &Option<String>, _: bool| Ok(vec![String::from("hello")]), &resolve);
    let pairs = match pairs {
        Ok(pairs) => pairs,
        Err(e) => panic!("{e}"),
    };
    assert_eq!(pairs.len(), 1);
    assert_eq!(pairs[0].new.attr_path, "hello");
    assert_eq!(pairs[0].new.git_rev, GitRev::Worktree);
    assert_eq!(
        pairs[0].old.git_rev,
        GitRev::Rev { orig_ref: String::from("HEAD"), rev: String::from("HEAD@.") }
    );

    let args = Cli {
        old: None,
        new: Some(String::from("v2")),
        lhs: Some(String::from("base")),
        paths: vec![String::from("a"), String::from("b")],
        file: Some(String::from("default.nix")),
        nixos: false,
    };
    let pairs = match ItemPair::from_args(args, |_: &Option<String>, _: bool| Err(String::from("unused")), &resolve) {
        Ok(pairs) => pairs,
        Err(e) => panic!("{e}"),
    };
    assert_eq!(pairs.len(), 2);
    assert_eq!(pairs[1].old.attr_path, "base");
    assert_eq!(pairs[1].old.git_rev, GitRev::Worktree);
    assert_eq!(pairs[1].new.attr_path, "b");
    assert_eq!(
        pairs[1].new.git_rev,
        GitRev::Rev { orig_ref: String::from("v2"), rev: String::from("v2@default.nix") }
    );

    let failing = |_: &str, _: &str| -> Result<String, String> { Err(String::from("bad ref")) };
    let args = Cli {
        old: Some(String::from("x")),
        new: None,
        lhs: None,
        paths: vec![String::from(".#a")],
        file: None,
        nixos: false,
    };
    let result = ItemPair::from_args(args, |_: &Option<String>, _: bool| Ok(vec![]), &failing);
    assert_eq!(result.err(), Some(String::from("bad ref")));
}
