use std::cell::RefCell;

use ndf::attr_path::AttrPath;
use ndf::diff_spec::{DiffSpec, DiffTool};
use ndf::eval::{
    cached_result, eval_and_compare_paths_sequential, eval_jobs, DiffAction, EvalSpec, EvalStep,
    SequentialEval,
};
use ndf::source::{FlakePath, Source};
use ndf::summary::{EvalResult, EvalResultCmp, Summary};
use ndf::vcs::{GitRevision, Repository, Revision};

fn path(parts: &[&str]) -> AttrPath {
    AttrPath::new(false, parts.iter().map(|s| String::from(*s)).collect(), false)
}

fn spec(tool: DiffTool, base: Option<AttrPath>, paths: Vec<AttrPath>, to: Revision) -> DiffSpec {
    let flake = match FlakePath::new(String::from("/repo")) {
        Ok(flake) => flake,
        Err(_) => panic!("valid flake path"),
    };
    DiffSpec {
        source: Source::Flake(flake),
        repo: Repository::new(String::from("/repo")),
        from: Revision::GitRevision(GitRevision {
            commit_id: String::from("1111111111111111111111111111111111111111"),
            display: String::from("1111111 first"),
        }),
        to,
        impure: false,
        tool,
        tool_extra_args: vec![],
        base,
        attr_paths: paths,
    }
}

fn key(spec: &EvalSpec) -> String {
    format!("{:?}@{:?}", spec.attr_path.parts, spec.commit_id)
}

#[test]
fn each_evaluation_runs_once() {
    let paths = vec![path(&["a"]), path(&["b"]), path(&["a"])];
    let spec = spec(DiffTool::NoTool, None, paths, Revision::GitWorktree);
    let calls = RefCell::new(Vec::<String>::new());
    let eval = |s: &EvalSpec| {
        calls.borrow_mut().push(key(s));
        let n = calls.borrow().len();
        EvalResult::DrvPath(format!("/nix/store/{n}.drv"))
    };
    let shown = RefCell::new(0);
    let show = |_: &DiffAction| -> Result<(), String> {
        *shown.borrow_mut() += 1;
        Ok(())
    };
    let items = match eval_and_compare_paths_sequential(&spec, eval, show) {
        Ok(items) => items,
        Err(e) => panic!("{e}"),
    };
    assert_eq!(items.len(), 3);
    assert_eq!(calls.borrow().len(), 4);
    assert_eq!(items[0].result_old, items[2].result_old);
    assert_eq!(items[0].result_new, items[2].result_new);
    assert_eq!(items[2].attr_path, path(&["a"]));
    assert_eq!(*shown.borrow(), 0);
}

#[test]
fn base_is_evaluated_once_and_diffs_are_shown() {
    let paths = vec![path(&["x"]), path(&["y"])];
    let spec = spec(DiffTool::NixDiff, Some(path(&["base"])), paths, Revision::GitWorktree);
    let calls = RefCell::new(Vec::<String>::new());
    let eval = |s: &EvalSpec| {
        calls.borrow_mut().push(key(s));
        if s.attr_path.parts[0] == "y" {
            EvalResult::DrvPath(String::from("/nix/store/base.drv"))
        } else if s.attr_path.parts[0] == "base" {
            EvalResult::DrvPath(String::from("/nix/store/base.drv"))
        } else {
            EvalResult::Error
        }
    };
    let actions = RefCell::new(Vec::<Vec<String>>::new());
    let show = |a: &DiffAction| -> Result<(), String> {
        actions.borrow_mut().push(a.cmd.args.clone());
        Ok(())
    };
    let items = match eval_and_compare_paths_sequential(&spec, eval, show) {
        Ok(items) => items,
        Err(e) => panic!("{e}"),
    };
    assert_eq!(calls.borrow().len(), 3);
    assert_eq!(items[0].base, Some(path(&["base"])));
    assert_eq!(items[0].result_old.compare(&items[0].result_new), EvalResultCmp::Unknown);
    assert_eq!(items[1].result_old.compare(&items[1].result_new), EvalResultCmp::Equal);
    assert!(actions.borrow().is_empty());
    let summary = Summary { items };
    assert_eq!(summary.exit_code(), 2);
}

#[test]
fn differing_derivations_are_diffed_and_errors_stop() {
    let paths = vec![path(&["x"]), path(&["y"])];
    let mut spec = spec(DiffTool::NixDiff, None, paths, Revision::GitWorktree);
    spec.tool_extra_args = vec![String::from("--character-oriented")];
    let eval = |s: &EvalSpec| match s.commit_id {
        Some(_) => EvalResult::DrvPath(format!("/nix/store/old-{}.drv", s.attr_path.parts[0])),
        None => EvalResult::DrvPath(format!("/nix/store/new-{}.drv", s.attr_path.parts[0])),
    };
    let actions = RefCell::new(Vec::<Vec<String>>::new());
    let show = |a: &DiffAction| -> Result<(), String> {
        actions.borrow_mut().push(a.cmd.args.clone());
        if actions.borrow().len() == 2 {
            Err(String::from("nix-diff failed"))
        } else {
            Ok(())
        }
    };
    let result = eval_and_compare_paths_sequential(&spec, eval, show);
    assert_eq!(result.err(), Some(String::from("nix-diff failed")));
    assert_eq!(
        actions.borrow()[0],
        vec![
            String::from("--character-oriented"),
            String::from("/nix/store/old-x.drv"),
            String::from("/nix/store/new-x.drv"),
        ]
    );
}

#[test]
fn eval_specs_of_sides() {
    let to = Revision::GitRevision(GitRevision {
        commit_id: String::from("2222222222222222222222222222222222222222"),
        display: String::from("2222222 second"),
    });
    let spec = spec(DiffTool::NoTool, Some(path(&["base"])), vec![path(&["p"])], to);
    let lhs = EvalSpec::lhs(&spec, &spec.attr_paths[0]);
    let rhs = EvalSpec::rhs(&spec, &spec.attr_paths[0]);
    assert_eq!(lhs.attr_path, &path(&["base"]));
    assert_eq!(lhs.commit_id, Some("1111111111111111111111111111111111111111"));
    assert_eq!(rhs.attr_path, &path(&["p"]));
    assert_eq!(rhs.commit_id, Some("2222222222222222222222222222222222222222"));
    assert!(!lhs.same(&rhs));
    assert!(lhs.same(&EvalSpec::lhs(&spec, &spec.attr_paths[0])));
}

#[test]
fn cached_errors_are_handed_out_once() {
    let mut cached: Result<String, String> = Err(String::from("boom"));
    let first = ndf::eval::extract_cached_drv_path_result(&mut cached);
    assert_eq!(first, Err(String::from("boom")));
    assert_eq!(cached, Err(String::from("failed to evaluate derivation path")));
    let second = ndf::eval::extract_cached_drv_path_result(&mut cached);
    assert_eq!(second, Err(String::from("failed to evaluate derivation path")));
    let mut cached: Result<String, String> = Ok(String::from("/nix/store/a.drv"));
    let first = ndf::eval::extract_cached_drv_path_result(&mut cached);
    assert_eq!(first, Ok(String::from("/nix/store/a.drv")));
    assert_eq!(cached, Ok(String::from("/nix/store/a.drv")));
}

#[test]
fn state_machine_asks_lazily_and_once() {
    let paths = vec![path(&["x"]), path(&["y"]), path(&["x"])];
    let spec = spec(DiffTool::NixDiff, None, paths, Revision::GitWorktree);
    let mut machine = SequentialEval::new(&spec);
    let mut asked: Vec<String> = Vec::new();
    let mut shown: Vec<usize> = Vec::new();
    loop {
        match machine.next() {
            EvalStep::Evaluate(k) => {
                asked.push(key(&k));
                let side = if k.commit_id.is_some() { "old" } else { "new" };
                let name = &k.attr_path.parts[0];
                let result = if name == "x" {
                    EvalResult::DrvPath(format!("/nix/store/{side}-x.drv"))
                } else {
                    EvalResult::DrvPath(String::from("/nix/store/y.drv"))
                };
                machine.give(result);
            }
            EvalStep::Show(action) => {
                assert_eq!(action.cmd.args.len(), 2);
                shown.push(asked.len());
            }
            EvalStep::Done => break,
        }
    }
    // The difference of the first path is shown before anything of the second is evaluated,
    // and the third path, the same as the first, asks for nothing new.
    assert_eq!(shown, vec![2, 4]);
    assert_eq!(asked.len(), 4);
    assert_eq!(asked[0], key(&EvalSpec::lhs(&spec, &spec.attr_paths[0])));
    assert_eq!(asked[1], key(&EvalSpec::rhs(&spec, &spec.attr_paths[0])));
    let items = machine.finish();
    assert_eq!(items.len(), 3);
    assert_eq!(items[2].result_old, EvalResult::DrvPath(String::from("/nix/store/old-x.drv")));
    assert_eq!(items[1].result_old.compare(&items[1].result_new), EvalResultCmp::Equal);
}

#[test]
fn evaluation_jobs_are_distinct_and_cover_every_side() {
    let paths = vec![path(&["a"]), path(&["b"]), path(&["a"])];
    let spec = spec(DiffTool::NoTool, Some(path(&["base"])), paths, Revision::GitWorktree);
    let jobs = eval_jobs(&spec);
    let keys: Vec<String> = jobs.iter().map(key).collect();
    assert_eq!(
        keys,
        vec![
            key(&EvalSpec::lhs(&spec, &spec.attr_paths[0])),
            key(&EvalSpec::rhs(&spec, &spec.attr_paths[0])),
            key(&EvalSpec::rhs(&spec, &spec.attr_paths[1])),
        ]
    );
    let results: Vec<(EvalSpec, EvalResult)> = jobs
        .iter()
        .enumerate()
        .map(|(i, job)| (*job, EvalResult::DrvPath(format!("/nix/store/{i}.drv"))))
        .collect();
    let rhs_b = EvalSpec::rhs(&spec, &spec.attr_paths[1]);
    assert_eq!(
        cached_result(&results, &rhs_b),
        Some(EvalResult::DrvPath(String::from("/nix/store/2.drv")))
    );
    let other = path(&["c"]);
    assert_eq!(cached_result(&results, &EvalSpec::rhs(&spec, &other)), None);
}
