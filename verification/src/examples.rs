//! Example Nix projects used for testing by hand: what each one's Git history holds, as a list
//! of steps that the development tool carries out.

use vstd::prelude::*;
use crate::attr_path::str_texts;
use crate::order::{sort_unique, strictly_sorted};
use crate::attr_path::texts;
use crate::text::push_str;
use vstd::string::StrSliceExecFns;

verus! {

/// One step in making an example repository.
#[derive(Debug, PartialEq, Eq)]
pub enum Op {
    /// Remove the example's directory, where it exists.
    RemoveDir,
    /// Create the example's directory.
    CreateDir,
    /// Run `git init` in it.
    GitInit,
    /// Write a file (a path relative to the directory) with the given contents.
    WriteFile(String, String),
    /// Stage everything and commit it, empty or not, with the given message.
    Commit(String),
}

/// The model of an [`Op`].
pub enum OpView {
    RemoveDir,
    CreateDir,
    GitInit,
    WriteFile(Seq<char>, Seq<char>),
    Commit(Seq<char>),
}

impl View for Op {
    type V = OpView;

    open spec fn view(&self) -> OpView {
        match self {
            Op::RemoveDir => OpView::RemoveDir,
            Op::CreateDir => OpView::CreateDir,
            Op::GitInit => OpView::GitInit,
            Op::WriteFile(p, c) => OpView::WriteFile(p@, c@),
            Op::Commit(m) => OpView::Commit(m@),
        }
    }
}

/// The models of a sequence of steps.
pub open spec fn op_views(ops: Seq<Op>) -> Seq<OpView> {
    ops.map_values(|o: Op| o@)
}

/// An example: its name (also the name of its directory) and the steps that fill its
/// repository.
#[derive(Debug)]
pub struct Example {
    pub name: String,
    pub ops: Vec<Op>,
}

/// Each output definition on a line of its own, indented, with a semicolon.
pub open spec fn output_lines(outputs: Seq<Seq<char>>) -> Seq<char>
    decreases outputs.len(),
{
    if outputs.len() == 0 {
        Seq::empty()
    } else {
        output_lines(outputs.drop_last()) + "  "@ + outputs.last() + ";\n"@
    }
}

/// A flake whose outputs hold the attribute set `attr` with the given definitions, in the scope
/// of the binding `import`.
pub open spec fn flake_nix_text(import: Seq<char>, attr: Seq<char>, outputs: Seq<Seq<char>>) -> Seq<
    char,
> {
    "{ outputs = inputs: let "@ + import + "; in { "@ + attr + " = {\n"@ + output_lines(outputs)
        + "}; }; }\n"@
}

/// A Nix file with an attribute set of the given definitions, in the scope of the binding
/// `import`.
pub open spec fn default_nix_text(import: Seq<char>, outputs: Seq<Seq<char>>) -> Seq<char> {
    "let "@ + import + "; in {\n"@ + output_lines(outputs) + "}\n"@
}

/// A derivation for `system`, named by the variable `name`, that cannot be built.
pub open spec fn derivation_text(system: Seq<char>) -> Seq<char> {
    "derivation { inherit name; system = \""@ + system
        + "\"; builder = builtins.toFile \"builder.sh\" ''\n#!/bin/sh\necho 'This derivation cannot be built!'\nexit 1\n''; }"@
}

/// Appends each output definition on a line of its own.
fn push_output_lines(out: &mut String, outputs: &[&str])
    ensures
        final(out)@ == old(out)@ + output_lines(str_texts(outputs@)),
{
    let ghost start = out@;
    for i in 0..outputs.len()
        invariant
            out@ == start + output_lines(str_texts(outputs@).take(i as int)),
    {
        push_str(out, "  ");
        push_str(out, outputs[i]);
        push_str(out, ";\n");
        assert(str_texts(outputs@).take(i + 1).drop_last() =~= str_texts(outputs@).take(i as int));
    }
    assert(str_texts(outputs@).take(outputs@.len() as int) =~= str_texts(outputs@));
}

/// A flake whose outputs hold the attribute set `attr` with the given definitions.
pub fn flake_nix_expr(import: &str, attr: &str, outputs: &[&str]) -> (res: String)
    ensures
        res@ == flake_nix_text(import@, attr@, str_texts(outputs@)),
{
    let mut expr = String::new();
    push_str(&mut expr, "{ outputs = inputs: let ");
    push_str(&mut expr, import);
    push_str(&mut expr, "; in { ");
    push_str(&mut expr, attr);
    push_str(&mut expr, " = {\n");
    push_output_lines(&mut expr, outputs);
    push_str(&mut expr, "}; }; }\n");
    expr
}

/// A Nix file with an attribute set of the given definitions.
pub fn default_nix_expr(import: &str, outputs: &[&str]) -> (res: String)
    ensures
        res@ == default_nix_text(import@, str_texts(outputs@)),
{
    let mut expr = String::new();
    push_str(&mut expr, "let ");
    push_str(&mut expr, import);
    push_str(&mut expr, "; in {\n");
    push_output_lines(&mut expr, outputs);
    push_str(&mut expr, "}\n");
    expr
}

/// A derivation for `system`, named by the variable `name`, that cannot be built.
pub fn derivation_expr(system: &str) -> (res: String)
    ensures
        res@ == derivation_text(system@),
{
    let mut expr = String::new();
    push_str(&mut expr, "derivation { inherit name; system = \"");
    push_str(&mut expr, system);
    push_str(
        &mut expr,
        "\"; builder = builtins.toFile \"builder.sh\" ''\n#!/bin/sh\necho 'This derivation cannot be built!'\nexit 1\n''; }",
    );
    expr
}

/// Writing `drv.nix`: a function from a name to a derivation for `system`.
pub fn write_drv_nix(system: &str) -> (res: Op)
    ensures
        res@ == OpView::WriteFile("drv.nix"@, "name: "@ + derivation_text(system@) + "\n"@),
{
    let mut contents = String::new();
    push_str(&mut contents, "name: ");
    let drv = derivation_expr(system);
    push_str(&mut contents, drv.as_str());
    push_str(&mut contents, "\n");
    Op::WriteFile("drv.nix".to_owned(), contents)
}

/// Writing `nixos.nix`: a function from a name to a configuration whose top level is a
/// derivation for `system`.
pub fn write_nixos_nix(system: &str) -> (res: Op)
    ensures
        res@ == OpView::WriteFile(
            "nixos.nix"@,
            "name: { config.system.build.toplevel = "@ + derivation_text(system@) + "; }\n"@,
        ),
{
    let mut contents = String::new();
    push_str(&mut contents, "name: { config.system.build.toplevel = ");
    let drv = derivation_expr(system);
    push_str(&mut contents, drv.as_str());
    push_str(&mut contents, "; }\n");
    Op::WriteFile("nixos.nix".to_owned(), contents)
}

/// Writing a `flake.nix` whose packages for `system` are the given definitions.
pub fn write_package_flake_nix(system: &str, packages: &[&str]) -> (res: Op)
    ensures
        res@ == OpView::WriteFile(
            "flake.nix"@,
            flake_nix_text("drv = import ./drv.nix"@, "packages."@ + system@, str_texts(packages@)),
        ),
{
    let mut attr = String::new();
    push_str(&mut attr, "packages.");
    push_str(&mut attr, system);
    let contents = flake_nix_expr("drv = import ./drv.nix", attr.as_str(), packages);
    Op::WriteFile("flake.nix".to_owned(), contents)
}

/// Writing a `flake.nix` whose NixOS configurations are the given definitions.
pub fn write_nixos_flake_nix(configurations: &[&str]) -> (res: Op)
    ensures
        res@ == OpView::WriteFile(
            "flake.nix"@,
            flake_nix_text(
                "nixos = import ./nixos.nix"@,
                "nixosConfigurations"@,
                str_texts(configurations@),
            ),
        ),
{
    let contents = flake_nix_expr(
        "nixos = import ./nixos.nix",
        "nixosConfigurations",
        configurations,
    );
    Op::WriteFile("flake.nix".to_owned(), contents)
}

/// Writing a `default.nix` whose attributes are the given package definitions.
pub fn write_package_default_nix(packages: &[&str]) -> (res: Op)
    ensures
        res@ == OpView::WriteFile(
            "default.nix"@,
            default_nix_text("drv = import ./drv.nix"@, str_texts(packages@)),
        ),
{
    let contents = default_nix_expr("drv = import ./drv.nix", packages);
    Op::WriteFile("default.nix".to_owned(), contents)
}

/// Writing a `default.nix` whose attributes are the given NixOS configurations.
pub fn write_nixos_default_nix(configurations: &[&str]) -> (res: Op)
    ensures
        res@ == OpView::WriteFile(
            "default.nix"@,
            default_nix_text("nixos = import ./nixos.nix"@, str_texts(configurations@)),
        ),
{
    let contents = default_nix_expr("nixos = import ./nixos.nix", configurations);
    Op::WriteFile("default.nix".to_owned(), contents)
}

/// A commit with the given message.
pub fn commit(message: &str) -> (res: Op)
    ensures
        res@ == OpView::Commit(message@),
{
    Op::Commit(message.to_owned())
}

impl Example {
    /// The steps that make the example: a fresh repository with an initial commit, then the
    /// example's own steps.
    pub fn make(&self) -> (res: Vec<Op>)
        ensures
            op_views(res@) == seq![
                OpView::RemoveDir,
                OpView::CreateDir,
                OpView::GitInit,
                OpView::Commit("init"@),
            ] + op_views(self.ops@),
    {
        let mut res: Vec<Op> = Vec::new();
        res.push(Op::RemoveDir);
        res.push(Op::CreateDir);
        res.push(Op::GitInit);
        res.push(commit("init"));
        let ghost head = op_views(res@);
        assert(head =~= seq![
            OpView::RemoveDir,
            OpView::CreateDir,
            OpView::GitInit,
            OpView::Commit("init"@),
        ]);
        for i in 0..self.ops.len()
            invariant
                op_views(res@) == head + op_views(self.ops@).take(i as int),
        {
            let op = match &self.ops[i] {
                Op::RemoveDir => Op::RemoveDir,
                Op::CreateDir => Op::CreateDir,
                Op::GitInit => Op::GitInit,
                Op::WriteFile(p, c) => Op::WriteFile(p.clone(), c.clone()),
                Op::Commit(m) => Op::Commit(m.clone()),
            };
            let ghost before = res@;
            res.push(op);
            assert(op_views(res@) =~= op_views(before).push(op@));
            assert(op_views(self.ops@).take(i + 1) =~= op_views(self.ops@).take(i as int).push(
                self.ops@[i as int]@,
            ));
        }
        assert(op_views(self.ops@).take(self.ops@.len() as int) =~= op_views(self.ops@));
        res
    }
}

/// The binding through which package definitions build derivations.
pub open spec fn drv_import() -> Seq<char> {
    "drv = import ./drv.nix"@
}

/// The binding through which configuration definitions build configurations.
pub open spec fn nixos_import() -> Seq<char> {
    "nixos = import ./nixos.nix"@
}

/// The history of an example of packages: `drv.nix`, a flake and a file with the packages `p1`,
/// a commit, the same with `p2`, and a second commit where `commit_last` holds.
pub open spec fn package_history(
    system: Seq<char>,
    p1: Seq<Seq<char>>,
    p2: Seq<Seq<char>>,
    commit_last: bool,
) -> Seq<OpView> {
    seq![
        OpView::WriteFile("drv.nix"@, "name: "@ + derivation_text(system) + "\n"@),
        OpView::WriteFile("flake.nix"@, flake_nix_text(drv_import(), "packages."@ + system, p1)),
        OpView::WriteFile("default.nix"@, default_nix_text(drv_import(), p1)),
        OpView::Commit("commit 1"@),
        OpView::WriteFile("flake.nix"@, flake_nix_text(drv_import(), "packages."@ + system, p2)),
        OpView::WriteFile("default.nix"@, default_nix_text(drv_import(), p2)),
    ] + if commit_last {
        seq![OpView::Commit("commit 2"@)]
    } else {
        seq![]
    }
}

/// An example of packages: see [`package_history`].
fn package_example(name: &str, system: &str, p1: &[&str], p2: &[&str], commit_last: bool) -> (res:
    Example)
    ensures
        res.name@ == name@,
        op_views(res.ops@) == package_history(
            system@,
            str_texts(p1@),
            str_texts(p2@),
            commit_last,
        ),
{
    let mut ops: Vec<Op> = Vec::new();
    ops.push(write_drv_nix(system));
    ops.push(write_package_flake_nix(system, p1));
    ops.push(write_package_default_nix(p1));
    ops.push(commit("commit 1"));
    ops.push(write_package_flake_nix(system, p2));
    ops.push(write_package_default_nix(p2));
    if commit_last {
        ops.push(commit("commit 2"));
    }
    assert(op_views(ops@) =~= package_history(system@, str_texts(p1@), str_texts(p2@), commit_last));
    Example { name: name.to_owned(), ops }
}

/// The history of the example of NixOS configurations: `nixos.nix`, a flake and a file with
/// the configurations `c1`, a commit, the same with `c2`, and a commit.
pub open spec fn nixos_history(system: Seq<char>, c1: Seq<Seq<char>>, c2: Seq<Seq<char>>) -> Seq<
    OpView,
> {
    seq![
        OpView::WriteFile(
            "nixos.nix"@,
            "name: { config.system.build.toplevel = "@ + derivation_text(system) + "; }\n"@,
        ),
        OpView::WriteFile("flake.nix"@, flake_nix_text(nixos_import(), "nixosConfigurations"@, c1)),
        OpView::WriteFile("default.nix"@, default_nix_text(nixos_import(), c1)),
        OpView::Commit("commit 1"@),
        OpView::WriteFile("flake.nix"@, flake_nix_text(nixos_import(), "nixosConfigurations"@, c2)),
        OpView::WriteFile("default.nix"@, default_nix_text(nixos_import(), c2)),
        OpView::Commit("commit 2"@),
    ]
}

/// The history of the example whose `default.nix` is a function with a defaulted argument:
/// `drv.nix`, the file with the argument defaulting to `"1"`, a commit, then to `"2"`, a commit.
pub open spec fn function_file_history(system: Seq<char>, p: Seq<Seq<char>>) -> Seq<OpView> {
    seq![
        OpView::WriteFile("drv.nix"@, "name: "@ + derivation_text(system) + "\n"@),
        OpView::WriteFile("default.nix"@, "{ arg1 ? \"1\" }: "@ + default_nix_text(drv_import(), p)),
        OpView::Commit("commit 1"@),
        OpView::WriteFile("default.nix"@, "{ arg1 ? \"2\" }: "@ + default_nix_text(drv_import(), p)),
        OpView::Commit("commit 2"@),
    ]
}

/// The history of the example with two empty commits.
pub open spec fn empty_repo_history() -> Seq<OpView> {
    seq![OpView::Commit("commit 1"@), OpView::Commit("commit 2"@)]
}

/// The history of the example whose flake and file define no outputs.
pub open spec fn no_outputs_history() -> Seq<OpView> {
    seq![
        OpView::WriteFile("flake.nix"@, "{ outputs = inputs: {}; }\n"@),
        OpView::WriteFile("default.nix"@, "{}\n"@),
        OpView::Commit("commit 1"@),
        OpView::Commit("commit 2"@),
    ]
}

/// The packages of the first commit of most examples.
pub open spec fn packages_1() -> Seq<Seq<char>> {
    seq!["pkg1 = drv \"pkg1-1\""@, "pkg2 = drv \"pkg2\""@]
}

/// The packages of the second commit of most examples: `pkg1` changed.
pub open spec fn packages_2() -> Seq<Seq<char>> {
    seq!["pkg1 = drv \"pkg1-2\""@, "pkg2 = drv \"pkg2\""@]
}

/// The examples for `system`, by name, in the order of their names.
pub open spec fn examples_spec(system: Seq<char>) -> Seq<(Seq<char>, Seq<OpView>)> {
    seq![
        ("clean"@, package_history(system, packages_1(), packages_2(), true)),
        ("different-outputs"@, package_history(
            system,
            packages_1(),
            seq!["pkg1 = drv \"pkg1-2\""@, "pkg3 = drv \"pkg3\""@],
            true,
        )),
        ("dirty"@, package_history(system, packages_1(), packages_2(), false)),
        ("empty-repo"@, empty_repo_history()),
        ("function-file"@, function_file_history(
            system,
            seq!["pkg1 = drv \"pkg1-${arg1}\""@, "pkg2 = drv \"pkg2\""@],
        )),
        ("nested"@, package_history(
            system,
            seq!["a.b.pkg1 = drv \"pkg1-1\""@, "a.b.pkg2 = drv \"pkg2\""@],
            seq!["a.b.pkg1 = drv \"pkg1-2\""@, "a.b.pkg2 = drv \"pkg2\""@],
            true,
        )),
        ("nixos"@, nixos_history(
            system,
            seq!["nixos1 = nixos \"nixos1-1\""@, "nixos2 = nixos \"nixos2\""@],
            seq!["nixos1 = nixos \"nixos1-2\""@, "nixos2 = nixos \"nixos2\""@],
        )),
        ("no-outputs"@, no_outputs_history()),
    ]
}

/// The example of NixOS configurations.
fn nixos_example(system: &str) -> (res: Example)
    ensures
        res.name@ == "nixos"@,
        op_views(res.ops@) == nixos_history(
            system@,
            seq!["nixos1 = nixos \"nixos1-1\""@, "nixos2 = nixos \"nixos2\""@],
            seq!["nixos1 = nixos \"nixos1-2\""@, "nixos2 = nixos \"nixos2\""@],
        ),
{
    let c1: Vec<&str> = vec!["nixos1 = nixos \"nixos1-1\"", "nixos2 = nixos \"nixos2\""];
    let c2: Vec<&str> = vec!["nixos1 = nixos \"nixos1-2\"", "nixos2 = nixos \"nixos2\""];
    assert(str_texts(c1@) =~= seq!["nixos1 = nixos \"nixos1-1\""@, "nixos2 = nixos \"nixos2\""@]);
    assert(str_texts(c2@) =~= seq!["nixos1 = nixos \"nixos1-2\""@, "nixos2 = nixos \"nixos2\""@]);
    let mut ops: Vec<Op> = Vec::new();
    ops.push(write_nixos_nix(system));
    ops.push(write_nixos_flake_nix(c1.as_slice()));
    ops.push(write_nixos_default_nix(c1.as_slice()));
    ops.push(commit("commit 1"));
    ops.push(write_nixos_flake_nix(c2.as_slice()));
    ops.push(write_nixos_default_nix(c2.as_slice()));
    ops.push(commit("commit 2"));
    assert(op_views(ops@) =~= nixos_history(system@, str_texts(c1@), str_texts(c2@)));
    Example { name: "nixos".to_owned(), ops }
}

/// The example whose `default.nix` is a function with a defaulted argument.
fn function_file_example(system: &str) -> (res: Example)
    ensures
        res.name@ == "function-file"@,
        op_views(res.ops@) == function_file_history(
            system@,
            seq!["pkg1 = drv \"pkg1-${arg1}\""@, "pkg2 = drv \"pkg2\""@],
        ),
{
    let p: Vec<&str> = vec!["pkg1 = drv \"pkg1-${arg1}\"", "pkg2 = drv \"pkg2\""];
    assert(str_texts(p@) =~= seq!["pkg1 = drv \"pkg1-${arg1}\""@, "pkg2 = drv \"pkg2\""@]);
    let body = default_nix_expr("drv = import ./drv.nix", p.as_slice());
    let mut expr1 = String::new();
    push_str(&mut expr1, "{ arg1 ? \"1\" }: ");
    push_str(&mut expr1, body.as_str());
    let mut expr2 = String::new();
    push_str(&mut expr2, "{ arg1 ? \"2\" }: ");
    push_str(&mut expr2, body.as_str());
    let mut ops: Vec<Op> = Vec::new();
    ops.push(write_drv_nix(system));
    ops.push(Op::WriteFile("default.nix".to_owned(), expr1));
    ops.push(commit("commit 1"));
    ops.push(Op::WriteFile("default.nix".to_owned(), expr2));
    ops.push(commit("commit 2"));
    assert(op_views(ops@) =~= function_file_history(system@, str_texts(p@)));
    Example { name: "function-file".to_owned(), ops }
}

/// The example with two empty commits.
fn empty_repo_example() -> (res: Example)
    ensures
        res.name@ == "empty-repo"@,
        op_views(res.ops@) == empty_repo_history(),
{
    let mut ops: Vec<Op> = Vec::new();
    ops.push(commit("commit 1"));
    ops.push(commit("commit 2"));
    assert(op_views(ops@) =~= empty_repo_history());
    Example { name: "empty-repo".to_owned(), ops }
}

/// The example whose flake and file define no outputs.
fn no_outputs_example() -> (res: Example)
    ensures
        res.name@ == "no-outputs"@,
        op_views(res.ops@) == no_outputs_history(),
{
    let mut ops: Vec<Op> = Vec::new();
    ops.push(Op::WriteFile("flake.nix".to_owned(), "{ outputs = inputs: {}; }\n".to_owned()));
    ops.push(Op::WriteFile("default.nix".to_owned(), "{}\n".to_owned()));
    ops.push(commit("commit 1"));
    ops.push(commit("commit 2"));
    assert(op_views(ops@) =~= no_outputs_history());
    Example { name: "no-outputs".to_owned(), ops }
}

/// The examples for `system`, in the order of their names.
pub fn examples(system: &str) -> (res: Vec<Example>)
    ensures
        res@.len() == examples_spec(system@).len(),
        forall|i: int|
            0 <= i < res@.len() ==> (#[trigger] res@[i]).name@ == examples_spec(system@)[i].0
                && op_views(res@[i].ops@) == examples_spec(system@)[i].1,
{
    let p1: Vec<&str> = vec!["pkg1 = drv \"pkg1-1\"", "pkg2 = drv \"pkg2\""];
    let p2: Vec<&str> = vec!["pkg1 = drv \"pkg1-2\"", "pkg2 = drv \"pkg2\""];
    let p3: Vec<&str> = vec!["pkg1 = drv \"pkg1-2\"", "pkg3 = drv \"pkg3\""];
    let n1: Vec<&str> = vec!["a.b.pkg1 = drv \"pkg1-1\"", "a.b.pkg2 = drv \"pkg2\""];
    let n2: Vec<&str> = vec!["a.b.pkg1 = drv \"pkg1-2\"", "a.b.pkg2 = drv \"pkg2\""];
    assert(str_texts(p1@) =~= packages_1());
    assert(str_texts(p2@) =~= packages_2());
    assert(str_texts(p3@) =~= seq!["pkg1 = drv \"pkg1-2\""@, "pkg3 = drv \"pkg3\""@]);
    assert(str_texts(n1@) =~= seq!["a.b.pkg1 = drv \"pkg1-1\""@, "a.b.pkg2 = drv \"pkg2\""@]);
    assert(str_texts(n2@) =~= seq!["a.b.pkg1 = drv \"pkg1-2\""@, "a.b.pkg2 = drv \"pkg2\""@]);
    let mut res: Vec<Example> = Vec::new();
    res.push(package_example("clean", system, p1.as_slice(), p2.as_slice(), true));
    res.push(package_example("different-outputs", system, p1.as_slice(), p3.as_slice(), true));
    res.push(package_example("dirty", system, p1.as_slice(), p2.as_slice(), false));
    res.push(empty_repo_example());
    res.push(function_file_example(system));
    res.push(package_example("nested", system, n1.as_slice(), n2.as_slice(), true));
    res.push(nixos_example(system));
    res.push(no_outputs_example());
    res
}

/// Which examples to make: `names`, or all where none are given.
#[derive(Debug)]
pub struct MakeArgs {
    pub names: Option<Vec<String>>,
}

/// Which example directories to remove: those of `names`, or all where none are given.
#[derive(Debug)]
pub struct CleanArgs {
    pub names: Option<Vec<String>>,
}

/// The development tool's commands on examples.
#[derive(Debug)]
pub enum Args {
    Make(MakeArgs),
    Clean(CleanArgs),
}

/// The examples to make, by their index, one after another; where a name is not defined, the
/// ones before it are made and then that name is reported.
#[derive(Debug)]
pub struct MakePlan {
    pub make: Vec<usize>,
    pub undefined: Option<String>,
}

/// The directories to remove, relative to the workspace root, one after another.
#[derive(Debug)]
pub struct CleanPlan {
    pub remove: Vec<String>,
}

/// What a command on examples does.
#[derive(Debug)]
pub enum Plan {
    Make(MakePlan),
    Clean(CleanPlan),
}

/// Whether `names` are in order and make up the names of the examples to make: with names
/// given, those names sorted with each once; otherwise the names of all examples, in their order.
pub open spec fn make_order(names: Option<Vec<String>>, examples: Seq<Example>, order: Seq<Seq<char>>) -> bool {
    match names {
        Some(v) => strictly_sorted(order) && forall|t: Seq<char>|
            #![trigger order.contains(t)]
            #![trigger texts(v@).contains(t)]
            order.contains(t) <==> texts(v@).contains(t),
        None => order == examples.map_values(|e: Example| e.name@),
    }
}

/// Whether the plan makes the examples named in `order`, which is the order of
/// [`make_order`], up to the first name that no example has.
pub open spec fn plan_follows(
    names: Option<Vec<String>>,
    examples: Seq<Example>,
    order: Seq<Seq<char>>,
    plan: MakePlan,
) -> bool {
    &&& make_order(names, examples, order)
    &&& plan.make@.len() <= order.len()
    &&& forall|j: int|
        0 <= j < plan.make@.len() ==> plan.make@[j] < examples.len() && examples[plan.make@[j] as int].name@
            == #[trigger] order[j]
    &&& match plan.undefined {
        Some(n) => plan.make@.len() < order.len() && n@ == order[plan.make@.len() as int]
            && forall|i: int| 0 <= i < examples.len() ==> examples[i].name@ != n@,
        None => plan.make@.len() == order.len(),
    }
}

/// The index of the example named `name`, if there is one.
fn find_example(examples: &Vec<Example>, name: &str) -> (res: Option<usize>)
    ensures
        res matches Some(i) ==> i < examples@.len() && examples@[i as int].name@ == name@,
        res is None ==> forall|i: int| 0 <= i < examples@.len() ==> examples@[i].name@ != name@,
{
    for i in 0..examples.len()
        invariant
            forall|j: int| 0 <= j < i ==> examples@[j].name@ != name@,
    {
        if examples[i].name.as_str().to_owned() == name.to_owned() {
            return Some(i);
        }
    }
    None
}

impl MakeArgs {
    /// The examples to make: the given names sorted, each once (or all examples, in order),
    /// looked up one after another until one is not defined.
    pub fn exec(self, examples: &Vec<Example>) -> (res: MakePlan)
        ensures
            exists|order: Seq<Seq<char>>| plan_follows(self.names, examples@, order, res),
    {
        let ghost self_names = self.names;
        let names: Vec<String> = match self.names {
            Some(v) => sort_unique(v),
            None => {
                let mut all: Vec<String> = Vec::new();
                for i in 0..examples.len()
                    invariant
                        all@.len() == i,
                        forall|j: int| 0 <= j < i ==> #[trigger] all@[j]@ == examples@[j].name@,
                {
                    all.push(examples[i].name.clone());
                }
                assert(texts(all@) =~= examples@.map_values(|e: Example| e.name@));
                all
            },
        };
        let ghost order = texts(names@);
        assert(make_order(self_names, examples@, order));
        let mut make: Vec<usize> = Vec::new();
        let mut k: usize = 0;
        while k < names.len()
            invariant
                order == texts(names@),
                make_order(self_names, examples@, order),
                self_names == self.names,
                k <= names@.len(),
                make@.len() == k,
                forall|j: int|
                    0 <= j < k ==> #[trigger] make@[j] < examples@.len() && examples@[make@[j] as int].name@
                        == order[j],
            decreases names.len() - k,
        {
            match find_example(examples, names[k].as_str()) {
                Some(i) => {
                    assert(examples@[i as int].name@ == order[k as int]);
                    let ghost before = make@;
                    make.push(i);
                    assert forall|j: int| 0 <= j < k + 1 implies make@[j] < examples@.len()
                        && examples@[make@[j] as int].name@ == #[trigger] order[j] by {
                        if j < k {
                            assert(make@[j] == before[j]);
                            assert(before[j] < examples@.len() && examples@[before[j] as int].name@
                                == order[j]);
                        } else {
                            assert(make@[j] == i);
                        }
                    }
                },
                None => {
                    let n = names[k].clone();
                    assert(n@ == order[k as int]);
                    let plan = MakePlan { make, undefined: Some(n) };
                    assert(plan_follows(self_names, examples@, order, plan));
                    return plan;
                },
            }
            k = k + 1;
        }
        let plan = MakePlan { make, undefined: None };
        assert(plan_follows(self_names, examples@, order, plan));
        plan
    }
}

/// The directory of the example `name`, relative to the workspace root; an absolute name
/// stands for itself, as when it is pushed onto a path.
pub open spec fn example_dir(name: Seq<char>) -> Seq<char> {
    if name.len() > 0 && name[0] == '/' {
        name
    } else {
        "examples/"@ + name
    }
}

/// Whether the plan removes the directory of each named example, or the whole `examples`
/// directory where none are named.
pub open spec fn clean_follows(names: Option<Vec<String>>, plan: CleanPlan) -> bool {
    match names {
        None => texts(plan.remove@) == seq!["examples"@],
        Some(v) => texts(plan.remove@) == texts(v@).map_values(|n: Seq<char>| example_dir(n)),
    }
}

impl CleanArgs {
    /// The directories to remove: that of each named example, or the whole `examples`
    /// directory where none are named.
    pub fn exec(self) -> (res: CleanPlan)
        ensures
            clean_follows(self.names, res),
    {
        let mut remove: Vec<String> = Vec::new();
        match self.names {
            None => {
                remove.push("examples".to_owned());
                assert(texts(remove@) =~= seq!["examples"@]);
            },
            Some(names) => {
                for i in 0..names.len()
                    invariant
                        texts(remove@) == texts(names@).map_values(|n: Seq<char>| example_dir(n)).take(
                            i as int,
                        ),
                {
                    let name = names[i].as_str();
                    let mut dir = String::new();
                    if name.unicode_len() > 0 && name.get_char(0) == '/' {
                        push_str(&mut dir, name);
                    } else {
                        push_str(&mut dir, "examples/");
                        push_str(&mut dir, name);
                    }
                    let ghost before = remove@;
                    remove.push(dir);
                    assert(texts(remove@) =~= texts(before).push(dir@));
                    assert(texts(names@).map_values(|n: Seq<char>| example_dir(n)).take(i + 1)
                        =~= texts(names@).map_values(|n: Seq<char>| example_dir(n)).take(
                        i as int,
                    ).push(example_dir(names@[i as int]@)));
                }
                assert(texts(names@).map_values(|n: Seq<char>| example_dir(n)).take(
                    names@.len() as int,
                ) =~= texts(names@).map_values(|n: Seq<char>| example_dir(n)));
            },
        }
        CleanPlan { remove }
    }
}

impl Args {
    /// What the command does.
    pub fn exec(self, examples: &Vec<Example>) -> (res: Plan)
        ensures
            match self {
                Args::Make(m) => res matches Plan::Make(p) && exists|order: Seq<Seq<char>>|
                    plan_follows(m.names, examples@, order, p),
                Args::Clean(c) => res matches Plan::Clean(p) && clean_follows(c.names, p),
            },
    {
        match self {
            Args::Make(make_args) => Plan::Make(make_args.exec(examples)),
            Args::Clean(clean_args) => Plan::Clean(clean_args.exec()),
        }
    }
}

} // verus!
