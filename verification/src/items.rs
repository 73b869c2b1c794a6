//! The first form of the command line: pairs of items, each an attribute path in the flake of
//! the current directory or in a file, at a Git revision.

use vstd::prelude::*;
use vstd::string::StrSliceExecFns;
use crate::attr_path::texts;
use crate::styles::{push_in_style, styled_with, Color, TextStyle, Weight};
use crate::text::push_str;

verus! {

/// Where an attribute path is looked up.
#[derive(Clone, Debug, PartialEq, Eq)]
pub enum SourceType {
    /// The flake in the current directory.
    FlakeCurrentDir,
    /// A Nix file.
    File(String),
}

/// A revision as the user named it.
#[derive(Clone, Debug, PartialEq, Eq)]
pub enum GitRef {
    Ref(String),
    Worktree,
}

/// A revision as Git resolved it.
#[derive(Clone, Debug, PartialEq, Eq)]
pub enum GitRev {
    Rev { orig_ref: String, rev: String },
    Worktree,
}

/// An attribute path in a source at a revision.
#[derive(Clone, Debug, PartialEq, Eq)]
pub struct Item {
    pub source: SourceType,
    pub attr_path: String,
    pub git_rev: GitRev,
}

/// The two items compared: the old and the new one.
#[derive(Clone, Debug, PartialEq, Eq)]
pub struct ItemPair {
    pub old: Item,
    pub new: Item,
}

impl ItemPair {
    /// A pair of the old and the new item.
    pub fn new(old: Item, new: Item) -> (res: Self)
        ensures
            res.old == old,
            res.new == new,
    {
        ItemPair { old, new }
    }
}

impl Item {
    /// An item.
    pub fn new(source: SourceType, attr_path: String, git_rev: GitRev) -> (res: Self)
        ensures
            res.source == source,
            res.attr_path == attr_path,
            res.git_rev == git_rev,
    {
        Item { source, attr_path, git_rev }
    }
}

/// The path at which Git is asked to resolve a reference for a source: `.` for the flake in
/// the current directory, the file's path otherwise.
pub open spec fn path_in_repo(source: SourceType) -> Seq<char> {
    match source {
        SourceType::FlakeCurrentDir => "."@,
        SourceType::File(path) => path@,
    }
}

impl GitRef {
    /// The old side's revision: the one given; else the working tree where a left-hand item
    /// is given; else `HEAD`.
    pub fn old_from_args(old: Option<String>, lhs: &Option<String>) -> (res: Self)
        ensures
            old matches Some(o) ==> (res matches GitRef::Ref(r) && r == o),
            old is None && lhs is Some ==> res is Worktree,
            old is None && lhs is None ==> (res matches GitRef::Ref(r) && r@ == "HEAD"@),
    {
        match old {
            Some(old) => GitRef::Ref(old),
            None => match lhs {
                Some(_) => GitRef::Worktree,
                None => GitRef::Ref("HEAD".to_owned()),
            },
        }
    }

    /// The new side's revision: the one given, or the working tree.
    pub fn new_from_args(new: Option<String>) -> (res: Self)
        ensures
            new matches Some(n) ==> (res matches GitRef::Ref(r) && r == n),
            new is None ==> res is Worktree,
    {
        match new {
            Some(new) => GitRef::Ref(new),
            None => GitRef::Worktree,
        }
    }

    /// The revision that this reference names for `source`: the working tree as it is, or
    /// the commit that `resolve` gives for the reference and the path in the repository.
    pub fn resolve<E, F: Fn(&str, &str) -> Result<String, E>>(&self, source: &SourceType, resolve: &F) -> (res:
        Result<GitRev, E>)
        requires
            forall|r: &str, p: &str| resolve.requires((r, p)),
        ensures
            self is Worktree ==> res matches Ok(GitRev::Worktree),
            self matches GitRef::Ref(git_ref) ==> exists|r: &str, p: &str, out: Result<String, E>|
                r@ == git_ref@ && p@ == path_in_repo(*source) && resolve.ensures((r, p), out)
                    && match (out, res) {
                    (Ok(rev), Ok(GitRev::Rev { orig_ref, rev: got })) => orig_ref@ == git_ref@
                        && got == rev,
                    (Err(e1), Err(e2)) => e1 == e2,
                    _ => false,
                },
    {
        match self {
            GitRef::Worktree => Ok(GitRev::Worktree),
            GitRef::Ref(git_ref) => {
                let path: &str = match source {
                    SourceType::FlakeCurrentDir => ".",
                    SourceType::File(path) => path.as_str(),
                };
                let r = git_ref.as_str();
                let out = resolve(r, path);
                let ghost out0 = out;
                match out {
                    Ok(rev) => {
                        let res = Ok(GitRev::Rev { orig_ref: git_ref.clone(), rev });
                        assert(resolve.ensures((r, path), out0));
                        res
                    },
                    Err(e) => {
                        assert(resolve.ensures((r, path), out0));
                        Err(e)
                    },
                }
            },
        }
    }
}

/// The attribute paths compared where none are given: the outputs that Nix listed, as they
/// are for a file, and prefixed with `.#` for the flake in the current directory.
pub fn get_default_paths(file: &Option<String>, outputs: Vec<String>) -> (res: Vec<String>)
    ensures
        file is Some ==> res@ == outputs@,
        file is None ==> res@.len() == outputs@.len() && forall|i: int|
            0 <= i < outputs@.len() ==> #[trigger] res@[i]@ == ".#"@ + outputs@[i]@,
{
    match file {
        Some(_) => outputs,
        None => {
            let mut res: Vec<String> = Vec::new();
            for i in 0..outputs.len()
                invariant
                    res@.len() == i,
                    forall|j: int| 0 <= j < i ==> #[trigger] res@[j]@ == ".#"@ + outputs@[j]@,
            {
                let mut p = String::new();
                push_str(&mut p, ".#");
                push_str(&mut p, outputs[i].as_str());
                res.push(p);
            }
            res
        },
    }
}

/// Whether `path` can be given for the source: any path for a file, otherwise only `.#` and
/// an attribute path of the flake in the current directory.
pub open spec fn path_arg_supported(path: Seq<char>, file: Option<String>) -> bool {
    file is Some || (path.len() >= 2 && path.take(2) == ".#"@)
}

/// The source and the attribute path that a path argument names: for a file, the argument
/// itself; for the flake, what follows `.#`, under `nixosConfigurations.` for NixOS; for NixOS,
/// the top level of the configuration.
pub open spec fn parse_path_spec(path: Seq<char>, file: Option<String>, nixos: bool) -> (
    SourceType,
    Seq<char>,
) {
    let (source, attr) = match file {
        Some(f) => (SourceType::File(f), path),
        None => (SourceType::FlakeCurrentDir, if nixos {
            "nixosConfigurations."@ + path.skip(2)
        } else {
            path.skip(2)
        }),
    };
    (source, if nixos {
        attr + ".config.system.build.toplevel"@
    } else {
        attr
    })
}

/// The source and the attribute path that a path argument names.
pub fn parse_path(path: String, file: &Option<String>, nixos: bool) -> (res: (SourceType, String))
    requires
        path_arg_supported(path@, *file),
    ensures
        ({
            let (s, a) = parse_path_spec(path@, *file, nixos);
            &&& res.1@ == a
            &&& match (res.0, s) {
                (SourceType::FlakeCurrentDir, SourceType::FlakeCurrentDir) => true,
                (SourceType::File(x), SourceType::File(y)) => x@ == y@,
                _ => false,
            }
        }),
{
    let (source, mut attr_path) = match file {
        Some(f) => (SourceType::File(f.clone()), path),
        None => {
            proof {
                reveal_strlit(".#");
            }
            let mut attr_path = String::new();
            if nixos {
                push_str(&mut attr_path, "nixosConfigurations.");
            }
            let rest = path.as_str().substring_char(2, path.as_str().unicode_len());
            push_str(&mut attr_path, rest);
            assert(rest@ =~= path@.skip(2));
            (SourceType::FlakeCurrentDir, attr_path)
        },
    };
    if nixos {
        push_str(&mut attr_path, ".config.system.build.toplevel");
    }
    (source, attr_path)
}

/// A colour in the normal weight.
pub open spec fn plain(c: Color) -> TextStyle {
    TextStyle { fg: c, weight: Weight::Normal }
}

/// A bold colour.
pub open spec fn bold(c: Color) -> TextStyle {
    TextStyle { fg: c, weight: Weight::Bold }
}

/// How a revision is displayed: the reference in green and the commit, in yellow parentheses;
/// or the working tree in magenta.
pub open spec fn git_rev_text(r: GitRev) -> Seq<char> {
    match r {
        GitRev::Rev { orig_ref, rev } => styled_with(plain(Color::Yellow), "("@) + styled_with(
            plain(Color::Green),
            orig_ref@,
        ) + " "@ + rev@ + styled_with(plain(Color::Yellow), ")"@),
        GitRev::Worktree => styled_with(plain(Color::Magenta), "[worktree]"@),
    }
}

/// How an item is displayed: the source and attribute path, then the revision.
pub open spec fn item_text(item: Item) -> Seq<char> {
    let head = match item.source {
        SourceType::FlakeCurrentDir => styled_with(plain(Color::Blue), "."@) + styled_with(
            plain(Color::Cyan),
            "#"@ + item.attr_path@,
        ),
        SourceType::File(path) => styled_with(plain(Color::Yellow), "("@) + "-f "@ + styled_with(
            plain(Color::Blue),
            path@,
        ) + styled_with(plain(Color::Yellow), ")"@) + styled_with(
            plain(Color::Cyan),
            "."@ + item.attr_path@,
        ),
    };
    head + " "@ + git_rev_text(item.git_rev)
}

/// How a pair is displayed: the old item after a red `-`, the new one on the next line after
/// a green `+`.
pub open spec fn item_pair_text(pair: ItemPair) -> Seq<char> {
    styled_with(bold(Color::Red), "-"@) + " "@ + item_text(pair.old) + "\n"@ + styled_with(
        bold(Color::Green),
        "+"@,
    ) + " "@ + item_text(pair.new)
}

impl GitRev {
    /// Renders the revision for the user, with styles.
    pub fn display(&self) -> (res: String)
        ensures
            res@ == git_rev_text(*self),
    {
        let mut out = String::new();
        match self {
            GitRev::Rev { orig_ref, rev } => {
                push_in_style(&mut out, TextStyle { fg: Color::Yellow, weight: Weight::Normal }, "(");
                push_in_style(
                    &mut out,
                    TextStyle { fg: Color::Green, weight: Weight::Normal },
                    orig_ref.as_str(),
                );
                push_str(&mut out, " ");
                push_str(&mut out, rev.as_str());
                push_in_style(&mut out, TextStyle { fg: Color::Yellow, weight: Weight::Normal }, ")");
            },
            GitRev::Worktree => {
                push_in_style(
                    &mut out,
                    TextStyle { fg: Color::Magenta, weight: Weight::Normal },
                    "[worktree]",
                );
            },
        }
        out
    }
}

impl Item {
    /// Renders the item for the user, with styles.
    pub fn display(&self) -> (res: String)
        ensures
            res@ == item_text(*self),
    {
        let mut out = String::new();
        match &self.source {
            SourceType::FlakeCurrentDir => {
                push_in_style(&mut out, TextStyle { fg: Color::Blue, weight: Weight::Normal }, ".");
                let mut target = String::new();
                push_str(&mut target, "#");
                push_str(&mut target, self.attr_path.as_str());
                push_in_style(
                    &mut out,
                    TextStyle { fg: Color::Cyan, weight: Weight::Normal },
                    target.as_str(),
                );
            },
            SourceType::File(path) => {
                push_in_style(&mut out, TextStyle { fg: Color::Yellow, weight: Weight::Normal }, "(");
                push_str(&mut out, "-f ");
                push_in_style(
                    &mut out,
                    TextStyle { fg: Color::Blue, weight: Weight::Normal },
                    path.as_str(),
                );
                push_in_style(&mut out, TextStyle { fg: Color::Yellow, weight: Weight::Normal }, ")");
                let mut target = String::new();
                push_str(&mut target, ".");
                push_str(&mut target, self.attr_path.as_str());
                push_in_style(
                    &mut out,
                    TextStyle { fg: Color::Cyan, weight: Weight::Normal },
                    target.as_str(),
                );
            },
        }
        push_str(&mut out, " ");
        let rev = self.git_rev.display();
        push_str(&mut out, rev.as_str());
        out
    }
}

impl ItemPair {
    /// Renders the pair for the user, with styles.
    pub fn display(&self) -> (res: String)
        ensures
            res@ == item_pair_text(*self),
    {
        let mut out = String::new();
        push_in_style(&mut out, TextStyle { fg: Color::Red, weight: Weight::Bold }, "-");
        push_str(&mut out, " ");
        let old = self.old.display();
        push_str(&mut out, old.as_str());
        push_str(&mut out, "\n");
        push_in_style(&mut out, TextStyle { fg: Color::Green, weight: Weight::Bold }, "+");
        push_str(&mut out, " ");
        let new = self.new.display();
        push_str(&mut out, new.as_str());
        out
    }
}

/// The arguments of the first form of the command line.
#[derive(Clone, Debug)]
pub struct Cli {
    /// The revision of the old side.
    pub old: Option<String>,
    /// The revision of the new side.
    pub new: Option<String>,
    /// One path compared on the old side with every path on the new side.
    pub lhs: Option<String>,
    /// The paths to compare.
    pub paths: Vec<String>,
    /// The Nix file the paths are looked up in, rather than the flake.
    pub file: Option<String>,
    /// Whether the paths name NixOS configurations.
    pub nixos: bool,
}

/// The reference a side names, or `None` for the working tree: for the old side the given
/// one, the working tree where a left-hand path is given, and `HEAD` otherwise.
pub open spec fn old_ref_spec(old: Option<String>, lhs: Option<String>) -> Option<Seq<char>> {
    match old {
        Some(o) => Some(o@),
        None => if lhs is Some {
            None
        } else {
            Some("HEAD"@)
        },
    }
}

/// The reference the new side names, or `None` for the working tree.
pub open spec fn new_ref_spec(new: Option<String>) -> Option<Seq<char>> {
    match new {
        Some(n) => Some(n@),
        None => None,
    }
}

/// Whether two sources are the same.
pub open spec fn same_source(a: SourceType, b: SourceType) -> bool {
    match (a, b) {
        (SourceType::FlakeCurrentDir, SourceType::FlakeCurrentDir) => true,
        (SourceType::File(x), SourceType::File(y)) => x@ == y@,
        _ => false,
    }
}

/// Whether `rev` is what the reference `r` resolves to for `source`: the working tree as it
/// is, or the commit that `resolve` gave for the reference and the path in the repository.
pub open spec fn resolved_from<E, F: Fn(&str, &str) -> Result<String, E>>(
    rev: GitRev,
    r: Option<Seq<char>>,
    source: SourceType,
    resolve: F,
) -> bool {
    match r {
        None => rev is Worktree,
        Some(g) => match rev {
            GitRev::Rev { orig_ref, rev: got } => orig_ref@ == g && exists|a: &str, b: &str|
                a@ == g && b@ == path_in_repo(source) && resolve.ensures((a, b), Ok::<String, E>(got)),
            GitRev::Worktree => false,
        },
    }
}

/// Whether `item` is the path argument `path` at the revision that `r` resolves to.
pub open spec fn item_of<E, F: Fn(&str, &str) -> Result<String, E>>(
    item: Item,
    path: Seq<char>,
    args: Cli,
    r: Option<Seq<char>>,
    resolve: F,
) -> bool {
    let (source, attr) = parse_path_spec(path, args.file, args.nixos);
    &&& same_source(item.source, source)
    &&& item.attr_path@ == attr
    &&& resolved_from(item.git_rev, r, source, resolve)
}

/// Whether `pair` compares the path argument `path`: on the new side that path at the new
/// revision; on the old side the left-hand path where one is given, else the same path, at the
/// old revision.
pub open spec fn pair_of<E, F: Fn(&str, &str) -> Result<String, E>>(
    pair: ItemPair,
    path: Seq<char>,
    args: Cli,
    resolve: F,
) -> bool {
    &&& item_of(pair.new, path, args, new_ref_spec(args.new), resolve)
    &&& item_of(
        pair.old,
        match args.lhs {
            Some(l) => l@,
            None => path,
        },
        args,
        old_ref_spec(args.old, args.lhs),
        resolve,
    )
}

/// Whether `paths` are the paths compared: those given, or else the default ones that
/// `default_outputs` listed (prefixed with `.#` for the flake).
pub open spec fn paths_chosen<E, D: FnOnce(&Option<String>, bool) -> Result<Vec<String>, E>>(
    args: Cli,
    default_outputs: D,
    paths: Seq<Seq<char>>,
) -> bool {
    if args.paths@.len() > 0 {
        paths == texts(args.paths@)
    } else {
        exists|outputs: Vec<String>|
            default_outputs.ensures((&args.file, args.nixos), Ok::<Vec<String>, E>(outputs)) && paths
                == texts(outputs@).map_values(|o: Seq<char>| if args.file is Some {
                o
            } else {
                ".#"@ + o
            })
    }
}

/// The reference a [`GitRef`] names, or `None` for the working tree.
pub open spec fn ref_of(r: GitRef) -> Option<Seq<char>> {
    match r {
        GitRef::Ref(s) => Some(s@),
        GitRef::Worktree => None,
    }
}

impl SourceType {
    /// A copy of this source.
    pub fn duplicate(&self) -> (res: Self)
        ensures
            res == *self,
    {
        match self {
            SourceType::FlakeCurrentDir => SourceType::FlakeCurrentDir,
            SourceType::File(p) => SourceType::File(p.clone()),
        }
    }
}

impl GitRev {
    /// A copy of this revision.
    pub fn duplicate(&self) -> (res: Self)
        ensures
            res == *self,
    {
        match self {
            GitRev::Rev { orig_ref, rev } => GitRev::Rev { orig_ref: orig_ref.clone(), rev: rev.clone() },
            GitRev::Worktree => GitRev::Worktree,
        }
    }
}

impl Item {
    /// A copy of this item.
    pub fn duplicate(&self) -> (res: Self)
        ensures
            res == *self,
    {
        Item {
            source: self.source.duplicate(),
            attr_path: self.attr_path.clone(),
            git_rev: self.git_rev.duplicate(),
        }
    }
}

/// Whether `resolve` cannot fail: every outcome it may give is a commit.
pub open spec fn resolve_cannot_fail<E, F: Fn(&str, &str) -> Result<String, E>>(resolve: F) -> bool {
    forall|a: &str, b: &str, out: Result<String, E>| #[trigger] resolve.ensures((a, b), out) ==> out is Ok
}

/// Whether `e` is an error that `resolve` may give.
pub open spec fn resolve_may_fail_with<E, F: Fn(&str, &str) -> Result<String, E>>(resolve: F, e: E) -> bool {
    exists|a: &str, b: &str| #[trigger] resolve.ensures((a, b), Err::<String, E>(e))
}

/// Whether listing the default outputs for `args` cannot fail.
pub open spec fn outputs_cannot_fail<E, D: FnOnce(&Option<String>, bool) -> Result<Vec<String>, E>>(
    default_outputs: D,
    args: Cli,
) -> bool {
    forall|out: Result<Vec<String>, E>|
        #[trigger] default_outputs.ensures((&args.file, args.nixos), out) ==> out is Ok
}

/// The two sides' items for `path`.
fn make_pair<E, F: Fn(&str, &str) -> Result<String, E>>(
    path: String,
    args: &Cli,
    common_lhs: &Option<Item>,
    old_ref: &GitRef,
    new_ref: &GitRef,
    resolve: &F,
) -> (res: Result<ItemPair, E>)
    requires
        path_arg_supported(path@, args.file),
        forall|r: &str, p: &str| resolve.requires((r, p)),
        ref_of(*old_ref) == old_ref_spec(args.old, args.lhs),
        ref_of(*new_ref) == new_ref_spec(args.new),
        args.lhs matches Some(l) ==> (*common_lhs matches Some(c) && item_of(
            c,
            l@,
            *args,
            old_ref_spec(args.old, args.lhs),
            *resolve,
        )),
        args.lhs is None ==> common_lhs is None,
    ensures
        res matches Ok(pair) ==> pair_of(pair, path@, *args, *resolve),
        resolve_cannot_fail(*resolve) ==> res is Ok,
        res matches Err(e) ==> resolve_may_fail_with(*resolve, e),
        *common_lhs matches Some(c) ==> (res matches Ok(pair) ==> pair.old == c),
{
    let ghost path_text = path@;
    let (source, attr_path) = parse_path(path, &args.file, args.nixos);
    let lhs = match common_lhs {
        Some(lhs) => lhs.duplicate(),
        None => {
            let rev = match old_ref.resolve(&source, resolve) {
                Ok(rev) => rev,
                Err(e) => {
                    return Err(e);
                },
            };
            Item::new(source.duplicate(), attr_path.clone(), rev)
        },
    };
    let rhs_rev = match new_ref.resolve(&source, resolve) {
        Ok(rev) => rev,
        Err(e) => {
            return Err(e);
        },
    };
    let rhs = Item::new(source, attr_path, rhs_rev);
    Ok(ItemPair::new(lhs, rhs))
}

impl ItemPair {
    /// The pairs to compare: for each path (those given, or else the default ones that
    /// `default_outputs` lists), the path at the new revision against the left-hand path, or
    /// else the same path, at the old revision; `resolve` gives the commit of a reference and a
    /// path in the repository. The first error of either ends the work.
    pub fn from_args<E, D, F>(args: Cli, default_outputs: D, resolve: &F) -> (res: Result<Vec<ItemPair>, E>) where
        D: FnOnce(&Option<String>, bool) -> Result<Vec<String>, E>,
        F: Fn(&str, &str) -> Result<String, E>,

        requires
            default_outputs.requires((&args.file, args.nixos)),
            forall|r: &str, p: &str| resolve.requires((r, p)),
            forall|i: int|
                0 <= i < args.paths@.len() ==> path_arg_supported(#[trigger] args.paths@[i]@, args.file),
            args.lhs matches Some(l) ==> path_arg_supported(l@, args.file),
        ensures
            resolve_cannot_fail(*resolve) && (args.paths@.len() == 0 ==> outputs_cannot_fail(
                default_outputs,
                args,
            )) ==> res is Ok,
            res matches Err(e) ==> resolve_may_fail_with(*resolve, e) || (args.paths@.len() == 0
                && default_outputs.ensures((&args.file, args.nixos), Err::<Vec<String>, E>(e))),
            res matches Ok(pairs) ==> (args.lhs is Some ==> forall|i: int, j: int|
                0 <= i < pairs@.len() && 0 <= j < pairs@.len() ==> #[trigger] pairs@[i].old
                    == #[trigger] pairs@[j].old),
            res matches Ok(pairs) ==> exists|paths: Seq<Seq<char>>|
                paths_chosen(args, default_outputs, paths) && pairs@.len() == paths.len() && forall|i: int|
                    0 <= i < paths.len() ==> pair_of(#[trigger] pairs@[i], paths[i], args, *resolve),
    {
        let old_ref = GitRef::old_from_args(args.old.clone(), &args.lhs);
        let new_ref = GitRef::new_from_args(args.new.clone());
        let ghost chosen: Seq<Seq<char>>;
        let paths: Vec<String> = if args.paths.len() == 0 {
            let outputs = match default_outputs(&args.file, args.nixos) {
                Ok(outputs) => outputs,
                Err(e) => {
                    return Err(e);
                },
            };
            let ghost outs = outputs;
            let paths = get_default_paths(&args.file, outputs);
            proof {
                chosen = texts(paths@);
                assert(chosen =~= texts(outs@).map_values(|o: Seq<char>| if args.file is Some {
                    o
                } else {
                    ".#"@ + o
                }));
                assert(paths_chosen(args, default_outputs, chosen));
                assert forall|i: int| 0 <= i < paths@.len() implies path_arg_supported(
                    #[trigger] paths@[i]@,
                    args.file,
                ) by {
                    reveal_strlit(".#");
                    if args.file is None {
                        assert(paths@[i]@ == ".#"@ + outs@[i]@);
                        assert((".#"@ + outs@[i]@).take(2) =~= ".#"@);
                    }
                }
            }
            paths
        } else {
            proof {
                chosen = texts(args.paths@);
            }
            let paths = args.paths.clone();
            assert(paths@ == args.paths@);
            paths
        };
        assert(texts(paths@) == chosen);
        assert(paths_chosen(args, default_outputs, chosen));
        let common_lhs: Option<Item> = match &args.lhs {
            Some(lhs) => {
                let (source, attr_path) = parse_path(lhs.clone(), &args.file, args.nixos);
                let rev = match old_ref.resolve(&source, resolve) {
                    Ok(rev) => rev,
                    Err(e) => {
                        return Err(e);
                    },
                };
                Some(Item::new(source, attr_path, rev))
            },
            None => None,
        };
        let mut pairs: Vec<ItemPair> = Vec::new();
        let mut k: usize = 0;
        while k < paths.len()
            invariant
                k <= paths@.len(),
                pairs@.len() == k,
                texts(paths@) == chosen,
                forall|r: &str, p: &str| resolve.requires((r, p)),
                forall|i: int| 0 <= i < paths@.len() ==> path_arg_supported(#[trigger] paths@[i]@, args.file),
                ref_of(old_ref) == old_ref_spec(args.old, args.lhs),
                ref_of(new_ref) == new_ref_spec(args.new),
                args.lhs matches Some(l) ==> (common_lhs matches Some(c) && item_of(
                    c,
                    l@,
                    args,
                    old_ref_spec(args.old, args.lhs),
                    *resolve,
                )),
                args.lhs is None ==> common_lhs is None,
                forall|i: int| 0 <= i < k ==> pair_of(#[trigger] pairs@[i], chosen[i], args, *resolve),
                common_lhs matches Some(c) ==> forall|i: int| 0 <= i < k ==> #[trigger] pairs@[i].old == c,
            decreases paths.len() - k,
        {
            let pair = match make_pair(paths[k].clone(), &args, &common_lhs, &old_ref, &new_ref, resolve) {
                Ok(pair) => pair,
                Err(e) => {
                    return Err(e);
                },
            };
            let ghost before = pairs@;
            pairs.push(pair);
            assert(common_lhs matches Some(c) ==> forall|i: int| 0 <= i < k + 1 ==> #[trigger] pairs@[i].old == c) by {
                if common_lhs is Some {
                    assert forall|i: int| 0 <= i < k + 1 implies #[trigger] pairs@[i].old == common_lhs->0 by {
                        if i < k {
                            assert(pairs@[i] == before[i]);
                        }
                    }
                }
            }
            assert forall|i: int| 0 <= i < k + 1 implies pair_of(#[trigger] pairs@[i], chosen[i], args, *resolve) by {
                if i < k {
                    assert(pairs@[i] == before[i]);
                } else {
                    assert(chosen[i] == paths@[i]@);
                }
            }
            k = k + 1;
        }
        assert(paths_chosen(args, default_outputs, chosen) && pairs@.len() == chosen.len()
            && forall|i: int| 0 <= i < chosen.len() ==> pair_of(#[trigger] pairs@[i], chosen[i], args, *resolve));
        Ok(pairs)
    }
}

} // verus!
