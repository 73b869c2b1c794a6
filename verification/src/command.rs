//! External programs and the command lines that run them.
//!
//! A `Cmd` is the program to start and its arguments, as plain values; the caller starts it.

use vstd::prelude::*;
use crate::attr_path::{str_texts, texts};

verus! {

/// The external programs that are run.
#[derive(Clone, Copy, Debug, Eq, PartialEq, Structural)]
pub enum Program {
    Nix,
    NixInstantiate,
    NixDiff,
    Git,
    Jj,
}

impl Program {
    /// The name under which the program is looked up.
    pub open spec fn spec_name(self) -> Seq<char> {
        match self {
            Program::Nix => "nix"@,
            Program::NixInstantiate => "nix-instantiate"@,
            Program::NixDiff => "nix-diff"@,
            Program::Git => "git"@,
            Program::Jj => "jj"@,
        }
    }

    /// The name under which the program is looked up.
    pub fn name(self) -> (res: &'static str)
        ensures
            res@ == self.spec_name(),
    {
        match self {
            Program::Nix => "nix",
            Program::NixInstantiate => "nix-instantiate",
            Program::NixDiff => "nix-diff",
            Program::Git => "git",
            Program::Jj => "jj",
        }
    }
}

/// A program together with the arguments it is started with.
#[derive(Debug)]
pub struct Cmd {
    pub program: Program,
    pub args: Vec<String>,
}

/// The model of a command line.
pub struct CmdView {
    pub program: Program,
    pub args: Seq<Seq<char>>,
}

impl View for Cmd {
    type V = CmdView;

    open spec fn view(&self) -> CmdView {
        CmdView { program: self.program, args: texts(self.args@) }
    }
}

/// A command line of `program` with the given arguments.
pub open spec fn cmd_view(program: Program, args: Seq<Seq<char>>) -> CmdView {
    CmdView { program, args }
}

impl Cmd {
    /// A command that runs `program` without arguments.
    pub fn new(program: Program) -> (res: Self)
        ensures
            res@ == cmd_view(program, seq![]),
    {
        let res = Cmd { program, args: Vec::new() };
        assert(res@.args =~= Seq::<Seq<char>>::empty());
        res
    }

    /// A command that runs `nix`.
    pub fn nix() -> (res: Self)
        ensures
            res@ == cmd_view(Program::Nix, seq![]),
    {
        Cmd::new(Program::Nix)
    }

    /// A command that runs `nix-instantiate`.
    pub fn nix_instantiate() -> (res: Self)
        ensures
            res@ == cmd_view(Program::NixInstantiate, seq![]),
    {
        Cmd::new(Program::NixInstantiate)
    }

    /// A command that runs `git`.
    pub fn git() -> (res: Self)
        ensures
            res@ == cmd_view(Program::Git, seq![]),
    {
        Cmd::new(Program::Git)
    }

    /// A command that runs `jj`.
    pub fn jj() -> (res: Self)
        ensures
            res@ == cmd_view(Program::Jj, seq![]),
    {
        Cmd::new(Program::Jj)
    }

    /// A command that runs `nix-diff`.
    pub fn nix_diff() -> (res: Self)
        ensures
            res@ == cmd_view(Program::NixDiff, seq![]),
    {
        Cmd::new(Program::NixDiff)
    }

    /// Appends one argument.
    pub fn arg(&mut self, arg: &str)
        ensures
            final(self)@ == cmd_view(old(self)@.program, old(self)@.args.push(arg@)),
    {
        let ghost before = self.args@;
        self.args.push(arg.to_owned());
        assert(self.args@.drop_last() =~= before);
        assert(texts(self.args@) =~= texts(before).push(arg@));
    }

    /// Appends the arguments in order.
    pub fn args(&mut self, args: &[&str])
        ensures
            final(self)@ == cmd_view(old(self)@.program, old(self)@.args + str_texts(args@)),
    {
        let ghost start = self@.args;
        for i in 0..args.len()
            invariant
                self@.program == old(self)@.program,
                self@.args == start + str_texts(args@).take(i as int),
        {
            self.arg(args[i]);
            assert(str_texts(args@).take(i + 1) =~= str_texts(args@).take(i as int).push(
                args@[i as int]@,
            ));
        }
        assert(str_texts(args@).take(args@.len() as int) =~= str_texts(args@));
    }
}

} // verus!
