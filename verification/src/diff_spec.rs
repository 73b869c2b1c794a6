//! What is to be compared: the source, the repository, the two revisions and the attribute
//! paths; and how that is shown to the user.

use vstd::prelude::*;
use crate::attr_path::{display_text, path_views, texts, AttrPath, AttrPathView};
use crate::display::{args_text, display_command_args};
use crate::attr_path::str_texts;
use crate::source::Source;
use crate::styles::{push_styled, styled, HEADER, IMPURE, SOURCE};
use crate::summary::spaces;
use crate::text::{push_char, push_str};
use crate::vcs::{revision_text, Repository, Revision};

verus! {

/// Program used to compare derivations.
#[derive(Clone, Copy, Debug, Eq, PartialEq, Structural)]
pub enum DiffTool {
    /// Do not diff the derivations, only check if they are identical.
    NoTool,
    /// Use nix-diff to compare derivations.
    NixDiff,
}

/// Everything that a run compares.
#[derive(Debug)]
pub struct DiffSpec {
    pub source: Source,
    pub repo: Repository,
    pub from: Revision,
    pub to: Revision,
    pub impure: bool,
    pub tool: DiffTool,
    pub tool_extra_args: Vec<String>,
    pub base: Option<AttrPath>,
    pub attr_paths: Vec<AttrPath>,
}

/// A header label: the name and a colon in bold, padded to at least five columns.
pub open spec fn header_text(name: Seq<char>) -> Seq<char> {
    styled(HEADER, name + ":"@) + spaces(
        if name.len() < 5 {
            5 - name.len()
        } else {
            0
        },
    )
}

/// The line that names the source.
pub open spec fn source_line(source: Source, impure: bool) -> Seq<char> {
    match source {
        Source::Flake(path) => header_text("Flake"@) + " "@ + styled(SOURCE, path.spec_str()) + (
        if impure {
            " "@ + styled(IMPURE, "(impure)"@)
        } else {
            Seq::empty()
        }) + "\n"@,
        Source::File(path) => header_text("File"@) + " "@ + styled(SOURCE, path@) + "\n"@,
    }
}

/// The command that compares derivations, with its arguments, if there is one.
pub open spec fn tool_command(tool: DiffTool, extra: Seq<Seq<char>>) -> Option<Seq<Seq<char>>> {
    match tool {
        DiffTool::NoTool => None,
        DiffTool::NixDiff => Some(seq!["nix-diff"@] + extra),
    }
}

/// The listed attribute paths, each on a line of its own.
pub open spec fn paths_lines(paths: Seq<AttrPathView>) -> Seq<char>
    decreases paths.len(),
{
    if paths.len() == 0 {
        Seq::empty()
    } else {
        paths_lines(paths.drop_last()) + "  "@ + display_text(paths.last()) + "\n"@
    }
}

/// How the comparison is described to the user before it runs.
pub open spec fn diff_spec_text(spec: DiffSpec) -> Seq<char> {
    source_line(spec.source, spec.impure) + header_text("Repo"@) + " "@ + spec.repo.spec_root()
        + "\n"@ + header_text("From"@) + " "@ + revision_text(spec.from) + "\n"@
        + header_text("To"@) + " "@ + revision_text(spec.to) + "\n"@
        + tool_line(spec.tool, texts(spec.tool_extra_args@)) + base_line(spec.base)
        + header_text("Attribute paths"@) + "\n"@ + paths_lines(path_views(spec.attr_paths@))
}

/// Appends a header label.
fn push_header(out: &mut String, name: &str)
    ensures
        final(out)@ == old(out)@ + header_text(name@),
{
    let mut label = String::new();
    push_str(&mut label, name);
    push_str(&mut label, ":");
    push_styled(out, HEADER, label.as_str());
    let len = name.unicode_len();
    let pad: usize = if len < 5 {
        5 - len
    } else {
        0
    };
    let ghost before = out@;
    let mut i: usize = 0;
    while i < pad
        invariant
            i <= pad,
            out@ == before + spaces(i as int),
        decreases pad - i,
    {
        push_char(out, ' ');
        assert(spaces(i + 1) =~= spaces(i as int).push(' '));
        i = i + 1;
    }
}

/// The tool line of the description, if a tool compares the derivations.
pub open spec fn tool_line(tool: DiffTool, extra: Seq<Seq<char>>) -> Seq<char> {
    match tool_command(tool, extra) {
        Some(args) => header_text("Tool"@) + " "@ + args_text(args) + "\n"@,
        None => Seq::empty(),
    }
}

/// The base line of the description, if there is a base attribute path.
pub open spec fn base_line(base: Option<AttrPath>) -> Seq<char> {
    match base {
        Some(b) => header_text("Base"@) + " "@ + display_text(b@) + "\n"@,
        None => Seq::empty(),
    }
}

/// Appends the line that names the source.
fn push_source_line(out: &mut String, source: &Source, impure: bool)
    ensures
        final(out)@ == old(out)@ + source_line(*source, impure),
{
    match source {
        Source::Flake(flake_path) => {
            push_header(out, "Flake");
            push_str(out, " ");
            push_styled(out, SOURCE, flake_path.as_str());
            if impure {
                push_str(out, " ");
                push_styled(out, IMPURE, "(impure)");
            }
            push_str(out, "\n");
        },
        Source::File(path) => {
            push_header(out, "File");
            push_str(out, " ");
            push_styled(out, SOURCE, path.as_str());
            push_str(out, "\n");
        },
    }
}

/// Appends the tool line, if a tool compares the derivations.
fn push_tool_line(out: &mut String, tool: DiffTool, extra: &Vec<String>)
    ensures
        final(out)@ == old(out)@ + tool_line(tool, texts(extra@)),
{
    match tool {
        DiffTool::NoTool => {},
        DiffTool::NixDiff => {
            let mut args: Vec<&str> = Vec::new();
            args.push("nix-diff");
            for i in 0..extra.len()
                invariant
                    str_texts(args@) =~= seq!["nix-diff"@] + texts(extra@).take(i as int),
            {
                let arg = extra[i].as_str();
                let ghost before = args@;
                args.push(arg);
                assert(args@.drop_last() =~= before);
                assert(str_texts(args@) =~= str_texts(before).push(arg@));
                assert(texts(extra@).take(i + 1) =~= texts(extra@).take(i as int).push(arg@));
            }
            assert(texts(extra@).take(extra@.len() as int) =~= texts(extra@));
            push_header(out, "Tool");
            push_str(out, " ");
            let command = display_command_args(args.as_slice());
            push_str(out, command.as_str());
            push_str(out, "\n");
        },
    }
}

/// Appends the base line, if there is a base attribute path.
fn push_base_line(out: &mut String, base: &Option<AttrPath>)
    ensures
        final(out)@ == old(out)@ + base_line(*base),
{
    match base {
        Some(b) => {
            push_header(out, "Base");
            push_str(out, " ");
            let text = b.display();
            push_str(out, text.as_str());
            push_str(out, "\n");
        },
        None => {},
    }
}

/// Appends each attribute path on a line of its own.
fn push_paths_lines(out: &mut String, paths: &Vec<AttrPath>)
    ensures
        final(out)@ == old(out)@ + paths_lines(path_views(paths@)),
{
    let ghost head = out@;
    for i in 0..paths.len()
        invariant
            out@ == head + paths_lines(path_views(paths@).take(i as int)),
    {
        push_str(out, "  ");
        let text = paths[i].display();
        push_str(out, text.as_str());
        push_str(out, "\n");
        assert(path_views(paths@).take(i + 1).drop_last() =~= path_views(paths@).take(i as int));
    }
    assert(path_views(paths@).take(paths@.len() as int) =~= path_views(paths@));
}

impl DiffSpec {
    /// Describes the comparison for the user, with styles.
    pub fn display(&self) -> (res: String)
        ensures
            res@ == diff_spec_text(*self),
    {
        let mut out = String::new();
        push_source_line(&mut out, &self.source, self.impure);
        push_header(&mut out, "Repo");
        push_str(&mut out, " ");
        push_str(&mut out, self.repo.root());
        push_str(&mut out, "\n");
        push_header(&mut out, "From");
        push_str(&mut out, " ");
        let from = self.from.display();
        push_str(&mut out, from.as_str());
        push_str(&mut out, "\n");
        push_header(&mut out, "To");
        push_str(&mut out, " ");
        let to = self.to.display();
        push_str(&mut out, to.as_str());
        push_str(&mut out, "\n");
        push_tool_line(&mut out, self.tool, &self.tool_extra_args);
        push_base_line(&mut out, &self.base);
        push_header(&mut out, "Attribute paths");
        push_str(&mut out, "\n");
        push_paths_lines(&mut out, &self.attr_paths);
        assert(out@ =~= diff_spec_text(*self));
        out
    }
}

} // verus!
