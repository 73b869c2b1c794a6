//! Attribute paths: parsing them from the command line, querying and displaying them.

use vstd::prelude::*;
use crate::source::Source;
use crate::styles::{push_styled, styled, ATTR_PATH, ATTR_PATH_NIXOS, ATTR_PATH_QUOTED};
use crate::text::{
    chars_of, closing_quote, is_whitespace, is_whitespace_char, lemma_closing_quote,
    lemma_closing_quote_at, push_char,
    push_str,
};

verus! {

/// An attribute path, possibly with a leading dot, possibly pointing into a NixOS configuration.
#[derive(Clone, Debug, Eq, Hash, PartialEq)]
pub struct AttrPath {
    pub parts: Vec<String>,
    pub leading_dot: bool,
    pub nixos: bool,
}

/// The mathematical model of an [`AttrPath`].
pub struct AttrPathView {
    pub parts: Seq<Seq<char>>,
    pub leading_dot: bool,
    pub nixos: bool,
}

/// The texts of a vector of strings.
pub open spec fn texts(v: Seq<String>) -> Seq<Seq<char>> {
    v.map_values(|s: String| s@)
}

/// The texts of a vector of string slices.
pub open spec fn str_texts(v: Seq<&str>) -> Seq<Seq<char>> {
    v.map_values(|s: &str| s@)
}

/// The models of a sequence of attribute paths.
pub open spec fn path_views(v: Seq<AttrPath>) -> Seq<AttrPathView> {
    v.map_values(|p: AttrPath| p@)
}

impl View for AttrPath {
    type V = AttrPathView;

    open spec fn view(&self) -> AttrPathView {
        AttrPathView { parts: texts(self.parts@), leading_dot: self.leading_dot, nixos: self.nixos }
    }
}

/// Errors in attribute paths given on the command line.
#[derive(Clone, Copy, Debug, Eq, PartialEq, Structural)]
pub enum ParseError {
    ConsecutiveDots,
    TrailingDot,
    NoClosingQuote,
}

/// Errors of [`AttrPath::from_cli_arg`].
#[derive(Clone, Copy, Debug, Eq, PartialEq, Structural)]
pub enum AttrPathArgError {
    Parse(ParseError),
    LeadingDotWithFile,
}

impl ParseError {
    /// The message shown to the user.
    pub fn message(&self) -> (res: &'static str)
        ensures
            res@ == match self {
                ParseError::ConsecutiveDots =>
                    "consecutive dots are not allowed in attribute paths (empty attribute names must be quoted)"@,
                ParseError::TrailingDot =>
                    "trailing dots are not allowed in attribute paths (empty attribute names must be quoted)"@,
                ParseError::NoClosingQuote => "missing closing quote in attribute path"@,
            },
    {
        match self {
            ParseError::ConsecutiveDots => {
                "consecutive dots are not allowed in attribute paths (empty attribute names must be quoted)"
            },
            ParseError::TrailingDot => {
                "trailing dots are not allowed in attribute paths (empty attribute names must be quoted)"
            },
            ParseError::NoClosingQuote => "missing closing quote in attribute path",
        }
    }
}

impl AttrPathArgError {
    /// The message shown to the user.
    pub fn message(&self) -> (res: &'static str)
        ensures
            res@ == match self {
                AttrPathArgError::Parse(e) => match e {
                    ParseError::ConsecutiveDots =>
                        "consecutive dots are not allowed in attribute paths (empty attribute names must be quoted)"@,
                    ParseError::TrailingDot =>
                        "trailing dots are not allowed in attribute paths (empty attribute names must be quoted)"@,
                    ParseError::NoClosingQuote => "missing closing quote in attribute path"@,
                },
                AttrPathArgError::LeadingDotWithFile =>
                    "attribute paths with leading dots cannot be used together with '--file'"@,
            },
    {
        match self {
            AttrPathArgError::Parse(e) => e.message(),
            AttrPathArgError::LeadingDotWithFile => {
                "attribute paths with leading dots cannot be used together with '--file'"
            },
        }
    }
}

/// The parts of an attribute path, read from `s[i..]` by a scanner that has already read
/// `parts` and the part `current` (`started` tells whether anything of it was read): dots
/// separate parts, text between double quotes is taken verbatim.
pub open spec fn scan_parts(
    s: Seq<char>,
    i: int,
    parts: Seq<Seq<char>>,
    current: Seq<char>,
    started: bool,
) -> Result<Seq<Seq<char>>, ParseError>
    decreases s.len() - i,
{
    if i < 0 || i >= s.len() {
        if started {
            Ok(parts.push(current))
        } else {
            Err(ParseError::TrailingDot)
        }
    } else if s[i] == '.' {
        if !started {
            Err(ParseError::ConsecutiveDots)
        } else {
            scan_parts(s, i + 1, parts.push(current), Seq::empty(), false)
        }
    } else if s[i] == '"' {
        match closing_quote(s, i + 1) {
            None => Err(ParseError::NoClosingQuote),
            Some(j) => {
                proof {
                    lemma_closing_quote(s, i + 1);
                }
                scan_parts(s, j + 1, parts, current + s.subrange(i + 1, j), true)
            },
        }
    } else {
        scan_parts(s, i + 1, parts, current.push(s[i]), true)
    }
}

/// The attribute path that a command-line argument denotes, or why it denotes none.
pub open spec fn parse_attr_path(s: Seq<char>) -> Result<AttrPathView, ParseError> {
    let leading_dot = s.len() > 0 && s[0] == '.';
    let rest = if leading_dot {
        s.drop_first()
    } else {
        s
    };
    if rest.len() == 0 {
        Ok(AttrPathView { parts: Seq::empty(), leading_dot, nixos: false })
    } else {
        match scan_parts(rest, 0, Seq::empty(), Seq::empty(), false) {
            Ok(parts) => Ok(AttrPathView { parts, leading_dot, nixos: false }),
            Err(e) => Err(e),
        }
    }
}

/// A part between double quotes.
pub open spec fn quoted(part: Seq<char>) -> Seq<char> {
    seq!['"'] + part + seq!['"']
}

/// The parts, each between double quotes, separated by dots.
pub open spec fn quoted_join(parts: Seq<Seq<char>>) -> Seq<char>
    decreases parts.len(),
{
    if parts.len() == 0 {
        Seq::empty()
    } else if parts.len() == 1 {
        quoted(parts[0])
    } else {
        quoted(parts[0]) + seq!['.'] + quoted_join(parts.drop_first())
    }
}

/// Scanning characters that are neither dots nor quotes adds them all to the current part,
/// which ends the path.
proof fn lemma_plain_scan(
    s: Seq<char>,
    i: int,
    parts: Seq<Seq<char>>,
    current: Seq<char>,
    started: bool,
)
    requires
        0 <= i <= s.len(),
        forall|j: int| i <= j < s.len() ==> s[j] != '.' && s[j] != '"',
        started || i < s.len(),
    ensures
        scan_parts(s, i, parts, current, started) == Ok::<Seq<Seq<char>>, ParseError>(
            parts.push(current + s.subrange(i, s.len() as int)),
        ),
    decreases s.len() - i,
{
    if i < s.len() {
        lemma_plain_scan(s, i + 1, parts, current.push(s[i]), true);
        assert(current.push(s[i]) + s.subrange(i + 1, s.len() as int) =~= current + s.subrange(
            i,
            s.len() as int,
        ));
    } else {
        assert(current + s.subrange(i, s.len() as int) =~= current);
    }
}

/// Scanning parts written between quotes and separated by dots reads those parts.
proof fn lemma_quoted_scan(s: Seq<char>, i: int, acc: Seq<Seq<char>>, ps: Seq<Seq<char>>)
    requires
        0 <= i <= s.len(),
        ps.len() > 0,
        s.subrange(i, s.len() as int) == quoted_join(ps),
        forall|k: int| 0 <= k < ps.len() ==> !(#[trigger] ps[k]).contains('"'),
    ensures
        scan_parts(s, i, acc, Seq::empty(), false) == Ok::<Seq<Seq<char>>, ParseError>(acc + ps),
    decreases ps.len(),
{
    let t = quoted_join(ps);
    let p = ps[0];
    let len = p.len() as int;
    let j = i + 1 + len;
    let rest = ps.drop_first();
    if ps.len() == 1 {
        assert(t == quoted(p));
    } else {
        assert(t == quoted(p) + seq!['.'] + quoted_join(rest));
    }
    let q = quoted(p);
    assert(q.len() == len + 2);
    assert(q[0] == '"');
    assert(q[len + 1] == '"');
    assert forall|m: int| 0 <= m < len implies q[m + 1] == p[m] by {}
    assert(t.len() >= len + 2);
    assert forall|k: int| 0 <= k < len + 2 implies t[k] == q[k] by {}
    assert(t.len() == s.len() - i);
    assert forall|k: int| 0 <= k < t.len() implies t[k] == s[i + k] by {
        assert(s.subrange(i, s.len() as int)[k] == s[i + k]);
    }
    assert(s[i] == '"');
    assert forall|m: int| i + 1 <= m < j implies s[m] != '"' by {
        assert(s[m] == t[m - i]);
        assert(t[m - i] == p[m - i - 1]);
        assert(!p.contains('"'));
    }
    assert(s[j] == t[len + 1]);
    lemma_closing_quote_at(s, i + 1, j);
    assert forall|m: int| 0 <= m < len implies s.subrange(i + 1, j)[m] == p[m] by {
        assert(s[i + 1 + m] == t[1 + m]);
    }
    assert(s.subrange(i + 1, j) =~= p);
    assert(Seq::<char>::empty() + s.subrange(i + 1, j) =~= p);
    assert(scan_parts(s, i, acc, Seq::empty(), false) == scan_parts(s, j + 1, acc, p, true));
    if ps.len() == 1 {
        assert(j + 1 == s.len());
        assert(acc + ps =~= acc.push(p));
    } else {
        assert(t[len + 2] == '.');
        assert(s[j + 1] == t[len + 2]);
        assert forall|k: int| 0 <= k < t.len() - (len + 3) implies t.subrange(len + 3, t.len() as int)[k]
            == quoted_join(rest)[k] by {}
        assert(scan_parts(s, j + 1, acc, p, true) == scan_parts(
            s,
            j + 2,
            acc.push(p),
            Seq::empty(),
            false,
        ));
        assert(s.subrange(j + 2, s.len() as int) =~= t.subrange(len + 3, t.len() as int));
        assert(t.subrange(len + 3, t.len() as int) =~= quoted_join(rest));
        assert forall|k: int| 0 <= k < rest.len() implies !(#[trigger] rest[k]).contains('"') by {
            assert(rest[k] == ps[k + 1]);
        }
        lemma_quoted_scan(s, j + 2, acc.push(p), rest);
        assert(acc.push(p) + rest =~= acc + ps);
    }
}

/// A part that needs no quotes, given alone, parses to the path of that one part.
pub proof fn law_plain_part_parses_to_itself(part: Seq<char>)
    requires
        !needs_quotes(part),
    ensures
        parse_attr_path(part) == Ok::<AttrPathView, ParseError>(
            AttrPathView { parts: seq![part], leading_dot: false, nixos: false },
        ),
{
    assert forall|j: int| 0 <= j < part.len() implies part[j] != '.' && part[j] != '"' by {
        if part[j] == '.' {
            assert(part.contains('.'));
        }
        if part[j] == '"' {
            assert(part.contains('"'));
        }
    }
    lemma_plain_scan(part, 0, Seq::empty(), Seq::empty(), false);
    assert(part.subrange(0, part.len() as int) =~= part);
    assert(Seq::<char>::empty() + part =~= part);
    assert(Seq::<Seq<char>>::empty().push(Seq::<char>::empty() + part.subrange(0, part.len() as int))
        =~= seq![part]);
}

/// Parts without double quotes, written each between double quotes and separated by dots,
/// after a dot where the path has a leading dot, parse back to those parts.
pub proof fn law_quoted_parts_parse_back(leading_dot: bool, parts: Seq<Seq<char>>)
    requires
        forall|k: int| 0 <= k < parts.len() ==> !(#[trigger] parts[k]).contains('"'),
    ensures
        parse_attr_path(
            (if leading_dot {
                seq!['.']
            } else {
                Seq::empty()
            }) + quoted_join(parts),
        ) == Ok::<AttrPathView, ParseError>(AttrPathView { parts, leading_dot, nixos: false }),
{
    let head: Seq<char> = if leading_dot {
        seq!['.']
    } else {
        Seq::empty()
    };
    let s = head + quoted_join(parts);
    let t = quoted_join(parts);
    if parts.len() == 0 {
        assert(t.len() == 0);
        assert(parts =~= Seq::<Seq<char>>::empty());
        if leading_dot {
            assert(s.drop_first() =~= t);
        } else {
            assert(s =~= t);
        }
    } else {
        if parts.len() == 1 {
            assert(t == quoted(parts[0]));
        } else {
            assert(t == quoted(parts[0]) + seq!['.'] + quoted_join(parts.drop_first()));
        }
        assert(t[0] == '"');
        if leading_dot {
            assert(s[0] == '.');
            assert(s.drop_first() =~= t);
        } else {
            assert(s =~= t);
        }
        assert(t.subrange(0, t.len() as int) =~= t);
        lemma_quoted_scan(t, 0, Seq::empty(), parts);
        assert(Seq::<Seq<char>>::empty() + parts =~= parts);
    }
}

/// Whether a part must be quoted when displayed.
pub open spec fn needs_quotes(part: Seq<char>) -> bool {
    part.len() == 0 || part.contains('.') || part.contains('"') || exists|i: int|
        0 <= i < part.len() && is_whitespace_char(#[trigger] part[i])
}

/// The attribute names appended to a NixOS configuration.
pub open spec fn nixos_suffix() -> Seq<Seq<char>> {
    seq!["config"@, "system"@, "build"@, "toplevel"@]
}

/// The attribute names to look up: the parts, then the NixOS suffix where it applies.
pub open spec fn base_query(p: AttrPathView) -> Seq<Seq<char>> {
    if p.nixos {
        p.parts + nixos_suffix()
    } else {
        p.parts
    }
}

/// How a part is displayed.
pub open spec fn part_text(part: Seq<char>) -> Seq<char> {
    if needs_quotes(part) {
        styled(ATTR_PATH_QUOTED, seq!['"'] + part + seq!['"'])
    } else {
        styled(ATTR_PATH, part)
    }
}

/// The displayed parts, separated by dots.
pub open spec fn parts_text(parts: Seq<Seq<char>>) -> Seq<char>
    decreases parts.len(),
{
    if parts.len() == 0 {
        Seq::empty()
    } else if parts.len() == 1 {
        part_text(parts[0])
    } else {
        parts_text(parts.drop_last()) + styled(ATTR_PATH, "."@) + part_text(parts.last())
    }
}

/// How an attribute path is displayed to the user.
pub open spec fn display_text(p: AttrPathView) -> Seq<char> {
    let head = if p.leading_dot {
        styled(ATTR_PATH, "."@)
    } else if p.parts.len() == 0 {
        styled(ATTR_PATH_QUOTED, "(empty)"@)
    } else {
        Seq::empty()
    };
    let tail = if p.nixos {
        seq![' '] + styled(ATTR_PATH_NIXOS, "(NixOS)"@)
    } else {
        Seq::empty()
    };
    head + parts_text(p.parts) + tail
}

/// The displayed width of a string, as `unicode_width` computes it.
pub uninterp spec fn str_width(s: Seq<char>) -> usize;

/// `UnicodeWidthStr::width` of `unicode_width`: the number of terminal columns the string
/// takes; the value comes from Unicode tables and is named by [`str_width`].
#[verifier::external_body]
fn unicode_str_width(s: &str) -> (res: usize)
    ensures
        res == str_width(s@),
{
    unicode_width::UnicodeWidthStr::width(s)
}

/// The width of each displayed part, quotes included.
pub open spec fn parts_width(parts: Seq<Seq<char>>) -> int
    decreases parts.len(),
{
    if parts.len() == 0 {
        0
    } else {
        parts_width(parts.drop_last()) + str_width(parts.last()) + if needs_quotes(parts.last()) {
            2int
        } else {
            0int
        }
    }
}

/// The width of the text that [`display_text`] shows, without the style codes.
pub open spec fn display_width_of(p: AttrPathView) -> int {
    let parts = if !p.leading_dot && p.parts.len() == 0 {
        7int
    } else {
        let num_dots = if p.parts.len() > 0 {
            p.parts.len() - 1
        } else {
            0int
        };
        num_dots + (if p.leading_dot {
            1int
        } else {
            0int
        }) + parts_width(p.parts)
    };
    parts + if p.nixos {
        8int
    } else {
        0int
    }
}

/// `a + b`, or the largest `usize` where that overflows.
pub open spec fn saturating(v: int) -> int {
    if v > usize::MAX {
        usize::MAX as int
    } else {
        v
    }
}

impl AttrPath {
    pub fn new(leading_dot: bool, parts: Vec<String>, nixos: bool) -> (res: Self)
        ensures
            res.parts == parts,
            res.leading_dot == leading_dot,
            res.nixos == nixos,
    {
        AttrPath { parts, leading_dot, nixos }
    }

    /// A copy of this path.
    pub fn duplicate(&self) -> (res: Self)
        ensures
            res@ == self@,
    {
        let mut parts: Vec<String> = Vec::new();
        for i in 0..self.parts.len()
            invariant
                texts(parts@) =~= texts(self.parts@).take(i as int),
        {
            let part = self.parts[i].clone();
            assert(texts(self.parts@).take(i + 1) =~= texts(self.parts@).take(i as int).push(
                part@,
            ));
            parts.push(part);
        }
        assert(texts(self.parts@).take(self.parts@.len() as int) =~= texts(self.parts@));
        AttrPath { parts, leading_dot: self.leading_dot, nixos: self.nixos }
    }

    /// Parses a command-line argument and checks that it suits the source: paths with a
    /// leading dot name flake outputs, so they cannot be used with a file.
    pub fn from_cli_arg(arg: &str, source: &Source, nixos: bool) -> (res: Result<
        Self,
        AttrPathArgError,
    >)
        ensures
            match parse_attr_path(arg@) {
                Err(e) => res == Err::<Self, AttrPathArgError>(AttrPathArgError::Parse(e)),
                Ok(p) => if p.leading_dot && source is File {
                    res == Err::<Self, AttrPathArgError>(AttrPathArgError::LeadingDotWithFile)
                } else {
                    res matches Ok(q) && q@ == AttrPathView { nixos, ..p }
                },
            },
    {
        let mut this = match Self::parse_cli_arg(arg) {
            Ok(this) => this,
            Err(e) => return Err(AttrPathArgError::Parse(e)),
        };
        this.nixos = nixos;
        if this.leading_dot && matches!(source, Source::File(_)) {
            return Err(AttrPathArgError::LeadingDotWithFile);
        }
        Ok(this)
    }

    /// The attribute names to look up in a file.
    pub fn file_query(&self) -> (res: Vec<&str>)
        ensures
            str_texts(res@) == base_query(self@),
    {
        self.base_query()
    }

    /// Whether the query is relative to the flake's outputs (rather than to the packages of
    /// the current system), and the attribute names to look up in the flake.
    pub fn flake_query(&self) -> (res: (bool, Vec<&str>))
        ensures
            res.0 == (self.leading_dot || self.nixos),
            str_texts(res.1@) == if self.nixos && !self.leading_dot {
                seq!["nixosConfigurations"@] + base_query(self@)
            } else {
                base_query(self@)
            },
    {
        let leading_dot = self.leading_dot || self.nixos;
        let query = if self.nixos && !self.leading_dot {
            let mut q: Vec<&str> = Vec::new();
            q.push("nixosConfigurations");
            let mut rest = self.base_query();
            q.append(&mut rest);
            assert(str_texts(q@) =~= seq!["nixosConfigurations"@] + base_query(self@));
            q
        } else {
            self.base_query()
        };
        (leading_dot, query)
    }

    /// The attribute names to look up: the parts, then the NixOS suffix where it applies.
    pub fn base_query(&self) -> (res: Vec<&str>)
        ensures
            str_texts(res@) == base_query(self@),
    {
        let mut res: Vec<&str> = Vec::new();
        for i in 0..self.parts.len()
            invariant
                str_texts(res@) =~= texts(self.parts@).take(i as int),
        {
            let part = self.parts[i].as_str();
            assert(texts(self.parts@).take(i + 1) =~= texts(self.parts@).take(i as int).push(
                part@,
            ));
            res.push(part);
        }
        assert(texts(self.parts@).take(self.parts@.len() as int) =~= texts(self.parts@));
        let ghost prefix = str_texts(res@);
        if self.nixos {
            res.push("config");
            res.push("system");
            res.push("build");
            res.push("toplevel");
            assert(str_texts(res@) =~= prefix + nixos_suffix());
        }
        res
    }

    /// Whether a part must be quoted when displayed.
    pub fn part_needs_quotes(part: &str) -> (res: bool)
        ensures
            res == needs_quotes(part@),
    {
        let chars = chars_of(part);
        if chars.len() == 0 {
            return true;
        }
        let mut i: usize = 0;
        while i < chars.len()
            invariant
                chars@ == part@,
                i <= chars@.len(),
                forall|j: int|
                    0 <= j < i ==> chars@[j] != '.' && chars@[j] != '"' && !is_whitespace_char(
                        #[trigger] chars@[j],
                    ),
            decreases chars.len() - i,
        {
            let c = chars[i];
            if c == '.' || c == '"' || is_whitespace(c) {
                assert(part@[i as int] == c);
                return true;
            }
            i = i + 1;
        }
        assert(!part@.contains('.'));
        assert(!part@.contains('"'));
        false
    }

    /// The number of terminal columns that [`AttrPath::display`] takes, style codes aside.
    pub fn display_width(&self) -> (res: usize)
        ensures
            res == saturating(display_width_of(self@)),
    {
        let parts_width: usize = if !self.leading_dot && self.parts.len() == 0 {
            7
        } else {
            let num_dots: usize = (if self.parts.len() > 0 {
                self.parts.len() - 1
            } else {
                0
            }) + if self.leading_dot {
                1
            } else {
                0
            };
            let mut sum: usize = num_dots;
            let ghost mut total: int = num_dots as int;
            for i in 0..self.parts.len()
                invariant
                    total == num_dots + parts_width(texts(self.parts@).take(i as int)),
                    sum == saturating(total),
            {
                let part = self.parts[i].as_str();
                let w = unicode_str_width(part);
                let q: usize = if Self::part_needs_quotes(part) {
                    2
                } else {
                    0
                };
                assert(texts(self.parts@).take(i + 1).drop_last() =~= texts(self.parts@).take(
                    i as int,
                ));
                proof {
                    total = total + w + q;
                }
                sum = sum.saturating_add(w).saturating_add(q);
            }
            assert(texts(self.parts@).take(self.parts@.len() as int) =~= texts(self.parts@));
            sum
        };
        let suffix_width: usize = if self.nixos {
            8
        } else {
            0
        };
        parts_width.saturating_add(suffix_width)
    }

    /// Renders the attribute path for the user, with styles.
    #[verifier::spinoff_prover]
    #[verifier::rlimit(40)]
    pub fn display(&self) -> (res: String)
        ensures
            res@ == display_text(self@),
    {
        let mut out = String::new();
        if self.leading_dot {
            push_styled(&mut out, ATTR_PATH, ".");
        } else if self.parts.len() == 0 {
            push_styled(&mut out, ATTR_PATH_QUOTED, "(empty)");
        }
        let ghost head = out@;
        for i in 0..self.parts.len()
            invariant
                out@ == head + parts_text(texts(self.parts@).take(i as int)),
        {
            if i > 0 {
                push_styled(&mut out, ATTR_PATH, ".");
            }
            let part = self.parts[i].as_str();
            if Self::part_needs_quotes(part) {
                let mut quoted = String::new();
                push_char(&mut quoted, '"');
                push_str(&mut quoted, part);
                push_char(&mut quoted, '"');
                push_styled(&mut out, ATTR_PATH_QUOTED, quoted.as_str());
            } else {
                push_styled(&mut out, ATTR_PATH, part);
            }
            assert(texts(self.parts@).take(i + 1).drop_last() =~= texts(self.parts@).take(
                i as int,
            ));
            assert(texts(self.parts@).take(i + 1).last() == part@);
            assert(texts(self.parts@).take(i + 1).len() == i + 1);
        }
        assert(texts(self.parts@).take(self.parts@.len() as int) =~= texts(self.parts@));
        if self.nixos {
            push_char(&mut out, ' ');
            push_styled(&mut out, ATTR_PATH_NIXOS, "(NixOS)");
        }
        out
    }

    /// Parses an attribute path as written on the command line: an optional leading dot, then
    /// parts separated by dots; text between double quotes is taken verbatim.
    pub fn parse_cli_arg(s: &str) -> (res: Result<Self, ParseError>)
        ensures
            match res {
                Ok(p) => parse_attr_path(s@) == Ok::<AttrPathView, ParseError>(p@),
                Err(e) => parse_attr_path(s@) == Err::<AttrPathView, ParseError>(e),
            },
    {
        let all = chars_of(s);
        let leading_dot = all.len() > 0 && all[0] == '.';
        let rest = if leading_dot {
            tail_from(&all, 1)
        } else {
            tail_from(&all, 0)
        };
        assert(all@.skip(0) =~= all@);
        if rest.len() == 0 {
            let res = Self::new(leading_dot, Vec::new(), false);
            assert(res@.parts =~= Seq::<Seq<char>>::empty());
            return Ok(res);
        }
        match scan_parts_exec(&rest) {
            Ok(parts) => Ok(Self::new(leading_dot, parts, false)),
            Err(e) => Err(e),
        }
    }
}

/// The elements of `v` from index `start` on.
fn tail_from(v: &Vec<char>, start: usize) -> (res: Vec<char>)
    requires
        start <= v@.len(),
    ensures
        res@ == v@.skip(start as int),
{
    let mut res: Vec<char> = Vec::new();
    let mut i = start;
    while i < v.len()
        invariant
            start <= i <= v@.len(),
            res@ == v@.subrange(start as int, i as int),
        decreases v.len() - i,
    {
        res.push(v[i]);
        assert(v@.subrange(start as int, i + 1) =~= v@.subrange(start as int, i as int).push(
            v@[i as int],
        ));
        i = i + 1;
    }
    assert(v@.subrange(start as int, v@.len() as int) =~= v@.skip(start as int));
    res
}

/// Appends the characters from `from` up to the next `"` to `current`, and returns the index
/// of that `"`, or `None` where there is none.
fn scan_quoted(s: &Vec<char>, from: usize, current: &mut String) -> (res: Option<usize>)
    requires
        from <= s@.len(),
    ensures
        match closing_quote(s@, from as int) {
            Some(j) => res == Some(j as usize) && final(current)@ == old(current)@ + s@.subrange(
                from as int,
                j,
            ),
            None => res is None,
        },
{
    let mut j = from;
    let ghost cur0 = current@;
    proof {
        lemma_closing_quote(s@, from as int);
    }
    while j < s.len() && s[j] != '"'
        invariant
            from <= j <= s@.len(),
            closing_quote(s@, from as int) == closing_quote(s@, j as int),
            current@ == cur0 + s@.subrange(from as int, j as int),
        decreases s.len() - j,
    {
        push_char(current, s[j]);
        assert(s@.subrange(from as int, j + 1) =~= s@.subrange(from as int, j as int).push(
            s@[j as int],
        ));
        j = j + 1;
    }
    if j == s.len() {
        None
    } else {
        Some(j)
    }
}

/// Executable form of [`scan_parts`] from the start of `s`.
fn scan_parts_exec(s: &Vec<char>) -> (res: Result<Vec<String>, ParseError>)
    ensures
        match res {
            Ok(parts) => scan_parts(s@, 0, Seq::empty(), Seq::empty(), false) == Ok::<
                Seq<Seq<char>>,
                ParseError,
            >(texts(parts@)),
            Err(e) => scan_parts(s@, 0, Seq::empty(), Seq::empty(), false) == Err::<
                Seq<Seq<char>>,
                ParseError,
            >(e),
        },
{
    let mut parts: Vec<String> = Vec::new();
    let mut current = String::new();
    let mut started = false;
    let mut i: usize = 0;
    assert(texts(parts@) =~= Seq::<Seq<char>>::empty());
    while i < s.len()
        invariant
            i <= s@.len(),
            scan_parts(s@, 0, Seq::empty(), Seq::empty(), false) == scan_parts(
                s@,
                i as int,
                texts(parts@),
                current@,
                started,
            ),
        decreases s.len() - i,
    {
        let c = s[i];
        if c == '.' {
            if !started {
                return Err(ParseError::ConsecutiveDots);
            }
            let ghost old_parts = texts(parts@);
            let done = current;
            current = String::new();
            parts.push(done);
            assert(texts(parts@) =~= old_parts.push(done@));
            started = false;
            i = i + 1;
        } else if c == '"' {
            match scan_quoted(s, i + 1, &mut current) {
                None => {
                    return Err(ParseError::NoClosingQuote);
                },
                Some(j) => {
                    proof {
                        lemma_closing_quote(s@, i + 1);
                    }
                    started = true;
                    i = j + 1;
                },
            }
        } else {
            started = true;
            push_char(&mut current, c);
            i = i + 1;
        }
    }
    if started {
        let ghost old_parts = texts(parts@);
        let done = current;
        parts.push(done);
        assert(texts(parts@) =~= old_parts.push(done@));
        Ok(parts)
    } else {
        Err(ParseError::TrailingDot)
    }
}

} // verus!
