//! Glob patterns over attribute paths: parsing them from the command line and displaying them.

use vstd::prelude::*;
use crate::source::Source;
use crate::styles::{
    push_styled, styled, PATTERN, PATTERN_BRACKET_EXPR, PATTERN_BRACKET_EXPR_NEGATED,
    PATTERN_EMPTY, PATTERN_QUESTION_MARK, PATTERN_QUOTED, PATTERN_STAR,
};
use crate::text::{
    chars_of, closing_quote, is_whitespace, is_whitespace_char, lemma_closing_quote,
    lemma_closing_quote_at, push_char, push_str,
};

verus! {

/// A glob pattern: parts separated by dots, possibly with a leading dot.
#[derive(Clone, Debug, Eq, PartialEq)]
pub struct Pattern {
    pub parts: Vec<Part>,
    pub leading_dot: bool,
}

/// One dot-separated part of a pattern.
#[derive(Clone, Debug, Eq, PartialEq)]
pub struct Part {
    pub segments: Vec<Segment>,
}

#[derive(Clone, Debug, Eq, PartialEq)]
pub enum Segment {
    /// A literal string, matches itself.
    Literal(String),
    /// `?`, matches any single character.
    QuestionMark,
    /// `*`, matches any sequence of characters.
    Star,
    /// `[...]`, matches any single character from the set defined inside the brackets.
    BracketExpr(BracketExpr),
}

/// `[...]`, matches any single character from the set defined inside the brackets.
///
/// The syntax is that of bracket expressions in extended POSIX regular expressions, except
/// that both `^` and `!` invert the matching behavior when used as the first character
/// following the opening bracket.
#[derive(Clone, Debug, Eq, PartialEq)]
pub struct BracketExpr {
    /// Whether the expression starts with `^` or `!`.
    pub negated: bool,
    /// The contents of the bracket expression, after the optional leading `^` or `!`.
    pub content: String,
}

/// The model of a [`Segment`].
pub enum SegmentView {
    Literal(Seq<char>),
    QuestionMark,
    Star,
    Bracket(bool, Seq<char>),
}

/// The model of a [`Pattern`].
pub struct PatternView {
    pub parts: Seq<Seq<SegmentView>>,
    pub leading_dot: bool,
}

impl View for Segment {
    type V = SegmentView;

    open spec fn view(&self) -> SegmentView {
        match self {
            Segment::Literal(s) => SegmentView::Literal(s@),
            Segment::QuestionMark => SegmentView::QuestionMark,
            Segment::Star => SegmentView::Star,
            Segment::BracketExpr(b) => SegmentView::Bracket(b.negated, b.content@),
        }
    }
}

/// The models of a sequence of segments.
pub open spec fn segments_view(v: Seq<Segment>) -> Seq<SegmentView> {
    v.map_values(|s: Segment| s@)
}

impl View for Part {
    type V = Seq<SegmentView>;

    open spec fn view(&self) -> Seq<SegmentView> {
        segments_view(self.segments@)
    }
}

/// The models of a sequence of parts.
pub open spec fn parts_view(v: Seq<Part>) -> Seq<Seq<SegmentView>> {
    v.map_values(|p: Part| p@)
}

impl View for Pattern {
    type V = PatternView;

    open spec fn view(&self) -> PatternView {
        PatternView { parts: parts_view(self.parts@), leading_dot: self.leading_dot }
    }
}

/// Errors in glob patterns.
#[derive(Clone, Copy, Debug, Eq, PartialEq, Structural)]
pub enum ParseError {
    ConsecutiveDots,
    TrailingDot,
    NoClosingQuote,
    ConsecutiveStars,
    UnclosedBracketExpr,
    UnclosedCharacterClass,
    UnclosedEquivalenceClass,
    UnclosedCollatingSymbol,
}

/// Errors of [`Pattern::from_cli_arg`].
#[derive(Clone, Copy, Debug, Eq, PartialEq, Structural)]
pub enum PatternArgError {
    Parse(ParseError),
    LeadingDotWithFile,
}

/// The message of each parse error.
pub open spec fn error_message(e: ParseError) -> Seq<char> {
    match e {
        ParseError::ConsecutiveDots =>
            "consecutive dots are not allowed in attribute paths (empty attribute names must be quoted)"@,
        ParseError::TrailingDot =>
            "trailing dots are not allowed in attribute paths (empty attribute names must be quoted)"@,
        ParseError::NoClosingQuote => "missing closing quote in attribute path"@,
        ParseError::ConsecutiveStars =>
            "consecutive wildcards are not allowed in glob patterns (the `**` pattern is not supported)"@,
        ParseError::UnclosedBracketExpr => "missing closing `]` in pattern"@,
        ParseError::UnclosedCharacterClass =>
            "missing closing `:]` for a character class inside a bracket expression"@,
        ParseError::UnclosedEquivalenceClass =>
            "missing closing `=]` for an equivalence class inside a bracket expression"@,
        ParseError::UnclosedCollatingSymbol =>
            "missing closing `.]` for a collating symbol inside a bracket expression"@,
    }
}

impl PatternArgError {
    /// The message shown to the user.
    pub fn message(&self) -> (res: &'static str)
        ensures
            res@ == match self {
                PatternArgError::Parse(e) => error_message(*e),
                PatternArgError::LeadingDotWithFile =>
                    "attribute paths with leading dots cannot be used together with '--file'"@,
            },
    {
        match self {
            PatternArgError::Parse(e) => e.message(),
            PatternArgError::LeadingDotWithFile => {
                "attribute paths with leading dots cannot be used together with '--file'"
            },
        }
    }
}

impl ParseError {
    /// The message shown to the user.
    pub fn message(&self) -> (res: &'static str)
        ensures
            res@ == error_message(*self),
    {
        match self {
            ParseError::ConsecutiveDots => {
                "consecutive dots are not allowed in attribute paths (empty attribute names must be quoted)"
            },
            ParseError::TrailingDot => {
                "trailing dots are not allowed in attribute paths (empty attribute names must be quoted)"
            },
            ParseError::NoClosingQuote => "missing closing quote in attribute path",
            ParseError::ConsecutiveStars => {
                "consecutive wildcards are not allowed in glob patterns (the `**` pattern is not supported)"
            },
            ParseError::UnclosedBracketExpr => "missing closing `]` in pattern",
            ParseError::UnclosedCharacterClass => {
                "missing closing `:]` for a character class inside a bracket expression"
            },
            ParseError::UnclosedEquivalenceClass => {
                "missing closing `=]` for an equivalence class inside a bracket expression"
            },
            ParseError::UnclosedCollatingSymbol => {
                "missing closing `.]` for a collating symbol inside a bracket expression"
            },
        }
    }
}

// ---------------------------------------------------------------------------------------------
// The grammar, as functions on character sequences and positions in them.
/// The position just after the first occurrence of `a` followed by `]` at or after `k`.
pub open spec fn after_pair(s: Seq<char>, k: int, a: char) -> Option<int>
    decreases s.len() - k,
{
    if k < 0 || k + 1 >= s.len() {
        None
    } else if s[k] == a && s[k + 1] == ']' {
        Some(k + 2)
    } else {
        after_pair(s, k + 1, a)
    }
}

pub proof fn lemma_after_pair(s: Seq<char>, k: int, a: char)
    requires
        0 <= k,
    ensures
        after_pair(s, k, a) matches Some(e) ==> k + 2 <= e <= s.len(),
    decreases s.len() - k,
{
    if k + 1 < s.len() && !(s[k] == a && s[k + 1] == ']') {
        lemma_after_pair(s, k + 1, a);
    }
}

/// Whether `c` opens a class inside a bracket expression when it follows `[`.
pub open spec fn is_class_char(c: char) -> bool {
    c == '.' || c == '=' || c == ':'
}

/// The error for a class opened by `c` and never closed.
pub open spec fn unclosed_class_error(c: char) -> ParseError {
    if c == '.' {
        ParseError::UnclosedCollatingSymbol
    } else if c == '=' {
        ParseError::UnclosedEquivalenceClass
    } else {
        ParseError::UnclosedCharacterClass
    }
}

/// The position of the `]` that closes a bracket expression whose contents are scanned from
/// `i` on; `[.`, `[=` and `[:` open classes that end at `.]`, `=]` and `:]`.
pub open spec fn bracket_close(s: Seq<char>, i: int) -> Result<int, ParseError>
    decreases s.len() - i,
{
    if i < 0 || i >= s.len() {
        Err(ParseError::UnclosedBracketExpr)
    } else if s[i] == ']' {
        Ok(i)
    } else if s[i] == '[' && i + 1 < s.len() && is_class_char(s[i + 1]) {
        match after_pair(s, i + 2, s[i + 1]) {
            None => Err(unclosed_class_error(s[i + 1])),
            Some(e) => {
                proof {
                    lemma_after_pair(s, i + 2, s[i + 1]);
                }
                bracket_close(s, e)
            },
        }
    } else {
        bracket_close(s, i + 1)
    }
}

pub proof fn lemma_bracket_close(s: Seq<char>, i: int)
    requires
        0 <= i,
    ensures
        bracket_close(s, i) matches Ok(c) ==> i <= c < s.len() && s[c] == ']',
    decreases s.len() - i,
{
    if 0 <= i < s.len() && s[i] != ']' {
        if s[i] == '[' && i + 1 < s.len() && is_class_char(s[i + 1]) {
            lemma_after_pair(s, i + 2, s[i + 1]);
            if let Some(e) = after_pair(s, i + 2, s[i + 1]) {
                lemma_bracket_close(s, e);
            }
        } else {
            lemma_bracket_close(s, i + 1);
        }
    }
}

/// The bracket expression that starts with the `[` at `i`, and the position after it.
pub open spec fn bracket_at(s: Seq<char>, i: int) -> Result<(bool, Seq<char>, int), ParseError> {
    let j = i + 1;
    if j >= s.len() {
        Err(ParseError::UnclosedBracketExpr)
    } else {
        let negated = s[j] == '^' || s[j] == '!';
        let content_start = if negated {
            j + 1
        } else {
            j
        };
        let scan_start = if content_start < s.len() && s[content_start] == ']' {
            content_start + 1
        } else {
            content_start
        };
        match bracket_close(s, scan_start) {
            Err(e) => Err(e),
            Ok(close) => Ok((negated, s.subrange(content_start, close), close + 1)),
        }
    }
}

/// The quoted literal that starts with the `"` at `i`, and the position after it.
pub open spec fn quoted_at(s: Seq<char>, i: int) -> Result<(Seq<char>, int), ParseError> {
    match closing_quote(s, i + 1) {
        None => Err(ParseError::NoClosingQuote),
        Some(j) => Ok((s.subrange(i + 1, j), j + 1)),
    }
}

/// `segments`, with `literal` added as a literal segment unless it is empty.
pub open spec fn flush(segments: Seq<SegmentView>, literal: Seq<char>) -> Seq<SegmentView> {
    if literal.len() > 0 {
        segments.push(SegmentView::Literal(literal))
    } else {
        segments
    }
}

/// The segments of the part read from `s[i..]` by a scanner that has already read
/// `segments` and the pending `literal`; also the position where the part ends (the end of
/// the input or a dot).
pub open spec fn scan_part(
    s: Seq<char>,
    i: int,
    segments: Seq<SegmentView>,
    literal: Seq<char>,
    started: bool,
) -> Result<(Seq<SegmentView>, int), ParseError>
    decreases s.len() - i,
{
    if i < 0 || i >= s.len() {
        Ok((flush(segments, literal), s.len() as int))
    } else if s[i] == '.' {
        if !started {
            Err(ParseError::ConsecutiveDots)
        } else {
            Ok((flush(segments, literal), i))
        }
    } else if s[i] == '"' {
        match quoted_at(s, i) {
            Err(e) => Err(e),
            Ok((lit, j)) => {
                proof {
                    lemma_closing_quote(s, i + 1);
                }
                scan_part(s, j, segments, literal + lit, true)
            },
        }
    } else if s[i] == '[' {
        match bracket_at(s, i) {
            Err(e) => Err(e),
            Ok((negated, content, j)) => {
                proof {
                    lemma_bracket_at(s, i);
                }
                scan_part(
                    s,
                    j,
                    flush(segments, literal).push(SegmentView::Bracket(negated, content)),
                    Seq::empty(),
                    true,
                )
            },
        }
    } else if s[i] == '*' {
        if i + 1 < s.len() && s[i + 1] == '*' {
            Err(ParseError::ConsecutiveStars)
        } else {
            scan_part(s, i + 1, flush(segments, literal).push(SegmentView::Star), Seq::empty(), true)
        }
    } else if s[i] == '?' {
        scan_part(
            s,
            i + 1,
            flush(segments, literal).push(SegmentView::QuestionMark),
            Seq::empty(),
            true,
        )
    } else {
        scan_part(s, i + 1, segments, literal.push(s[i]), true)
    }
}

pub proof fn lemma_bracket_at(s: Seq<char>, i: int)
    requires
        0 <= i,
    ensures
        bracket_at(s, i) matches Ok((n, c, j)) ==> i + 2 <= j <= s.len(),
{
    let j = i + 1;
    if j < s.len() {
        let negated = s[j] == '^' || s[j] == '!';
        let content_start = if negated {
            j + 1
        } else {
            j
        };
        let scan_start = if content_start < s.len() && s[content_start] == ']' {
            content_start + 1
        } else {
            content_start
        };
        lemma_bracket_close(s, scan_start);
    }
}

pub proof fn lemma_scan_part(
    s: Seq<char>,
    i: int,
    segments: Seq<SegmentView>,
    literal: Seq<char>,
    started: bool,
)
    requires
        0 <= i <= s.len(),
    ensures
        scan_part(s, i, segments, literal, started) matches Ok((segs, j)) ==> i <= j <= s.len() && (
        j < s.len() ==> s[j] == '.') && (j == i ==> started || i >= s.len()),
    decreases s.len() - i,
{
    if i < s.len() && s[i] != '.' {
        if s[i] == '"' {
            lemma_closing_quote(s, i + 1);
            if let Ok((lit, j)) = quoted_at(s, i) {
                lemma_scan_part(s, j, segments, literal + lit, true);
            }
        } else if s[i] == '[' {
            lemma_bracket_at(s, i);
            if let Ok((negated, content, j)) = bracket_at(s, i) {
                lemma_scan_part(
                    s,
                    j,
                    flush(segments, literal).push(SegmentView::Bracket(negated, content)),
                    Seq::empty(),
                    true,
                );
            }
        } else if s[i] == '*' {
            lemma_scan_part(
                s,
                i + 1,
                flush(segments, literal).push(SegmentView::Star),
                Seq::empty(),
                true,
            );
        } else if s[i] == '?' {
            lemma_scan_part(
                s,
                i + 1,
                flush(segments, literal).push(SegmentView::QuestionMark),
                Seq::empty(),
                true,
            );
        } else {
            lemma_scan_part(s, i + 1, segments, literal.push(s[i]), true);
        }
    }
}

/// The parts of a pattern read from `s[i..]` after `parts` have been read.
pub open spec fn scan_pattern(s: Seq<char>, i: int, parts: Seq<Seq<SegmentView>>) -> Result<
    Seq<Seq<SegmentView>>,
    ParseError,
>
    decreases s.len() - i,
{
    if i < 0 || i >= s.len() {
        Ok(parts)
    } else {
        match scan_part(s, i, Seq::empty(), Seq::empty(), false) {
            Err(e) => Err(e),
            Ok((segs, j)) => {
                proof {
                    lemma_scan_part(s, i, Seq::empty(), Seq::empty(), false);
                }
                if j < s.len() {
                    if j + 1 >= s.len() {
                        Err(ParseError::TrailingDot)
                    } else {
                        scan_pattern(s, j + 1, parts.push(segs))
                    }
                } else {
                    Ok(parts.push(segs))
                }
            },
        }
    }
}

/// The pattern that a command-line argument denotes, or why it denotes none.
pub open spec fn parse_pattern_spec(s: Seq<char>) -> Result<PatternView, ParseError> {
    let leading_dot = s.len() > 0 && s[0] == '.';
    let start = if leading_dot {
        1int
    } else {
        0int
    };
    match scan_pattern(s, start, Seq::empty()) {
        Ok(parts) => Ok(PatternView { parts, leading_dot }),
        Err(e) => Err(e),
    }
}

// ---------------------------------------------------------------------------------------------
// Executable parser.
/// The character at `i`, if any, and the position after it.
pub fn next(s: &Vec<char>, i: usize) -> (res: (Option<char>, usize))
    requires
        i <= s@.len(),
    ensures
        i < s@.len() ==> res.0 == Some(s@[i as int]) && res.1 == i + 1,
        i == s@.len() ==> res.0 is None && res.1 == i,
{
    if i < s.len() {
        (Some(s[i]), i + 1)
    } else {
        (None, i)
    }
}

/// The position after `expected`, which must stand at `i`.
pub fn expect(s: &Vec<char>, i: usize, expected: char) -> (res: usize)
    requires
        i < s@.len(),
        s@[i as int] == expected,
    ensures
        res == i + 1,
{
    next(s, i).1
}

/// Moves a pending literal, unless it is empty, into the segments.
pub fn push_literal(segments: &mut Vec<Segment>, literal: &mut String)
    ensures
        segments_view(final(segments)@) == flush(segments_view(old(segments)@), old(literal)@),
        final(literal)@ == Seq::<char>::empty(),
{
    if !literal.as_str().is_empty() {
        let mut taken = String::new();
        std::mem::swap(&mut taken, literal);
        let ghost before = segments_view(segments@);
        segments.push(Segment::Literal(taken));
        assert(segments_view(segments@) =~= before.push(SegmentView::Literal(taken@)));
    } else {
        assert(literal@.len() == 0);
    }
}

/// Reads the quoted literal that starts with the `"` at `i`.
pub fn parse_quoted_literal(s: &Vec<char>, i: usize) -> (res: Result<(String, usize), ParseError>)
    requires
        i < s@.len(),
        s@[i as int] == '"',
    ensures
        match quoted_at(s@, i as int) {
            Ok((lit, j)) => res matches Ok((l, k)) && l@ == lit && k == j,
            Err(e) => res == Err::<(String, usize), ParseError>(e),
        },
{
    let start = expect(s, i, '"');
    proof {
        lemma_closing_quote(s@, start as int);
    }
    let mut lit = String::new();
    let mut j = start;
    while j < s.len() && s[j] != '"'
        invariant
            start <= j <= s@.len(),
            start == i + 1,
            closing_quote(s@, start as int) == closing_quote(s@, j as int),
            lit@ == s@.subrange(start as int, j as int),
        decreases s.len() - j,
    {
        push_char(&mut lit, s[j]);
        assert(s@.subrange(start as int, j + 1) =~= s@.subrange(start as int, j as int).push(
            s@[j as int],
        ));
        j = j + 1;
    }
    if j == s.len() {
        Err(ParseError::NoClosingQuote)
    } else {
        Ok((lit, j + 1))
    }
}

/// Finds the position after the first `a` followed by `]`, from `k` on.
fn find_class_end(s: &Vec<char>, k: usize, a: char) -> (res: Option<usize>)
    requires
        k <= s@.len(),
    ensures
        res == match after_pair(s@, k as int, a) {
            Some(e) => Some(e as usize),
            None => None::<usize>,
        },
{
    proof {
        lemma_after_pair(s@, k as int, a);
    }
    let mut m = k;
    while s.len() > m && s.len() - m > 1
        invariant
            k <= m <= s@.len(),
            after_pair(s@, k as int, a) == after_pair(s@, m as int, a),
        decreases s.len() - m,
    {
        if s[m] == a && s[m + 1] == ']' {
            return Some(m + 2);
        }
        m = m + 1;
    }
    None
}

/// Reads the bracket expression that starts with the `[` at `i`.
pub fn parse_bracket_expr(s: &Vec<char>, i: usize) -> (res: Result<(BracketExpr, usize), ParseError>)
    requires
        i < s@.len(),
        s@[i as int] == '[',
    ensures
        match bracket_at(s@, i as int) {
            Ok((negated, content, j)) => res matches Ok((b, k)) && b.negated == negated
                && b.content@ == content && k == j,
            Err(e) => res == Err::<(BracketExpr, usize), ParseError>(e),
        },
{
    let j = expect(s, i, '[');
    if j >= s.len() {
        return Err(ParseError::UnclosedBracketExpr);
    }
    let negated = s[j] == '^' || s[j] == '!';
    let content_start = if negated {
        j + 1
    } else {
        j
    };
    let mut pos = if content_start < s.len() && s[content_start] == ']' {
        content_start + 1
    } else {
        content_start
    };
    let ghost scan_start = pos as int;
    loop
        invariant
            content_start <= pos <= s@.len(),
            scan_start <= pos,
            content_start <= scan_start,
            bracket_at(s@, i as int) == match bracket_close(s@, scan_start) {
                Err(e) => Err(e),
                Ok(close) => Ok((negated, s@.subrange(content_start as int, close), close + 1)),
            },
            bracket_close(s@, scan_start) == bracket_close(s@, pos as int),
        decreases s@.len() - pos,
    {
        if pos >= s.len() {
            return Err(ParseError::UnclosedBracketExpr);
        }
        let c = s[pos];
        if c == ']' {
            let content = collect(s, content_start, pos);
            return Ok((BracketExpr { negated, content }, pos + 1));
        }
        if c == '[' && pos + 1 < s.len() && (s[pos + 1] == '.' || s[pos + 1] == '=' || s[pos
            + 1] == ':') {
            let class = s[pos + 1];
            proof {
                lemma_after_pair(s@, pos + 2, class);
            }
            match find_class_end(s, pos + 2, class) {
                None => {
                    return Err(unclosed_class(class));
                },
                Some(e) => {
                    pos = e;
                },
            }
        } else {
            pos = pos + 1;
        }
    }
}

/// The error for a class opened by `c` and never closed.
fn unclosed_class(c: char) -> (res: ParseError)
    ensures
        res == unclosed_class_error(c),
{
    if c == '.' {
        ParseError::UnclosedCollatingSymbol
    } else if c == '=' {
        ParseError::UnclosedEquivalenceClass
    } else {
        ParseError::UnclosedCharacterClass
    }
}

/// The characters of `s` from `from` up to `to`.
fn collect(s: &Vec<char>, from: usize, to: usize) -> (res: String)
    requires
        from <= to <= s@.len(),
    ensures
        res@ == s@.subrange(from as int, to as int),
{
    let mut res = String::new();
    let mut m = from;
    while m < to
        invariant
            from <= m <= to <= s@.len(),
            res@ == s@.subrange(from as int, m as int),
        decreases to - m,
    {
        push_char(&mut res, s[m]);
        assert(s@.subrange(from as int, m + 1) =~= s@.subrange(from as int, m as int).push(
            s@[m as int],
        ));
        m = m + 1;
    }
    res
}

/// Reads the part of a pattern that starts at `i`, up to the end of the input or a dot.
pub fn parse_part(s: &Vec<char>, i: usize) -> (res: Result<(Part, usize), ParseError>)
    requires
        i < s@.len(),
    ensures
        match scan_part(s@, i as int, Seq::empty(), Seq::empty(), false) {
            Ok((segs, j)) => res matches Ok((p, k)) && p@ == segs && k == j,
            Err(e) => res == Err::<(Part, usize), ParseError>(e),
        },
{
    let mut segments: Vec<Segment> = Vec::new();
    let mut literal = String::new();
    let mut started = false;
    let mut pos = i;
    assert(segments_view(segments@) =~= Seq::<SegmentView>::empty());
    loop
        invariant
            i <= pos <= s@.len(),
            scan_part(s@, i as int, Seq::empty(), Seq::empty(), false) == scan_part(
                s@,
                pos as int,
                segments_view(segments@),
                literal@,
                started,
            ),
        decreases s@.len() - pos,
    {
        match next(s, pos) {
            (None, _) => {
                push_literal(&mut segments, &mut literal);
                return Ok((Part { segments }, pos));
            },
            (Some(c), rest) => {
                if c == '.' {
                    if !started {
                        return Err(ParseError::ConsecutiveDots);
                    }
                    push_literal(&mut segments, &mut literal);
                    return Ok((Part { segments }, pos));
                }
                started = true;
                if c == '"' {
                    match parse_quoted_literal(s, pos) {
                        Err(e) => {
                            return Err(e);
                        },
                        Ok((lit, after)) => {
                            proof {
                                lemma_closing_quote(s@, pos + 1);
                            }
                            crate::text::push_str(&mut literal, lit.as_str());
                            pos = after;
                        },
                    }
                } else if c == '[' {
                    push_literal(&mut segments, &mut literal);
                    match parse_bracket_expr(s, pos) {
                        Err(e) => {
                            return Err(e);
                        },
                        Ok((bracket_expr, after)) => {
                            proof {
                                lemma_bracket_at(s@, pos as int);
                            }
                            let ghost before = segments_view(segments@);
                            segments.push(Segment::BracketExpr(bracket_expr));
                            assert(segments_view(segments@) =~= before.push(
                                SegmentView::Bracket(bracket_expr.negated, bracket_expr.content@),
                            ));
                            pos = after;
                        },
                    }
                } else if c == '*' {
                    push_literal(&mut segments, &mut literal);
                    let ghost before = segments_view(segments@);
                    segments.push(Segment::Star);
                    assert(segments_view(segments@) =~= before.push(SegmentView::Star));
                    if let (Some('*'), _) = next(s, rest) {
                        return Err(ParseError::ConsecutiveStars);
                    }
                    pos = rest;
                } else if c == '?' {
                    push_literal(&mut segments, &mut literal);
                    let ghost before = segments_view(segments@);
                    segments.push(Segment::QuestionMark);
                    assert(segments_view(segments@) =~= before.push(SegmentView::QuestionMark));
                    pos = rest;
                } else {
                    push_char(&mut literal, c);
                    pos = rest;
                }
            },
        }
    }
}

/// Parses a glob pattern as written on the command line.
pub fn parse_pattern(s: &str) -> (res: Result<Pattern, ParseError>)
    ensures
        match parse_pattern_spec(s@) {
            Ok(p) => res matches Ok(q) && q@ == p,
            Err(e) => res == Err::<Pattern, ParseError>(e),
        },
{
    let chars = chars_of(s);
    let leading_dot = chars.len() > 0 && chars[0] == '.';
    let mut pos: usize = if leading_dot {
        1
    } else {
        0
    };
    let mut parts: Vec<Part> = Vec::new();
    assert(parts_view(parts@) =~= Seq::<Seq<SegmentView>>::empty());
    while pos < chars.len()
        invariant
            chars@ == s@,
            pos <= chars@.len(),
            leading_dot == (s@.len() > 0 && s@[0] == '.'),
            scan_pattern(s@, if leading_dot {
                1int
            } else {
                0int
            }, Seq::empty()) == scan_pattern(s@, pos as int, parts_view(parts@)),
        decreases chars.len() - pos,
    {
        proof {
            lemma_scan_part(s@, pos as int, Seq::empty(), Seq::empty(), false);
        }
        let (part, rest) = match parse_part(&chars, pos) {
            Ok(r) => r,
            Err(e) => return Err(e),
        };
        let ghost before = parts_view(parts@);
        parts.push(part);
        assert(parts_view(parts@) =~= before.push(part@));
        if rest < chars.len() {
            if rest + 1 >= chars.len() {
                return Err(ParseError::TrailingDot);
            }
            pos = rest + 1;
        } else {
            pos = rest;
        }
    }
    Ok(Pattern { parts, leading_dot })
}

impl Pattern {
    /// Parses a pattern given on the command line and checks that it suits the source:
    /// patterns with a leading dot match flake outputs, so they cannot be used with a file.
    pub fn from_cli_arg(arg: &str, source: &Source) -> (res: Result<Pattern, PatternArgError>)
        ensures
            match parse_pattern_spec(arg@) {
                Err(e) => res == Err::<Pattern, PatternArgError>(PatternArgError::Parse(e)),
                Ok(p) => if p.leading_dot && source is File {
                    res == Err::<Pattern, PatternArgError>(PatternArgError::LeadingDotWithFile)
                } else {
                    res matches Ok(q) && q@ == p
                },
            },
    {
        let this = match parse_pattern(arg) {
            Ok(this) => this,
            Err(e) => return Err(PatternArgError::Parse(e)),
        };
        if this.leading_dot && matches!(source, Source::File(_)) {
            return Err(PatternArgError::LeadingDotWithFile);
        }
        Ok(this)
    }
}

// ---------------------------------------------------------------------------------------------
// Display.
/// Whether a literal must be quoted when displayed.
pub open spec fn needs_quotes(literal: Seq<char>) -> bool {
    literal.len() == 0 || exists|i: int|
        0 <= i < literal.len() && {
            let c = #[trigger] literal[i];
            c == '.' || c == '"' || c == '*' || c == '?' || c == '[' || c == ']'
                || is_whitespace_char(c)
        }
}

/// Scanning characters that start no quote, bracket expression, wildcard or next part adds
/// them all to the pending literal, which ends the part at the end of the input.
proof fn lemma_plain_literal_scan(
    s: Seq<char>,
    i: int,
    segments: Seq<SegmentView>,
    literal: Seq<char>,
    started: bool,
)
    requires
        0 <= i <= s.len(),
        forall|j: int|
            i <= j < s.len() ==> s[j] != '.' && s[j] != '"' && s[j] != '[' && s[j] != '*' && s[j]
                != '?',
    ensures
        scan_part(s, i, segments, literal, started) == Ok::<(Seq<SegmentView>, int), ParseError>(
            (flush(segments, literal + s.subrange(i, s.len() as int)), s.len() as int),
        ),
    decreases s.len() - i,
{
    if i < s.len() {
        lemma_plain_literal_scan(s, i + 1, segments, literal.push(s[i]), true);
        assert(literal.push(s[i]) + s.subrange(i + 1, s.len() as int) =~= literal + s.subrange(
            i,
            s.len() as int,
        ));
    } else {
        assert(literal + s.subrange(i, s.len() as int) =~= literal);
    }
}

/// A literal that needs no quotes, given as a pattern, parses to the pattern of one part that
/// is that literal.
pub proof fn law_plain_literal_parses_to_itself(literal: Seq<char>)
    requires
        !needs_quotes(literal),
    ensures
        parse_pattern_spec(literal) == Ok::<PatternView, ParseError>(
            PatternView { parts: seq![seq![SegmentView::Literal(literal)]], leading_dot: false },
        ),
{
    assert forall|j: int| 0 <= j < literal.len() implies literal[j] != '.' && literal[j] != '"'
        && literal[j] != '[' && literal[j] != '*' && literal[j] != '?' by {
        let c = literal[j];
        if c == '.' || c == '"' || c == '[' || c == '*' || c == '?' {
            assert(needs_quotes(literal));
        }
    }
    lemma_plain_literal_scan(literal, 0, Seq::empty(), Seq::empty(), false);
    assert(literal.subrange(0, literal.len() as int) =~= literal);
    assert(Seq::<char>::empty() + literal =~= literal);
    assert(flush(Seq::empty(), literal) =~= seq![SegmentView::Literal(literal)]);
    assert(Seq::<Seq<SegmentView>>::empty().push(seq![SegmentView::Literal(literal)]) =~= seq![
        seq![SegmentView::Literal(literal)],
    ]);
}

/// Whether `c` has no meaning of its own in a pattern: it is not a dot, a quote, the start of
/// a bracket expression or a wildcard.
pub open spec fn plain_pattern_char(c: char) -> bool {
    c != '.' && c != '"' && c != '[' && c != '*' && c != '?'
}

/// The literal segment of `l`, or none where `l` is empty.
pub open spec fn literal_segments(l: Seq<char>) -> Seq<SegmentView> {
    if l.len() > 0 {
        seq![SegmentView::Literal(l)]
    } else {
        Seq::empty()
    }
}

/// Scanning characters without a meaning of their own adds them to the pending literal.
proof fn lemma_plain_run(
    s: Seq<char>,
    i: int,
    k: int,
    segments: Seq<SegmentView>,
    literal: Seq<char>,
    started: bool,
)
    requires
        0 <= i <= k <= s.len(),
        forall|j: int| i <= j < k ==> plain_pattern_char(#[trigger] s[j]),
    ensures
        scan_part(s, i, segments, literal, started) == scan_part(
            s,
            k,
            segments,
            literal + s.subrange(i, k),
            started || i < k,
        ),
    decreases k - i,
{
    if i < k {
        assert(plain_pattern_char(s[i]));
        lemma_plain_run(s, i + 1, k, segments, literal.push(s[i]), true);
        assert(literal.push(s[i]) + s.subrange(i + 1, k) =~= literal + s.subrange(i, k));
    } else {
        assert(literal + s.subrange(i, k) =~= literal);
    }
}

/// Law: a wildcard between two texts without special characters gives one part: the text
/// before it as a literal (where there is one), the wildcard (`*` matches any sequence of
/// characters, `?` any one character), and the text after it as a literal (where there is
/// one). Two stars in a row are refused.
pub proof fn law_wildcard_between_literals(a: Seq<char>, w: char, b: Seq<char>)
    requires
        forall|j: int| 0 <= j < a.len() ==> plain_pattern_char(#[trigger] a[j]),
        forall|j: int| 0 <= j < b.len() ==> plain_pattern_char(#[trigger] b[j]),
        w == '*' || w == '?',
    ensures
        parse_pattern_spec(a + seq![w] + b) == Ok::<PatternView, ParseError>(
            PatternView {
                parts: seq![
                    literal_segments(a) + seq![
                        if w == '*' {
                            SegmentView::Star
                        } else {
                            SegmentView::QuestionMark
                        },
                    ] + literal_segments(b),
                ],
                leading_dot: false,
            },
        ),
        w == '*' ==> parse_pattern_spec(a + seq!['*', '*'] + b) == Err::<PatternView, ParseError>(
            ParseError::ConsecutiveStars,
        ),
{
    let k = a.len() as int;
    let wild = if w == '*' {
        SegmentView::Star
    } else {
        SegmentView::QuestionMark
    };
    let s = a + seq![w] + b;
    assert forall|j: int| 0 <= j < k implies plain_pattern_char(#[trigger] s[j]) by {
        assert(s[j] == a[j]);
    }
    lemma_plain_run(s, 0, k, Seq::empty(), Seq::empty(), false);
    assert(Seq::<char>::empty() + s.subrange(0, k) =~= a);
    assert(s[k] == w);
    if k + 1 < s.len() {
        assert(s[k + 1] == b[0]);
    }
    let segs = flush(Seq::empty(), a).push(wild);
    assert(scan_part(s, k, Seq::empty(), a, k > 0) == scan_part(s, k + 1, segs, Seq::empty(), true));
    assert forall|j: int| k + 1 <= j < s.len() implies s[j] != '.' && s[j] != '"' && s[j] != '['
        && s[j] != '*' && s[j] != '?' by {
        assert(s[j] == b[j - k - 1]);
        assert(plain_pattern_char(b[j - k - 1]));
    }
    lemma_plain_literal_scan(s, k + 1, segs, Seq::empty(), false);
    lemma_plain_literal_scan(s, k + 1, segs, Seq::empty(), true);
    assert(Seq::<char>::empty() + s.subrange(k + 1, s.len() as int) =~= b);
    assert(flush(segs, b) =~= literal_segments(a) + seq![wild] + literal_segments(b));
    if k > 0 {
        assert(s[0] == a[0]);
        assert(plain_pattern_char(a[0]));
    }
    assert(s[0] != '.');
    assert(Seq::<Seq<SegmentView>>::empty().push(flush(segs, b)) =~= seq![flush(segs, b)]);
    if w == '*' {
        let t = a + seq!['*', '*'] + b;
        assert forall|j: int| 0 <= j < k implies plain_pattern_char(#[trigger] t[j]) by {
            assert(t[j] == a[j]);
        }
        lemma_plain_run(t, 0, k, Seq::empty(), Seq::empty(), false);
        assert(t[k] == '*' && t[k + 1] == '*');
        if k > 0 {
            assert(t[0] == a[0]);
            assert(plain_pattern_char(a[0]));
        }
        assert(t[0] != '.');
    }
}

/// Law: text between double quotes, holding no double quote, is taken as it is: a pattern of
/// one part that is that literal (no segment where the text is empty), whatever wildcards,
/// dots or brackets it holds.
pub proof fn law_quoted_literal_taken_verbatim(l: Seq<char>)
    requires
        !l.contains('"'),
    ensures
        parse_pattern_spec(seq!['"'] + l + seq!['"']) == Ok::<PatternView, ParseError>(
            PatternView { parts: seq![literal_segments(l)], leading_dot: false },
        ),
{
    let s = seq!['"'] + l + seq!['"'];
    let n = s.len() as int;
    assert forall|m: int| 1 <= m < n - 1 implies s[m] != '"' by {
        assert(s[m] == l[m - 1]);
        if s[m] == '"' {
            assert(l.contains('"'));
        }
    }
    lemma_closing_quote_at(s, 1, n - 1);
    assert(s.subrange(1, n - 1) =~= l);
    assert(Seq::<char>::empty() + l =~= l);
    assert(scan_part(s, 0, Seq::empty(), Seq::empty(), false) == scan_part(
        s,
        n,
        Seq::empty(),
        l,
        true,
    ));
    assert(flush(Seq::empty(), l) =~= literal_segments(l));
    assert(Seq::<Seq<SegmentView>>::empty().push(flush(Seq::empty(), l)) =~= seq![
        literal_segments(l),
    ]);
}

/// The bracket expression is closed by the first `]` where no `[` comes before it.
proof fn lemma_bracket_close_plain(s: Seq<char>, i: int, k: int)
    requires
        0 <= i <= k < s.len(),
        s[k] == ']',
        forall|j: int| i <= j < k ==> s[j] != ']' && s[j] != '[',
    ensures
        bracket_close(s, i) == Ok::<int, ParseError>(k),
    decreases k - i,
{
    if i < k {
        lemma_bracket_close_plain(s, i + 1, k);
    }
}

/// Law: a bracket expression `[c]`, or `[^c]` where it is negated, whose contents hold no
/// bracket, gives a pattern of one part that is that bracket expression with those contents.
pub proof fn law_bracket_expression(negated: bool, c: Seq<char>)
    requires
        c.len() > 0,
        forall|j: int| 0 <= j < c.len() ==> #[trigger] c[j] != ']' && c[j] != '[',
        !negated ==> c[0] != '^' && c[0] != '!',
    ensures
        parse_pattern_spec(seq!['['] + (if negated {
            seq!['^']
        } else {
            Seq::empty()
        }) + c + seq![']']) == Ok::<PatternView, ParseError>(
            PatternView { parts: seq![seq![SegmentView::Bracket(negated, c)]], leading_dot: false },
        ),
{
    let neg: Seq<char> = if negated {
        seq!['^']
    } else {
        Seq::empty()
    };
    let s = seq!['['] + neg + c + seq![']'];
    let start = (neg.len() + 1) as int;
    let k = s.len() - 1;
    assert(s[1] == if negated { '^' } else { c[0] });
    assert forall|j: int| start <= j < k implies s[j] != ']' && s[j] != '[' by {
        assert(s[j] == c[j - start]);
    }
    assert(s[start] == c[0]);
    lemma_bracket_close_plain(s, start, k);
    assert(s.subrange(start, k) =~= c);
    assert(bracket_at(s, 0) == Ok::<(bool, Seq<char>, int), ParseError>((negated, c, k + 1)));
    let segs = flush(Seq::empty(), Seq::empty()).push(SegmentView::Bracket(negated, c));
    assert(scan_part(s, 0, Seq::empty(), Seq::empty(), false) == scan_part(
        s,
        k + 1,
        segs,
        Seq::empty(),
        true,
    ));
    assert(flush(segs, Seq::empty()) =~= seq![SegmentView::Bracket(negated, c)]);
    assert(Seq::<Seq<SegmentView>>::empty().push(seq![SegmentView::Bracket(negated, c)]) =~= seq![
        seq![SegmentView::Bracket(negated, c)],
    ]);
}

/// How a segment is displayed.
pub open spec fn segment_text(seg: SegmentView) -> Seq<char> {
    match seg {
        SegmentView::Literal(l) => if needs_quotes(l) {
            styled(PATTERN_QUOTED, seq!['"'] + l + seq!['"'])
        } else {
            styled(PATTERN, l)
        },
        SegmentView::QuestionMark => styled(PATTERN_QUESTION_MARK, "?"@),
        SegmentView::Star => styled(PATTERN_STAR, "*"@),
        SegmentView::Bracket(negated, content) => if negated {
            styled(PATTERN_BRACKET_EXPR_NEGATED, "[^"@) + styled(PATTERN, content) + styled(
                PATTERN_BRACKET_EXPR_NEGATED,
                "]"@,
            )
        } else {
            styled(PATTERN_BRACKET_EXPR, "["@) + styled(PATTERN, content) + styled(
                PATTERN_BRACKET_EXPR,
                "]"@,
            )
        },
    }
}

/// The displayed segments, one after another.
pub open spec fn segments_text(segs: Seq<SegmentView>) -> Seq<char>
    decreases segs.len(),
{
    if segs.len() == 0 {
        Seq::empty()
    } else {
        segments_text(segs.drop_last()) + segment_text(segs.last())
    }
}

/// How a part is displayed; a part without segments is shown as `""`.
pub open spec fn part_text(segs: Seq<SegmentView>) -> Seq<char> {
    if segs.len() == 0 {
        styled(PATTERN_QUOTED, "\"\""@)
    } else {
        segments_text(segs)
    }
}

/// The displayed parts, separated by dots.
pub open spec fn parts_text(parts: Seq<Seq<SegmentView>>) -> Seq<char>
    decreases parts.len(),
{
    if parts.len() == 0 {
        Seq::empty()
    } else if parts.len() == 1 {
        part_text(parts[0])
    } else {
        parts_text(parts.drop_last()) + styled(PATTERN, "."@) + part_text(parts.last())
    }
}

/// How a pattern is displayed to the user.
pub open spec fn pattern_text(p: PatternView) -> Seq<char> {
    let head = if p.leading_dot {
        styled(PATTERN, "."@)
    } else if p.parts.len() == 0 {
        styled(PATTERN_EMPTY, "(empty)"@)
    } else {
        Seq::empty()
    };
    head + parts_text(p.parts)
}

/// Whether a literal must be quoted when displayed.
pub fn literal_needs_quotes(literal: &str) -> (res: bool)
    ensures
        res == needs_quotes(literal@),
{
    let chars = chars_of(literal);
    if chars.len() == 0 {
        return true;
    }
    let mut i: usize = 0;
    while i < chars.len()
        invariant
            chars@ == literal@,
            i <= chars@.len(),
            forall|j: int|
                0 <= j < i ==> {
                    let c = #[trigger] chars@[j];
                    !(c == '.' || c == '"' || c == '*' || c == '?' || c == '[' || c == ']'
                        || is_whitespace_char(c))
                },
        decreases chars.len() - i,
    {
        let c = chars[i];
        if c == '.' || c == '"' || c == '*' || c == '?' || c == '[' || c == ']' || is_whitespace(
            c,
        ) {
            assert(literal@[i as int] == c);
            return true;
        }
        i = i + 1;
    }
    false
}

impl Segment {
    /// Renders the segment for the user, with styles.
    pub fn display(&self) -> (res: String)
        ensures
            res@ == segment_text(self@),
    {
        let mut out = String::new();
        match self {
            Segment::Literal(literal) => {
                if literal_needs_quotes(literal.as_str()) {
                    let mut quoted = String::new();
                    push_char(&mut quoted, '"');
                    push_str(&mut quoted, literal.as_str());
                    push_char(&mut quoted, '"');
                    push_styled(&mut out, PATTERN_QUOTED, quoted.as_str());
                } else {
                    push_styled(&mut out, PATTERN, literal.as_str());
                }
            },
            Segment::QuestionMark => push_styled(&mut out, PATTERN_QUESTION_MARK, "?"),
            Segment::Star => push_styled(&mut out, PATTERN_STAR, "*"),
            Segment::BracketExpr(bracket_expr) => {
                out = bracket_expr.display();
            },
        }
        out
    }
}

impl BracketExpr {
    /// Renders the bracket expression for the user, with styles.
    pub fn display(&self) -> (res: String)
        ensures
            res@ == segment_text(SegmentView::Bracket(self.negated, self.content@)),
    {
        let mut out = String::new();
        if self.negated {
            push_styled(&mut out, PATTERN_BRACKET_EXPR_NEGATED, "[^");
            push_styled(&mut out, PATTERN, self.content.as_str());
            push_styled(&mut out, PATTERN_BRACKET_EXPR_NEGATED, "]");
        } else {
            push_styled(&mut out, PATTERN_BRACKET_EXPR, "[");
            push_styled(&mut out, PATTERN, self.content.as_str());
            push_styled(&mut out, PATTERN_BRACKET_EXPR, "]");
        }
        out
    }
}

impl Part {
    /// Renders the part for the user, with styles.
    pub fn display(&self) -> (res: String)
        ensures
            res@ == part_text(self@),
    {
        let mut out = String::new();
        if self.segments.len() == 0 {
            push_styled(&mut out, PATTERN_QUOTED, "\"\"");
            return out;
        }
        for i in 0..self.segments.len()
            invariant
                out@ == segments_text(segments_view(self.segments@).take(i as int)),
        {
            let text = self.segments[i].display();
            push_str(&mut out, text.as_str());
            assert(segments_view(self.segments@).take(i + 1).drop_last() =~= segments_view(
                self.segments@,
            ).take(i as int));
        }
        assert(segments_view(self.segments@).take(self.segments@.len() as int) =~= segments_view(
            self.segments@,
        ));
        out
    }
}

impl Pattern {
    /// Renders the pattern for the user, with styles.
    pub fn display(&self) -> (res: String)
        ensures
            res@ == pattern_text(self@),
    {
        let mut out = String::new();
        if self.leading_dot {
            push_styled(&mut out, PATTERN, ".");
        } else if self.parts.len() == 0 {
            push_styled(&mut out, PATTERN_EMPTY, "(empty)");
        }
        let ghost head = out@;
        for i in 0..self.parts.len()
            invariant
                out@ == head + parts_text(parts_view(self.parts@).take(i as int)),
        {
            if i > 0 {
                push_styled(&mut out, PATTERN, ".");
            }
            let text = self.parts[i].display();
            push_str(&mut out, text.as_str());
            assert(parts_view(self.parts@).take(i + 1).drop_last() =~= parts_view(
                self.parts@,
            ).take(i as int));
            assert(parts_view(self.parts@).take(i + 1).len() == i + 1);
        }
        assert(parts_view(self.parts@).take(self.parts@.len() as int) =~= parts_view(
            self.parts@,
        ));
        out
    }
}

// ---------------------------------------------------------------------------------------------
// Matching names.

/// Whether a character has a meaning of its own in a POSIX extended regular expression.
pub open spec fn regex_special(c: char) -> bool {
    c == '.' || c == '[' || c == ']' || c == '{' || c == '}' || c == '(' || c == ')' || c == '\\'
        || c == '*' || c == '+' || c == '?' || c == '^' || c == '$' || c == '|'
}

/// A literal as a regular expression: each special character escaped with a backslash.
pub open spec fn escaped_literal(s: Seq<char>) -> Seq<char>
    decreases s.len(),
{
    if s.len() == 0 {
        Seq::empty()
    } else {
        escaped_literal(s.drop_last()) + if regex_special(s.last()) {
            seq!['\\', s.last()]
        } else {
            seq![s.last()]
        }
    }
}

/// A segment as a regular expression: `?` any one character, `*` any characters, a bracket
/// expression as it is (negated with `^`).
pub open spec fn segment_regex(seg: SegmentView) -> Seq<char> {
    match seg {
        SegmentView::Literal(s) => escaped_literal(s),
        SegmentView::QuestionMark => "."@,
        SegmentView::Star => ".*"@,
        SegmentView::Bracket(negated, content) => if negated {
            "[^"@ + content + "]"@
        } else {
            "["@ + content + "]"@
        },
    }
}

/// A part as a regular expression that matches whole names: its segments one after another.
pub open spec fn part_regex_text(segs: Seq<SegmentView>) -> Seq<char>
    decreases segs.len(),
{
    if segs.len() == 0 {
        Seq::empty()
    } else {
        part_regex_text(segs.drop_last()) + segment_regex(segs.last())
    }
}

/// Appends a literal, each special character escaped.
fn push_escaped(out: &mut String, literal: &str)
    ensures
        final(out)@ == old(out)@ + escaped_literal(literal@),
{
    let chars = chars_of(literal);
    let ghost start = out@;
    for i in 0..chars.len()
        invariant
            chars@ == literal@,
            out@ == start + escaped_literal(literal@.take(i as int)),
    {
        let c = chars[i];
        if c == '.' || c == '[' || c == ']' || c == '{' || c == '}' || c == '(' || c == ')' || c
            == '\\' || c == '*' || c == '+' || c == '?' || c == '^' || c == '$' || c == '|' {
            push_char(out, '\\');
        }
        push_char(out, c);
        assert(literal@.take(i + 1).drop_last() =~= literal@.take(i as int));
    }
    assert(literal@.take(literal@.len() as int) =~= literal@);
}

impl Part {
    /// The regular expression (POSIX extended, matched against whole names) of this part.
    pub fn regex(&self) -> (res: String)
        ensures
            res@ == part_regex_text(self@),
    {
        let mut out = String::new();
        for i in 0..self.segments.len()
            invariant
                out@ == part_regex_text(segments_view(self.segments@).take(i as int)),
        {
            let ghost before = out@;
            match &self.segments[i] {
                Segment::Literal(literal) => push_escaped(&mut out, literal.as_str()),
                Segment::QuestionMark => push_str(&mut out, "."),
                Segment::Star => push_str(&mut out, ".*"),
                Segment::BracketExpr(b) => {
                    if b.negated {
                        push_str(&mut out, "[^");
                    } else {
                        push_str(&mut out, "[");
                    }
                    push_str(&mut out, b.content.as_str());
                    push_str(&mut out, "]");
                },
            }
            assert(out@ == before + segment_regex(self.segments@[i as int]@));
            assert(segments_view(self.segments@).take(i + 1).drop_last() =~= segments_view(
                self.segments@,
            ).take(i as int));
        }
        assert(segments_view(self.segments@).take(self.segments@.len() as int) =~= segments_view(
            self.segments@,
        ));
        out
    }
}

} // verus!
