//! ANSI text styles used for displaying elements, and their rendering.

use vstd::prelude::*;
use crate::text::push_str;

verus! {

/// The foreground colours of the 4-bit ANSI palette, or the terminal's default.
#[derive(Clone, Copy, Debug, PartialEq, Eq, Structural)]
pub enum Color {
    Default,
    Black,
    Red,
    Green,
    Yellow,
    Blue,
    Magenta,
    Cyan,
    White,
}

/// Font weight of a style.
#[derive(Clone, Copy, Debug, PartialEq, Eq, Structural)]
pub enum Weight {
    Normal,
    Bold,
}

/// A text style: a foreground colour and a weight.
#[derive(Clone, Copy, Debug, PartialEq, Eq, Structural)]
pub struct TextStyle {
    pub fg: Color,
    pub weight: Weight,
}

/// The elements of the output that have a style of their own.
#[derive(Clone, Copy, Debug, PartialEq, Eq, Structural)]
pub enum Element {
    Header,
    Source,
    Impure,
    AttrPath,
    AttrPathQuoted,
    AttrPathNixos,
    Worktree,
    Pattern,
    PatternEmpty,
    PatternQuoted,
    PatternQuestionMark,
    PatternStar,
    PatternBracketExpr,
    PatternBracketExprNegated,
    Equal,
    NotEqual,
    Unknown,
    EvalSuccess,
    EvalError,
    From,
    To,
}

pub const HEADER: Element = Element::Header;

pub const SOURCE: Element = Element::Source;

pub const IMPURE: Element = Element::Impure;

pub const ATTR_PATH: Element = Element::AttrPath;

pub const ATTR_PATH_QUOTED: Element = Element::AttrPathQuoted;

pub const ATTR_PATH_NIXOS: Element = Element::AttrPathNixos;

pub const WORKTREE: Element = Element::Worktree;

pub const PATTERN: Element = Element::Pattern;

pub const PATTERN_EMPTY: Element = Element::PatternEmpty;

pub const PATTERN_QUOTED: Element = Element::PatternQuoted;

pub const PATTERN_QUESTION_MARK: Element = Element::PatternQuestionMark;

pub const PATTERN_STAR: Element = Element::PatternStar;

pub const PATTERN_BRACKET_EXPR: Element = Element::PatternBracketExpr;

pub const PATTERN_BRACKET_EXPR_NEGATED: Element = Element::PatternBracketExprNegated;

pub const EQUAL: Element = Element::Equal;

pub const NOT_EQUAL: Element = Element::NotEqual;

pub const UNKNOWN: Element = Element::Unknown;

pub const EVAL_SUCCESS: Element = Element::EvalSuccess;

pub const EVAL_ERROR: Element = Element::EvalError;

pub const FROM: Element = Element::From;

pub const TO: Element = Element::To;

/// The digit that selects a colour of the palette in an ANSI code.
pub open spec fn color_digit(c: Color) -> char {
    match c {
        Color::Default => '9',
        Color::Black => '0',
        Color::Red => '1',
        Color::Green => '2',
        Color::Yellow => '3',
        Color::Blue => '4',
        Color::Magenta => '5',
        Color::Cyan => '6',
        Color::White => '7',
    }
}

/// The ANSI code that `anstyle` renders for a style: `ESC [ 1 m` for bold, then
/// `ESC [ 3 d m` with the colour's digit `d` where the colour is not the default.
pub open spec fn style_code(style: TextStyle) -> Seq<char> {
    let bold = if style.weight == Weight::Bold {
        seq!['\u{1b}', '[', '1', 'm']
    } else {
        Seq::empty()
    };
    let fg = if style.fg == Color::Default {
        Seq::empty()
    } else {
        seq!['\u{1b}', '[', '3', color_digit(style.fg), 'm']
    };
    bold + fg
}

/// Whether a style changes nothing.
pub open spec fn is_plain(style: TextStyle) -> bool {
    style.fg == Color::Default && style.weight == Weight::Normal
}

/// The ANSI code that ends a style: nothing for a plain style, the reset code otherwise.
pub open spec fn reset_code(style: TextStyle) -> Seq<char> {
    if is_plain(style) {
        Seq::empty()
    } else {
        seq!['\u{1b}', '[', '0', 'm']
    }
}

/// `text` wrapped in the codes of the style of `element`.
pub open spec fn styled(element: Element, text: Seq<char>) -> Seq<char> {
    style_code(element.spec_style()) + text + reset_code(element.spec_style())
}

/// The code that `anstyle::Style::render` writes for the `anstyle` style with the same colour
/// and weight: the code of each effect (here only bold), then that of the foreground colour.
#[verifier::external_body]
fn render_style(style: TextStyle) -> (res: String)
    ensures
        res@ == style_code(style),
{
    let fg = match style.fg {
        Color::Default => None,
        Color::Black => Some(anstyle::AnsiColor::Black),
        Color::Red => Some(anstyle::AnsiColor::Red),
        Color::Green => Some(anstyle::AnsiColor::Green),
        Color::Yellow => Some(anstyle::AnsiColor::Yellow),
        Color::Blue => Some(anstyle::AnsiColor::Blue),
        Color::Magenta => Some(anstyle::AnsiColor::Magenta),
        Color::Cyan => Some(anstyle::AnsiColor::Cyan),
        Color::White => Some(anstyle::AnsiColor::White),
    };
    let effects = if let Weight::Bold = style.weight { anstyle::Effects::BOLD } else { anstyle::Effects::new() };
    format!("{}", anstyle::Style::new().fg_color(fg.map(anstyle::Color::Ansi)).effects(effects).render())
}

/// The code that `anstyle::Style::render_reset` writes for the `anstyle` style with the same
/// colour and weight: nothing for a plain style, `ESC [ 0 m` otherwise.
#[verifier::external_body]
fn render_reset(style: TextStyle) -> (res: String)
    ensures
        res@ == reset_code(style),
{
    let fg = match style.fg {
        Color::Default => None,
        Color::Black => Some(anstyle::AnsiColor::Black),
        Color::Red => Some(anstyle::AnsiColor::Red),
        Color::Green => Some(anstyle::AnsiColor::Green),
        Color::Yellow => Some(anstyle::AnsiColor::Yellow),
        Color::Blue => Some(anstyle::AnsiColor::Blue),
        Color::Magenta => Some(anstyle::AnsiColor::Magenta),
        Color::Cyan => Some(anstyle::AnsiColor::Cyan),
        Color::White => Some(anstyle::AnsiColor::White),
    };
    let effects = if let Weight::Bold = style.weight { anstyle::Effects::BOLD } else { anstyle::Effects::new() };
    format!("{}", anstyle::Style::new().fg_color(fg.map(anstyle::Color::Ansi)).effects(effects).render_reset())
}

impl Element {
    /// The style of this element.
    pub open spec fn spec_style(self) -> TextStyle {
        match self {
            Element::Header => TextStyle { fg: Color::Default, weight: Weight::Bold },
            Element::Source => TextStyle { fg: Color::Blue, weight: Weight::Normal },
            Element::Impure => TextStyle { fg: Color::Yellow, weight: Weight::Normal },
            Element::AttrPath => TextStyle { fg: Color::Cyan, weight: Weight::Normal },
            Element::AttrPathQuoted => TextStyle { fg: Color::Green, weight: Weight::Normal },
            Element::AttrPathNixos => TextStyle { fg: Color::Yellow, weight: Weight::Normal },
            Element::Worktree => TextStyle { fg: Color::Magenta, weight: Weight::Normal },
            Element::Pattern => TextStyle { fg: Color::Cyan, weight: Weight::Normal },
            Element::PatternEmpty => TextStyle { fg: Color::Green, weight: Weight::Normal },
            Element::PatternQuoted => TextStyle { fg: Color::Green, weight: Weight::Normal },
            Element::PatternQuestionMark => TextStyle { fg: Color::Yellow, weight: Weight::Normal },
            Element::PatternStar => TextStyle { fg: Color::Yellow, weight: Weight::Normal },
            Element::PatternBracketExpr => TextStyle { fg: Color::Magenta, weight: Weight::Normal },
            Element::PatternBracketExprNegated => TextStyle { fg: Color::Red, weight: Weight::Normal },
            Element::Equal => TextStyle { fg: Color::Green, weight: Weight::Normal },
            Element::NotEqual => TextStyle { fg: Color::Red, weight: Weight::Normal },
            Element::Unknown => TextStyle { fg: Color::Yellow, weight: Weight::Normal },
            Element::EvalSuccess => TextStyle { fg: Color::Blue, weight: Weight::Normal },
            Element::EvalError => TextStyle { fg: Color::Red, weight: Weight::Bold },
            Element::From => TextStyle { fg: Color::Red, weight: Weight::Bold },
            Element::To => TextStyle { fg: Color::Green, weight: Weight::Bold },
        }
    }

    /// The style of this element.
    #[verifier::when_used_as_spec(spec_style)]
    pub fn style(self) -> (res: TextStyle)
        ensures
            res == self.spec_style(),
    {
        match self {
            Element::Header => TextStyle { fg: Color::Default, weight: Weight::Bold },
            Element::Source => TextStyle { fg: Color::Blue, weight: Weight::Normal },
            Element::Impure => TextStyle { fg: Color::Yellow, weight: Weight::Normal },
            Element::AttrPath => TextStyle { fg: Color::Cyan, weight: Weight::Normal },
            Element::AttrPathQuoted => TextStyle { fg: Color::Green, weight: Weight::Normal },
            Element::AttrPathNixos => TextStyle { fg: Color::Yellow, weight: Weight::Normal },
            Element::Worktree => TextStyle { fg: Color::Magenta, weight: Weight::Normal },
            Element::Pattern => TextStyle { fg: Color::Cyan, weight: Weight::Normal },
            Element::PatternEmpty => TextStyle { fg: Color::Green, weight: Weight::Normal },
            Element::PatternQuoted => TextStyle { fg: Color::Green, weight: Weight::Normal },
            Element::PatternQuestionMark => TextStyle { fg: Color::Yellow, weight: Weight::Normal },
            Element::PatternStar => TextStyle { fg: Color::Yellow, weight: Weight::Normal },
            Element::PatternBracketExpr => TextStyle { fg: Color::Magenta, weight: Weight::Normal },
            Element::PatternBracketExprNegated => TextStyle { fg: Color::Red, weight: Weight::Normal },
            Element::Equal => TextStyle { fg: Color::Green, weight: Weight::Normal },
            Element::NotEqual => TextStyle { fg: Color::Red, weight: Weight::Normal },
            Element::Unknown => TextStyle { fg: Color::Yellow, weight: Weight::Normal },
            Element::EvalSuccess => TextStyle { fg: Color::Blue, weight: Weight::Normal },
            Element::EvalError => TextStyle { fg: Color::Red, weight: Weight::Bold },
            Element::From => TextStyle { fg: Color::Red, weight: Weight::Bold },
            Element::To => TextStyle { fg: Color::Green, weight: Weight::Bold },
        }
    }

    /// The code that starts this element's style.
    pub fn prefix(&self) -> (res: String)
        ensures
            res@ == style_code(self.spec_style()),
    {
        render_style(self.style())
    }

    /// The code that ends this element's style.
    pub fn suffix(&self) -> (res: String)
        ensures
            res@ == reset_code(self.spec_style()),
    {
        render_reset(self.style())
    }
}

/// Appends `text` in the given style.
pub fn push_styled(out: &mut String, element: Element, text: &str)
    ensures
        final(out)@ == old(out)@ + styled(element, text@),
{
    let start = render_style(element.style());
    let end = render_reset(element.style());
    push_str(out, start.as_str());
    push_str(out, text);
    push_str(out, end.as_str());
    assert(final(out)@ =~= old(out)@ + styled(element, text@));
}

/// `text` wrapped in the codes of `style`.
pub open spec fn styled_with(style: TextStyle, text: Seq<char>) -> Seq<char> {
    style_code(style) + text + reset_code(style)
}

/// Appends `text` in the style `style`.
pub fn push_in_style(out: &mut String, style: TextStyle, text: &str)
    ensures
        final(out)@ == old(out)@ + styled_with(style, text@),
{
    let start = render_style(style);
    let end = render_reset(style);
    push_str(out, start.as_str());
    push_str(out, text);
    push_str(out, end.as_str());
    assert(final(out)@ =~= old(out)@ + styled_with(style, text@));
}

} // verus!
