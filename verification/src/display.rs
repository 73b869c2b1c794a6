//! Displaying command lines to the user.

use vstd::prelude::*;
use crate::attr_path::str_texts;
use crate::text::{chars_of, is_whitespace, is_whitespace_char, push_char, push_str};

verus! {

/// Whether `char::is_alphanumeric` holds of `c`; its value comes from the Unicode tables.
pub uninterp spec fn alphanumeric(c: char) -> bool;

/// `char::is_alphanumeric`: whether the character is alphabetic or numeric in Unicode. ASCII
/// letters and digits are; which other characters are is left to the Unicode tables.
#[verifier::external_body]
fn char_is_alphanumeric(c: char) -> (res: bool)
    ensures
        res == alphanumeric(c),
        ('a' <= c && c <= 'z') || ('A' <= c && c <= 'Z') || ('0' <= c && c <= '9') ==> res,
{
    c.is_alphanumeric()
}

/// The text of `{:?}` applied to a string: the string quoted, with its special characters
/// escaped.
pub uninterp spec fn debug_text(s: Seq<char>) -> Seq<char>;

/// `format!("{:?}", s)` for a string slice; the escaping rules are std's and are named by
/// [`debug_text`].
#[verifier::external_body]
pub(crate) fn debug_str(s: &str) -> (res: String)
    ensures
        res@ == debug_text(s@),
{
    format!("{:?}", s)
}

/// Whether `c` is ASCII punctuation, as `char::is_ascii_punctuation` documents it.
pub open spec fn ascii_punctuation(c: char) -> bool {
    ('!' <= c && c <= '/') || (':' <= c && c <= '@') || ('[' <= c && c <= '`') || ('{' <= c && c
        <= '~')
}

/// Whether a character makes an argument need quoting: quotes, backslashes and white space do,
/// as does anything that is neither alphanumeric nor ASCII punctuation.
pub open spec fn needs_quoting(c: char) -> bool {
    if c == '"' || c == '\'' || c == '\\' {
        true
    } else if is_whitespace_char(c) {
        true
    } else if alphanumeric(c) {
        false
    } else if ascii_punctuation(c) {
        false
    } else {
        true
    }
}

/// How a command-line argument is displayed: as it is, or quoted and escaped where it is empty
/// or holds a character that needs quoting.
pub open spec fn arg_text(arg: Seq<char>) -> Seq<char> {
    if arg.len() == 0 || exists|i: int| 0 <= i < arg.len() && needs_quoting(#[trigger] arg[i]) {
        debug_text(arg)
    } else {
        arg
    }
}

/// The displayed arguments, separated by spaces.
pub open spec fn args_text(args: Seq<Seq<char>>) -> Seq<char>
    decreases args.len(),
{
    if args.len() == 0 {
        Seq::empty()
    } else if args.len() == 1 {
        arg_text(args[0])
    } else {
        args_text(args.drop_last()) + seq![' '] + arg_text(args.last())
    }
}

fn char_needs_quoting(c: char) -> (res: bool)
    ensures
        res == needs_quoting(c),
{
    if c == '"' || c == '\'' || c == '\\' {
        true
    } else if is_whitespace(c) {
        true
    } else if char_is_alphanumeric(c) {
        false
    } else if ('!' <= c && c <= '/') || (':' <= c && c <= '@') || ('[' <= c && c <= '`') || ('{'
        <= c && c <= '~') {
        false
    } else {
        true
    }
}

/// Displays one command-line argument.
pub fn display_command_arg(arg: &str) -> (res: String)
    ensures
        res@ == arg_text(arg@),
{
    let chars = chars_of(arg);
    let mut quote = chars.len() == 0;
    let mut i: usize = 0;
    while i < chars.len() && !quote
        invariant
            chars@ == arg@,
            i <= chars@.len(),
            quote == (chars@.len() == 0 || exists|j: int| 0 <= j < i && needs_quoting(#[trigger] chars@[j])),
        decreases chars.len() - i,
    {
        if char_needs_quoting(chars[i]) {
            quote = true;
        }
        i = i + 1;
    }
    if quote {
        debug_str(arg)
    } else {
        let mut out = String::new();
        push_str(&mut out, arg);
        out
    }
}

/// Displays a command line: its arguments, separated by spaces.
pub fn display_command_args(args: &[&str]) -> (res: String)
    ensures
        res@ == args_text(str_texts(args@)),
{
    let mut out = String::new();
    for i in 0..args.len()
        invariant
            out@ == args_text(str_texts(args@).take(i as int)),
    {
        if i > 0 {
            push_char(&mut out, ' ');
        }
        let text = display_command_arg(args[i]);
        push_str(&mut out, text.as_str());
        assert(str_texts(args@).take(i + 1).drop_last() =~= str_texts(args@).take(i as int));
        assert(str_texts(args@).take(i + 1).len() == i + 1);
    }
    assert(str_texts(args@).take(args@.len() as int) =~= str_texts(args@));
    out
}

} // verus!
