//! Character classes and small string helpers shared by the parsers and printers.

use vstd::prelude::*;
use vstd::string::StringExecFns;

verus! {

/// Whether `c` has the Unicode `White_Space` property, as `char::is_whitespace` documents.
pub open spec fn is_whitespace_char(c: char) -> bool {
    ||| ('\u{9}' <= c && c <= '\u{d}')
    ||| c == ' '
    ||| c == '\u{85}'
    ||| c == '\u{a0}'
    ||| c == '\u{1680}'
    ||| ('\u{2000}' <= c && c <= '\u{200a}')
    ||| c == '\u{2028}'
    ||| c == '\u{2029}'
    ||| c == '\u{202f}'
    ||| c == '\u{205f}'
    ||| c == '\u{3000}'
}

/// Executable form of [`is_whitespace_char`].
pub fn is_whitespace(c: char) -> (res: bool)
    ensures
        res == is_whitespace_char(c),
{
    ('\u{9}' <= c && c <= '\u{d}') || c == ' ' || c == '\u{85}' || c == '\u{a0}' || c
        == '\u{1680}' || ('\u{2000}' <= c && c <= '\u{200a}') || c == '\u{2028}' || c
        == '\u{2029}' || c == '\u{202f}' || c == '\u{205f}' || c == '\u{3000}'
}

/// The characters of a string, in order.
pub fn chars_of(s: &str) -> (res: Vec<char>)
    ensures
        res@ == s@,
{
    let mut res: Vec<char> = Vec::new();
    for c in it: s.chars()
        invariant
            res@ == it.seq().take(it.index() as int),
            it.seq() == s@,
    {
        res.push(c);
    }
    res
}

/// Appends one character to a string.
#[verifier::external_body]
pub(crate) fn push_char(s: &mut String, c: char)
    ensures
        final(s)@ == old(s)@.push(c),
{
    s.push(c);
}

/// Appends a string slice to a string.
pub fn push_str(s: &mut String, t: &str)
    ensures
        final(s)@ == old(s)@ + t@,
{
    s.append(t);
}

/// The index of the first `"` at or after `k`.
pub open spec fn closing_quote(s: Seq<char>, k: int) -> Option<int>
    decreases s.len() - k,
{
    if k < 0 || k >= s.len() {
        None
    } else if s[k] == '"' {
        Some(k)
    } else {
        closing_quote(s, k + 1)
    }
}

pub proof fn lemma_closing_quote(s: Seq<char>, k: int)
    requires
        0 <= k,
    ensures
        closing_quote(s, k) matches Some(j) ==> k <= j < s.len() && s[j] == '"' && forall|m: int|
            k <= m < j ==> s[m] != '"',
        closing_quote(s, k) is None ==> forall|m: int| k <= m < s.len() ==> s[m] != '"',
    decreases s.len() - k,
{
    if k < s.len() && s[k] != '"' {
        lemma_closing_quote(s, k + 1);
    }
}

/// The first `"` at or after `k` is at `j` where `s[j]` is one and none comes between.
pub proof fn lemma_closing_quote_at(s: Seq<char>, k: int, j: int)
    requires
        0 <= k <= j < s.len(),
        s[j] == '"',
        forall|m: int| k <= m < j ==> s[m] != '"',
    ensures
        closing_quote(s, k) == Some(j),
    decreases j - k,
{
    if k < j {
        lemma_closing_quote_at(s, k + 1, j);
    }
}

} // verus!
