//! Sources of Nix expressions: a flake directory or a Nix file.

use vstd::prelude::*;
use crate::text::{chars_of, push_char, push_str};
use crate::display::{debug_str, debug_text};

verus! {

/// A source of Nix expressions.
#[derive(Clone, Debug)]
pub enum Source {
    Flake(FlakePath),
    /// Absolute, canonicalized path to the file.
    File(String),
}

/// Absolute, canonicalized path to the directory containing the `flake.nix` file.
///
/// Guaranteed to contain only characters that can be used in path-like flake references.
#[derive(Clone, Debug)]
pub struct FlakePath {
    path: String,
}

/// Errors in the values given for `--flake` and `--file`, and in flake paths.
#[derive(Clone, Debug, Eq, PartialEq)]
pub enum SourceError {
    /// A flake reference that is neither absolute nor starts with `./` or `../`.
    FlakeRefNotPath,
    /// A flake reference that holds `#` or `?`.
    FlakeRefSpecialChar,
    /// An empty file path.
    EmptyPath,
    /// A search path, such as `<nixpkgs>`.
    SearchPath,
    /// A path that starts with one of the prefixes that `nix` treats specially.
    UnsupportedPrefix(&'static str),
    /// A flake path with a character that flake references cannot hold.
    InvalidChar(char),
}

/// The lowercase hexadecimal digits of `n`, without leading zeros.
pub open spec fn hex_text(n: nat) -> Seq<char>
    decreases n,
{
    if n < 16 {
        seq!["0123456789abcdef"@[n as int]]
    } else {
        hex_text(n / 16) + seq!["0123456789abcdef"@[(n % 16) as int]]
    }
}

/// The text of `char::escape_default` for a character, as std documents it: tab, return and
/// newline as `\t`, `\r` and `\n`; the single quote, the double quote and the backslash after
/// a backslash; other printable ASCII as it is; anything else as `\u{...}` with the code
/// point in lowercase hexadecimal.
pub open spec fn escape_default_text(c: char) -> Seq<char> {
    if c == '\t' {
        seq!['\\', 't']
    } else if c == '\r' {
        seq!['\\', 'r']
    } else if c == '\n' {
        seq!['\\', 'n']
    } else if c == '\'' || c == '"' || c == '\\' {
        seq!['\\', c]
    } else if ' ' <= c && c <= '~' {
        seq![c]
    } else {
        seq!['\\', 'u', '{'] + hex_text(c as nat) + seq!['}']
    }
}

/// `char::escape_default`, collected into a string.
#[verifier::external_body]
fn escape_default(c: char) -> (res: String)
    ensures
        res@ == escape_default_text(c),
{
    format!("{}", c.escape_default())
}

/// The message shown for an error in the value of `--flake` or `--file`.
pub open spec fn source_error_text(e: SourceError) -> Seq<char> {
    match e {
        SourceError::FlakeRefNotPath => "flake paths must be absolute paths, or start with './' or '../'"@,
        SourceError::FlakeRefSpecialChar => "flake paths must not contain '#' or '?' characters"@,
        SourceError::EmptyPath => "empty paths are not supported"@,
        SourceError::SearchPath => "search paths (paths surrounded by '<' and '>') are not supported"@,
        SourceError::UnsupportedPrefix(p) => "paths starting with "@ + debug_text(p@)
            + " are not supported"@,
        SourceError::InvalidChar(c) => "flake path contains an invalid character: "@
            + escape_default_text(c),
    }
}

impl SourceError {
    /// The message shown to the user.
    pub fn message(&self) -> (res: String)
        ensures
            res@ == source_error_text(*self),
    {
        let mut out = String::new();
        match self {
            SourceError::FlakeRefNotPath => push_str(
                &mut out,
                "flake paths must be absolute paths, or start with './' or '../'",
            ),
            SourceError::FlakeRefSpecialChar => push_str(
                &mut out,
                "flake paths must not contain '#' or '?' characters",
            ),
            SourceError::EmptyPath => push_str(&mut out, "empty paths are not supported"),
            SourceError::SearchPath => push_str(
                &mut out,
                "search paths (paths surrounded by '<' and '>') are not supported",
            ),
            SourceError::UnsupportedPrefix(p) => {
                push_str(&mut out, "paths starting with ");
                let quoted = debug_str(p);
                push_str(&mut out, quoted.as_str());
                push_str(&mut out, " are not supported");
            },
            SourceError::InvalidChar(c) => {
                push_str(&mut out, "flake path contains an invalid character: ");
                let escaped = escape_default(*c);
                push_str(&mut out, escaped.as_str());
            },
        }
        out
    }
}

/// Whether the first component of the path `s` is `name`.
pub open spec fn first_component_is(s: Seq<char>, name: Seq<char>) -> bool {
    s == name || (s.len() > name.len() && s.take(name.len() as int) == name && s[name.len() as int]
        == '/')
}

/// Whether a character may stand in a path-like flake reference.
pub open spec fn valid_flake_char(c: char) -> bool {
    ('a' <= c && c <= 'z') || ('A' <= c && c <= 'Z') || ('0' <= c && c <= '9') || "-._~!$&'\"()*+,;=/"@.contains(c)
}

/// The prefixes of file arguments that `nix` gives a special meaning.
pub open spec fn special_prefixes() -> Seq<Seq<char>> {
    seq!["http://"@, "https://"@, "flake:"@, "channel:"@]
}

/// Whether `s` starts with `prefix`.
pub open spec fn starts_with(s: Seq<char>, prefix: Seq<char>) -> bool {
    prefix.len() <= s.len() && s.take(prefix.len() as int) == prefix
}

/// Whether `s` starts with `prefix`.
pub fn has_prefix(s: &str, prefix: &str) -> (res: bool)
    ensures
        res == starts_with(s@, prefix@),
{
    let a = chars_of(s);
    let b = chars_of(prefix);
    if b.len() > a.len() {
        return false;
    }
    let mut i: usize = 0;
    while i < b.len()
        invariant
            a@ == s@,
            b@ == prefix@,
            b@.len() <= a@.len(),
            i <= b@.len(),
            forall|j: int| 0 <= j < i ==> a@[j] == b@[j],
        decreases b.len() - i,
    {
        if a[i] != b[i] {
            assert(s@.take(prefix@.len() as int)[i as int] != prefix@[i as int]);
            return false;
        }
        i = i + 1;
    }
    assert(s@.take(prefix@.len() as int) =~= prefix@);
    true
}

/// Whether the first component of the path `s` is `name`.
fn first_component_equals(s: &str, name: &str) -> (res: bool)
    ensures
        res == first_component_is(s@, name@),
{
    let a = chars_of(s);
    let b = chars_of(name);
    if !has_prefix(s, name) {
        assert(s@ == name@ ==> s@.take(name@.len() as int) =~= name@);
        return false;
    }
    if a.len() == b.len() {
        assert(s@ =~= name@);
        return true;
    }
    if a[b.len()] == '/' {
        true
    } else {
        assert(!(s@ == name@)) by {
            assert(s@.len() != name@.len());
        }
        false
    }
}

/// Whether `s` holds the character `c`.
pub fn contains_char(s: &str, c: char) -> (res: bool)
    ensures
        res == s@.contains(c),
{
    let a = chars_of(s);
    let mut i: usize = 0;
    while i < a.len()
        invariant
            a@ == s@,
            i <= a@.len(),
            forall|j: int| 0 <= j < i ==> a@[j] != c,
        decreases a.len() - i,
    {
        if a[i] == c {
            assert(s@[i as int] == c);
            return true;
        }
        i = i + 1;
    }
    false
}

/// Whether the value of `--flake` is acceptable: an absolute path, or a relative one that starts
/// with `./` or `../` (or is `.` or `..`), without `#` or `?`.
pub open spec fn flake_ref_check(s: Seq<char>) -> Result<(), SourceError> {
    if !(starts_with(s, "/"@) || first_component_is(s, "."@) || first_component_is(s, ".."@)) {
        Err(SourceError::FlakeRefNotPath)
    } else if s.contains('#') || s.contains('?') {
        Err(SourceError::FlakeRefSpecialChar)
    } else {
        Ok(())
    }
}

/// Whether the value of `--file` is acceptable: not empty, not a search path, and not starting
/// with a prefix that `nix` treats specially.
pub open spec fn file_arg_check(s: Seq<char>) -> Result<(), SourceError> {
    if s.len() == 0 {
        Err(SourceError::EmptyPath)
    } else if starts_with(s, "<"@) && s.last() == '>' {
        Err(SourceError::SearchPath)
    } else if starts_with(s, "http://"@) {
        Err(SourceError::UnsupportedPrefix("http://"))
    } else if starts_with(s, "https://"@) {
        Err(SourceError::UnsupportedPrefix("https://"))
    } else if starts_with(s, "flake:"@) {
        Err(SourceError::UnsupportedPrefix("flake:"))
    } else if starts_with(s, "channel:"@) {
        Err(SourceError::UnsupportedPrefix("channel:"))
    } else {
        Ok(())
    }
}

impl Source {
    /// Checks the value of `--flake` before it is looked up on disk.
    pub fn check_flake_ref(flake_ref: &str) -> (res: Result<(), SourceError>)
        ensures
            res == flake_ref_check(flake_ref@),
    {
        if !(has_prefix(flake_ref, "/") || first_component_equals(flake_ref, ".")
            || first_component_equals(flake_ref, "..")) {
            return Err(SourceError::FlakeRefNotPath);
        }
        if contains_char(flake_ref, '#') || contains_char(flake_ref, '?') {
            return Err(SourceError::FlakeRefSpecialChar);
        }
        Ok(())
    }

    /// Checks the value of `--file` (as text) before it is looked up on disk.
    pub fn check_file_arg(file_path: &str) -> (res: Result<(), SourceError>)
        ensures
            res == file_arg_check(file_path@),
    {
        let chars = chars_of(file_path);
        if chars.len() == 0 {
            return Err(SourceError::EmptyPath);
        }
        if has_prefix(file_path, "<") && chars[chars.len() - 1] == '>' {
            return Err(SourceError::SearchPath);
        }
        if has_prefix(file_path, "http://") {
            return Err(SourceError::UnsupportedPrefix("http://"));
        }
        if has_prefix(file_path, "https://") {
            return Err(SourceError::UnsupportedPrefix("https://"));
        }
        if has_prefix(file_path, "flake:") {
            return Err(SourceError::UnsupportedPrefix("flake:"));
        }
        if has_prefix(file_path, "channel:") {
            return Err(SourceError::UnsupportedPrefix("channel:"));
        }
        Ok(())
    }
}

/// The last index of `/` in `s`, or -1.
pub open spec fn last_slash(s: Seq<char>) -> int
    decreases s.len(),
{
    if s.len() == 0 {
        -1
    } else if s.last() == '/' {
        s.len() - 1
    } else {
        last_slash(s.drop_last())
    }
}

proof fn lemma_last_slash(s: Seq<char>)
    ensures
        -1 <= last_slash(s) < s.len(),
        last_slash(s) >= 0 ==> s[last_slash(s)] == '/',
        forall|j: int| last_slash(s) < j < s.len() ==> s[j] != '/',
    decreases s.len(),
{
    if s.len() > 0 && s.last() != '/' {
        lemma_last_slash(s.drop_last());
        assert forall|j: int| last_slash(s) < j < s.len() implies s[j] != '/' by {
            if j < s.len() - 1 {
                assert(s[j] == s.drop_last()[j]);
            }
        }
    }
}

/// The directory that contains `path` (an absolute path without a trailing slash): what comes
/// before its last `/`, or `/` itself.
pub open spec fn parent_path(path: Seq<char>) -> Seq<char> {
    if last_slash(path) <= 0 {
        "/"@
    } else {
        path.take(last_slash(path))
    }
}

/// The directory that contains `path`.
pub fn parent_dir(path: &str) -> (res: String)
    ensures
        res@ == parent_path(path@),
{
    proof {
        lemma_last_slash(path@);
    }
    let chars = chars_of(path);
    let mut k = chars.len();
    assert(path@.take(k as int) =~= path@);
    while k > 0 && chars[k - 1] != '/'
        invariant
            chars@ == path@,
            k <= chars@.len(),
            last_slash(path@) == last_slash(path@.take(k as int)),
        decreases k,
    {
        assert(path@.take(k as int).drop_last() =~= path@.take(k - 1));
        k = k - 1;
    }
    if k > 0 {
        assert(path@.take(k as int).last() == '/');
    }
    if k <= 1 {
        return String::from_str("/");
    }
    let mut res = String::new();
    let mut i: usize = 0;
    while i < k - 1
        invariant
            chars@ == path@,
            1 < k <= chars@.len(),
            i <= k - 1,
            res@ == path@.take(i as int),
        decreases k - 1 - i,
    {
        push_char(&mut res, chars[i]);
        assert(path@.take(i + 1) =~= path@.take(i as int).push(path@[i as int]));
        i = i + 1;
    }
    res
}

/// One step of the search upwards from a directory for a flake or a repository root.
#[derive(Clone, Debug, Eq, PartialEq)]
pub enum SearchStep {
    /// The directory is the one sought.
    Found,
    /// The search ends without result.
    NotFound,
    /// The search goes on in the parent directory.
    Parent(String),
}

/// The next step of the search for a flake from `dir`, given whether `dir` holds `flake.nix`
/// and `.git`: a flake is found where `flake.nix` is; the search stops at a repository root
/// or at `/`, and goes on in the parent otherwise.
pub fn flake_search_step(dir: &str, has_flake_nix: bool, has_dot_git: bool) -> (res: SearchStep)
    ensures
        has_flake_nix ==> res == SearchStep::Found,
        !has_flake_nix && (has_dot_git || dir@ == "/"@) ==> res == SearchStep::NotFound,
        !has_flake_nix && !has_dot_git && dir@ != "/"@ ==> (res matches SearchStep::Parent(p)
            && p@ == parent_path(dir@)),
{
    if has_flake_nix {
        SearchStep::Found
    } else if has_dot_git || is_root(dir) {
        SearchStep::NotFound
    } else {
        SearchStep::Parent(parent_dir(dir))
    }
}

/// The next step of the search for the root of a Git repository from `dir`, given whether
/// `dir` holds `.git`: the root is found where `.git` is; the search stops at `/` and goes on
/// in the parent otherwise.
pub fn repo_search_step(dir: &str, has_dot_git: bool) -> (res: SearchStep)
    ensures
        has_dot_git ==> res == SearchStep::Found,
        !has_dot_git && dir@ == "/"@ ==> res == SearchStep::NotFound,
        !has_dot_git && dir@ != "/"@ ==> (res matches SearchStep::Parent(p) && p@ == parent_path(
            dir@,
        )),
{
    if has_dot_git {
        SearchStep::Found
    } else if is_root(dir) {
        SearchStep::NotFound
    } else {
        SearchStep::Parent(parent_dir(dir))
    }
}

/// Whether `dir` is the root directory `/`.
fn is_root(dir: &str) -> (res: bool)
    ensures
        res == (dir@ == "/"@),
{
    proof {
        reveal_strlit("/");
        if dir@ == "/"@ {
            assert(dir@.take(1) =~= dir@);
        }
    }
    let res = has_prefix(dir, "/") && dir.unicode_len() == 1;
    if res {
        assert(dir@ =~= "/"@);
    }
    res
}

/// Law: the parent of a path with a character after its first `/` is strictly shorter,
/// so each search upwards ends.
pub proof fn law_parent_is_shorter(path: Seq<char>)
    requires
        path.len() > 1,
    ensures
        parent_path(path).len() < path.len(),
{
    lemma_last_slash(path);
    reveal_strlit("/");
}

impl FlakePath {
    /// Whether a character may stand in a path-like flake reference: ASCII letters and digits
    /// and `-._~!$&'"()*+,;=/`.
    pub fn is_valid_char(c: char) -> (res: bool)
        ensures
            res == valid_flake_char(c),
    {
        ('a' <= c && c <= 'z') || ('A' <= c && c <= 'Z') || ('0' <= c && c <= '9')
            || contains_char("-._~!$&'\"()*+,;=/", c)
    }

    /// A flake path from an absolute, canonicalized path; it is refused where it holds a
    /// character that flake references cannot hold, the first of which the error names.
    pub fn new(path: String) -> (res: Result<Self, SourceError>)
        ensures
            (forall|i: int| 0 <= i < path@.len() ==> valid_flake_char(#[trigger] path@[i])) ==> (
            res matches Ok(p) && p.spec_str() == path@),
            !(forall|i: int| 0 <= i < path@.len() ==> valid_flake_char(#[trigger] path@[i])) ==> (
            res matches Err(SourceError::InvalidChar(c)) && exists|i: int|
                0 <= i < path@.len() && path@[i] == c && !valid_flake_char(c) && forall|j: int|
                    0 <= j < i ==> valid_flake_char(#[trigger] path@[j])),
    {
        let chars = chars_of(path.as_str());
        let mut i: usize = 0;
        while i < chars.len()
            invariant
                chars@ == path@,
                i <= chars@.len(),
                forall|j: int| 0 <= j < i ==> valid_flake_char(#[trigger] path@[j]),
            decreases chars.len() - i,
        {
            if !Self::is_valid_char(chars[i]) {
                return Err(SourceError::InvalidChar(chars[i]));
            }
            i = i + 1;
        }
        Ok(FlakePath { path })
    }

    /// The path as a string.
    pub fn as_path(&self) -> (res: &str)
        ensures
            res@ == self.spec_str(),
    {
        self.path.as_str()
    }

    /// The path as text.
    pub closed spec fn spec_str(&self) -> Seq<char> {
        self.path@
    }

    /// The path as a string slice.
    pub fn as_str(&self) -> (res: &str)
        ensures
            res@ == self.spec_str(),
    {
        self.path.as_str()
    }
}

/// Law: every path-like flake reference without `#` or `?` is accepted: one under the parent
/// directory (`..` or `../...`), under the current directory (`.` or `./...`), or absolute;
/// and none with `#` or `?` is.
pub proof fn law_path_like_flake_refs_accepted(t: Seq<char>)
    requires
        !t.contains('#'),
        !t.contains('?'),
    ensures
        flake_ref_check("../"@ + t) == Ok::<(), SourceError>(()),
        flake_ref_check("./"@ + t) == Ok::<(), SourceError>(()),
        flake_ref_check("/"@ + t) == Ok::<(), SourceError>(()),
        flake_ref_check(".."@) == Ok::<(), SourceError>(()),
        flake_ref_check("."@) == Ok::<(), SourceError>(()),
        forall|s: Seq<char>| (s.contains('#') || s.contains('?')) ==> #[trigger] flake_ref_check(s) is Err,
{
    reveal_strlit("../");
    reveal_strlit("./");
    reveal_strlit("/");
    reveal_strlit("..");
    reveal_strlit(".");
    let (a, b, c) = ("../"@ + t, "./"@ + t, "/"@ + t);
    assert(a.take(2) =~= ".."@);
    assert(a[2] == '/');
    assert(b.take(1) =~= "."@);
    assert(b[1] == '/');
    assert(c.take(1) =~= "/"@);
    assert forall|x: char| x == '#' || x == '?' implies !a.contains(x) && !b.contains(x)
        && !c.contains(x) by {
        if a.contains(x) {
            let i = choose|i: int| 0 <= i < a.len() && a[i] == x;
            assert(t[i - 3] == x);
        }
        if b.contains(x) {
            let i = choose|i: int| 0 <= i < b.len() && b[i] == x;
            assert(t[i - 2] == x);
        }
        if c.contains(x) {
            let i = choose|i: int| 0 <= i < c.len() && c[i] == x;
            assert(t[i - 1] == x);
        }
    }
    assert(!".."@.contains('#') && !".."@.contains('?'));
    assert(!"."@.contains('#') && !"."@.contains('?'));
}

/// Law: a flake reference that does not start like a path (with `/` or `.`) is refused as not
/// a path, and an absolute one holding `#` or `?` is refused for that character.
pub proof fn law_flake_refs_refused(s: Seq<char>, t: Seq<char>)
    ensures
        s.len() == 0 || (s[0] != '/' && s[0] != '.') ==> flake_ref_check(s) == Err::<(), SourceError>(
            SourceError::FlakeRefNotPath,
        ),
        t.contains('#') || t.contains('?') ==> flake_ref_check("/"@ + t) == Err::<(), SourceError>(
            SourceError::FlakeRefSpecialChar,
        ),
{
    reveal_strlit("/");
    reveal_strlit(".");
    reveal_strlit("..");
    if s.len() == 0 || (s[0] != '/' && s[0] != '.') {
        assert(!starts_with(s, "/"@)) by {
            if s.len() > 0 {
                assert(s.take(1)[0] == s[0]);
            }
        }
        assert(!first_component_is(s, "."@)) by {
            if s.len() > 0 {
                assert(s.take(1)[0] == s[0]);
            }
            if s == "."@ {
                assert(s[0] == '.');
            }
        }
        assert(!first_component_is(s, ".."@)) by {
            if s.len() > 1 {
                assert(s.take(2)[0] == s[0]);
            }
            if s == ".."@ {
                assert(s[0] == '.');
            }
        }
    }
    let c = "/"@ + t;
    assert(c.take(1) =~= "/"@);
    if t.contains('#') {
        let i = choose|i: int| 0 <= i < t.len() && t[i] == '#';
        assert(c[i + 1] == '#');
    }
    if t.contains('?') {
        let i = choose|i: int| 0 <= i < t.len() && t[i] == '?';
        assert(c[i + 1] == '?');
    }
}

} // verus!
