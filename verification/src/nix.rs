//! Nix expressions and flake references built from the program's data.

use vstd::prelude::*;
use vstd::string::StrSliceExecFns;
use crate::attr_path::{base_query, nixos_suffix, path_views, str_texts, texts, AttrPath, AttrPathView};
use crate::json::{
    decode_string, decode_string_list, decode_string_list3, encode_string_list, json_of_strings,
    json_string, json_string_list, json_string_list3, texts2, texts3, JsonError,
};
use crate::command::{cmd_view, Cmd, Program};
use crate::source::FlakePath;
use crate::text::{chars_of, push_char, push_str};

verus! {

/// The escaped form of a character inside a Nix string literal, given the character after it:
/// `"` and `\` are escaped, as are `$` when it starts `${`, and newline, carriage return, tab.
pub open spec fn escape_char(c: char, next: Option<char>) -> Seq<char> {
    if c == '"' || c == '\\' {
        seq!['\\', c]
    } else if c == '$' && next == Some('{') {
        seq!['\\', '$']
    } else if c == '\n' {
        seq!['\\', 'n']
    } else if c == '\r' {
        seq!['\\', 'r']
    } else if c == '\t' {
        seq!['\\', 't']
    } else {
        seq![c]
    }
}

/// The character that follows position `i`, if any.
pub open spec fn char_after(s: Seq<char>, i: int) -> Option<char> {
    if i + 1 < s.len() {
        Some(s[i + 1])
    } else {
        None
    }
}

/// The escaped forms of the characters of `s[..n]`, one after another.
pub open spec fn escaped_prefix(s: Seq<char>, n: int) -> Seq<char>
    decreases n,
{
    if n <= 0 {
        Seq::empty()
    } else {
        escaped_prefix(s, n - 1) + escape_char(s[n - 1], char_after(s, n - 1))
    }
}

/// `s` as a string literal in the Nix expression language.
pub open spec fn nix_string_literal(s: Seq<char>) -> Seq<char> {
    seq!['"'] + escaped_prefix(s, s.len() as int) + seq!['"']
}

/// The literals of `elems`, each followed by a space but the last.
pub open spec fn list_items(elems: Seq<Seq<char>>) -> Seq<char>
    decreases elems.len(),
{
    if elems.len() == 0 {
        Seq::empty()
    } else if elems.len() == 1 {
        nix_string_literal(elems[0])
    } else {
        list_items(elems.drop_last()) + seq![' '] + nix_string_literal(elems.last())
    }
}

/// A list of strings in the Nix expression language.
pub open spec fn nix_list_literal(elems: Seq<Seq<char>>) -> Seq<char> {
    seq!['['] + list_items(elems) + seq![']']
}

/// The character that the escape `\c` stands for in a Nix string: newline, return and tab
/// for `n`, `r` and `t`, the character itself otherwise.
pub open spec fn nix_unescape(c: char) -> char {
    if c == 'n' {
        '\n'
    } else if c == 'r' {
        '\r'
    } else if c == 't' {
        '\t'
    } else {
        c
    }
}

/// What Nix reads from the text between the quotes of a double-quoted string: `None` where
/// the text would end the string early (an unescaped `"`), start an interpolation (`${`), or
/// end in a lone backslash.
pub open spec fn nix_read_body(b: Seq<char>) -> Option<Seq<char>>
    decreases b.len(),
{
    if b.len() == 0 {
        Some(Seq::empty())
    } else if b[0] == '"' {
        None
    } else if b[0] == '\\' {
        if b.len() < 2 {
            None
        } else {
            match nix_read_body(b.skip(2)) {
                Some(t) => Some(seq![nix_unescape(b[1])] + t),
                None => None,
            }
        }
    } else if b[0] == '$' && b.len() >= 2 && b[1] == '{' {
        None
    } else {
        match nix_read_body(b.drop_first()) {
            Some(t) => Some(seq![b[0]] + t),
            None => None,
        }
    }
}

/// The string that a double-quoted Nix string literal denotes, if it is one.
pub open spec fn nix_read_literal(lit: Seq<char>) -> Option<Seq<char>> {
    if lit.len() >= 2 && lit[0] == '"' && lit.last() == '"' {
        nix_read_body(lit.subrange(1, lit.len() - 1))
    } else {
        None
    }
}

/// The escaped forms of the characters of `s[i..]`, one after another.
spec fn escaped_from(s: Seq<char>, i: int) -> Seq<char>
    decreases s.len() - i,
{
    if i < 0 || i >= s.len() {
        Seq::empty()
    } else {
        escape_char(s[i], char_after(s, i)) + escaped_from(s, i + 1)
    }
}

proof fn lemma_escaped_split(s: Seq<char>, n: int)
    requires
        0 <= n <= s.len(),
    ensures
        escaped_prefix(s, n) + escaped_from(s, n) == escaped_from(s, 0),
    decreases n,
{
    if n > 0 {
        lemma_escaped_split(s, n - 1);
        assert(escaped_prefix(s, n) + escaped_from(s, n) =~= escaped_prefix(s, n - 1)
            + escaped_from(s, n - 1));
    } else {
        assert(escaped_prefix(s, n) + escaped_from(s, n) =~= escaped_from(s, n));
    }
}

/// The escaped form of `s[i..]` starts with a backslash or with `s[i]`.
proof fn lemma_escaped_from_start(s: Seq<char>, i: int)
    requires
        0 <= i < s.len(),
    ensures
        escaped_from(s, i).len() > 0,
        escaped_from(s, i)[0] == '\\' || escaped_from(s, i)[0] == s[i],
{
    let e = escape_char(s[i], char_after(s, i));
    assert(e.len() > 0);
    assert(escaped_from(s, i)[0] == e[0]);
}

/// Nix reads the escaped form of `s[i..]` back as `s[i..]`.
proof fn lemma_read_escaped(s: Seq<char>, i: int)
    requires
        0 <= i <= s.len(),
    ensures
        nix_read_body(escaped_from(s, i)) == Some(s.skip(i)),
    decreases s.len() - i,
{
    if i == s.len() {
        assert(s.skip(i) =~= Seq::<char>::empty());
    } else {
        lemma_read_escaped(s, i + 1);
        let c = s[i];
        let e = escape_char(c, char_after(s, i));
        let rest = escaped_from(s, i + 1);
        let b = escaped_from(s, i);
        assert(b == e + rest);
        assert(s.skip(i) =~= seq![c] + s.skip(i + 1));
        if e.len() == 2 {
            assert(b[0] == '\\');
            assert(b.skip(2) =~= rest);
            assert(nix_unescape(b[1]) == c);
        } else {
            assert(e == seq![c]);
            assert(b.drop_first() =~= rest);
            if c == '$' && b.len() >= 2 {
                lemma_escaped_from_start(s, i + 1);
                assert(b[1] == rest[0]);
                assert(char_after(s, i) == Some(s[i + 1]));
                assert(s[i + 1] != '{');
            }
        }
    }
}

/// Law: Nix reads the literal that [`to_string_literal`] writes for `s` back as `s`.
pub proof fn law_string_literal_reads_back(s: Seq<char>)
    ensures
        nix_read_literal(nix_string_literal(s)) == Some(s),
{
    let e = escaped_prefix(s, s.len() as int);
    lemma_escaped_split(s, s.len() as int);
    assert(escaped_from(s, s.len() as int) =~= Seq::<char>::empty());
    assert(e =~= escaped_from(s, 0));
    lemma_read_escaped(s, 0);
    assert(s.skip(0) =~= s);
    let lit = nix_string_literal(s);
    assert(lit.subrange(1, lit.len() - 1) =~= e);
}

/// Law: different strings get different Nix string literals.
pub proof fn law_string_literal_injective(a: Seq<char>, b: Seq<char>)
    requires
        nix_string_literal(a) == nix_string_literal(b),
    ensures
        a == b,
{
    law_string_literal_reads_back(a);
    law_string_literal_reads_back(b);
}

/// Formats a string as a string literal value in the Nix expression language.
pub fn to_string_literal(s: &str) -> (res: String)
    ensures
        res@ == nix_string_literal(s@),
{
    let chars = chars_of(s);
    let mut out = String::new();
    push_char(&mut out, '"');
    let mut i: usize = 0;
    while i < chars.len()
        invariant
            chars@ == s@,
            i <= chars@.len(),
            out@ == seq!['"'] + escaped_prefix(s@, i as int),
        decreases chars.len() - i,
    {
        let c = chars[i];
        let next_is_brace = i + 1 < chars.len() && chars[i + 1] == '{';
        if c == '"' || c == '\\' {
            push_char(&mut out, '\\');
            push_char(&mut out, c);
        } else if c == '$' && next_is_brace {
            push_char(&mut out, '\\');
            push_char(&mut out, '$');
        } else if c == '\n' {
            push_char(&mut out, '\\');
            push_char(&mut out, 'n');
        } else if c == '\r' {
            push_char(&mut out, '\\');
            push_char(&mut out, 'r');
        } else if c == '\t' {
            push_char(&mut out, '\\');
            push_char(&mut out, 't');
        } else {
            push_char(&mut out, c);
        }
        assert(out@ =~= seq!['"'] + escaped_prefix(s@, i + 1));
        i = i + 1;
    }
    push_char(&mut out, '"');
    out
}

/// Formats strings as a list of string literals in the Nix expression language.
pub fn to_string_list_literal(elems: &[&str]) -> (res: String)
    ensures
        res@ == nix_list_literal(str_texts(elems@)),
{
    let mut out = String::new();
    push_char(&mut out, '[');
    for i in 0..elems.len()
        invariant
            out@ == seq!['['] + list_items(str_texts(elems@).take(i as int)),
    {
        if i > 0 {
            push_char(&mut out, ' ');
        }
        let literal = to_string_literal(elems[i]);
        push_str(&mut out, literal.as_str());
        assert(str_texts(elems@).take(i + 1).drop_last() =~= str_texts(elems@).take(i as int));
        assert(str_texts(elems@).take(i + 1).len() == i + 1);
    }
    assert(str_texts(elems@).take(elems@.len() as int) =~= str_texts(elems@));
    push_char(&mut out, ']');
    out
}

/// The text of an optional string slice.
pub open spec fn opt_text(o: Option<&str>) -> Option<Seq<char>> {
    match o {
        Some(s) => Some(s@),
        None => None,
    }
}

/// A reference to the flake, pinned to a commit where one is given.
pub open spec fn flake_ref_text(path: Seq<char>, commit_id: Option<Seq<char>>) -> Seq<char> {
    match commit_id {
        Some(rev) => path + "?rev="@ + rev,
        None => path,
    }
}

/// The flake reference for `flake_path` at `commit_id` (the working tree where it is `None`).
pub fn make_flake_ref(flake_path: &FlakePath, commit_id: Option<&str>) -> (res: String)
    ensures
        res@ == flake_ref_text(flake_path.spec_str(), opt_text(commit_id)),
{
    let mut out = String::new();
    push_str(&mut out, flake_path.as_str());
    match commit_id {
        Some(rev) => {
            push_str(&mut out, "?rev=");
            push_str(&mut out, rev);
            assert(out@ =~= flake_path.spec_str() + "?rev="@ + rev@);
        },
        None => {
            assert(out@ =~= flake_path.spec_str());
        },
    }
    out
}

/// The installable that denotes the outputs of the flake.
pub fn make_flake_root_output(flake_path: &FlakePath, commit_id: Option<&str>) -> (res: String)
    ensures
        res@ == flake_ref_text(flake_path.spec_str(), opt_text(commit_id)) + "#."@,
{
    let mut out = make_flake_ref(flake_path, commit_id);
    push_str(&mut out, "#.");
    out
}

/// Whether `root` is a leading part of the path `path`, made of whole components.
pub open spec fn is_path_prefix(root: Seq<char>, path: Seq<char>) -> bool {
    ||| path == root
    ||| root.len() > 0 && root.last() == '/' && root.len() <= path.len() && path.take(
        root.len() as int,
    ) == root
    ||| root.len() < path.len() && path.take(root.len() as int) == root && path[root.len() as int]
        == '/'
}

/// `s` without the run of `/` it starts with.
pub open spec fn drop_slashes(s: Seq<char>) -> Seq<char>
    decreases s.len(),
{
    if s.len() > 0 && s[0] == '/' {
        drop_slashes(s.drop_first())
    } else {
        s
    }
}

/// `drop_slashes` keeps an end of `s`, drops only `/`, and leaves no `/` in front.
proof fn lemma_drop_slashes(s: Seq<char>)
    ensures
        drop_slashes(s).len() <= s.len(),
        drop_slashes(s) == s.skip(s.len() - drop_slashes(s).len()),
        forall|j: int| 0 <= j < s.len() - drop_slashes(s).len() ==> s[j] == '/',
        drop_slashes(s).len() == 0 || drop_slashes(s)[0] != '/',
    decreases s.len(),
{
    if s.len() > 0 && s[0] == '/' {
        lemma_drop_slashes(s.drop_first());
        let d = drop_slashes(s);
        assert(s.skip(s.len() - d.len()) =~= s.drop_first().skip(s.drop_first().len() - d.len()));
        assert forall|j: int| 0 <= j < s.len() - d.len() implies s[j] == '/' by {
            if j > 0 {
                assert(s[j] == s.drop_first()[j - 1]);
            }
        }
    } else {
        assert(s.skip(0) =~= s);
    }
}

/// What remains of `path` after the leading part `root` and the run of `/` that follows it,
/// as `Path::strip_prefix` gives it: a relative path.
pub open spec fn path_after(root: Seq<char>, path: Seq<char>) -> Seq<char> {
    drop_slashes(path.skip(root.len() as int))
}

/// Law: the path in the repository, put back after the repository root and the separators
/// between them, gives the file's path again; it is relative.
pub proof fn law_path_in_repo_rejoins(root: Seq<char>, path: Seq<char>)
    requires
        is_path_prefix(root, path),
    ensures
        ({
            let after = path_after(root, path);
            &&& root.len() + after.len() <= path.len()
            &&& path.take(root.len() as int) == root
            &&& path.skip(path.len() - after.len()) == after
            &&& forall|j: int| root.len() <= j < path.len() - after.len() ==> path[j] == '/'
            &&& after.len() == 0 || after[0] != '/'
        }),
{
    let rest = path.skip(root.len() as int);
    lemma_drop_slashes(rest);
    let after = path_after(root, path);
    if path == root {
        assert(path.take(root.len() as int) =~= root);
    }
    assert(path.skip(path.len() - after.len()) =~= rest.skip(rest.len() - after.len()));
    assert forall|j: int| root.len() <= j < path.len() - after.len() implies path[j] == '/' by {
        assert(path[j] == rest[j - root.len()]);
    }
}

/// The length of the first name of a path that starts with one: up to the next `/`.
pub open spec fn name_len(s: Seq<char>) -> nat
    decreases s.len(),
{
    if s.len() == 0 || s[0] == '/' {
        0
    } else {
        1 + name_len(s.drop_first())
    }
}

/// The names of a path, in order: what stands between the `/` separators, where it is not
/// empty. This is how `Path::components` reads a path free of `.` and `..`.
pub open spec fn components(s: Seq<char>) -> Seq<Seq<char>>
    decreases s.len(),
{
    if s.len() == 0 {
        Seq::empty()
    } else if s[0] == '/' {
        components(s.drop_first())
    } else {
        proof {
            lemma_name_len(s);
        }
        seq![s.take(name_len(s) as int)] + components(s.skip(name_len(s) as int))
    }
}

/// The first name is at most the whole path, not empty where the path starts with one, holds
/// no separator, and is followed by one or by the end.
pub proof fn lemma_name_len(s: Seq<char>)
    ensures
        name_len(s) <= s.len(),
        s.len() > 0 && s[0] != '/' ==> name_len(s) >= 1,
        name_len(s) < s.len() ==> s[name_len(s) as int] == '/',
        forall|i: int| 0 <= i < name_len(s) ==> s[i] != '/',
    decreases s.len(),
{
    if s.len() > 0 && s[0] != '/' {
        lemma_name_len(s.drop_first());
        assert forall|i: int| 0 <= i < name_len(s) implies s[i] != '/' by {
            if i > 0 {
                assert(s[i] == s.drop_first()[i - 1]);
            }
        }
    }
}

/// A name that ends inside `a`, or where `b` starts with a separator, is not changed by `b`.
proof fn lemma_name_len_concat(a: Seq<char>, b: Seq<char>)
    requires
        name_len(a) < a.len() || b.len() == 0 || b[0] == '/',
    ensures
        name_len(a + b) == name_len(a),
    decreases a.len(),
{
    if a.len() > 0 && a[0] != '/' {
        assert((a + b).drop_first() =~= a.drop_first() + b);
        lemma_name_len_concat(a.drop_first(), b);
    } else if a.len() == 0 {
        assert(a + b =~= b);
    }
}

/// A path made only of separators has no names.
proof fn lemma_components_of_slashes(s: Seq<char>)
    requires
        forall|i: int| 0 <= i < s.len() ==> s[i] == '/',
    ensures
        components(s) == Seq::<Seq<char>>::empty(),
    decreases s.len(),
{
    if s.len() > 0 {
        lemma_components_of_slashes(s.drop_first());
    }
}

/// Two paths joined at a separator have the names of the first, then those of the second.
proof fn lemma_components_concat(a: Seq<char>, b: Seq<char>)
    requires
        a.len() == 0 || a.last() == '/' || b.len() == 0 || b[0] == '/',
    ensures
        components(a + b) == components(a) + components(b),
    decreases a.len(),
{
    if a.len() == 0 {
        assert(a + b =~= b);
        assert(components(a) + components(b) =~= components(b));
    } else if a[0] == '/' {
        let t = a.drop_first();
        assert((a + b).drop_first() =~= t + b);
        if t.len() > 0 {
            assert(t.last() == a.last());
        }
        lemma_components_concat(t, b);
    } else {
        lemma_name_len(a);
        let k = name_len(a) as int;
        if k == a.len() {
            assert(a[a.len() - 1] != '/');
        }
        lemma_name_len_concat(a, b);
        let t = a.skip(k);
        assert((a + b).take(k) =~= a.take(k));
        assert((a + b).skip(k) =~= t + b);
        if t.len() > 0 {
            assert(t.last() == a.last());
        }
        lemma_components_concat(t, b);
        assert(seq![a.take(k)] + (components(t) + components(b)) =~= (seq![a.take(k)]
            + components(t)) + components(b));
    }
}

/// Law: the path in the repository names what follows the repository root in the file's
/// path: the names of the file's path are those of the root, then those of the path in the
/// repository, which is relative.
pub proof fn law_path_in_repo_components(root: Seq<char>, path: Seq<char>)
    requires
        is_path_prefix(root, path),
    ensures
        components(path) == components(root) + components(path_after(root, path)),
        path_after(root, path).len() == 0 || path_after(root, path)[0] != '/',
{
    law_path_in_repo_rejoins(root, path);
    let rest = path.skip(root.len() as int);
    let after = path_after(root, path);
    lemma_drop_slashes(rest);
    let seps = rest.take(rest.len() - after.len());
    assert(rest =~= seps + after);
    lemma_components_of_slashes(seps);
    lemma_components_concat(seps, after);
    assert(components(seps) + components(after) =~= components(after));
    assert(path =~= root + rest);
    if path == root {
        assert(rest.len() == 0);
    } else if root.len() > 0 && root.last() == '/' {
    } else {
        assert(rest[0] == path[root.len() as int]);
    }
    lemma_components_concat(root, rest);
}

/// Whether `root` is a leading part of the path `path`, made of whole components.
pub fn path_has_prefix(root: &str, path: &str) -> (res: bool)
    ensures
        res == is_path_prefix(root@, path@),
{
    let r = chars_of(root);
    let p = chars_of(path);
    if r.len() > p.len() {
        return false;
    }
    let mut i: usize = 0;
    while i < r.len()
        invariant
            r@ == root@,
            p@ == path@,
            r@.len() <= p@.len(),
            i <= r@.len(),
            forall|j: int| 0 <= j < i ==> r@[j] == p@[j],
        decreases r.len() - i,
    {
        if r[i] != p[i] {
            assert(path@.take(root@.len() as int)[i as int] != root@[i as int]);
            return false;
        }
        i = i + 1;
    }
    assert(path@.take(root@.len() as int) =~= root@);
    if r.len() == p.len() {
        assert(path@ =~= root@);
        true
    } else if r.len() > 0 && r[r.len() - 1] == '/' {
        true
    } else {
        p[r.len()] == '/'
    }
}

/// The path of a file relative to the repository root, which must be a leading part of it:
/// what follows the root and the separators after it.
pub fn make_path_in_repo<'a>(repo_root: &str, file_path: &'a str) -> (res: &'a str)
    requires
        is_path_prefix(repo_root@, file_path@),
    ensures
        res@ == path_after(repo_root@, file_path@),
        res@.len() == 0 || res@[0] != '/',
{
    proof {
        lemma_drop_slashes(file_path@.skip(repo_root@.len() as int));
    }
    let root_len = repo_root.unicode_len();
    let path_len = file_path.unicode_len();
    let mut k = root_len;
    assert(file_path@.skip(k as int) =~= file_path@.skip(root_len as int));
    while k < path_len && file_path.get_char(k) == '/'
        invariant
            root_len == repo_root@.len(),
            path_len == file_path@.len(),
            root_len <= k <= path_len,
            path_after(repo_root@, file_path@) == drop_slashes(file_path@.skip(k as int)),
        decreases path_len - k,
    {
        assert(file_path@.skip(k as int).drop_first() =~= file_path@.skip(k + 1));
        k = k + 1;
    }
    let res = file_path.substring_char(k, path_len);
    assert(res@ =~= file_path@.skip(k as int));
    assert(drop_slashes(file_path@.skip(k as int)) == file_path@.skip(k as int));
    proof {
        lemma_drop_slashes(file_path@.skip(k as int));
    }
    res
}

/// Applies `f` to each element, in order.
pub fn map_vec<T, U>(vec: Vec<T>, f: impl Fn(T) -> U) -> (res: Vec<U>)
    requires
        forall|t: T| f.requires((t,)),
    ensures
        res@.len() == vec@.len(),
        forall|i: int| 0 <= i < vec@.len() ==> f.ensures((vec@[i],), #[trigger] res@[i]),
{
    let ghost orig = vec@;
    let mut rest = vec;
    let mut reversed: Vec<U> = Vec::new();
    while rest.len() > 0
        invariant
            forall|t: T| f.requires((t,)),
            rest@ == orig.take(rest@.len() as int),
            rest@.len() + reversed@.len() == orig.len(),
            forall|k: int|
                0 <= k < reversed@.len() ==> f.ensures(
                    (orig[orig.len() - 1 - k],),
                    #[trigger] reversed@[k],
                ),
        decreases rest@.len(),
    {
        let t = rest.pop().unwrap();
        let u = f(t);
        reversed.push(u);
        assert(rest@ =~= orig.take(rest@.len() as int));
    }
    let mut res: Vec<U> = Vec::new();
    while reversed.len() > 0
        invariant
            reversed@.len() + res@.len() == orig.len(),
            forall|k: int|
                0 <= k < reversed@.len() ==> f.ensures(
                    (orig[orig.len() - 1 - k],),
                    #[trigger] reversed@[k],
                ),
            forall|i: int| 0 <= i < res@.len() ==> f.ensures((orig[i],), #[trigger] res@[i]),
        decreases reversed@.len(),
    {
        let u = reversed.pop().unwrap();
        res.push(u);
    }
    res
}

/// The result of asking Nix for the derivation path of an attribute.
#[derive(Clone, Debug, Eq, PartialEq)]
pub enum GetDrvPathResult {
    DrvPath(String),
    Missing,
    UnexpectedType(String),
}

/// Reads the derivation path out of Nix's answer: the path, `None` where the attribute is
/// missing, and as error the type of the value where it is no derivation.
pub fn get_drv_path(result: GetDrvPathResult) -> (res: Result<Option<String>, String>)
    ensures
        match result {
            GetDrvPathResult::DrvPath(p) => res matches Ok(Some(q)) && q@ == p@,
            GetDrvPathResult::Missing => res matches Ok(None),
            GetDrvPathResult::UnexpectedType(t) => res matches Err(m) && m@
                == "expected a derivation, got "@ + t@,
        },
{
    match result {
        GetDrvPathResult::DrvPath(drv_path) => Ok(Some(drv_path)),
        GetDrvPathResult::Missing => Ok(None),
        GetDrvPathResult::UnexpectedType(actual_type) => {
            let mut message = String::new();
            push_str(&mut message, "expected a derivation, got ");
            push_str(&mut message, actual_type.as_str());
            Err(message)
        },
    }
}

/// The function applied to a flake to list its default outputs: the NixOS configurations, or
/// the packages of the given system.
pub open spec fn default_outputs_apply_text(nixos: bool, system: Seq<char>) -> Seq<char> {
    if nixos {
        "flake: builtins.attrNames (flake.nixosConfigurations or { })"@
    } else {
        "flake: builtins.attrNames (flake.packages."@ + nix_string_literal(system) + " or { })"@
    }
}

/// The function applied to a flake to list its default outputs: the NixOS configurations, or
/// the packages of the given system.
pub fn default_outputs_apply_expr(nixos: bool, system: &str) -> (res: String)
    ensures
        res@ == default_outputs_apply_text(nixos, system@),
{
    let mut out = String::new();
    if nixos {
        push_str(&mut out, "flake: builtins.attrNames (flake.nixosConfigurations or { })");
    } else {
        push_str(&mut out, "flake: builtins.attrNames (flake.packages.");
        let literal = to_string_literal(system);
        push_str(&mut out, literal.as_str());
        push_str(&mut out, " or { })");
    }
    out
}

/// The function applied to a flake to evaluate the derivation path of an attribute path:
/// `apply_base` is given the path as a list of names and, for paths relative to the packages
/// of the current system, that system.
pub open spec fn drv_path_flake_apply_text(
    apply_base: Seq<char>,
    path: AttrPathView,
    system: Seq<char>,
) -> Seq<char> {
    let names = if path.nixos && !path.leading_dot {
        seq!["nixosConfigurations"@] + base_query(path)
    } else {
        base_query(path)
    };
    let system_expr = if path.leading_dot || path.nixos {
        "null"@
    } else {
        nix_string_literal(system)
    };
    "("@ + apply_base + ") { attrPath = "@ + nix_list_literal(names) + "; system = "@
        + system_expr + "; }"@
}

/// The function applied to a flake to evaluate the derivation path of an attribute path:
/// `apply_base` is given the path as a list of names and, for paths relative to the packages
/// of the current system, that system.
pub fn drv_path_flake_apply_expr(apply_base: &str, attr_path: &AttrPath, system: &str) -> (res:
    String)
    ensures
        res@ == drv_path_flake_apply_text(apply_base@, attr_path@, system@),
{
    let (has_leading_dot, parts) = attr_path.flake_query();
    let list = to_string_list_literal(parts.as_slice());
    let mut out = String::new();
    push_str(&mut out, "(");
    push_str(&mut out, apply_base);
    push_str(&mut out, ") { attrPath = ");
    push_str(&mut out, list.as_str());
    push_str(&mut out, "; system = ");
    if has_leading_dot {
        push_str(&mut out, "null");
    } else {
        let literal = to_string_literal(system);
        push_str(&mut out, literal.as_str());
    }
    push_str(&mut out, "; }");
    out
}

/// Law: the current system is handed to the expression only for a path looked up among the
/// packages of that system. For a path relative to the flake's outputs (a leading dot, or a
/// NixOS configuration, as the first component of `AttrPath::flake_query` tells), the
/// expression is the same whatever the system; otherwise different systems give different
/// expressions.
pub proof fn law_flake_system_only_for_packages(
    base: Seq<char>,
    path: AttrPathView,
    s1: Seq<char>,
    s2: Seq<char>,
)
    ensures
        (path.leading_dot || path.nixos) ==> drv_path_flake_apply_text(base, path, s1)
            == drv_path_flake_apply_text(base, path, s2),
        !(path.leading_dot || path.nixos) && s1 != s2 ==> drv_path_flake_apply_text(
            base,
            path,
            s1,
        ) != drv_path_flake_apply_text(base, path, s2),
{
    if !(path.leading_dot || path.nixos) && s1 != s2 {
        let names = base_query(path);
        let pre = "("@ + base + ") { attrPath = "@ + nix_list_literal(names) + "; system = "@;
        let post = "; }"@;
        let (l1, l2) = (nix_string_literal(s1), nix_string_literal(s2));
        let (t1, t2) = (drv_path_flake_apply_text(base, path, s1), drv_path_flake_apply_text(
            base,
            path,
            s2,
        ));
        assert(t1 =~= pre + l1 + post);
        assert(t2 =~= pre + l2 + post);
        if t1 == t2 {
            assert(l1.len() == l2.len());
            assert(l1 =~= t1.subrange(pre.len() as int, (pre.len() + l1.len()) as int));
            assert(l2 =~= t2.subrange(pre.len() as int, (pre.len() + l2.len()) as int));
            law_string_literal_injective(s1, s2);
        }
    }
}

/// Law: a NixOS configuration named without a leading dot is looked up as
/// `nixosConfigurations.<parts>.config.system.build.toplevel` of the flake's outputs, with no
/// system.
pub proof fn law_nixos_configuration_lookup(base: Seq<char>, path: AttrPathView, system: Seq<char>)
    requires
        path.nixos,
        !path.leading_dot,
    ensures
        drv_path_flake_apply_text(base, path, system) == "("@ + base + ") { attrPath = "@
            + nix_list_literal(seq!["nixosConfigurations"@] + path.parts + nixos_suffix())
            + "; system = null; }"@,
{
    assert(seq!["nixosConfigurations"@] + base_query(path) =~= seq!["nixosConfigurations"@]
        + path.parts + nixos_suffix());
    reveal_strlit("; system = ");
    reveal_strlit("null");
    reveal_strlit("; }");
    reveal_strlit("; system = null; }");
    assert("; system = "@ + "null"@ + "; }"@ =~= "; system = null; }"@);
}

/// The arguments that make `nix` evaluate an installable and print the result as JSON.
pub open spec fn eval_json_args(impure: bool) -> Seq<Seq<char>> {
    seq!["--extra-experimental-features"@, "nix-command flakes"@, "eval"@, "--json"@] + if impure {
        seq!["--impure"@]
    } else {
        seq![]
    }
}

/// The arguments that make `nix-instantiate` evaluate strictly and print the result as JSON.
pub open spec fn instantiate_eval_json_args() -> Seq<Seq<char>> {
    seq!["--eval"@, "--strict"@, "--json"@]
}

/// The arguments that pass a string to the evaluated function, or `null` where there is none.
pub open spec fn argstr_nullable_args(name: Seq<char>, value: Option<Seq<char>>) -> Seq<
    Seq<char>,
> {
    match value {
        Some(v) => seq!["--argstr"@, name, v],
        None => seq!["--arg"@, name, "null"@],
    }
}

/// `nix-instantiate`, set up to evaluate strictly and print the result as JSON.
pub fn nix_instantiate_eval_json() -> (res: Cmd)
    ensures
        res@ == cmd_view(Program::NixInstantiate, instantiate_eval_json_args()),
{
    let mut cmd = Cmd::nix_instantiate();
    cmd.arg("--eval");
    cmd.arg("--strict");
    cmd.arg("--json");
    assert(cmd@.args =~= instantiate_eval_json_args());
    cmd
}

/// `nix eval`, set up to print the result as JSON, impure where asked.
pub fn nix_eval_json(impure: bool) -> (res: Cmd)
    ensures
        res@ == cmd_view(Program::Nix, eval_json_args(impure)),
{
    let mut cmd = Cmd::nix();
    cmd.arg("--extra-experimental-features");
    cmd.arg("nix-command flakes");
    cmd.arg("eval");
    cmd.arg("--json");
    if impure {
        cmd.arg("--impure");
    }
    assert(cmd@.args =~= eval_json_args(impure));
    cmd
}

impl Cmd {
    /// Passes the string `value` to the evaluated function under `name`.
    pub fn nix_argstr(&mut self, name: &str, value: &str)
        ensures
            final(self)@ == cmd_view(
                old(self)@.program,
                old(self)@.args + seq!["--argstr"@, name@, value@],
            ),
    {
        self.arg("--argstr");
        self.arg(name);
        self.arg(value);
        assert(self@.args =~= old(self)@.args + seq!["--argstr"@, name@, value@]);
    }

    /// Passes `value` to the evaluated function under `name`, or `null` where there is none.
    pub fn nix_argstr_nullable(&mut self, name: &str, value: Option<&str>)
        ensures
            final(self)@ == cmd_view(
                old(self)@.program,
                old(self)@.args + argstr_nullable_args(name@, opt_text(value)),
            ),
    {
        match value {
            Some(value) => {
                self.arg("--argstr");
                self.arg(name);
                self.arg(value);
            },
            None => {
                self.arg("--arg");
                self.arg(name);
                self.arg("null");
            },
        }
        assert(self@.args =~= old(self)@.args + argstr_nullable_args(name@, opt_text(value)));
    }
}

/// The command that prints the system Nix builds for, as a JSON string.
pub fn current_system_cmd() -> (res: Cmd)
    ensures
        res@ == cmd_view(
            Program::NixInstantiate,
            instantiate_eval_json_args() + seq!["--expr"@, "builtins.currentSystem"@],
        ),
{
    let mut cmd = nix_instantiate_eval_json();
    cmd.arg("--expr");
    cmd.arg("builtins.currentSystem");
    assert(cmd@.args =~= instantiate_eval_json_args() + seq!["--expr"@, "builtins.currentSystem"@]);
    cmd
}

/// The command that lists the names of the default outputs of a flake (the NixOS
/// configurations, or the packages of `system`) as a JSON list of strings.
pub fn default_flake_outputs_cmd(
    flake_path: &FlakePath,
    commit_id: Option<&str>,
    nixos: bool,
    impure: bool,
    system: &str,
) -> (res: Cmd)
    ensures
        res@ == cmd_view(
            Program::Nix,
            eval_json_args(impure) + seq![
                "--apply"@,
                default_outputs_apply_text(nixos, system@),
                "--"@,
                flake_ref_text(flake_path.spec_str(), opt_text(commit_id)) + "#."@,
            ],
        ),
{
    let mut cmd = nix_eval_json(impure);
    let apply = default_outputs_apply_expr(nixos, system);
    let root = make_flake_root_output(flake_path, commit_id);
    cmd.arg("--apply");
    cmd.arg(apply.as_str());
    cmd.arg("--");
    cmd.arg(root.as_str());
    assert(cmd@.args =~= eval_json_args(impure) + seq![
        "--apply"@,
        default_outputs_apply_text(nixos, system@),
        "--"@,
        flake_ref_text(flake_path.spec_str(), opt_text(commit_id)) + "#."@,
    ]);
    cmd
}

/// The command that evaluates `expr` against the file `file_path` of the repository at
/// `commit_id` (the working tree where it is `None`); `repo_root` must be a leading part of
/// `file_path`.
pub fn file_eval_cmd(expr: &str, repo_root: &str, file_path: &str, commit_id: Option<&str>) -> (res:
    Cmd)
    requires
        is_path_prefix(repo_root@, file_path@),
    ensures
        res@ == cmd_view(
            Program::NixInstantiate,
            instantiate_eval_json_args() + seq![
                "--expr"@,
                expr@,
                "--argstr"@,
                "repoRoot"@,
                repo_root@,
                "--argstr"@,
                "pathInRepo"@,
                path_after(repo_root@, file_path@),
            ] + argstr_nullable_args("rev"@, opt_text(commit_id)),
        ),
{
    let mut cmd = nix_instantiate_eval_json();
    cmd.arg("--expr");
    cmd.arg(expr);
    cmd.nix_argstr("repoRoot", repo_root);
    cmd.nix_argstr("pathInRepo", make_path_in_repo(repo_root, file_path));
    cmd.nix_argstr_nullable("rev", commit_id);
    assert(cmd@.args =~= instantiate_eval_json_args() + seq![
        "--expr"@,
        expr@,
        "--argstr"@,
        "repoRoot"@,
        repo_root@,
        "--argstr"@,
        "pathInRepo"@,
        path_after(repo_root@, file_path@),
    ] + argstr_nullable_args("rev"@, opt_text(commit_id)));
    cmd
}

/// The command that fetches a flake, pinned to `commit_id` where one is given, into the store.
pub fn prefetch_flake_cmd(flake_path: &FlakePath, commit_id: Option<&str>) -> (res: Cmd)
    ensures
        res@ == cmd_view(
            Program::Nix,
            seq![
                "--extra-experimental-features"@,
                "nix-command flakes"@,
                "flake"@,
                "archive"@,
                "--"@,
                flake_ref_text(flake_path.spec_str(), opt_text(commit_id)),
            ],
        ),
{
    let mut cmd = Cmd::nix();
    let flake_ref = make_flake_ref(flake_path, commit_id);
    cmd.arg("--extra-experimental-features");
    cmd.arg("nix-command flakes");
    cmd.arg("flake");
    cmd.arg("archive");
    cmd.arg("--");
    cmd.arg(flake_ref.as_str());
    assert(cmd@.args =~= seq![
        "--extra-experimental-features"@,
        "nix-command flakes"@,
        "flake"@,
        "archive"@,
        "--"@,
        flake_ref_text(flake_path.spec_str(), opt_text(commit_id)),
    ]);
    cmd
}

/// The command that evaluates `expr`, which fetches the repository at `repo_root` at the
/// commit `commit_id`.
pub fn prefetch_repo_cmd(expr: &str, repo_root: &str, commit_id: &str) -> (res: Cmd)
    ensures
        res@ == cmd_view(
            Program::NixInstantiate,
            instantiate_eval_json_args() + seq![
                "--expr"@,
                expr@,
                "--argstr"@,
                "repoRoot"@,
                repo_root@,
                "--argstr"@,
                "rev"@,
                commit_id@,
            ],
        ),
{
    let mut cmd = nix_instantiate_eval_json();
    cmd.arg("--expr");
    cmd.arg(expr);
    cmd.nix_argstr("repoRoot", repo_root);
    cmd.nix_argstr("rev", commit_id);
    assert(cmd@.args =~= instantiate_eval_json_args() + seq![
        "--expr"@,
        expr@,
        "--argstr"@,
        "repoRoot"@,
        repo_root@,
        "--argstr"@,
        "rev"@,
        commit_id@,
    ]);
    cmd
}

/// The command that evaluates the derivation path of `attr_path` in a flake: `apply_base` is
/// the function applied to the flake, `system` the current system (used for paths relative to
/// the packages of that system).
pub fn drv_path_flake_cmd(
    apply_base: &str,
    flake_path: &FlakePath,
    commit_id: Option<&str>,
    attr_path: &AttrPath,
    impure: bool,
    system: &str,
) -> (res: Cmd)
    ensures
        res@ == cmd_view(
            Program::Nix,
            eval_json_args(impure) + seq![
                "--no-eval-cache"@,
                "--apply"@,
                drv_path_flake_apply_text(apply_base@, attr_path@, system@),
                "--"@,
                flake_ref_text(flake_path.spec_str(), opt_text(commit_id)) + "#."@,
            ],
        ),
{
    let mut cmd = nix_eval_json(impure);
    let apply = drv_path_flake_apply_expr(apply_base, attr_path, system);
    let root = make_flake_root_output(flake_path, commit_id);
    cmd.arg("--no-eval-cache");
    cmd.arg("--apply");
    cmd.arg(apply.as_str());
    cmd.arg("--");
    cmd.arg(root.as_str());
    assert(cmd@.args =~= eval_json_args(impure) + seq![
        "--no-eval-cache"@,
        "--apply"@,
        drv_path_flake_apply_text(apply_base@, attr_path@, system@),
        "--"@,
        flake_ref_text(flake_path.spec_str(), opt_text(commit_id)) + "#."@,
    ]);
    cmd
}

/// The command that shows the differences between two derivations: `nix-diff` with the extra
/// arguments given for the tool, in order, then the two derivation paths.
pub fn run_nix_diff(extra_args: &Vec<String>, old_drv_path: &str, new_drv_path: &str) -> (res: Cmd)
    ensures
        res@ == cmd_view(
            Program::NixDiff,
            texts(extra_args@) + seq![old_drv_path@, new_drv_path@],
        ),
{
    let mut cmd = Cmd::nix_diff();
    assert(texts(extra_args@).take(0) =~= Seq::<Seq<char>>::empty());
    for i in 0..extra_args.len()
        invariant
            cmd@ == cmd_view(Program::NixDiff, texts(extra_args@).take(i as int)),
    {
        cmd.arg(extra_args[i].as_str());
        assert(texts(extra_args@).take(i + 1) =~= texts(extra_args@).take(i as int).push(
            extra_args@[i as int]@,
        ));
    }
    assert(texts(extra_args@).take(extra_args@.len() as int) =~= texts(extra_args@));
    cmd.arg(old_drv_path);
    cmd.arg(new_drv_path);
    assert(cmd@.args =~= texts(extra_args@) + seq![old_drv_path@, new_drv_path@]);
    cmd
}

/// The attribute path that consists of one name, relative to the default outputs.
pub open spec fn name_path(name: Seq<char>, nixos: bool) -> AttrPathView {
    AttrPathView { parts: seq![name], leading_dot: false, nixos }
}

/// The attribute paths of the given names.
pub open spec fn name_paths(names: Seq<Seq<char>>, nixos: bool) -> Seq<AttrPathView> {
    names.map_values(|name: Seq<char>| name_path(name, nixos))
}

/// Turns each name into the attribute path that consists of it.
pub fn paths_of_names(names: Vec<String>, nixos: bool) -> (res: Vec<AttrPath>)
    ensures
        path_views(res@) == name_paths(texts(names@), nixos),
{
    let mut res: Vec<AttrPath> = Vec::new();
    let mut i: usize = 0;
    while i < names.len()
        invariant
            i <= names@.len(),
            path_views(res@) == name_paths(texts(names@), nixos).take(i as int),
        decreases names.len() - i,
    {
        let mut parts: Vec<String> = Vec::new();
        parts.push(names[i].clone());
        let path = AttrPath::new(false, parts, nixos);
        assert(texts(parts@) =~= seq![names@[i as int]@]);
        let ghost before = res@;
        res.push(path);
        assert(path_views(res@) =~= path_views(before).push(path@));
        assert(name_paths(texts(names@), nixos).take(i + 1) =~= name_paths(texts(names@), nixos).take(
            i as int,
        ).push(name_path(names@[i as int]@, nixos)));
        i = i + 1;
    }
    assert(name_paths(texts(names@), nixos).take(names@.len() as int) =~= name_paths(
        texts(names@),
        nixos,
    ));
    res
}

/// Reads the system that Nix builds for out of the output of [`current_system_cmd`].
pub fn get_current_system(output: &[u8]) -> (res: Result<String, JsonError>)
    ensures
        match res {
            Ok(s) => json_string(output@) == Some(s@),
            Err(_) => json_string(output@) is None,
        },
{
    decode_string(output)
}

/// Reads the default outputs of a flake out of the output of [`default_flake_outputs_cmd`]:
/// each name becomes an attribute path of its own.
pub fn get_default_flake_outputs(output: &[u8], nixos: bool) -> (res: Result<
    Vec<AttrPath>,
    JsonError,
>)
    ensures
        match res {
            Ok(v) => json_string_list(output@) matches Some(names) && path_views(v@)
                == name_paths(names, nixos),
            Err(_) => json_string_list(output@) is None,
        },
{
    match decode_string_list(output) {
        Ok(names) => Ok(paths_of_names(names, nixos)),
        Err(e) => Err(e),
    }
}

/// Reads the default outputs of a Nix file out of the output of [`file_eval_cmd`] run with the
/// expression that lists them: each name becomes an attribute path of its own.
pub fn get_default_file_outputs(output: &[u8], nixos: bool) -> (res: Result<
    Vec<AttrPath>,
    JsonError,
>)
    ensures
        match res {
            Ok(v) => json_string_list(output@) matches Some(names) && path_views(v@)
                == name_paths(names, nixos),
            Err(_) => json_string_list(output@) is None,
        },
{
    match decode_string_list(output) {
        Ok(names) => Ok(paths_of_names(names, nixos)),
        Err(e) => Err(e),
    }
}

/// The command that evaluates the derivation path of `attr_path` in a Nix file: `expr` is the
/// expression that does it, given the path as a JSON list of names. Writing that list always
/// succeeds, and so does this.
pub fn drv_path_file_cmd(
    expr: &str,
    repo_root: &str,
    file_path: &str,
    commit_id: Option<&str>,
    attr_path: &AttrPath,
) -> (res: Result<Cmd, JsonError>)
    requires
        is_path_prefix(repo_root@, file_path@),
    ensures
        res matches Ok(cmd) && cmd@ == cmd_view(
            Program::NixInstantiate,
            instantiate_eval_json_args() + seq!["--read-write-mode"@, "--expr"@, expr@] + seq![
                "--argstr"@,
                "repoRoot"@,
                repo_root@,
                "--argstr"@,
                "pathInRepo"@,
                path_after(repo_root@, file_path@),
            ] + argstr_nullable_args("rev"@, opt_text(commit_id)) + seq![
                "--argstr"@,
                "attrPathJson"@,
                json_of_strings(base_query(attr_path@)),
            ],
        ),
{
    let query = attr_path.file_query();
    let json = match encode_string_list(query.as_slice()) {
        Ok(json) => json,
        Err(e) => {
            return Err(e);
        },
    };
    let mut cmd = nix_instantiate_eval_json();
    cmd.arg("--read-write-mode");
    cmd.arg("--expr");
    cmd.arg(expr);
    cmd.nix_argstr("repoRoot", repo_root);
    cmd.nix_argstr("pathInRepo", make_path_in_repo(repo_root, file_path));
    cmd.nix_argstr_nullable("rev", commit_id);
    cmd.nix_argstr("attrPathJson", json.as_str());
    assert(cmd@.args =~= instantiate_eval_json_args() + seq!["--read-write-mode"@, "--expr"@, expr@]
        + seq![
        "--argstr"@,
        "repoRoot"@,
        repo_root@,
        "--argstr"@,
        "pathInRepo"@,
        path_after(repo_root@, file_path@),
    ] + argstr_nullable_args("rev"@, opt_text(commit_id)) + seq![
        "--argstr"@,
        "attrPathJson"@,
        json_of_strings(base_query(attr_path@)),
    ]);
    Ok(cmd)
}

/// The function applied to a flake to list the outputs that match glob queries:
/// `apply_base` is given the queries as JSON text, whether NixOS configurations are meant, and
/// the current system.
pub open spec fn matching_flake_apply_text(
    apply_base: Seq<char>,
    queries_json: Seq<char>,
    nixos: bool,
    system: Seq<char>,
) -> Seq<char> {
    "("@ + apply_base + ") { queriesJson = "@ + nix_string_literal(queries_json) + "; nixos = "@
        + (if nixos {
        "true"@
    } else {
        "false"@
    }) + "; system = "@ + nix_string_literal(system) + "; }"@
}

/// The function applied to a flake to list the outputs that match glob queries.
pub fn matching_flake_apply_expr(apply_base: &str, queries_json: &str, nixos: bool, system: &str) -> (res:
    String)
    ensures
        res@ == matching_flake_apply_text(apply_base@, queries_json@, nixos, system@),
{
    let mut out = String::new();
    push_str(&mut out, "(");
    push_str(&mut out, apply_base);
    push_str(&mut out, ") { queriesJson = ");
    let queries = to_string_literal(queries_json);
    push_str(&mut out, queries.as_str());
    push_str(&mut out, "; nixos = ");
    if nixos {
        push_str(&mut out, "true");
    } else {
        push_str(&mut out, "false");
    }
    push_str(&mut out, "; system = ");
    let sys = to_string_literal(system);
    push_str(&mut out, sys.as_str());
    push_str(&mut out, "; }");
    out
}

/// The command that lists, for each glob query, the outputs of a flake that match it.
pub fn matching_flake_outputs_cmd(
    apply_base: &str,
    flake_path: &FlakePath,
    commit_id: Option<&str>,
    nixos: bool,
    impure: bool,
    queries_json: &str,
    system: &str,
) -> (res: Cmd)
    ensures
        res@ == cmd_view(
            Program::Nix,
            eval_json_args(impure) + seq![
                "--apply"@,
                matching_flake_apply_text(apply_base@, queries_json@, nixos, system@),
                "--"@,
                flake_ref_text(flake_path.spec_str(), opt_text(commit_id)) + "#."@,
            ],
        ),
{
    let mut cmd = nix_eval_json(impure);
    let apply = matching_flake_apply_expr(apply_base, queries_json, nixos, system);
    let root = make_flake_root_output(flake_path, commit_id);
    cmd.arg("--apply");
    cmd.arg(apply.as_str());
    cmd.arg("--");
    cmd.arg(root.as_str());
    assert(cmd@.args =~= eval_json_args(impure) + seq![
        "--apply"@,
        matching_flake_apply_text(apply_base@, queries_json@, nixos, system@),
        "--"@,
        flake_ref_text(flake_path.spec_str(), opt_text(commit_id)) + "#."@,
    ]);
    cmd
}

/// The command that lists, for each glob query, the attributes of a Nix file that match it.
pub fn matching_file_outputs_cmd(
    expr: &str,
    repo_root: &str,
    file_path: &str,
    commit_id: Option<&str>,
    queries_json: &str,
) -> (res: Cmd)
    requires
        is_path_prefix(repo_root@, file_path@),
    ensures
        res@ == cmd_view(
            Program::NixInstantiate,
            instantiate_eval_json_args() + seq![
                "--expr"@,
                expr@,
                "--argstr"@,
                "repoRoot"@,
                repo_root@,
                "--argstr"@,
                "pathInRepo"@,
                path_after(repo_root@, file_path@),
            ] + argstr_nullable_args("rev"@, opt_text(commit_id)) + seq![
                "--argstr"@,
                "queriesJson"@,
                queries_json@,
            ],
        ),
{
    let mut cmd = file_eval_cmd(expr, repo_root, file_path, commit_id);
    cmd.nix_argstr("queriesJson", queries_json);
    assert(cmd@.args =~= instantiate_eval_json_args() + seq![
        "--expr"@,
        expr@,
        "--argstr"@,
        "repoRoot"@,
        repo_root@,
        "--argstr"@,
        "pathInRepo"@,
        path_after(repo_root@, file_path@),
    ] + argstr_nullable_args("rev"@, opt_text(commit_id)) + seq![
        "--argstr"@,
        "queriesJson"@,
        queries_json@,
    ]);
    cmd
}

/// What is wrong with the answer of Nix to glob queries.
#[derive(Debug)]
pub enum MatchOutputError {
    /// It is not a JSON list of lists of lists of strings.
    Json(JsonError),
    /// It has another number of elements than there were queries.
    WrongCount { expected: usize, got: usize },
}

/// The attribute paths that a query matched: each list of names, with or without a leading
/// dot as the query had it.
pub open spec fn query_paths(results: Seq<Seq<Seq<char>>>, leading_dot: bool, nixos: bool) -> Seq<
    AttrPathView,
> {
    results.map_values(|r: Seq<Seq<char>>| AttrPathView { parts: r, leading_dot, nixos })
}

/// Turns what one query matched into attribute paths.
fn paths_of_results(results: Vec<Vec<String>>, leading_dot: bool, nixos: bool) -> (res: Vec<AttrPath>)
    ensures
        path_views(res@) == query_paths(texts2(results@), leading_dot, nixos),
{
    let mut res: Vec<AttrPath> = Vec::new();
    let mut rest = results;
    let ghost all = texts2(rest@);
    let mut reversed: Vec<Vec<String>> = Vec::new();
    while rest.len() > 0
        invariant
            texts2(rest@) + texts2(reversed@).reverse() == all,
        decreases rest@.len(),
    {
        let ghost r0 = rest@;
        let ghost v0 = reversed@;
        let last = rest.pop().unwrap();
        reversed.push(last);
        assert(texts2(rest@) =~= texts2(r0).drop_last());
        assert(texts2(reversed@) =~= texts2(v0).push(texts(last@)));
        assert(texts2(rest@) + texts2(reversed@).reverse() =~= texts2(r0) + texts2(v0).reverse());
    }
    assert(texts2(rest@) =~= Seq::<Seq<Seq<char>>>::empty());
    while reversed.len() > 0
        invariant
            path_views(res@) + query_paths(texts2(reversed@).reverse(), leading_dot, nixos)
                == query_paths(all, leading_dot, nixos),
        decreases reversed@.len(),
    {
        let ghost v0 = reversed@;
        let ghost p0 = res@;
        let parts = reversed.pop().unwrap();
        let path = AttrPath::new(leading_dot, parts, nixos);
        res.push(path);
        assert(texts2(reversed@) =~= texts2(v0).drop_last());
        assert(path_views(res@) =~= path_views(p0).push(path@));
        assert(texts2(v0).reverse() =~= seq![texts(path.parts@)] + texts2(reversed@).reverse());
        assert(query_paths(texts2(v0).reverse(), leading_dot, nixos) =~= seq![path@] + query_paths(
            texts2(reversed@).reverse(),
            leading_dot,
            nixos,
        ));
        assert(path_views(res@) + query_paths(texts2(reversed@).reverse(), leading_dot, nixos)
            =~= path_views(p0) + query_paths(texts2(v0).reverse(), leading_dot, nixos));
    }
    assert(texts2(reversed@).reverse() =~= Seq::<Seq<Seq<char>>>::empty());
    assert(path_views(res@) =~= path_views(res@) + query_paths(
        Seq::<Seq<Seq<char>>>::empty(),
        leading_dot,
        nixos,
    ));
    res
}

/// Reads Nix's answer to glob queries, one list of matches per query, each query with or
/// without a leading dot as `leading_dots` gives it.
pub fn get_matching_outputs(output: &[u8], leading_dots: &[bool], nixos: bool) -> (res: Result<
    Vec<Vec<AttrPath>>,
    MatchOutputError,
>)
    ensures
        match json_string_list3(output@) {
            None => res matches Err(MatchOutputError::Json(_)),
            Some(answers) => if answers.len() != leading_dots@.len() {
                res matches Err(MatchOutputError::WrongCount { expected, got })
                    && expected == leading_dots@.len() && got == answers.len()
            } else {
                res matches Ok(v) && v@.len() == answers.len() && forall|i: int|
                    0 <= i < answers.len() ==> path_views(#[trigger] v@[i]@) == query_paths(
                        answers[i],
                        leading_dots@[i],
                        nixos,
                    )
            },
        },
{
    let answers = match decode_string_list3(output) {
        Ok(a) => a,
        Err(e) => {
            return Err(MatchOutputError::Json(e));
        },
    };
    let ghost all = texts3(answers@);
    if answers.len() != leading_dots.len() {
        return Err(MatchOutputError::WrongCount { expected: leading_dots.len(), got: answers.len() });
    }
    let mut res: Vec<Vec<AttrPath>> = Vec::new();
    let mut rest = answers;
    let mut i: usize = 0;
    let n = leading_dots.len();
    let mut pending: Vec<Vec<Vec<String>>> = Vec::new();
    while rest.len() > 0
        invariant
            texts3(rest@) + texts3(pending@).reverse() == all,
        decreases rest@.len(),
    {
        let ghost r0 = rest@;
        let ghost q0 = pending@;
        let last = rest.pop().unwrap();
        pending.push(last);
        assert(texts3(rest@) =~= texts3(r0).drop_last());
        assert(texts3(pending@) =~= texts3(q0).push(texts2(last@)));
        assert(texts3(rest@) + texts3(pending@).reverse() =~= texts3(r0) + texts3(q0).reverse());
    }
    assert(texts3(rest@) =~= Seq::<Seq<Seq<Seq<char>>>>::empty());
    assert(texts3(pending@).reverse() =~= all);
    while i < n
        invariant
            n == leading_dots@.len(),
            n == all.len(),
            i <= n,
            res@.len() == i,
            pending@.len() == n - i,
            forall|k: int| 0 <= k < pending@.len() ==> #[trigger] texts2(pending@[k]@) == all[n - 1 - k],
            forall|k: int|
                0 <= k < i ==> path_views(#[trigger] res@[k]@) == query_paths(
                    all[k],
                    leading_dots@[k],
                    nixos,
                ),
        decreases n - i,
    {
        let ghost q0 = pending@;
        let results = pending.pop().unwrap();
        assert(texts2(results@) == all[i as int]) by {
            assert(texts2(q0[q0.len() - 1]@) == all[n - 1 - (q0.len() - 1)]);
        }
        let paths = paths_of_results(results, leading_dots[i], nixos);
        res.push(paths);
        assert forall|k: int| 0 <= k < pending@.len() implies #[trigger] texts2(pending@[k]@) == all[n - 1 - k] by {
            assert(pending@[k] == q0[k]);
        }
        i = i + 1;
    }
    Ok(res)
}

} // verus!
