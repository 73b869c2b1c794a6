//! The order of strings (character by character, by code point, a prefix first), and sorted
//! lists of strings without repetitions.

use vstd::prelude::*;
use crate::attr_path::{path_views, texts, AttrPath, AttrPathView};
use crate::eval::same_attr_path;
use crate::text::chars_of;

verus! {

/// Whether `a` comes before `b`: at the first position where they differ, the character of `a`
/// has the smaller code point, or `a` ends there and `b` goes on. Code point order is the byte
/// order of UTF-8, the order of `String`.
pub open spec fn text_lt(a: Seq<char>, b: Seq<char>) -> bool
    decreases a.len(),
{
    if b.len() == 0 {
        false
    } else if a.len() == 0 {
        true
    } else if a[0] != b[0] {
        a[0] < b[0]
    } else {
        text_lt(a.drop_first(), b.drop_first())
    }
}

/// No text comes before itself.
pub proof fn lemma_text_lt_irreflexive(a: Seq<char>)
    ensures
        !text_lt(a, a),
    decreases a.len(),
{
    if a.len() > 0 {
        lemma_text_lt_irreflexive(a.drop_first());
    }
}

/// Of two different texts, exactly one comes before the other.
pub proof fn lemma_text_lt_total(a: Seq<char>, b: Seq<char>)
    ensures
        a != b ==> text_lt(a, b) || text_lt(b, a),
        !(text_lt(a, b) && text_lt(b, a)),
    decreases a.len(),
{
    if a.len() > 0 && b.len() > 0 {
        if a[0] == b[0] {
            lemma_text_lt_total(a.drop_first(), b.drop_first());
            if a != b {
                assert(a.drop_first() != b.drop_first()) by {
                    if a.drop_first() == b.drop_first() {
                        assert(a =~= seq![a[0]] + a.drop_first());
                        assert(b =~= seq![b[0]] + b.drop_first());
                    }
                }
            }
        }
    } else if a.len() == 0 && b.len() == 0 {
        assert(a =~= b);
    }
}

/// The order is transitive.
pub proof fn lemma_text_lt_transitive(a: Seq<char>, b: Seq<char>, c: Seq<char>)
    requires
        text_lt(a, b),
        text_lt(b, c),
    ensures
        text_lt(a, c),
    decreases a.len(),
{
    if a.len() > 0 && a[0] == b[0] && b[0] == c[0] {
        lemma_text_lt_transitive(a.drop_first(), b.drop_first(), c.drop_first());
    }
}

/// Whether the texts are in strictly increasing order, so that none occurs twice.
pub open spec fn strictly_sorted(s: Seq<Seq<char>>) -> bool {
    forall|i: int, j: int| 0 <= i < j < s.len() ==> text_lt(#[trigger] s[i], #[trigger] s[j])
}

/// Whether `a` comes before `b`.
pub fn text_less(a: &str, b: &str) -> (res: bool)
    ensures
        res == text_lt(a@, b@),
{
    let x = chars_of(a);
    let y = chars_of(b);
    let mut i: usize = 0;
    assert(a@.skip(0) =~= a@);
    assert(b@.skip(0) =~= b@);
    while i < x.len() && i < y.len() && x[i] == y[i]
        invariant
            x@ == a@,
            y@ == b@,
            i <= x@.len(),
            i <= y@.len(),
            text_lt(a@, b@) == text_lt(a@.skip(i as int), b@.skip(i as int)),
        decreases x.len() - i,
    {
        assert(a@.skip(i as int).drop_first() =~= a@.skip(i + 1));
        assert(b@.skip(i as int).drop_first() =~= b@.skip(i + 1));
        i = i + 1;
    }
    if i == y.len() {
        false
    } else if i == x.len() {
        true
    } else {
        x[i] < y[i]
    }
}

/// Inserts `x` where it belongs in a strictly sorted list, unless it is there already.
pub fn insert_unique(v: &mut Vec<String>, x: String)
    requires
        strictly_sorted(texts(old(v)@)),
    ensures
        strictly_sorted(texts(final(v)@)),
        forall|t: Seq<char>|
            #![trigger texts(final(v)@).contains(t)]
            #![trigger texts(old(v)@).contains(t)]
            texts(final(v)@).contains(t) <==> (texts(old(v)@).contains(t) || t == x@),
{
    let ghost s = texts(v@);
    let mut i: usize = 0;
    while i < v.len() && text_less(v[i].as_str(), x.as_str())
        invariant
            s == texts(v@),
            strictly_sorted(s),
            i <= v@.len(),
            forall|j: int| 0 <= j < i ==> text_lt(#[trigger] s[j], x@),
        decreases v.len() - i,
    {
        i = i + 1;
    }
    if i < v.len() {
        proof {
            lemma_text_lt_total(s[i as int], x@);
        }
        if v[i].eq(&x) {
            assert(s.contains(x@)) by {
                assert(s[i as int] == x@);
            }
            return;
        }
        assert(text_lt(x@, s[i as int]));
    }
    let ghost xs = x@;
    v.insert(i, x);
    let ghost t = texts(v@);
    assert(t =~= s.insert(i as int, xs));
    assert forall|a: int, b: int| 0 <= a < b < t.len() implies text_lt(#[trigger] t[a], #[trigger] t[b]) by {
        if b < i {
        } else if b == i {
        } else if a < i {
            assert(t[b] == s[b - 1]);
            if b - 1 > i {
                assert(text_lt(s[i as int], s[b - 1]));
            }
            lemma_text_lt_transitive(s[a], xs, s[i as int]);
            if b - 1 > i {
                lemma_text_lt_transitive(s[a], s[i as int], s[b - 1]);
            }
        } else if a == i {
            if b - 1 > i {
                lemma_text_lt_transitive(xs, s[i as int], s[b - 1]);
            }
        } else {
            assert(t[a] == s[a - 1]);
            assert(t[b] == s[b - 1]);
        }
    }
    assert forall|u: Seq<char>| t.contains(u) <==> (s.contains(u) || u == xs) by {
        if t.contains(u) {
            let k = choose|k: int| 0 <= k < t.len() && t[k] == u;
            if k < i {
                assert(s[k] == u);
            } else if k > i {
                assert(s[k - 1] == u);
            }
        }
        if s.contains(u) {
            let k = choose|k: int| 0 <= k < s.len() && s[k] == u;
            if k < i {
                assert(t[k] == u);
            } else {
                assert(t[k + 1] == u);
            }
        }
        if u == xs {
            assert(t[i as int] == u);
        }
    }
}

/// Adds each string of `items` to a strictly sorted list.
pub fn insert_all_unique(v: &mut Vec<String>, items: Vec<String>)
    requires
        strictly_sorted(texts(old(v)@)),
    ensures
        strictly_sorted(texts(final(v)@)),
        forall|t: Seq<char>|
            #![trigger texts(final(v)@).contains(t)]
            #![trigger texts(old(v)@).contains(t)]
            #![trigger texts(items@).contains(t)]
            texts(final(v)@).contains(t) <==> (texts(old(v)@).contains(t) || texts(
                items@,
            ).contains(t)),
{
    let ghost start = texts(v@);
    let mut k: usize = 0;
    while k < items.len()
        invariant
            start == texts(old(v)@),
            k <= items@.len(),
            strictly_sorted(texts(v@)),
            forall|t: Seq<char>|
                texts(v@).contains(t) <==> (start.contains(t) || texts(items@).take(
                    k as int,
                ).contains(t)),
        decreases items.len() - k,
    {
        let ghost before = texts(v@);
        let item = items[k].clone();
        insert_unique(v, item);
        let ghost old_k = k as int;
        k = k + 1;
        assert forall|t: Seq<char>|
            texts(v@).contains(t) <==> (start.contains(t) || texts(items@).take(k as int).contains(
                t,
            )) by {
            let prefix = texts(items@).take(old_k);
            let longer = texts(items@).take(k as int);
            assert(longer =~= prefix.push(items@[old_k]@));
            assert(before.contains(t) <==> (start.contains(t) || prefix.contains(t)));
            if longer.contains(t) {
                let m = choose|m: int| 0 <= m < longer.len() && #[trigger] longer[m] == t;
                if m < old_k {
                    assert(prefix[m] == t);
                }
            }
            if prefix.contains(t) {
                let m = choose|m: int| 0 <= m < prefix.len() && #[trigger] prefix[m] == t;
                assert(longer[m] == t);
            }
            if t == items@[old_k]@ {
                assert(longer[old_k] == t);
            }
        }
    }
    assert(texts(items@).take(items@.len() as int) =~= texts(items@));
    assert forall|t: Seq<char>|
        texts(v@).contains(t) <==> (texts(old(v)@).contains(t) || texts(items@).contains(t)) by {
        assert(texts(v@).contains(t) <==> (start.contains(t) || texts(items@).take(
            k as int,
        ).contains(t)));
    }
}

/// The strings of `items`, sorted, each once.
pub fn sort_unique(items: Vec<String>) -> (res: Vec<String>)
    ensures
        strictly_sorted(texts(res@)),
        forall|t: Seq<char>|
            #![trigger texts(res@).contains(t)]
            #![trigger texts(items@).contains(t)]
            texts(res@).contains(t) <==> texts(items@).contains(t),
{
    let mut res: Vec<String> = Vec::new();
    assert(texts(res@) =~= Seq::<Seq<char>>::empty());
    insert_all_unique(&mut res, items);
    res
}

// ---------------------------------------------------------------------------------------------
// Attribute paths.

/// Whether the list of names `a` comes before `b`: at the first position where they differ,
/// the name of `a` comes first, or `a` ends there and `b` goes on.
pub open spec fn texts_lt(a: Seq<Seq<char>>, b: Seq<Seq<char>>) -> bool
    decreases a.len(),
{
    if b.len() == 0 {
        false
    } else if a.len() == 0 {
        true
    } else if a[0] != b[0] {
        text_lt(a[0], b[0])
    } else {
        texts_lt(a.drop_first(), b.drop_first())
    }
}

/// `false` comes before `true`.
pub open spec fn bool_lt(a: bool, b: bool) -> bool {
    !a && b
}

/// Whether the attribute path `a` comes before `b`, comparing the names, then whether there is
/// a leading dot, then whether the path points into a NixOS configuration (the order of the
/// fields in their declaration).
pub open spec fn attr_lt(a: AttrPathView, b: AttrPathView) -> bool {
    ||| texts_lt(a.parts, b.parts)
    ||| a.parts == b.parts && bool_lt(a.leading_dot, b.leading_dot)
    ||| a.parts == b.parts && a.leading_dot == b.leading_dot && bool_lt(a.nixos, b.nixos)
}

proof fn lemma_texts_lt_irreflexive(a: Seq<Seq<char>>)
    ensures
        !texts_lt(a, a),
    decreases a.len(),
{
    if a.len() > 0 {
        lemma_texts_lt_irreflexive(a.drop_first());
    }
}

proof fn lemma_texts_lt_total(a: Seq<Seq<char>>, b: Seq<Seq<char>>)
    ensures
        a != b ==> texts_lt(a, b) || texts_lt(b, a),
        !(texts_lt(a, b) && texts_lt(b, a)),
    decreases a.len(),
{
    if a.len() > 0 && b.len() > 0 {
        if a[0] == b[0] {
            lemma_texts_lt_total(a.drop_first(), b.drop_first());
            if a != b {
                assert(a.drop_first() != b.drop_first()) by {
                    if a.drop_first() == b.drop_first() {
                        assert(a =~= seq![a[0]] + a.drop_first());
                        assert(b =~= seq![b[0]] + b.drop_first());
                    }
                }
            }
        } else {
            lemma_text_lt_total(a[0], b[0]);
        }
    } else if a.len() == 0 && b.len() == 0 {
        assert(a =~= b);
    }
}

proof fn lemma_texts_lt_transitive(a: Seq<Seq<char>>, b: Seq<Seq<char>>, c: Seq<Seq<char>>)
    requires
        texts_lt(a, b),
        texts_lt(b, c),
    ensures
        texts_lt(a, c),
    decreases a.len(),
{
    if a.len() > 0 {
        if a[0] == b[0] && b[0] == c[0] {
            lemma_texts_lt_transitive(a.drop_first(), b.drop_first(), c.drop_first());
        } else if a[0] != b[0] && b[0] != c[0] {
            lemma_text_lt_transitive(a[0], b[0], c[0]);
            if a[0] == c[0] {
                lemma_text_lt_irreflexive(a[0]);
            }
        }
    }
}

/// Of two different attribute paths, exactly one comes before the other.
pub proof fn lemma_attr_lt_total(a: AttrPathView, b: AttrPathView)
    ensures
        a != b ==> attr_lt(a, b) || attr_lt(b, a),
        !(attr_lt(a, b) && attr_lt(b, a)),
{
    lemma_texts_lt_total(a.parts, b.parts);
    lemma_texts_lt_irreflexive(a.parts);
}

/// The order of attribute paths is transitive.
pub proof fn lemma_attr_lt_transitive(a: AttrPathView, b: AttrPathView, c: AttrPathView)
    requires
        attr_lt(a, b),
        attr_lt(b, c),
    ensures
        attr_lt(a, c),
{
    lemma_texts_lt_irreflexive(a.parts);
    if texts_lt(a.parts, b.parts) && texts_lt(b.parts, c.parts) {
        lemma_texts_lt_transitive(a.parts, b.parts, c.parts);
    }
}

/// Whether the attribute paths are in strictly increasing order, so that none occurs twice.
pub open spec fn paths_strictly_sorted(s: Seq<AttrPathView>) -> bool {
    forall|i: int, j: int| 0 <= i < j < s.len() ==> attr_lt(#[trigger] s[i], #[trigger] s[j])
}

/// Whether the list of names `a` comes before `b`.
fn texts_less(a: &Vec<String>, b: &Vec<String>) -> (res: bool)
    ensures
        res == texts_lt(texts(a@), texts(b@)),
{
    let mut i: usize = 0;
    assert(texts(a@).skip(0) =~= texts(a@));
    assert(texts(b@).skip(0) =~= texts(b@));
    while i < a.len() && i < b.len() && a[i].eq(&b[i])
        invariant
            i <= a@.len(),
            i <= b@.len(),
            texts_lt(texts(a@), texts(b@)) == texts_lt(
                texts(a@).skip(i as int),
                texts(b@).skip(i as int),
            ),
        decreases a.len() - i,
    {
        assert(texts(a@).skip(i as int).drop_first() =~= texts(a@).skip(i + 1));
        assert(texts(b@).skip(i as int).drop_first() =~= texts(b@).skip(i + 1));
        i = i + 1;
    }
    if i == b.len() {
        false
    } else if i == a.len() {
        true
    } else {
        text_less(a[i].as_str(), b[i].as_str())
    }
}

/// Whether the attribute path `a` comes before `b`.
pub fn attr_less(a: &AttrPath, b: &AttrPath) -> (res: bool)
    ensures
        res == attr_lt(a@, b@),
{
    if texts_less(&a.parts, &b.parts) {
        return true;
    }
    let same_parts = same_attr_path(
        &AttrPath::new(false, a.parts.clone(), false),
        &AttrPath::new(false, b.parts.clone(), false),
    );
    proof {
        assert(texts(a.parts@) == texts(b.parts@) ==> a@.parts == b@.parts);
    }
    if !same_parts {
        return false;
    }
    (!a.leading_dot && b.leading_dot) || (a.leading_dot == b.leading_dot && !a.nixos && b.nixos)
}

/// Inserts `x` where it belongs in a strictly sorted list of attribute paths, unless it is
/// there already.
pub fn insert_unique_path(v: &mut Vec<AttrPath>, x: AttrPath)
    requires
        paths_strictly_sorted(path_views(old(v)@)),
    ensures
        paths_strictly_sorted(path_views(final(v)@)),
        forall|t: AttrPathView|
            #![trigger path_views(final(v)@).contains(t)]
            #![trigger path_views(old(v)@).contains(t)]
            path_views(final(v)@).contains(t) <==> (path_views(old(v)@).contains(t) || t == x@),
{
    let ghost s = path_views(v@);
    let mut i: usize = 0;
    while i < v.len() && attr_less(&v[i], &x)
        invariant
            s == path_views(v@),
            paths_strictly_sorted(s),
            i <= v@.len(),
            forall|j: int| 0 <= j < i ==> attr_lt(#[trigger] s[j], x@),
        decreases v.len() - i,
    {
        i = i + 1;
    }
    if i < v.len() {
        proof {
            lemma_attr_lt_total(s[i as int], x@);
        }
        if same_attr_path(&v[i], &x) {
            assert(s.contains(x@)) by {
                assert(s[i as int] == x@);
            }
            return;
        }
        assert(attr_lt(x@, s[i as int]));
    }
    let ghost xs = x@;
    v.insert(i, x);
    let ghost t = path_views(v@);
    assert(t =~= s.insert(i as int, xs));
    assert forall|a: int, b: int| 0 <= a < b < t.len() implies attr_lt(#[trigger] t[a], #[trigger] t[b]) by {
        if b < i {
        } else if b == i {
        } else if a < i {
            assert(t[b] == s[b - 1]);
            if b - 1 > i {
                assert(attr_lt(s[i as int], s[b - 1]));
            }
            lemma_attr_lt_transitive(s[a], xs, s[i as int]);
            if b - 1 > i {
                lemma_attr_lt_transitive(s[a], s[i as int], s[b - 1]);
            }
        } else if a == i {
            if b - 1 > i {
                lemma_attr_lt_transitive(xs, s[i as int], s[b - 1]);
            }
        } else {
            assert(t[a] == s[a - 1]);
            assert(t[b] == s[b - 1]);
        }
    }
    assert forall|u: AttrPathView| t.contains(u) <==> (s.contains(u) || u == xs) by {
        if t.contains(u) {
            let k = choose|k: int| 0 <= k < t.len() && t[k] == u;
            if k < i {
                assert(s[k] == u);
            } else if k > i {
                assert(s[k - 1] == u);
            }
        }
        if s.contains(u) {
            let k = choose|k: int| 0 <= k < s.len() && s[k] == u;
            if k < i {
                assert(t[k] == u);
            } else {
                assert(t[k + 1] == u);
            }
        }
        if u == xs {
            assert(t[i as int] == u);
        }
    }
}

/// Adds each attribute path of `items` to a strictly sorted list.
pub fn insert_all_paths(v: &mut Vec<AttrPath>, items: &Vec<AttrPath>)
    requires
        paths_strictly_sorted(path_views(old(v)@)),
    ensures
        paths_strictly_sorted(path_views(final(v)@)),
        forall|t: AttrPathView|
            #![trigger path_views(final(v)@).contains(t)]
            #![trigger path_views(old(v)@).contains(t)]
            #![trigger path_views(items@).contains(t)]
            path_views(final(v)@).contains(t) <==> (path_views(old(v)@).contains(t)
                || path_views(items@).contains(t)),
{
    let ghost start = path_views(v@);
    let mut k: usize = 0;
    while k < items.len()
        invariant
            start == path_views(old(v)@),
            k <= items@.len(),
            paths_strictly_sorted(path_views(v@)),
            forall|t: AttrPathView|
                #![trigger path_views(v@).contains(t)]
                path_views(v@).contains(t) <==> (start.contains(t) || path_views(items@).take(
                    k as int,
                ).contains(t)),
        decreases items.len() - k,
    {
        let ghost before = path_views(v@);
        let item = items[k].duplicate();
        insert_unique_path(v, item);
        let ghost old_k = k as int;
        k = k + 1;
        assert forall|t: AttrPathView|
            path_views(v@).contains(t) <==> (start.contains(t) || path_views(items@).take(
                k as int,
            ).contains(t)) by {
            let prefix = path_views(items@).take(old_k);
            let longer = path_views(items@).take(k as int);
            assert(longer =~= prefix.push(items@[old_k]@));
            assert(before.contains(t) <==> (start.contains(t) || prefix.contains(t)));
            if longer.contains(t) {
                let m = choose|m: int| 0 <= m < longer.len() && #[trigger] longer[m] == t;
                if m < old_k {
                    assert(prefix[m] == t);
                }
            }
            if prefix.contains(t) {
                let m = choose|m: int| 0 <= m < prefix.len() && #[trigger] prefix[m] == t;
                assert(longer[m] == t);
            }
            if t == items@[old_k]@ {
                assert(longer[old_k] == t);
            }
        }
    }
    assert(path_views(items@).take(items@.len() as int) =~= path_views(items@));
    assert forall|t: AttrPathView|
        path_views(v@).contains(t) <==> (path_views(old(v)@).contains(t) || path_views(
            items@,
        ).contains(t)) by {
        assert(path_views(v@).contains(t) <==> (start.contains(t) || path_views(items@).take(
            k as int,
        ).contains(t)));
    }
}

} // verus!
