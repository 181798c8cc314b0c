//! Renaming a root and renaming it back.

use crate::template::parser::{lemma_find_bounds, lemma_tag_bounds};
use crate::template::renaming::{
    ends_apart, is_root_name, lemma_find_shift, lemma_first_dot, lemma_first_tag,
    lemma_nothing_before, lemma_renamed_tag, lemma_root_name, lemma_tag_path,
    lemma_trim_start_of, lemma_trimmed_already, renamed_name,
};
use crate::template::{closes, opens, renamed, renamed_from, renamed_tag, tag_path, tag_sigil};
use crate::text::{find_from, is_space, trimmed};
use vstd::prelude::*;

verus! {

/// The root of a path: what stands before its first dot.
pub open spec fn path_root(path: Seq<char>) -> Seq<char> {
    match find_from(path, "."@, 0) {
        Some(dot) => path.take(dot),
        None => path,
    }
}

/// Whether a tag holds no white space.
pub open spec fn is_tight(raw: Seq<char>) -> bool {
    forall|k: int| 0 <= k < raw.len() ==> !is_space(#[trigger] raw[k])
}

/// Whether no tag from `i` on holds white space, and none has a given root.
pub open spec fn tight_without(s: Seq<char>, i: int, root: Seq<char>) -> bool
    decreases s.len() - i,
{
    proof {
        lemma_tag_bounds(s, i);
    }
    match find_from(s, "{{"@, i) {
        None => true,
        Some(open) => match find_from(s, "}}"@, open + 2) {
            None => true,
            Some(close) => {
                let raw = s.subrange(open + 2, close);
                &&& is_tight(raw)
                &&& path_root(tag_path(trimmed(raw))) != root
                &&& tight_without(s, close + 2, root)
            },
        },
    }
}

/// A tag without white space does not end in a brace: it would have ended there.
proof fn lemma_tight_tag(s: Seq<char>, open: int, close: int)
    requires
        0 <= open,
        find_from(s, "}}"@, open + 2) == Some(close),
        is_tight(s.subrange(open + 2, close)),
    ensures
        trimmed(s.subrange(open + 2, close)) == s.subrange(open + 2, close),
        close > open + 2 ==> s[close - 1] != '}',
{
    reveal_strlit("}}");
    let raw = s.subrange(open + 2, close);
    lemma_find_bounds(s, "}}"@, open + 2);
    if raw.len() > 0 {
        assert(!is_space(raw[0]));
        assert(!is_space(raw[raw.len() - 1]));
        if s[close - 1] == '}' {
            assert(s.subrange(close, close + 2)[0] == s[close]);
            assert(s.subrange(close - 1, close + 1) =~= "}}"@);
            lemma_nothing_before(s, "}}"@, open + 2, close, close - 1);
        }
    }
    lemma_trimmed_already(raw);
}

proof fn lemma_tight_ends_apart(
    s: Seq<char>,
    i: int,
    depth: nat,
    old_root: Seq<char>,
    new_root: Seq<char>,
)
    requires
        0 <= i,
        is_root_name(old_root),
        tight_without(s, i, new_root),
    ensures
        ends_apart(s, i, depth, old_root, new_root),
    decreases s.len() - i,
{
    lemma_tag_bounds(s, i);
    if let Some(open) = find_from(s, "{{"@, i) {
        if let Some(close) = find_from(s, "}}"@, open + 2) {
            let raw = s.subrange(open + 2, close);
            let tag = trimmed(raw);
            let here: nat = if closes(tag) && depth > 0 { (depth - 1) as nat } else { depth };
            let after: nat = if opens(tag) { here + 1 } else { here };
            lemma_tight_tag(s, open, close);
            if renamed_tag(raw, old_root, new_root, here == 0) is Some {
                lemma_root_name(old_root, raw);
                lemma_first_dot(tag_path(tag));
                assert(tag.len() > 0);
                assert(tag.last() == s[close - 1]);
            }
            lemma_tight_ends_apart(s, close + 2, after, old_root, new_root);
        }
    }
}

/// Renaming does not depend on the text before the start.
proof fn lemma_renamed_shift(
    pre: Seq<char>,
    w: Seq<char>,
    i: int,
    depth: nat,
    old_root: Seq<char>,
    new_root: Seq<char>,
)
    requires
        0 <= i <= w.len(),
    ensures
        renamed_from(pre + w, pre.len() + i, depth, old_root, new_root) == renamed_from(
            w,
            i,
            depth,
            old_root,
            new_root,
        ),
    decreases w.len() - i,
{
    let s = pre + w;
    let n = pre.len() as int;
    reveal_strlit("{{");
    reveal_strlit("}}");
    lemma_tag_bounds(w, i);
    lemma_tag_bounds(s, n + i);
    lemma_find_shift(pre, w, "{{"@, i);
    assert(s.subrange(n + i, s.len() as int) =~= w.subrange(i, w.len() as int));
    if let Some(open) = find_from(w, "{{"@, i) {
        lemma_find_shift(pre, w, "}}"@, open + 2);
        assert(s.subrange(n + i, n + open) =~= w.subrange(i, open));
        if let Some(close) = find_from(w, "}}"@, open + 2) {
            assert(s.subrange(n + open + 2, n + close) =~= w.subrange(open + 2, close));
            assert(s.subrange(n + open, n + close + 2) =~= w.subrange(open, close + 2));
            let tag = trimmed(w.subrange(open + 2, close));
            let here: nat = if closes(tag) && depth > 0 { (depth - 1) as nat } else { depth };
            let after: nat = if opens(tag) { here + 1 } else { here };
            lemma_renamed_shift(pre, w, close + 2, after, old_root, new_root);
        }
    }
}

/// A tag that was renamed is renamed back to what it was.
proof fn lemma_tag_back(
    raw: Seq<char>,
    old_root: Seq<char>,
    new_root: Seq<char>,
    at_root: bool,
)
    requires
        is_root_name(old_root),
        is_root_name(new_root),
        is_tight(raw),
        trimmed(raw) == raw,
        path_root(tag_path(trimmed(raw))) != new_root,
    ensures
        match renamed_tag(raw, old_root, new_root, at_root) {
            Some(t) => renamed_tag(t, new_root, old_root, at_root) == Some(raw),
            None => renamed_tag(raw, new_root, old_root, at_root) is None,
        },
{
    let path = tag_path(raw);
    lemma_tag_path(raw);
    lemma_renamed_tag(raw, old_root, new_root, at_root);
    lemma_first_dot(path);
    assert(tag_sigil(raw) + path =~= raw) by {
        if opens(raw) || closes(raw) {
            let rest = raw.skip(1);
            assert forall|k: int| 0 <= k < rest.len() implies !is_space(#[trigger] rest[k]) by {
                assert(rest[k] == raw[k + 1]);
            }
            lemma_trim_start_of(rest, 0);
            assert(rest.subrange(0, rest.len() as int) =~= rest);
        }
    }
    if let Some(t) = renamed_tag(raw, old_root, new_root, at_root) {
        let name = renamed_name(path, old_root, new_root, at_root);
        let sigil = tag_sigil(raw);
        lemma_root_name(new_root, raw);
        lemma_root_name(old_root, raw);
        assert(name[0] == new_root[0]);
        assert(tag_sigil(t) == sigil && tag_path(t) == name) by {
            if opens(raw) || closes(raw) {
                assert(t.take(1) =~= raw.take(1));
                assert(t.skip(1) =~= name);
                lemma_trim_start_of(name, 0);
                assert(name.subrange(0, name.len() as int) =~= name);
            }
        }
        lemma_first_dot(name);
        match find_from(path, "."@, 0) {
            Some(d) => {
                let e = new_root.len() as int;
                assert(name =~= new_root + path.skip(d));
                assert(name[e] == '.');
                assert forall|k: int| 0 <= k < e implies name[k] != '.' by {
                    assert(name[k] == new_root[k]);
                }
                assert(find_from(name, "."@, 0) == Some(e));
                assert(name.take(e) =~= new_root);
                assert(name.skip(e) =~= path.skip(d));
                assert(sigil + old_root + name.skip(e) =~= sigil + path) by {
                    assert(path =~= path.take(d) + path.skip(d));
                }
            },
            None => {
                assert(name == new_root);
                assert(find_from(name, "."@, 0) is None) by {
                    if let Some(k) = find_from(name, "."@, 0) {
                        assert(new_root[k] == '.');
                    }
                }
            },
        }
    }
}

/// A tag is what stands between its braces, and the braces.
proof fn lemma_between(s: Seq<char>, i: int, open: int, close: int)
    requires
        find_from(s, "{{"@, i) == Some(open),
        find_from(s, "}}"@, open + 2) == Some(close),
    ensures
        0 <= i <= open,
        open + 2 <= close,
        close + 2 <= s.len(),
        "{{"@ + s.subrange(open + 2, close) + "}}"@ == s.subrange(open, close + 2),
{
    reveal_strlit("{{");
    reveal_strlit("}}");
    lemma_find_bounds(s, "{{"@, i);
    lemma_find_bounds(s, "}}"@, open + 2);
    let raw = s.subrange(open + 2, close);
    assert(s.subrange(open, open + 2) == "{{"@);
    assert(s.subrange(close, close + 2) == "}}"@);
    assert(s.subrange(open, close + 2) =~= s.subrange(open, open + 2) + raw + s.subrange(
        close,
        close + 2,
    ));
}

/// Renaming on behind the first tag of a text.
proof fn lemma_renames_on(
    u: Seq<char>,
    o: int,
    c: int,
    depth: nat,
    old_root: Seq<char>,
    new_root: Seq<char>,
    pre: Seq<char>,
    rest: Seq<char>,
)
    requires
        find_from(u, "{{"@, 0) == Some(o),
        find_from(u, "}}"@, o + 2) == Some(c),
        u == pre + rest,
        pre.len() == c + 2,
    ensures
        ({
            let raw = u.subrange(o + 2, c);
            let tag = trimmed(raw);
            let here: nat = if closes(tag) && depth > 0 { (depth - 1) as nat } else { depth };
            let after: nat = if opens(tag) { here + 1 } else { here };
            renamed_from(u, 0, depth, old_root, new_root) == u.subrange(0, o) + (
            match renamed_tag(raw, old_root, new_root, here == 0) {
                Some(t) => "{{"@ + t + "}}"@,
                None => "{{"@ + raw + "}}"@,
            }) + renamed_from(rest, 0, after, old_root, new_root)
        }),
{
    let tag = trimmed(u.subrange(o + 2, c));
    let here: nat = if closes(tag) && depth > 0 { (depth - 1) as nat } else { depth };
    let after: nat = if opens(tag) { here + 1 } else { here };
    lemma_tag_bounds(u, 0);
    lemma_between(u, 0, o, c);
    lemma_renamed_shift(pre, rest, 0, after, old_root, new_root);
}

/// A text without a whole tag stays as it is.
proof fn lemma_nothing_renamed(
    s: Seq<char>,
    i: int,
    depth: nat,
    old_root: Seq<char>,
    new_root: Seq<char>,
)
    requires
        0 <= i <= s.len(),
        find_from(s, "{{"@, i) matches Some(open) ==> find_from(s, "}}"@, open + 2) is None,
    ensures
        renamed_from(s.subrange(i, s.len() as int), 0, depth, old_root, new_root) == s.subrange(
            i,
            s.len() as int,
        ),
{
    let tail = s.subrange(i, s.len() as int);
    assert(s.take(i) + tail =~= s);
    lemma_find_shift(s.take(i), tail, "{{"@, 0);
    lemma_find_bounds(tail, "{{"@, 0);
    if let Some(open) = find_from(s, "{{"@, i) {
        lemma_find_shift(s.take(i), tail, "}}"@, open - i + 2);
    }
    assert(tail.subrange(0, tail.len() as int) =~= tail);
}

proof fn lemma_renamed_back(
    s: Seq<char>,
    i: int,
    depth: nat,
    old_root: Seq<char>,
    new_root: Seq<char>,
)
    requires
        0 <= i <= s.len(),
        is_root_name(old_root),
        is_root_name(new_root),
        tight_without(s, i, new_root),
    ensures
        renamed_from(
            renamed_from(s, i, depth, old_root, new_root),
            0,
            depth,
            new_root,
            old_root,
        ) == s.subrange(i, s.len() as int),
    decreases s.len() - i,
{
    let u = renamed_from(s, i, depth, old_root, new_root);
    lemma_tag_bounds(s, i);
    match find_from(s, "{{"@, i) {
        None => {
            lemma_nothing_renamed(s, i, depth, new_root, old_root);
        },
        Some(open) => match find_from(s, "}}"@, open + 2) {
            None => {
                lemma_nothing_renamed(s, i, depth, new_root, old_root);
            },
            Some(close) => {
                let raw = s.subrange(open + 2, close);
                let tag = trimmed(raw);
                let here: nat = if closes(tag) && depth > 0 { (depth - 1) as nat } else { depth };
                let after: nat = if opens(tag) { here + 1 } else { here };
                lemma_tight_tag(s, open, close);
                lemma_tight_ends_apart(s, i, depth, old_root, new_root);
                let (pre, new_raw) = lemma_first_tag(
                    s,
                    i,
                    depth,
                    old_root,
                    new_root,
                    open,
                    close,
                    here,
                    after,
                );
                let rest = renamed_from(s, close + 2, after, old_root, new_root);
                let o = open - i;
                let c = o + 2 + new_raw.len() as int;
                lemma_tag_back(raw, old_root, new_root, here == 0);
                lemma_renamed_tag(raw, old_root, new_root, here == 0);
                lemma_renames_on(u, o, c, depth, new_root, old_root, pre, rest);
                lemma_renamed_back(s, close + 2, after, old_root, new_root);
                lemma_between(s, i, open, close);
                assert(s.subrange(i, s.len() as int) =~= s.subrange(i, open) + s.subrange(
                    open,
                    close + 2,
                ) + s.subrange(close + 2, s.len() as int));
            },
        },
    }
}

/// Renaming a root and renaming it back gives the text again, where no tag holds
/// white space (which a renamed tag loses) and none has the new root already.
pub proof fn renaming_back_gives_the_text_again(
    t: Seq<char>,
    old_root: Seq<char>,
    new_root: Seq<char>,
)
    requires
        is_root_name(old_root),
        is_root_name(new_root),
        tight_without(t, 0, new_root),
    ensures
        renamed(renamed(t, old_root, new_root), new_root, old_root) == t,
{
    lemma_renamed_back(t, 0, 0, old_root, new_root);
    assert(t.subrange(0, t.len() as int) =~= t);
}

} // verus!
