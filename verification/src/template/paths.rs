//! Paths as they are read and written: a path that was read is written so that
//! it is read as the same path.

use crate::template::parser::{path_of, seg_of, seg_readings, PathView, SegView};
use crate::template::renaming::{
    lemma_collected_all, lemma_collected_each, lemma_split_at, lemma_split_whole,
};
use crate::template::{dotted, seg_text, seg_texts, RenderErrorView};
use crate::text::{all_digits, is_digit, is_space, joined, number_of, numeral, split};
use vstd::prelude::*;

verus! {

// ── Texts ────────────────────────────────────────────────────────────────

/// Whether no two closing braces stand side by side.
pub open spec fn no_closing_pair(s: Seq<char>) -> bool {
    forall|i: int| 0 <= i < s.len() - 1 ==> !(#[trigger] s[i] == '}' && s[i + 1] == '}')
}

/// A numeral is made of digits, and denotes its number.
pub proof fn lemma_numeral(n: nat)
    ensures
        numeral(n).len() > 0,
        all_digits(numeral(n)),
        number_of(numeral(n)) == n,
    decreases n,
{
    reveal_with_fuel(number_of, 2);
    if n < 10 {
        assert(numeral(n).drop_last() =~= Seq::<char>::empty());
    } else {
        lemma_numeral(n / 10);
        assert(numeral(n).drop_last() =~= numeral(n / 10));
        assert(is_digit(digit_of(n)));
    }
}

spec fn digit_of(n: nat) -> char {
    crate::text::digit((n % 10) as int)
}

/// Joined texts are the first of them, and the others joined.
proof fn lemma_joined_front(parts: Seq<Seq<char>>, sep: Seq<char>)
    requires
        parts.len() > 1,
    ensures
        joined(parts, sep) == parts[0] + sep + joined(parts.skip(1), sep),
    decreases parts.len(),
{
    let rest = parts.skip(1);
    if parts.len() == 2 {
        assert(joined(parts.drop_last(), sep) == parts[0]);
        assert(rest[0] == parts[1]);
        assert(joined(parts, sep) =~= parts[0] + sep + joined(rest, sep));
    } else {
        lemma_joined_front(parts.drop_last(), sep);
        assert(parts.drop_last().skip(1) =~= rest.drop_last());
        assert(rest.last() == parts.last());
        assert(joined(parts, sep) =~= parts[0] + sep + joined(rest, sep));
    }
}

/// Texts without dots that are joined by dots are split again.
proof fn lemma_split_joined(parts: Seq<Seq<char>>)
    requires
        parts.len() > 0,
        forall|i: int, k: int|
            0 <= i < parts.len() && 0 <= k < parts[i].len() ==> #[trigger] parts[i][k] != '.',
    ensures
        split(joined(parts, "."@), '.') == parts,
    decreases parts.len(),
{
    reveal_strlit(".");
    let s = joined(parts, "."@);
    assert forall|k: int| 0 <= k < parts[0].len() implies parts[0][k] != '.' by {}
    if parts.len() == 1 {
        lemma_split_whole(s, '.', 0);
        assert(parts =~= seq![s]);
    } else {
        let rest = parts.skip(1);
        lemma_joined_front(parts, "."@);
        assert forall|i: int, k: int|
            0 <= i < rest.len() && 0 <= k < rest[i].len() implies #[trigger] rest[i][k] != '.' by {
            assert(rest[i] == parts[i + 1]);
        }
        lemma_split_joined(rest);
        let d = parts[0].len() as int;
        assert(s[d] == '.');
        assert forall|k: int| 0 <= k < d implies s[k] != '.' by {
            assert(s[k] == parts[0][k]);
        }
        lemma_split_at(s, '.', d, 0);
        assert(s.take(d) =~= parts[0]);
        assert(s.skip(d + 1) =~= joined(rest, "."@));
        assert(parts =~= seq![parts[0]] + rest);
    }
}

/// Joined texts begin and end as the outermost do, and hold no pair of braces
/// that none of them holds.
proof fn lemma_joined_ends(parts: Seq<Seq<char>>)
    requires
        parts.len() > 0,
        forall|i: int| 0 <= i < parts.len() ==> (#[trigger] parts[i]).len() > 0,
        forall|i: int| 0 <= i < parts.len() ==> no_closing_pair(#[trigger] parts[i]),
    ensures
        joined(parts, "."@).len() > 0,
        joined(parts, "."@)[0] == parts[0][0],
        joined(parts, "."@).last() == parts.last().last(),
        no_closing_pair(joined(parts, "."@)),
    decreases parts.len(),
{
    reveal_strlit(".");
    if parts.len() > 1 {
        let front = parts.drop_last();
        assert forall|i: int| 0 <= i < front.len() implies (#[trigger] front[i]).len() > 0
            && no_closing_pair(front[i]) by {
            assert(front[i] == parts[i]);
        }
        lemma_joined_ends(front);
        let a = joined(front, "."@);
        let b = parts.last();
        let s = a + "."@ + b;
        assert(no_closing_pair(b));
        assert forall|i: int| 0 <= i < s.len() - 1 implies !(#[trigger] s[i] == '}' && s[i + 1]
            == '}') by {
            let n = a.len() as int;
            if i < n - 1 {
                assert(s[i] == a[i] && s[i + 1] == a[i + 1]);
            } else if i > n {
                assert(s[i] == b[i - n - 1] && s[i + 1] == b[i - n]);
            }
        }
    }
}

/// The pieces of a text hold no separator, and begin and end as the text does.
proof fn lemma_split_pieces(s: Seq<char>)
    ensures
        split(s, '.').len() > 0,
        forall|i: int, k: int|
            0 <= i < split(s, '.').len() && 0 <= k < split(s, '.')[i].len() ==> #[trigger] split(
                s,
                '.',
            )[i][k] != '.',
        no_closing_pair(s) ==> forall|i: int|
            0 <= i < split(s, '.').len() ==> no_closing_pair(#[trigger] split(s, '.')[i]),
        split(s, '.')[0].len() > 0 ==> s.len() > 0 && split(s, '.')[0][0] == s[0],
        split(s, '.').last().len() > 0 ==> s.len() > 0 && split(s, '.').last().last() == s.last(),
    decreases s.len(),
{
    let parts = split(s, '.');
    if exists|d: int| 0 <= d < s.len() && s[d] == '.' {
        let d = first_dot(s, 0);
        let rest = s.skip(d + 1);
        lemma_split_at(s, '.', d, 0);
        lemma_split_pieces(rest);
        let tail = split(rest, '.');
        assert(parts =~= seq![s.take(d)] + tail);
        assert(parts.last() == tail.last());
        assert forall|i: int, k: int|
            0 <= i < parts.len() && 0 <= k < parts[i].len() implies #[trigger] parts[i][k]
            != '.' by {
            if i > 0 {
                assert(parts[i] == tail[i - 1]);
                assert(tail[i - 1][k] != '.');
            }
        }
        if no_closing_pair(s) {
            assert(no_closing_pair(rest)) by {
                assert forall|i: int| 0 <= i < rest.len() - 1 implies !(#[trigger] rest[i] == '}'
                    && rest[i + 1] == '}') by {
                    assert(rest[i] == s[d + 1 + i] && rest[i + 1] == s[d + 1 + i + 1]);
                }
            }
            assert forall|i: int| 0 <= i < parts.len() implies no_closing_pair(
                #[trigger] parts[i],
            ) by {
                if i > 0 {
                    assert(parts[i] == tail[i - 1]);
                } else {
                    assert forall|k: int| 0 <= k < parts[0].len() - 1 implies !(
                    #[trigger] parts[0][k] == '}' && parts[0][k + 1] == '}') by {
                        assert(parts[0][k] == s[k] && parts[0][k + 1] == s[k + 1]);
                    }
                }
            }
        }
    } else {
        assert forall|i: int| 0 <= i < s.len() implies s[i] != '.' by {}
        lemma_split_whole(s, '.', 0);
    }
}

/// The first dot of a text that has one.
proof fn first_dot(s: Seq<char>, from: int) -> (d: int)
    requires
        0 <= from,
        exists|d: int| from <= d < s.len() && s[d] == '.',
        forall|i: int| 0 <= i < from ==> s[i] != '.',
    ensures
        0 <= d < s.len(),
        s[d] == '.',
        forall|i: int| 0 <= i < d ==> s[i] != '.',
    decreases s.len() - from,
{
    if s[from] == '.' {
        from
    } else {
        first_dot(s, from + 1)
    }
}

// ── Paths ────────────────────────────────────────────────────────────────

/// Whether a segment is one that can be read.
pub open spec fn is_readable_seg(seg: SegView) -> bool {
    match seg {
        SegView::Key(k) => {
            &&& k.len() > 0
            &&& k != "length"@
            &&& !all_digits(k)
            &&& k[0] != '@'
            &&& forall|i: int| 0 <= i < k.len() ==> #[trigger] k[i] != '.'
            &&& no_closing_pair(k)
        },
        SegView::Index(n) => n <= usize::MAX,
        SegView::Length => true,
    }
}

/// Whether a path is one that can be read from the inside of a tag.
pub open spec fn is_readable_path(path: PathView) -> bool {
    match path {
        PathView::Data(segs) => {
            &&& segs.len() > 0
            &&& forall|i: int| 0 <= i < segs.len() ==> is_readable_seg(#[trigger] segs[i])
            &&& !is_space(seg_text(segs[0])[0])
            &&& !is_space(seg_text(segs.last()).last())
        },
        _ => true,
    }
}

/// A path as it is written.
pub open spec fn path_text(path: PathView) -> Seq<char> {
    match path {
        PathView::Data(segs) => dotted(segs),
        PathView::AtIndex => "@index"@,
        PathView::AtFirst => "@first"@,
        PathView::AtLast => "@last"@,
    }
}

/// A readable segment is written as it is read.
proof fn lemma_seg_text(seg: SegView, raw: Seq<char>)
    requires
        is_readable_seg(seg),
    ensures
        seg_text(seg).len() > 0,
        seg_text(seg)[0] != '@',
        forall|i: int| 0 <= i < seg_text(seg).len() ==> #[trigger] seg_text(seg)[i] != '.',
        no_closing_pair(seg_text(seg)),
        seg_of(raw, seg_text(seg)) == Ok::<SegView, RenderErrorView>(seg),
{
    reveal_strlit("length");
    match seg {
        SegView::Index(n) => {
            lemma_numeral(n);
            let t = numeral(n);
            assert(is_digit(t[0]));
            assert(t != "length"@) by {
                assert("length"@[0] == 'l');
            }
            assert forall|i: int| 0 <= i < t.len() implies #[trigger] t[i] != '.' && t[i]
                != '}' by {
                assert(is_digit(t[i]));
            }
        },
        _ => {},
    }
}

/// A readable path is written as it is read: the text has no white space at its
/// ends and no pair of braces in it, and reads as the path.
pub proof fn a_written_path_reads_back(path: PathView)
    requires
        is_readable_path(path),
    ensures
        path_of(path_text(path)) == Ok::<PathView, RenderErrorView>(path),
        path_text(path).len() > 0,
        !is_space(path_text(path)[0]),
        !is_space(path_text(path).last()),
        no_closing_pair(path_text(path)),
        path matches PathView::Data(segs) ==> path_text(path)[0] == seg_text(segs[0])[0]
            && split(path_text(path), '.') == seg_texts(segs),
{
    reveal_strlit("@index");
    reveal_strlit("@first");
    reveal_strlit("@last");
    if let PathView::Data(segs) = path {
        let parts = seg_texts(segs);
        let p = dotted(segs);
        assert forall|i: int| 0 <= i < parts.len() implies (#[trigger] parts[i]).len() > 0
            && no_closing_pair(parts[i]) by {
            lemma_seg_text(segs[i], p);
        }
        assert forall|i: int, k: int|
            0 <= i < parts.len() && 0 <= k < parts[i].len() implies #[trigger] parts[i][k]
            != '.' by {
            lemma_seg_text(segs[i], p);
        }
        lemma_joined_ends(parts);
        lemma_split_joined(parts);
        let readings = seg_readings(p, split(p, '.'));
        assert forall|i: int| 0 <= i < readings.len() implies #[trigger] readings[i] == Ok::<
            SegView,
            RenderErrorView,
        >(segs[i]) by {
            lemma_seg_text(segs[i], p);
        }
        lemma_collected_all(readings, segs);
        lemma_seg_text(segs[0], p);
        assert(p[0] != '@');
    } else {
        assert("@index"@[1] != "@first"@[1]);
        assert("@last"@.len() != "@index"@.len() && "@last"@.len() != "@first"@.len());
    }
}

/// What is read from a text without white space at its ends, and without a pair
/// of braces, is a readable path that begins with the same character.
pub proof fn lemma_read_path(raw: Seq<char>)
    requires
        path_of(raw) is Ok,
        !is_space(raw[0]),
        !is_space(raw.last()),
        no_closing_pair(raw),
    ensures
        is_readable_path(path_of(raw)->Ok_0),
        is_digit(path_text(path_of(raw)->Ok_0)[0]) || path_text(path_of(raw)->Ok_0)[0] == raw[0],
{
    reveal_strlit("length");
    let path = path_of(raw)->Ok_0;
    if let PathView::Data(segs) = path {
        let parts = split(raw, '.');
        let readings = seg_readings(raw, parts);
        lemma_split_pieces(raw);
        lemma_collected_each(readings);
        assert forall|i: int| 0 <= i < segs.len() implies is_readable_seg(#[trigger] segs[i]) by {
            assert(readings[i] == Ok::<SegView, RenderErrorView>(segs[i]));
            assert(readings[i] == seg_of(raw, parts[i]));
            assert(no_closing_pair(parts[i]));
            if let SegView::Key(k) = segs[i] {
                assert(k == parts[i]);
                assert forall|j: int| 0 <= j < k.len() implies #[trigger] k[j] != '.' by {
                    assert(parts[i][j] != '.');
                }
            }
        }
        let n = segs.len() - 1;
        assert(readings[0] == seg_of(raw, parts[0]));
        assert(readings[n] == seg_of(raw, parts[n]));
        assert(readings[0] == Ok::<SegView, RenderErrorView>(segs[0]));
        assert(readings[n] == Ok::<SegView, RenderErrorView>(segs[n]));
        if let SegView::Index(m) = segs[0] {
            lemma_numeral(m);
            assert(is_digit(numeral(m)[0]));
        }
        if let SegView::Index(m) = segs[n] {
            lemma_numeral(m);
            assert(is_digit(numeral(m)[numeral(m).len() - 1]));
        }
        assert(is_readable_path(path));
        a_written_path_reads_back(path);
    } else {
        reveal_strlit("@index");
        reveal_strlit("@first");
        reveal_strlit("@last");
    }
}

} // verus!
