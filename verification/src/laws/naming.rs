//! Names: the one that a goal states, and the ones that are made from it.

use crate::pipeline::naming::{
    announced_name, char_from, display_name, find_word, identifier_of, is_alnum, is_edge, is_filler,
    is_quote, leading_name, lower, lowered, name_in, quoted_from, slug, space_from, strip_end,
    strip_start, stripped, word_at,
};
use crate::text::{is_space, trim_start, trimmed};
use vstd::prelude::*;

verus! {

/// A capital letter becomes its small letter; every other character stays.
pub proof fn a_capital_becomes_small(s: Seq<char>, i: int)
    requires
        0 <= i < s.len(),
    ensures
        lowered(s).len() == s.len(),
        'A' <= s[i] <= 'Z' ==> lowered(s)[i] as int == s[i] as int + ('a' as int - 'A' as int),
        !('A' <= s[i] <= 'Z') ==> lowered(s)[i] == s[i],
{
    let c = s[i];
    if 'A' <= c <= 'Z' {
        let n = (c as u32) + 32;
        assert(97 <= n <= 122);
    }
}

// ── A name that is stated ────────────────────────────────────────────────

proof fn lemma_find_word(s: Seq<char>, needle: Seq<char>, from: int)
    requires
        0 <= from,
    ensures
        match find_word(s, needle, from) {
            Some(at) => from <= at && word_at(s, needle, at) && forall|k: int|
                from <= k < at ==> !#[trigger] word_at(s, needle, k),
            None => forall|k: int| from <= k ==> !#[trigger] word_at(s, needle, k),
        },
    decreases s.len() + 1 - from,
{
    if from + needle.len() <= s.len() && !word_at(s, needle, from) {
        lemma_find_word(s, needle, from + 1);
    }
}

/// Whether a name is announced right behind a place: by "named", "called" or
/// "name it", standing there for the first time.
pub open spec fn announces(goal: Seq<char>, word: Seq<char>, at: int) -> bool {
    &&& word == "named"@ || word == "called"@ || word == "name it"@
    &&& word_at(goal, word, at)
    &&& forall|k: int| 0 <= k < at ==> !#[trigger] word_at(goal, word, k)
}

/// A goal states no name where no word announces one.
pub proof fn no_name_is_stated_without_its_word(goal: Seq<char>)
    requires
        forall|k: int| 0 <= k ==> !#[trigger] word_at(goal, "named"@, k),
        forall|k: int| 0 <= k ==> !#[trigger] word_at(goal, "called"@, k),
        forall|k: int| 0 <= k ==> !#[trigger] word_at(goal, "name it"@, k),
    ensures
        name_in(goal) is None,
{
    lemma_find_word(goal, "named"@, 0);
    lemma_find_word(goal, "called"@, 0);
    lemma_find_word(goal, "name it"@, 0);
}

/// A stated name is what follows the earliest word that announces one.
pub proof fn a_name_follows_the_word_that_announces_it(goal: Seq<char>, word: Seq<char>, at: int)
    requires
        announces(goal, word, at),
        forall|other: Seq<char>, k: int| #[trigger]
            announces(goal, other, k) ==> at + word.len() <= k + other.len(),
    ensures
        name_in(goal) == announced_name(goal.skip(at + word.len())),
{
    lemma_find_word(goal, "named"@, 0);
    lemma_find_word(goal, "called"@, 0);
    lemma_find_word(goal, "name it"@, 0);
    assert(word_at(goal, word, at));
    if let Some(k) = find_word(goal, "named"@, 0) {
        assert(announces(goal, "named"@, k));
    }
    if let Some(k) = find_word(goal, "called"@, 0) {
        assert(announces(goal, "called"@, k));
    }
    if let Some(k) = find_word(goal, "name it"@, 0) {
        assert(announces(goal, "name it"@, k));
    }
    lemma_find_word(goal, word, 0);
    if let Some(k) = find_word(goal, word, 0) {
        if k < at {
            assert(!word_at(goal, word, k));
        }
    }
    assert(find_word(goal, word, 0) == Some(at));
}

proof fn lemma_char_found(s: Seq<char>, c: char, from: int, end: int)
    requires
        0 <= from <= end < s.len(),
        s[end] == c,
        forall|k: int| from <= k < end ==> #[trigger] s[k] != c,
    ensures
        char_from(s, c, from) == Some(end),
    decreases end - from,
{
    if from < end {
        assert(s[from] != c);
        lemma_char_found(s, c, from + 1, end);
    }
}

proof fn lemma_quote_skipped(s: Seq<char>, from: int, at: int)
    requires
        0 <= from <= at <= s.len(),
        forall|k: int| from <= k < at ==> !is_quote(#[trigger] s[k]),
    ensures
        quoted_from(s, from) == quoted_from(s, at),
    decreases at - from,
{
    if from < at {
        assert(!is_quote(s[from]));
        lemma_quote_skipped(s, from + 1, at);
    }
}

/// A name in quotes is what stands between them.
pub proof fn a_quoted_name_stands_between_its_quotes(
    before: Seq<char>,
    quote: char,
    name: Seq<char>,
    after: Seq<char>,
)
    requires
        quote == '"' || quote == '\'' || quote == '`',
        forall|k: int| 0 <= k < before.len() ==> !is_quote(#[trigger] before[k]),
        before.len() > 0 ==> !is_alnum(before.last()),
        !name.contains(quote),
        trimmed(name) == name,
        0 < name.len() <= 60,
    ensures
        announced_name(before + seq![quote] + name + seq![quote] + after) == Some(name),
{
    let s = before + seq![quote] + name + seq![quote] + after;
    let at = before.len() as int;
    let end = at + 1 + name.len();
    assert forall|k: int| 0 <= k < at implies !is_quote(#[trigger] s[k]) by {
        assert(s[k] == before[k]);
    }
    lemma_quote_skipped(s, 0, at);
    assert(s[at] == quote);
    assert forall|k: int| at + 1 <= k < end implies #[trigger] s[k] != quote by {
        assert(s[k] == name[k - at - 1]);
        assert(name.contains(name[k - at - 1]));
    }
    assert(s[end] == quote);
    lemma_char_found(s, quote, at + 1, end);
    assert(s.subrange(at + 1, end) =~= name);
    if at > 0 {
        assert(s[at - 1] == before.last());
    }
}

proof fn lemma_no_quotes(s: Seq<char>, from: int)
    requires
        0 <= from <= s.len(),
        forall|k: int| from <= k < s.len() ==> !is_quote(#[trigger] s[k]),
    ensures
        quoted_from(s, from) is None,
    decreases s.len() - from,
{
    if from < s.len() {
        assert(!is_quote(s[from]));
        lemma_no_quotes(s, from + 1);
    }
}

proof fn lemma_space_found(s: Seq<char>, from: int, end: int)
    requires
        0 <= from <= end <= s.len(),
        end < s.len() ==> is_space(s[end]),
        forall|k: int| from <= k < end ==> !is_space(#[trigger] s[k]),
    ensures
        space_from(s, from) == end,
    decreases end - from,
{
    if from < end {
        assert(!is_space(s[from]));
        lemma_space_found(s, from + 1, end);
    }
}

/// Without quotes the name is the first word that says something, without the
/// punctuation around it; filler words before it are passed over.
pub proof fn an_unquoted_name_is_the_first_word_that_says_something(
    word: Seq<char>,
    space: char,
    after: Seq<char>,
)
    requires
        word.len() > 0,
        is_space(space),
        forall|k: int|
            0 <= k < word.len() ==> !is_space(#[trigger] word[k]) && !is_quote(word[k]),
    ensures
        !is_filler(lowered(stripped(word))) ==> leading_name(word + seq![space] + after) == Some(
            stripped(word),
        ) && leading_name(word) == Some(stripped(word)),
        is_filler(lowered(stripped(word))) ==> leading_name(word + seq![space] + after)
            == leading_name(trim_start(after)) && leading_name(word) is None,
        (forall|k: int| 0 <= k < after.len() ==> !is_quote(#[trigger] after[k])) ==> announced_name(
            after,
        ) == leading_name(trim_start(after)),
{
    let s = word + seq![space] + after;
    let end = word.len() as int;
    assert(s[0] == word[0]);
    assert(!is_quote(word[0]));
    assert forall|k: int| 0 <= k < end implies !is_space(#[trigger] s[k]) by {
        assert(s[k] == word[k]);
    }
    assert(s[end] == space);
    lemma_space_found(s, 0, end);
    lemma_space_found(word, 0, end);
    assert(s.take(end) =~= word);
    assert(word.take(end) =~= word);
    assert(s.skip(end + 1) =~= after);
    assert(leading_name(Seq::<char>::empty()) is None);
    if forall|k: int| 0 <= k < after.len() ==> !is_quote(#[trigger] after[k]) {
        lemma_no_quotes(after, 0);
    }
}

/// The words that say nothing.
pub proof fn a_filler_is_one_of_nine_words(w: Seq<char>)
    ensures
        is_filler(w) <==> seq![
            ""@,
            "something"@,
            "like"@,
            "maybe"@,
            "perhaps"@,
            "it"@,
            "the"@,
            "a"@,
            "an"@,
        ].contains(w),
{
    let words = seq![
        ""@,
        "something"@,
        "like"@,
        "maybe"@,
        "perhaps"@,
        "it"@,
        "the"@,
        "a"@,
        "an"@,
    ];
    assert(words[0] == ""@ && words[1] == "something"@ && words[2] == "like"@ && words[3]
        == "maybe"@ && words[4] == "perhaps"@ && words[5] == "it"@ && words[6] == "the"@
        && words[7] == "a"@ && words[8] == "an"@);
    if words.contains(w) {
        let i = choose|i: int| 0 <= i < words.len() && words[i] == w;
        assert(0 <= i < 9);
    }
}

/// Stripping takes off what is neither letter, digit, underscore nor hyphen at either
/// end, and nothing else.
pub proof fn stripping_takes_off_the_punctuation(a: Seq<char>, w: Seq<char>, b: Seq<char>)
    requires
        forall|k: int| 0 <= k < a.len() ==> !is_edge(#[trigger] a[k]),
        forall|k: int| 0 <= k < b.len() ==> !is_edge(#[trigger] b[k]),
        w.len() > 0,
        is_alnum(w[0]) || w[0] == '_' || w[0] == '-',
        is_alnum(w.last()) || w.last() == '_' || w.last() == '-',
    ensures
        stripped(a + w + b) == w,
    decreases a.len() + b.len(),
{
    let s = a + w + b;
    if a.len() > 0 {
        assert(s[0] == a[0]);
        assert(!is_edge(a[0]));
        let rest = a.skip(1);
        assert(s.skip(1) =~= rest + w + b);
        assert forall|k: int| 0 <= k < rest.len() implies !is_edge(#[trigger] rest[k]) by {
            assert(rest[k] == a[k + 1]);
        }
        stripping_takes_off_the_punctuation(rest, w, b);
        assert(strip_start(s) == strip_start(s.skip(1)));
    } else {
        assert(s =~= w + b);
        assert(s[0] == w[0]);
        assert(strip_start(s) == s);
        lemma_strip_end(w, b);
    }
}

proof fn lemma_strip_end(w: Seq<char>, b: Seq<char>)
    requires
        forall|k: int| 0 <= k < b.len() ==> !is_edge(#[trigger] b[k]),
        w.len() > 0,
        is_edge(w.last()),
    ensures
        strip_end(w + b) == w,
    decreases b.len(),
{
    let s = w + b;
    if b.len() > 0 {
        assert(s.last() == b.last());
        assert(!is_edge(b[b.len() - 1]));
        let front = b.drop_last();
        assert(s.drop_last() =~= w + front);
        assert forall|k: int| 0 <= k < front.len() implies !is_edge(#[trigger] front[k]) by {
            assert(front[k] == b[k]);
        }
        lemma_strip_end(w, front);
    } else {
        assert(s =~= w);
    }
}

// ── Names that are made ──────────────────────────────────────────────────

/// Words are written small and joined by single underscores.
pub proof fn a_slug_joins_small_words(a: Seq<char>, gap: Seq<char>, word: Seq<char>)
    requires
        slug(a).len() > 0,
        slug(a).last() != '_',
        gap.len() > 0,
        forall|k: int| 0 <= k < gap.len() ==> !is_alnum(#[trigger] gap[k]),
        forall|k: int| 0 <= k < word.len() ==> is_alnum(#[trigger] word[k]),
    ensures
        slug(word) == lowered(word),
        slug(a + gap + word) == slug(a) + seq!['_'] + lowered(word),
    decreases word.len(), gap.len(),
{
    let s = a + gap + word;
    if word.len() > 0 {
        let front = word.drop_last();
        assert(is_alnum(word[word.len() - 1]));
        assert forall|k: int| 0 <= k < front.len() implies is_alnum(#[trigger] front[k]) by {
            assert(front[k] == word[k]);
        }
        a_slug_joins_small_words(a, gap, front);
        assert(s.drop_last() =~= a + gap + front);
        assert(s.last() == word.last());
        assert(lowered(word) =~= lowered(front).push(lower(word.last())));
        assert(slug(s) =~= slug(a) + seq!['_'] + lowered(word));
    } else {
        assert(lowered(word) =~= Seq::empty());
        let front = gap.drop_last();
        assert(!is_alnum(gap[gap.len() - 1]));
        assert(s.last() == gap.last());
        assert(s.drop_last() =~= a + front);
        if front.len() > 0 {
            assert forall|k: int| 0 <= k < front.len() implies !is_alnum(#[trigger] front[k]) by {
                assert(front[k] == gap[k]);
            }
            a_slug_joins_small_words(a, front, word);
            assert(a + front + word =~= a + front);
            assert(slug(a + front) =~= slug(a) + seq!['_']);
            assert(slug(a + front).last() == '_');
        } else {
            assert(a + front =~= a);
        }
        assert(slug(s) =~= slug(a) + seq!['_'] + lowered(word));
    }
}

proof fn lemma_word_slug(word: Seq<char>)
    requires
        forall|k: int| 0 <= k < word.len() ==> is_alnum(#[trigger] word[k]),
    ensures
        slug(word) == lowered(word),
    decreases word.len(),
{
    if word.len() > 0 {
        let front = word.drop_last();
        assert(is_alnum(word[word.len() - 1]));
        assert forall|k: int| 0 <= k < front.len() implies is_alnum(#[trigger] front[k]) by {
            assert(front[k] == word[k]);
        }
        lemma_word_slug(front);
        assert(lowered(word) =~= lowered(front).push(lower(word.last())));
    } else {
        assert(lowered(word) =~= Seq::empty());
    }
}

/// A goal of one short word is its own identifier, written small; one of nothing but
/// punctuation is a draft.
pub proof fn a_word_is_its_own_identifier(word: Seq<char>)
    ensures
        (forall|k: int| 0 <= k < word.len() ==> is_alnum(#[trigger] word[k])) && 0 < word.len()
            <= 40 ==> identifier_of(word) == lowered(word),
        word.len() == 0 ==> identifier_of(word) == "draft_plan"@,
{
    if (forall|k: int| 0 <= k < word.len() ==> is_alnum(#[trigger] word[k])) && 0 < word.len()
        <= 40 {
        lemma_word_slug(word);
        let small = lowered(word);
        let last = word[word.len() - 1];
        assert(is_alnum(last));
        a_capital_becomes_small(word, word.len() - 1);
        assert(small.last() == lowered(word)[word.len() - 1]);
        assert(small.last() != '_');
    }
}

proof fn lemma_line_end(line: Seq<char>, rest: Seq<char>, from: int)
    requires
        !line.contains('\n'),
        0 <= from <= line.len(),
    ensures
        char_from(line + seq!['\n'] + rest, '\n', from) == Some(line.len() as int),
        char_from(line, '\n', from) is None,
    decreases line.len() - from,
{
    let s = line + seq!['\n'] + rest;
    if from < line.len() {
        assert(line.contains(line[from]));
        assert(s[from] == line[from]);
        lemma_line_end(line, rest, from + 1);
    } else {
        assert(s[from] == '\n');
    }
}

/// A plan is shown under the first line of its goal, cut to sixty characters.
pub proof fn a_plan_is_shown_under_its_goals_first_line(line: Seq<char>, rest: Seq<char>)
    requires
        !line.contains('\n'),
    ensures
        ({
            let shown = trimmed(line);
            &&& shown.len() == 0 ==> display_name(line) == "Draft plan"@
            &&& 0 < shown.len() <= 60 ==> display_name(line) == shown
            &&& shown.len() > 60 ==> display_name(line) == shown.take(60)
            &&& display_name(line + seq!['\n'] + rest) == display_name(line)
        }),
{
    lemma_line_end(line, rest, 0);
    let s = line + seq!['\n'] + rest;
    assert(s.take(line.len() as int) =~= line);
    let shown = trimmed(line);
    if shown.len() > 60 {
        assert(shown.subrange(0, 60) =~= shown.take(60));
    }
}

} // verus!
