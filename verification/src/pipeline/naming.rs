//! Names for drafted plans, taken from the goal they were drafted for.

use crate::pipeline::doc::{is_name_char, is_tool_safe};
use crate::pipeline::plan::{is_letter, word};
use crate::pipeline::record::text_view;
use crate::text::{
    chars_of, first_chars, is_space, prefix_of, same_text, slice_chars, slice_text, space, text_of,
    trim_chars, trim_start, trim_start_chars, trimmed,
};
use vstd::prelude::*;

verus! {

/// The lower-case form of an ASCII letter; any other character as it is.
pub open spec fn lower(c: char) -> char {
    if 'A' <= c <= 'Z' {
        ((c as u32) + 32) as char
    } else {
        c
    }
}

fn to_lower(c: char) -> (r: char)
    ensures
        r == lower(c),
{
    if 'A' <= c && c <= 'Z' {
        let code: u8 = c as u8;
        (code + 32) as char
    } else {
        c
    }
}

/// A text with its ASCII letters in lower case.
pub open spec fn lowered(s: Seq<char>) -> Seq<char> {
    Seq::new(s.len(), |i: int| lower(s[i]))
}

/// A letter or a digit.
pub open spec fn is_alnum(c: char) -> bool {
    is_letter(c) || '0' <= c <= '9'
}

fn alnum(c: char) -> (r: bool)
    ensures
        r == is_alnum(c),
{
    word(c) && c != '_'
}

// ── Names a goal states ──────────────────────────────────────────────────

/// Whether a lower-case word stands at a position of a text, in any case and on
/// word boundaries ("renamed" must not match "named").
pub open spec fn word_at(s: Seq<char>, needle: Seq<char>, at: int) -> bool {
    &&& 0 <= at
    &&& at + needle.len() <= s.len()
    &&& lowered(s.subrange(at, at + needle.len())) == needle
    &&& at == 0 || !is_alnum(s[at - 1])
    &&& at + needle.len() == s.len() || !is_alnum(s[at + needle.len()])
}

/// The first position from `at` on where a word stands.
pub open spec fn find_word(s: Seq<char>, needle: Seq<char>, at: int) -> Option<int>
    decreases s.len() + 1 - at,
{
    if at < 0 || at + needle.len() > s.len() {
        None
    } else if word_at(s, needle, at) {
        Some(at)
    } else {
        find_word(s, needle, at + 1)
    }
}

/// The position after the first place where a marker stands.
pub open spec fn after_word(s: Seq<char>, needle: Seq<char>) -> Option<int> {
    match find_word(s, needle, 0) {
        Some(at) => Some(at + needle.len()),
        None => None,
    }
}

/// The lesser of two positions, where there are two.
pub open spec fn earlier(a: Option<int>, b: Option<int>) -> Option<int> {
    match (a, b) {
        (Some(x), Some(y)) => if x <= y {
            Some(x)
        } else {
            Some(y)
        },
        (Some(x), None) => Some(x),
        (None, y) => y,
    }
}

/// The position after the first marker that announces a name.
pub open spec fn name_start(goal: Seq<char>) -> Option<int> {
    earlier(
        earlier(after_word(goal, "named"@), after_word(goal, "called"@)),
        after_word(goal, "name it"@),
    )
}

/// A character that can stand at the ends of a name.
pub open spec fn is_edge(c: char) -> bool {
    is_alnum(c) || c == '_' || c == '-'
}

/// A word without what cannot stand at its start.
pub open spec fn strip_start(s: Seq<char>) -> Seq<char>
    decreases s.len(),
{
    if s.len() > 0 && !is_edge(s[0]) {
        strip_start(s.skip(1))
    } else {
        s
    }
}

/// A word without what cannot stand at its end.
pub open spec fn strip_end(s: Seq<char>) -> Seq<char>
    decreases s.len(),
{
    if s.len() > 0 && !is_edge(s.last()) {
        strip_end(s.drop_last())
    } else {
        s
    }
}

/// A word without what cannot stand at either end.
pub open spec fn stripped(s: Seq<char>) -> Seq<char> {
    strip_end(strip_start(s))
}

/// The position of the first white space from `i` on, or the end.
pub open spec fn space_from(s: Seq<char>, i: int) -> int
    decreases s.len() - i,
{
    if i < 0 || i >= s.len() || is_space(s[i]) {
        i
    } else {
        space_from(s, i + 1)
    }
}

/// The position of a character from `i` on.
pub open spec fn char_from(s: Seq<char>, c: char, i: int) -> Option<int>
    decreases s.len() - i,
{
    if i < 0 || i >= s.len() {
        None
    } else if s[i] == c {
        Some(i)
    } else {
        char_from(s, c, i + 1)
    }
}

/// Words that describe rather than name.
pub open spec fn is_filler(w: Seq<char>) -> bool {
    w == ""@ || w == "something"@ || w == "like"@ || w == "maybe"@ || w == "perhaps"@ || w == "it"@
        || w == "the"@ || w == "a"@ || w == "an"@
}

/// A quotation mark.
pub open spec fn is_quote(c: char) -> bool {
    c == '"' || c == '\'' || c == '`'
}

/// The name in a quoted string: what stands between the marks, when that is
/// between one and sixty characters.
pub open spec fn quoted_name(rest: Seq<char>) -> Option<Seq<char>> {
    let inner = rest.skip(1);
    match char_from(inner, rest[0], 0) {
        None => None,
        Some(end) => {
            let name = trimmed(inner.take(end));
            if 0 < name.len() <= 60 {
                Some(name)
            } else {
                None
            }
        },
    }
}

/// What follows the word that ends at `end`.
pub open spec fn after_token(rest: Seq<char>, end: int) -> Seq<char> {
    if end < rest.len() {
        trim_start(rest.skip(end + 1))
    } else {
        Seq::empty()
    }
}

proof fn lemma_space_from_bounds(s: Seq<char>, i: int)
    requires
        0 <= i <= s.len(),
    ensures
        i <= space_from(s, i) <= s.len(),
    decreases s.len() - i,
{
    if i < s.len() && !is_space(s[i]) {
        lemma_space_from_bounds(s, i + 1);
    }
}

proof fn lemma_trim_start_shrinks(s: Seq<char>)
    ensures
        trim_start(s).len() <= s.len(),
    decreases s.len(),
{
    if s.len() > 0 && is_space(s[0]) {
        lemma_trim_start_shrinks(s.drop_first());
    }
}

/// What follows a word is shorter than the text.
pub proof fn lemma_after_token_shrinks(rest: Seq<char>)
    requires
        rest.len() > 0,
    ensures
        after_token(rest, space_from(rest, 0)).len() < rest.len(),
{
    lemma_space_from_bounds(rest, 0);
    let end = space_from(rest, 0);
    if end < rest.len() {
        lemma_trim_start_shrinks(rest.skip(end + 1));
    }
}

/// The name that a text begins with: a quoted string verbatim, or else the
/// first word that is not filler.
pub open spec fn leading_name(rest: Seq<char>) -> Option<Seq<char>>
    decreases rest.len(),
{
    if rest.len() == 0 {
        None
    } else if is_quote(rest[0]) {
        quoted_name(rest)
    } else {
        let end = space_from(rest, 0);
        let w = stripped(rest.take(end));
        if is_filler(lowered(w)) {
            proof {
                lemma_after_token_shrinks(rest);
            }
            leading_name(after_token(rest, end))
        } else {
            Some(w)
        }
    }
}

/// Whether a quotation mark opens a string: one inside a word is an apostrophe.
pub open spec fn opens_quote(s: Seq<char>, i: int) -> bool {
    is_quote(s[i]) && (i == 0 || !is_alnum(s[i - 1]))
}

/// A character is found at or after where the search begins.
pub proof fn lemma_char_from_bounds(s: Seq<char>, c: char, i: int)
    ensures
        char_from(s, c, i) matches Some(k) ==> i <= k < s.len(),
    decreases s.len() - i,
{
    if 0 <= i < s.len() && s[i] != c {
        lemma_char_from_bounds(s, c, i + 1);
    }
}

/// The first quoted string from `i` on that can be a name: what stands between
/// the marks, when that is between one and sixty characters.
pub open spec fn quoted_from(s: Seq<char>, i: int) -> Option<Seq<char>>
    decreases s.len() - i,
{
    proof {
        lemma_char_from_bounds(s, s[i], i + 1);
    }
    if i < 0 || i >= s.len() {
        None
    } else if opens_quote(s, i) {
        match char_from(s, s[i], i + 1) {
            None => quoted_from(s, i + 1),
            Some(end) => {
                let name = trimmed(s.subrange(i + 1, end));
                if 0 < name.len() <= 60 {
                    Some(name)
                } else {
                    quoted_from(s, end + 1)
                }
            },
        }
    } else {
        quoted_from(s, i + 1)
    }
}

/// The name that a text gives: a quoted string anywhere in it, or else what it
/// begins with.
pub open spec fn announced_name(rest: Seq<char>) -> Option<Seq<char>> {
    match quoted_from(rest, 0) {
        Some(name) => Some(name),
        None => leading_name(trim_start(rest)),
    }
}

/// The name that a goal states.
pub open spec fn name_in(goal: Seq<char>) -> Option<Seq<char>> {
    match name_start(goal) {
        None => None,
        Some(at) => announced_name(goal.skip(at)),
    }
}

fn word_stands(s: &Vec<char>, needle: &Vec<char>, at: usize) -> (r: bool)
    requires
        at + needle@.len() <= s@.len(),
    ensures
        r == word_at(s@, needle@, at as int),
{
    let total: usize = s.len();
    let mut k: usize = 0;
    let ghost part = lowered(s@.subrange(at as int, at + needle@.len()));
    while k < needle.len()
        invariant
            k <= needle@.len(),
            at + needle@.len() <= s@.len(),
            total == s@.len(),
            part == lowered(s@.subrange(at as int, at + needle@.len())),
            forall|j: int| 0 <= j < k ==> part[j] == needle@[j],
        decreases needle.len() - k,
    {
        if to_lower(s[at + k]) != needle[k] {
            assert(part[k as int] != needle@[k as int]);
            return false;
        }
        k += 1;
    }
    assert(part =~= needle@);
    let end = at + needle.len();
    (at == 0 || !alnum(s[at - 1])) && (end == s.len() || !alnum(s[end]))
}

fn find_marker(s: &Vec<char>, marker: &str) -> (r: Option<usize>)
    ensures
        match r {
            Some(at) => at <= s@.len() && after_word(s@, marker@) == Some(at as int),
            None => after_word(s@, marker@) is None,
        },
{
    let needle = chars_of(marker);
    if needle.len() > s.len() {
        return None;
    }
    let last: usize = s.len() - needle.len();
    let mut at: usize = 0;
    loop
        invariant
            needle@ == marker@,
            last + needle@.len() == s@.len(),
            at <= last,
            find_word(s@, needle@, 0) == find_word(s@, needle@, at as int),
        decreases last - at,
    {
        let total: usize = s.len();
        if word_stands(s, &needle, at) {
            return Some(at + needle.len());
        }
        if at == last {
            assert(find_word(s@, needle@, at + 1) is None);
            return None;
        }
        at += 1;
    }
}

fn least(a: Option<usize>, b: Option<usize>) -> (r: Option<usize>)
    ensures
        match (a, b) {
            (Some(x), Some(y)) => r == Some(if x <= y { x } else { y }),
            (Some(x), None) => r == Some(x),
            (None, y) => r == y,
        },
{
    match (a, b) {
        (Some(x), Some(y)) => if x <= y {
            Some(x)
        } else {
            Some(y)
        },
        (Some(x), None) => Some(x),
        (None, y) => y,
    }
}

fn edge(c: char) -> (r: bool)
    ensures
        r == is_edge(c),
{
    alnum(c) || c == '_' || c == '-'
}

fn strip(s: &Vec<char>) -> (r: Vec<char>)
    ensures
        r@ == stripped(s@),
{
    let mut start: usize = 0;
    assert(s@.skip(0) =~= s@);
    while start < s.len() && !edge(s[start])
        invariant
            start <= s@.len(),
            strip_start(s@) == strip_start(s@.skip(start as int)),
        decreases s.len() - start,
    {
        assert(s@.skip(start as int).skip(1) =~= s@.skip(start + 1));
        start += 1;
    }
    assert(strip_start(s@) == s@.skip(start as int));
    let ghost rest = s@.skip(start as int);
    let mut end: usize = s.len();
    assert(s@.subrange(start as int, end as int) =~= rest);
    while end > start && !edge(s[end - 1])
        invariant
            start <= end <= s@.len(),
            rest == s@.skip(start as int),
            strip_end(rest) == strip_end(s@.subrange(start as int, end as int)),
        decreases end,
    {
        let ghost part = s@.subrange(start as int, end as int);
        assert(part.drop_last() =~= s@.subrange(start as int, end - 1));
        assert(part.last() == s@[end - 1]);
        end -= 1;
    }
    slice_chars(s, start, end)
}

fn lower_text(s: &Vec<char>) -> (r: String)
    ensures
        r@ == lowered(s@),
{
    let mut out = String::new();
    let mut i: usize = 0;
    while i < s.len()
        invariant
            i <= s@.len(),
            out@ == lowered(s@).take(i as int),
        decreases s.len() - i,
    {
        out.push(to_lower(s[i]));
        i += 1;
        assert(lowered(s@).take(i as int) =~= lowered(s@).take(i - 1).push(lowered(s@)[i - 1]));
    }
    assert(lowered(s@).take(i as int) =~= lowered(s@));
    out
}

fn filler(w: &str) -> (r: bool)
    ensures
        r == is_filler(w@),
{
    same_text(w, "") || same_text(w, "something") || same_text(w, "like") || same_text(w, "maybe")
        || same_text(w, "perhaps") || same_text(w, "it") || same_text(w, "the") || same_text(
        w,
        "a",
    ) || same_text(w, "an")
}

fn read_quoted(rest: &Vec<char>) -> (r: Option<String>)
    requires
        rest@.len() > 0,
    ensures
        text_view(r) == quoted_name(rest@),
{
    let mark = rest[0];
    let inner = slice_chars(rest, 1, rest.len());
    assert(inner@ =~= rest@.skip(1));
    let mut end: usize = 0;
    while end < inner.len()
        invariant
            end <= inner@.len(),
            inner@ == rest@.skip(1),
            mark == rest@[0],
            char_from(inner@, mark, 0) == char_from(inner@, mark, end as int),
        decreases inner.len() - end,
    {
        if inner[end] == mark {
            let name = trim_chars(&slice_chars(&inner, 0, end));
            assert(inner@.subrange(0, end as int) =~= inner@.take(end as int));
            return if name.len() > 0 && name.len() <= 60 {
                Some(text_of(&name))
            } else {
                None
            };
        }
        end += 1;
    }
    None
}

fn find_quoted(s: &Vec<char>) -> (r: Option<String>)
    ensures
        text_view(r) == quoted_from(s@, 0),
{
    let mut i: usize = 0;
    while i < s.len()
        invariant
            i <= s@.len(),
            quoted_from(s@, 0) == quoted_from(s@, i as int),
        decreases s.len() - i,
    {
        let mark = s[i];
        let opens = (mark == '"' || mark == '\'' || mark == '`') && (i == 0 || !alnum(s[i - 1]));
        if !opens {
            i += 1;
            continue;
        }
        let mut end: usize = i + 1;
        while end < s.len() && s[end] != mark
            invariant
                i < end <= s@.len(),
                char_from(s@, mark, i + 1) == char_from(s@, mark, end as int),
            decreases s.len() - end,
        {
            end += 1;
        }
        if end == s.len() {
            i += 1;
            continue;
        }
        let name = trim_chars(&slice_chars(s, i + 1, end));
        if name.len() > 0 && name.len() <= 60 {
            return Some(text_of(&name));
        }
        i = end + 1;
    }
    None
}

/// A plan name the goal states explicitly: "named X", "called X", or "name it
/// X". A quoted string anywhere after the marker wins (so 'named something like
/// "the_goat"' resolves to the_goat); otherwise the next word, unless it's
/// filler that describes rather than names.
pub fn stated_name(goal: &str) -> (r: Option<String>)
    ensures
        text_view(r) == name_in(goal@),
{
    let s = chars_of(goal);
    let at = match least(
        least(find_marker(&s, "named"), find_marker(&s, "called")),
        find_marker(&s, "name it"),
    ) {
        Some(at) => at,
        None => {
            return None;
        },
    };
    let tail = slice_chars(&s, at, s.len());
    assert(tail@ =~= goal@.skip(at as int));
    if let Some(name) = find_quoted(&tail) {
        return Some(name);
    }
    let mut rest = trim_start_chars(&tail);
    let ghost wanted = name_in(goal@);
    loop
        invariant
            wanted == leading_name(rest@),
            wanted == name_in(goal@),
        decreases rest.len(),
    {
        if rest.len() == 0 {
            return None;
        }
        let first = rest[0];
        if first == '"' || first == '\'' || first == '`' {
            return read_quoted(&rest);
        }
        let mut end: usize = 0;
        while end < rest.len() && !space(rest[end])
            invariant
                end <= rest@.len(),
                space_from(rest@, 0) == space_from(rest@, end as int),
            decreases rest.len() - end,
        {
            end += 1;
        }
        let token = slice_chars(&rest, 0, end);
        assert(token@ =~= rest@.take(end as int));
        let w = strip(&token);
        if !filler(lower_text(&w).as_str()) {
            return Some(text_of(&w));
        }
        proof {
            lemma_after_token_shrinks(rest@);
        }
        let next = if end < rest.len() {
            let tail = slice_chars(&rest, end + 1, rest.len());
            assert(tail@ =~= rest@.skip(end + 1));
            trim_start_chars(&tail)
        } else {
            let none: Vec<char> = Vec::new();
            assert(none@ =~= Seq::<char>::empty());
            none
        };
        rest = next;
    }
}

// ── Identifiers ──────────────────────────────────────────────────────────

/// The characters of a text as an identifier's: letters and digits in lower
/// case, and one underscore for every run of anything else but a leading one.
pub open spec fn slug(s: Seq<char>) -> Seq<char>
    decreases s.len(),
{
    if s.len() == 0 {
        Seq::empty()
    } else {
        let before = slug(s.drop_last());
        if is_alnum(s.last()) {
            before.push(lower(s.last()))
        } else if before.len() > 0 && before.last() != '_' {
            before.push('_')
        } else {
            before
        }
    }
}

/// A text without underscores at its end.
pub open spec fn no_trailing_underscore(s: Seq<char>) -> Seq<char>
    decreases s.len(),
{
    if s.len() > 0 && s.last() == '_' {
        no_trailing_underscore(s.drop_last())
    } else {
        s
    }
}

/// The identifier that a goal gives.
pub open spec fn identifier_of(goal: Seq<char>) -> Seq<char> {
    let id = no_trailing_underscore(slug(prefix_of(goal, 60)));
    if id.len() == 0 {
        "draft_plan"@
    } else {
        prefix_of(id, 40)
    }
}

/// The characters of an identifier that a goal gives.
pub open spec fn is_slug_char(c: char) -> bool {
    'a' <= c <= 'z' || '0' <= c <= '9' || c == '_'
}

/// Whether a text is made of lower-case letters, digits and single underscores,
/// and begins with no underscore.
pub open spec fn is_slug(s: Seq<char>) -> bool {
    &&& forall|i: int| 0 <= i < s.len() ==> is_slug_char(#[trigger] s[i])
    &&& s.len() > 0 ==> s[0] != '_'
    &&& forall|i: int| 0 < i < s.len() && #[trigger] s[i] == '_' ==> s[i - 1] != '_'
}

proof fn lemma_slug(s: Seq<char>)
    ensures
        is_slug(slug(s)),
    decreases s.len(),
{
    if s.len() > 0 {
        lemma_slug(s.drop_last());
    }
}

proof fn lemma_slug_prefix(s: Seq<char>, n: int)
    requires
        is_slug(s),
        0 <= n <= s.len(),
    ensures
        is_slug(s.take(n)),
{
    let cut = s.take(n);
    assert forall|i: int| 0 < i < cut.len() && #[trigger] cut[i] == '_' implies cut[i - 1]
        != '_' by {
        assert(s[i] == '_');
    }
}

/// The slug of a slug is itself.
proof fn lemma_slug_stays(s: Seq<char>)
    requires
        is_slug(s),
    ensures
        slug(s) == s,
    decreases s.len(),
{
    if s.len() > 0 {
        let front = s.drop_last();
        lemma_slug_prefix(s, s.len() - 1);
        assert(s.take(s.len() - 1) =~= front);
        lemma_slug_stays(front);
        assert(is_slug_char(s[s.len() - 1]));
        if s.last() == '_' {
            assert(s[s.len() - 1] == '_');
            assert(s.len() > 1);
            assert(front.last() == s[s.len() - 2]);
        }
        assert(front.push(s.last()) =~= s);
    }
}

/// A text without a letter or a digit has no slug.
proof fn lemma_no_slug(s: Seq<char>)
    requires
        forall|i: int| 0 <= i < s.len() ==> !is_alnum(#[trigger] s[i]),
    ensures
        slug(s).len() == 0,
    decreases s.len(),
{
    if s.len() > 0 {
        lemma_no_slug(s.drop_last());
    }
}

proof fn lemma_trailing_is_prefix(s: Seq<char>)
    ensures
        no_trailing_underscore(s).len() <= s.len(),
        no_trailing_underscore(s) == s.take(no_trailing_underscore(s).len() as int),
    decreases s.len(),
{
    if s.len() > 0 && s.last() == '_' {
        lemma_trailing_is_prefix(s.drop_last());
        let n = no_trailing_underscore(s).len() as int;
        assert(s.drop_last().take(n) =~= s.take(n));
    } else {
        assert(s.take(s.len() as int) =~= s);
    }
}

/// Whatever the goal, the identifier it gives is made of at most forty
/// lower-case letters, digits and single underscores, and begins with no
/// underscore; so it is safe as part of a tool's name. A goal without a letter
/// or a digit at its beginning gives the fallback.
pub proof fn every_goal_gives_a_tool_safe_identifier(goal: Seq<char>)
    ensures
        is_tool_safe(identifier_of(goal)),
        is_slug(identifier_of(goal)),
        1 <= identifier_of(goal).len() <= 40,
        (forall|i: int| 0 <= i < prefix_of(goal, 60).len() ==> !is_alnum(
            #[trigger] prefix_of(goal, 60)[i],
        )) ==> identifier_of(goal) == "draft_plan"@,
{
    let head = prefix_of(goal, 60);
    let s = slug(head);
    lemma_slug(head);
    lemma_trailing_is_prefix(s);
    let id = no_trailing_underscore(s);
    lemma_slug_prefix(s, id.len() as int);
    if forall|i: int| 0 <= i < head.len() ==> !is_alnum(#[trigger] head[i]) {
        lemma_no_slug(head);
    }
    reveal_strlit("draft_plan");
    let fallback = "draft_plan"@;
    assert(fallback =~= seq!['d', 'r', 'a', 'f', 't', '_', 'p', 'l', 'a', 'n']);
    if id.len() > 0 {
        let n: int = if id.len() < 40 {
            id.len() as int
        } else {
            40
        };
        lemma_slug_prefix(id, n);
        assert(prefix_of(id, 40) =~= id.take(n));
    }
    let made = identifier_of(goal);
    assert forall|i: int| 0 <= i < made.len() implies is_name_char(#[trigger] made[i]) by {
        assert(is_slug_char(made[i]));
    }
}

/// An identifier is its own identifier, unless the cut left an underscore at its
/// end.
pub proof fn an_identifier_is_its_own_identifier(goal: Seq<char>)
    requires
        identifier_of(goal).last() != '_',
    ensures
        identifier_of(identifier_of(goal)) == identifier_of(goal),
{
    let id = identifier_of(goal);
    every_goal_gives_a_tool_safe_identifier(goal);
    lemma_slug_stays(id);
    assert(prefix_of(id, 60) =~= id);
    assert(prefix_of(id, 40) =~= id);
}

/// Tool-name-safe identifier from a free-form goal.
pub fn identifier_from(goal: &str) -> (r: String)
    ensures
        r@ == identifier_of(goal@),
        is_tool_safe(r@),
{
    proof {
        every_goal_gives_a_tool_safe_identifier(goal@);
    }
    let s = chars_of(first_chars(goal, 60).as_str());
    let ghost head = prefix_of(goal@, 60);
    let mut id: Vec<char> = Vec::new();
    let mut i: usize = 0;
    assert(s@.take(0) =~= Seq::<char>::empty());
    while i < s.len()
        invariant
            i <= s@.len(),
            s@ == head,
            id@ == slug(s@.take(i as int)),
        decreases s.len() - i,
    {
        let c = s[i];
        proof {
            assert(s@.take(i + 1).drop_last() =~= s@.take(i as int));
            assert(s@.take(i + 1).last() == c);
        }
        if alnum(c) {
            id.push(to_lower(c));
        } else if id.len() > 0 && id[id.len() - 1] != '_' {
            id.push('_');
        }
        i += 1;
    }
    assert(s@.take(i as int) =~= s@);
    let mut end: usize = id.len();
    assert(id@.take(end as int) =~= id@);
    while end > 0 && id[end - 1] == '_'
        invariant
            end <= id@.len(),
            no_trailing_underscore(id@) == no_trailing_underscore(id@.take(end as int)),
        decreases end,
    {
        assert(id@.take(end as int).drop_last() =~= id@.take(end - 1));
        assert(id@.take(end as int).last() == id@[end - 1]);
        end -= 1;
    }
    if end == 0 {
        assert(id@.take(0).len() == 0);
        "draft_plan".to_owned()
    } else {
        assert(id@.take(end as int).last() == id@[end - 1]);
        let text = slice_text(&id, 0, end);
        assert(text@ =~= id@.take(end as int));
        first_chars(text.as_str(), 40)
    }
}

// ── Display names ────────────────────────────────────────────────────────

/// The first line of a text.
pub open spec fn first_line(s: Seq<char>) -> Seq<char> {
    match char_from(s, '\n', 0) {
        Some(end) => s.take(end),
        None => s,
    }
}

/// The display name that a goal gives.
pub open spec fn display_name(goal: Seq<char>) -> Seq<char> {
    let name = prefix_of(trimmed(first_line(goal)), 60);
    if name.len() == 0 {
        "Draft plan"@
    } else {
        name
    }
}

/// A display name from a free-form goal: its first line, truncated.
pub fn name_from(goal: &str) -> (r: String)
    ensures
        r@ == display_name(goal@),
{
    let s = chars_of(goal);
    let mut end: usize = 0;
    while end < s.len() && s[end] != '\n'
        invariant
            end <= s@.len(),
            s@ == goal@,
            char_from(s@, '\n', 0) == char_from(s@, '\n', end as int),
        decreases s.len() - end,
    {
        end += 1;
    }
    let line = slice_chars(&s, 0, end);
    assert(line@ =~= first_line(goal@)) by {
        if end == s@.len() {
            assert(s@.subrange(0, end as int) =~= s@);
        } else {
            assert(s@.subrange(0, end as int) =~= s@.take(end as int));
        }
    }
    let name = trim_chars(&line);
    let text = text_of(&name);
    if name.len() == 0 {
        "Draft plan".to_owned()
    } else {
        first_chars(text.as_str(), 60)
    }
}

} // verus!
