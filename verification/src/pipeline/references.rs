//! The template references inside step inputs: which roots a value refers to,
//! and whether every reference to a step is to one that has already run.

use crate::pipeline::plan::{number_in_id, step_number};
use crate::seqs::{collected, lemma_collected_fails};
use crate::template::laws::{
    a_missing_step_was_referred_to_in_an_input, bare_in_section, plain_text_stays_as_it_is,
};
use crate::template::parser::parsed;
use crate::template::render::{rendered_entries, rendered_input, rendered_items, spliced};
use crate::template::{referenced_roots, render_message, roots_of, RenderErrorView};
use crate::text::{cat4, cat5, contains_text, occurs, same_text, texts, texts_push};
use crate::value::{
    list_shrinks, lookup, object_shrinks, values_view, Data, Entries, Fields, Json,
};
use vstd::prelude::*;

verus! {

/// The views of a sequence of string slices.
pub open spec fn names(s: Seq<&str>) -> Seq<Seq<char>> {
    Seq::new(s.len(), |i: int| s[i]@)
}

/// Whether a list of names holds a name.
pub fn named(list: &[&str], name: &str) -> (r: bool)
    ensures
        r == names(list@).contains(name@),
{
    let mut i: usize = 0;
    while i < list.len()
        invariant
            i <= list@.len(),
            forall|k: int| 0 <= k < i ==> names(list@)[k] != name@,
        decreases list.len() - i,
    {
        if same_text(list[i], name) {
            assert(names(list@)[i as int] == name@);
            return true;
        }
        i += 1;
    }
    false
}

/// Two lists of names, one after the other.
pub fn joined_names<'a>(a: &[&'a str], b: &[&'a str]) -> (r: Vec<&'a str>)
    ensures
        names(r@) == names(a@) + names(b@),
{
    let mut out: Vec<&'a str> = Vec::new();
    let mut i: usize = 0;
    while i < a.len()
        invariant
            i <= a@.len(),
            out@ == a@.take(i as int),
        decreases a.len() - i,
    {
        out.push(a[i]);
        assert(a@.take(i + 1) =~= a@.take(i as int).push(a@[i as int]));
        i += 1;
    }
    assert(a@.take(i as int) =~= a@);
    let mut k: usize = 0;
    while k < b.len()
        invariant
            k <= b@.len(),
            out@ == a@ + b@.take(k as int),
        decreases b.len() - k,
    {
        out.push(b[k]);
        assert(a@ + b@.take(k + 1) =~= (a@ + b@.take(k as int)).push(b@[k as int]));
        k += 1;
    }
    assert(b@.take(k as int) =~= b@);
    assert(names(out@) =~= names(a@) + names(b@));
    out
}

/// Why a reference to a root is out of place: the root is a step's, and that
/// step has not run yet.
pub open spec fn root_problem(root: Seq<char>, available: Seq<Seq<char>>, step: Seq<char>) -> Seq<
    Seq<char>,
> {
    if number_in_id(root) is Some && !available.contains(root) {
        seq!["step "@ + step + " references "@ + root + ", which is not an earlier step"@]
    } else {
        Seq::empty()
    }
}

/// The problems with the first `n` of some references.
pub open spec fn roots_problems(
    roots: Seq<Seq<char>>,
    available: Seq<Seq<char>>,
    step: Seq<char>,
    n: int,
) -> Seq<Seq<char>>
    decreases n,
{
    if n <= 0 || n > roots.len() {
        Seq::empty()
    } else {
        roots_problems(roots, available, step, n - 1) + root_problem(roots[n - 1], available, step)
    }
}

/// The problems with the templates in a text.
pub open spec fn text_problems(s: Seq<char>, available: Seq<Seq<char>>, step: Seq<char>) -> Seq<
    Seq<char>,
> {
    if !occurs(s, "{{"@) {
        Seq::empty()
    } else {
        match roots_of(s) {
            Ok(roots) => roots_problems(roots, available, step, roots.len() as int),
            Err(e) => seq!["step "@ + step + ": "@ + render_message(e)],
        }
    }
}

/// The problems with the templates in the first `n` of some values.
pub open spec fn items_problems(
    items: Seq<Json>,
    available: Seq<Seq<char>>,
    step: Seq<char>,
    n: int,
) -> Seq<Seq<char>>
    decreases items, n,
{
    if n <= 0 || n > items.len() {
        Seq::empty()
    } else {
        items_problems(items, available, step, n - 1) + template_problems(
            items[n - 1],
            available,
            step,
        )
    }
}

/// The problems with the templates in the first `n` of some entries.
pub open spec fn fields_problems(
    entries: Entries,
    available: Seq<Seq<char>>,
    step: Seq<char>,
    n: int,
) -> Seq<Seq<char>>
    decreases entries, n,
{
    if n <= 0 || n > entries.len() {
        Seq::empty()
    } else {
        fields_problems(entries, available, step, n - 1) + template_problems(
            entries[n - 1].1,
            available,
            step,
        )
    }
}

/// The problems with the templates anywhere in a value: those that do not
/// parse, and references to steps that are not available.
pub open spec fn template_problems(v: Json, available: Seq<Seq<char>>, step: Seq<char>) -> Seq<
    Seq<char>,
>
    decreases v, 0int,
{
    match v {
        Json::Text(s) => text_problems(s, available, step),
        Json::List(items) => items_problems(items, available, step, items.len() as int),
        Json::Object(entries) => fields_problems(entries, available, step, entries.len() as int),
        _ => Seq::empty(),
    }
}

/// The problems with the templates in an input.
pub open spec fn input_problems(input: Entries, available: Seq<Seq<char>>, step: Seq<char>) -> Seq<
    Seq<char>,
> {
    fields_problems(input, available, step, input.len() as int)
}

fn check_text(s: &str, available: &[&str], step_id: &str, problems: &mut Vec<String>)
    ensures
        texts(final(problems)@) == texts(old(problems)@) + text_problems(
            s@,
            names(available@),
            step_id@,
        ),
{
    broadcast use texts_push;

    let ghost before = texts(problems@);
    if !contains_text(s, "{{") {
        assert(before + Seq::<Seq<char>>::empty() =~= before);
        return;
    }
    match referenced_roots(s) {
        Ok(roots) => {
            let ghost found = texts(roots@);
            let mut i: usize = 0;
            assert(before + roots_problems(found, names(available@), step_id@, 0) =~= before);
            while i < roots.len()
                invariant
                    i <= roots@.len(),
                    found == texts(roots@),
                    texts(problems@) == before + roots_problems(
                        found,
                        names(available@),
                        step_id@,
                        i as int,
                    ),
                decreases roots.len() - i,
            {
                let root = roots[i].as_str();
                let ghost so_far = texts(problems@);
                assert(found[i as int] == root@);
                if step_number(root).is_some() && !named(available, root) {
                    problems.push(
                        cat5(
                            "step ",
                            step_id,
                            " references ",
                            root,
                            ", which is not an earlier step",
                        ),
                    );
                    assert(texts(problems@) =~= so_far + root_problem(
                        root@,
                        names(available@),
                        step_id@,
                    ));
                } else {
                    assert(so_far + root_problem(root@, names(available@), step_id@) =~= so_far);
                }
                assert(texts(problems@) =~= before + (roots_problems(
                    found,
                    names(available@),
                    step_id@,
                    i as int,
                ) + root_problem(root@, names(available@), step_id@)));
                i += 1;
            }
        },
        Err(e) => {
            problems.push(cat4("step ", step_id, ": ", e.message().as_str()));
            assert(texts(problems@) =~= before + text_problems(
                s@,
                names(available@),
                step_id@,
            ));
        },
    }
}

/// Recursively parses template strings, recording parse failures and references
/// to steps that are not yet available at this point in the plan.
pub fn check_templates(
    value: &Data,
    available: &[&str],
    step_id: &str,
    problems: &mut Vec<String>,
)
    ensures
        texts(final(problems)@) == texts(old(problems)@) + template_problems(
            value@,
            names(available@),
            step_id@,
        ),
    decreases value@, 1int,
{
    let ghost before = texts(problems@);
    let ghost avail = names(available@);
    match value {
        Data::Text(s) => check_text(s.as_str(), available, step_id, problems),
        Data::List(items) => {
            let mut i: usize = 0;
            assert(before + items_problems(values_view(items@), avail, step_id@, 0) =~= before);
            while i < items.len()
                invariant
                    i <= items@.len(),
                    avail == names(available@),
                    value@ == Json::List(values_view(items@)),
                    texts(problems@) == before + items_problems(
                        values_view(items@),
                        avail,
                        step_id@,
                        i as int,
                    ),
                decreases items.len() - i,
            {
                proof {
                    list_shrinks(value@, i as int);
                }
                check_templates(&items[i], available, step_id, problems);
                i += 1;
                assert(texts(problems@) =~= before + items_problems(
                    values_view(items@),
                    avail,
                    step_id@,
                    i as int,
                ));
            }
        },
        Data::Object(fields) => {
            proof {
                assert(value@ == Json::Object(fields@));
                assert(decreases_to!(value@ => value@->Object_0));
            }
            check_input(fields, available, step_id, problems);
        },
        _ => {
            assert(before + Seq::<Seq<char>>::empty() =~= before);
        },
    }
}

/// [`check_templates`] on every value of an input.
pub fn check_input(
    fields: &Fields,
    available: &[&str],
    step_id: &str,
    problems: &mut Vec<String>,
)
    ensures
        texts(final(problems)@) == texts(old(problems)@) + input_problems(
            fields@,
            names(available@),
            step_id@,
        ),
    decreases fields@, 0int,
{
    let ghost before = texts(problems@);
    let ghost avail = names(available@);
    let mut i: usize = 0;
    assert(before + fields_problems(fields@, avail, step_id@, 0) =~= before);
    while i < fields.len()
        invariant
            i <= fields@.len(),
            avail == names(available@),
            texts(problems@) == before + fields_problems(fields@, avail, step_id@, i as int),
        decreases fields@.len() - i,
    {
        proof {
            assert(decreases_to!(fields@ => fields@[i as int]));
            assert(decreases_to!(fields@[i as int] => fields@[i as int].1));
        }
        check_templates(fields.value_at(i), available, step_id, problems);
        i += 1;
        assert(texts(problems@) =~= before + fields_problems(fields@, avail, step_id@, i as int));
    }
}

// ── Every root in a value ────────────────────────────────────────────────

/// The roots that the templates in a text refer to; none where it does not
/// parse.
pub open spec fn text_roots(s: Seq<char>) -> Seq<Seq<char>> {
    if !occurs(s, "{{"@) {
        Seq::empty()
    } else {
        match roots_of(s) {
            Ok(roots) => roots,
            Err(_) => Seq::empty(),
        }
    }
}

/// The roots in the first `n` of some values.
pub open spec fn items_roots(items: Seq<Json>, n: int) -> Seq<Seq<char>>
    decreases items, n,
{
    if n <= 0 || n > items.len() {
        Seq::empty()
    } else {
        items_roots(items, n - 1) + value_roots(items[n - 1])
    }
}

/// The roots in the first `n` of some entries.
pub open spec fn fields_roots(entries: Entries, n: int) -> Seq<Seq<char>>
    decreases entries, n,
{
    if n <= 0 || n > entries.len() {
        Seq::empty()
    } else {
        fields_roots(entries, n - 1) + value_roots(entries[n - 1].1)
    }
}

/// Every template root referenced anywhere in a value.
pub open spec fn value_roots(v: Json) -> Seq<Seq<char>>
    decreases v, 0int,
{
    match v {
        Json::Text(s) => text_roots(s),
        Json::List(items) => items_roots(items, items.len() as int),
        Json::Object(entries) => fields_roots(entries, entries.len() as int),
        _ => Seq::empty(),
    }
}

fn append_texts(out: &mut Vec<String>, more: Vec<String>)
    ensures
        texts(final(out)@) == texts(old(out)@) + texts(more@),
{
    broadcast use texts_push;

    let ghost before = texts(out@);
    let mut i: usize = 0;
    assert(before + texts(more@).take(0) =~= before);
    while i < more.len()
        invariant
            i <= more@.len(),
            texts(out@) == before + texts(more@).take(i as int),
        decreases more.len() - i,
    {
        out.push(more[i].clone());
        i += 1;
        assert(before + texts(more@).take(i as int) =~= (before + texts(more@).take(
            i - 1,
        )).push(texts(more@)[i - 1]));
    }
    assert(texts(more@).take(i as int) =~= texts(more@));
}

fn collect_roots(value: &Data, roots: &mut Vec<String>)
    ensures
        texts(final(roots)@) == texts(old(roots)@) + value_roots(value@),
    decreases value@,
{
    let ghost before = texts(roots@);
    match value {
        Data::Text(s) => {
            if contains_text(s.as_str(), "{{") {
                if let Ok(found) = referenced_roots(s.as_str()) {
                    append_texts(roots, found);
                } else {
                    assert(before + Seq::<Seq<char>>::empty() =~= before);
                }
            } else {
                assert(before + Seq::<Seq<char>>::empty() =~= before);
            }
        },
        Data::List(items) => {
            let mut i: usize = 0;
            assert(before + items_roots(values_view(items@), 0) =~= before);
            while i < items.len()
                invariant
                    i <= items@.len(),
                    value@ == Json::List(values_view(items@)),
                    texts(roots@) == before + items_roots(values_view(items@), i as int),
                decreases items.len() - i,
            {
                proof {
                    list_shrinks(value@, i as int);
                }
                collect_roots(&items[i], roots);
                i += 1;
                assert(texts(roots@) =~= before + items_roots(values_view(items@), i as int));
            }
        },
        Data::Object(fields) => {
            let mut i: usize = 0;
            assert(before + fields_roots(fields@, 0) =~= before);
            while i < fields.len()
                invariant
                    i <= fields@.len(),
                    value@ == Json::Object(fields@),
                    texts(roots@) == before + fields_roots(fields@, i as int),
                decreases fields@.len() - i,
            {
                proof {
                    object_shrinks(value@, i as int);
                }
                collect_roots(fields.value_at(i), roots);
                i += 1;
                assert(texts(roots@) =~= before + fields_roots(fields@, i as int));
            }
        },
        _ => {
            assert(before + Seq::<Seq<char>>::empty() =~= before);
        },
    }
}

/// Every template root referenced anywhere in a value tree. Parse errors are
/// ignored here: [`check_templates`] already reports them.
pub fn template_roots(value: &Data) -> (r: Vec<String>)
    ensures
        texts(r@) == value_roots(value@),
{
    let mut roots: Vec<String> = Vec::new();
    collect_roots(value, &mut roots);
    assert(texts(Seq::<String>::empty()) + value_roots(value@) =~= value_roots(value@));
    roots
}

// ── Values without templates ─────────────────────────────────────────────

/// Whether a value contains a template tag anywhere.
pub open spec fn templated(v: Json) -> bool
    decreases v,
{
    match v {
        Json::Text(s) => occurs(s, "{{"@),
        Json::List(items) => exists|i: int| 0 <= i < items.len() && templated(#[trigger] items[i]),
        Json::Object(entries) => exists|i: int|
            0 <= i < entries.len() && templated((#[trigger] entries[i]).1),
        _ => false,
    }
}

/// Whether a value contains a template tag anywhere. A value with templates
/// cannot be checked against a schema statically: a tag renders to a string
/// here and an integer there.
pub fn has_templates(value: &Data) -> (r: bool)
    ensures
        r == templated(value@),
    decreases value@,
{
    match value {
        Data::Text(s) => contains_text(s.as_str(), "{{"),
        Data::List(items) => {
            let mut i: usize = 0;
            while i < items.len()
                invariant
                    i <= items@.len(),
                    value@ == Json::List(values_view(items@)),
                    forall|k: int| 0 <= k < i ==> !templated(#[trigger] values_view(items@)[k]),
                decreases items.len() - i,
            {
                proof {
                    list_shrinks(value@, i as int);
                }
                if has_templates(&items[i]) {
                    assert(templated(values_view(items@)[i as int]));
                    return true;
                }
                i += 1;
            }
            false
        },
        Data::Object(fields) => {
            let mut i: usize = 0;
            while i < fields.len()
                invariant
                    i <= fields@.len(),
                    value@ == Json::Object(fields@),
                    forall|k: int| 0 <= k < i ==> !templated((#[trigger] fields@[k]).1),
                decreases fields@.len() - i,
            {
                proof {
                    object_shrinks(value@, i as int);
                }
                if has_templates(fields.value_at(i)) {
                    assert(templated(fields@[i as int].1));
                    return true;
                }
                i += 1;
            }
            false
        },
        _ => false,
    }
}

// ── What checking rules out ──────────────────────────────────────────────

/// Whether a name stands bare inside a section of some template in a value.
pub open spec fn bare_within(v: Json, name: Seq<char>) -> bool
    decreases v,
{
    match v {
        Json::Text(s) => match parsed(s) {
            Ok(nodes) => bare_in_section(nodes, false, name),
            Err(_) => false,
        },
        Json::List(items) => exists|i: int|
            0 <= i < items.len() && bare_within(#[trigger] items[i], name),
        Json::Object(entries) => exists|i: int|
            0 <= i < entries.len() && bare_within((#[trigger] entries[i]).1, name),
        _ => false,
    }
}

/// A value whose templates were checked misses no numbered step once every step
/// that was available to the check has a result. Only a bare name inside a
/// section, which reads the item first, can still be missing.
pub proof fn checked_templates_miss_no_numbered_step(
    v: Json,
    available: Seq<Seq<char>>,
    step_id: Seq<char>,
    roots: Entries,
)
    requires
        template_problems(v, available, step_id).len() == 0,
        forall|name: Seq<char>| #[trigger]
            available.contains(name) ==> lookup(roots, name) is Some,
    ensures
        rendered_input(roots, v) matches Err(RenderErrorView::MissingStep { step, .. }) ==> {
            number_in_id(step) is None || bare_within(v, step)
        },
    decreases v,
{
    match v {
        Json::Text(s) => {
            if !occurs(s, "{{"@) {
                plain_text_stays_as_it_is(s, roots, Seq::empty(), Seq::empty());
            } else {
                let names = roots_of(s)->Ok_0;
                a_missing_step_was_referred_to_in_an_input(roots, s);
                if let Err(RenderErrorView::MissingStep { step, .. }) = spliced(roots, s) {
                    if number_in_id(step) is Some {
                        lemma_no_brace_in_a_number(step);
                        if names.contains(step) {
                            let k = choose|k: int| 0 <= k < names.len() && names[k] == step;
                            lemma_no_root_problem(names, available, step_id, k, names.len() as int);
                        }
                    }
                }
            }
        },
        Json::List(items) => {
            let results = rendered_items(roots, items);
            if collected(results) is Err {
                let k = lemma_collected_fails(results);
                list_shrinks(v, k);
                lemma_no_item_problem(items, available, step_id, k, items.len() as int);
                checked_templates_miss_no_numbered_step(items[k], available, step_id, roots);
            }
        },
        Json::Object(entries) => {
            let results = rendered_entries(roots, entries);
            if collected(results) is Err {
                let k = lemma_collected_fails(results);
                object_shrinks(v, k);
                lemma_no_field_problem(entries, available, step_id, k, entries.len() as int);
                checked_templates_miss_no_numbered_step(entries[k].1, available, step_id, roots);
            }
        },
        _ => {},
    }
}

proof fn lemma_no_brace_in_a_number(id: Seq<char>)
    requires
        number_in_id(id) is Some,
    ensures
        !id.contains('}'),
{
    if id.contains('}') {
        let i = choose|i: int| 0 <= i < id.len() && id[i] == '}';
        let tail = id.skip(1);
        assert(tail[i - 1] == '}');
        if tail[0] == '+' {
            assert(tail.skip(1)[i - 2] == '}');
        }
    }
}

proof fn lemma_no_root_problem(
    roots: Seq<Seq<char>>,
    available: Seq<Seq<char>>,
    step: Seq<char>,
    k: int,
    n: int,
)
    requires
        0 <= k < n <= roots.len(),
        roots_problems(roots, available, step, n).len() == 0,
    ensures
        root_problem(roots[k], available, step).len() == 0,
    decreases n,
{
    if k < n - 1 {
        lemma_no_root_problem(roots, available, step, k, n - 1);
    }
}

proof fn lemma_no_item_problem(
    items: Seq<Json>,
    available: Seq<Seq<char>>,
    step: Seq<char>,
    k: int,
    n: int,
)
    requires
        0 <= k < n <= items.len(),
        items_problems(items, available, step, n).len() == 0,
    ensures
        template_problems(items[k], available, step).len() == 0,
    decreases n,
{
    if k < n - 1 {
        lemma_no_item_problem(items, available, step, k, n - 1);
    }
}

proof fn lemma_no_field_problem(
    entries: Entries,
    available: Seq<Seq<char>>,
    step: Seq<char>,
    k: int,
    n: int,
)
    requires
        0 <= k < n <= entries.len(),
        fields_problems(entries, available, step, n).len() == 0,
    ensures
        template_problems(entries[k].1, available, step).len() == 0,
    decreases n,
{
    if k < n - 1 {
        lemma_no_field_problem(entries, available, step, k, n - 1);
    }
}

} // verus!
