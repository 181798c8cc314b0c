//! Migrating a file that was migrated already.

use crate::format::{
    a_stamped_document_is_accepted, current_format, dropped_comments, header_end, header_is_whole,
    is_header_line, lemma_filter_keeps, lemma_found_within, lemma_retagged, lemma_retagged_twice,
    line_end, migrated_text, migration, opens_plainly, settled_migration, stamped, undeclared, Kind,
    MigratedView, UpgradeView, FORMAT_KEY,
};
use crate::template::laws::lemma_trimmed;
use crate::template::renaming::{lemma_find_prefix, lemma_nothing_at_all};
use crate::text::{find_from, is_space, trimmed};
use crate::value::{number_text, Num};
use crate::yaml::{
    printed_first, retagged, untagged, yaml_reading, yaml_text, YamlEntries, YamlView,
};
use vstd::prelude::*;

verus! {

/// The comment block that leads a text leads every text that begins with it and
/// goes on with a line of another kind.
proof fn lemma_same_header(raw: Seq<char>, out: Seq<char>, from: int, h: int)
    requires
        0 <= from <= h <= raw.len(),
        from < h ==> raw[h - 1] == '\n',
        header_end(raw, from) == h,
        h < out.len(),
        out.take(h) == raw.take(h),
        header_end(out, h) == h,
    ensures
        header_end(out, from) == h,
    decreases h - from,
{
    if from < h {
        let newline = seq!['\n'];
        let end = line_end(raw, from);
        lemma_found_within(raw, newline, from);
        assert(from < end <= raw.len() && is_header_line(raw.subrange(from, end)));
        assert(header_end(raw, end) == h);
        lemma_header_end(raw, end);
        if find_from(raw, newline, from) is None {
            assert(raw.subrange(h - 1, h) =~= newline);
            lemma_nothing_at_all(raw, newline, from, h - 1);
        }
        assert(find_from(raw, newline, from) == Some(end - 1));
        assert(out.take(end) =~= out.take(h).take(end));
        assert(raw.take(end) =~= raw.take(h).take(end));
        lemma_find_prefix(raw, out, newline, from, end - 1);
        assert(line_end(out, from) == end);
        assert(out.subrange(from, end) =~= out.take(h).subrange(from, end));
        assert(raw.subrange(from, end) =~= raw.take(h).subrange(from, end));
        lemma_same_header(raw, out, end, h);
    }
}

pub proof fn lemma_header_end(s: Seq<char>, from: int)
    requires
        0 <= from <= s.len(),
    ensures
        from <= header_end(s, from) <= s.len(),
    decreases s.len() - from,
{
    if from < s.len() {
        let end = line_end(s, from);
        if from < end <= s.len() && is_header_line(s.subrange(from, end)) {
            lemma_header_end(s, end);
        }
    }
}

/// The declaration of the current format.
spec fn declaration(kind: Kind) -> (YamlView, YamlView) {
    (YamlView::Text(FORMAT_KEY@), YamlView::Num(Num::Int(current_format(kind) as int)))
}

/// Entries that declare no format stay, and a declaration in front of them goes.
proof fn lemma_declaration_goes(kind: Kind, rest: Seq<(YamlView, YamlView)>)
    requires
        forall|i: int|
            0 <= i < rest.len() ==> yaml_text((#[trigger] rest[i]).0) != Some(FORMAT_KEY@),
    ensures
        rest.filter(|x: (YamlView, YamlView)| yaml_text(x.0) != Some(FORMAT_KEY@)) == rest,
        (seq![declaration(kind)] + rest).filter(
            |x: (YamlView, YamlView)| x.0 != YamlView::Text(FORMAT_KEY@),
        ) == rest,
{
    let keep = |x: (YamlView, YamlView)| yaml_text(x.0) != Some(FORMAT_KEY@);
    let other = |x: (YamlView, YamlView)| x.0 != YamlView::Text(FORMAT_KEY@);
    assert forall|i: int| 0 <= i < rest.len() implies keep(#[trigger] rest[i]) by {}
    assert forall|i: int| 0 <= i < rest.len() implies other(#[trigger] rest[i]) by {
        assert(keep(rest[i]));
    }
    lemma_filter_keeps(rest, keep);
    lemma_filter_keeps(rest, other);
    rest.lemma_filter_prepend(declaration(kind), other);
    assert(!other(declaration(kind)));
}

/// The entries of a stamped mapping.
spec fn stamped_entries(kind: Kind, e: YamlEntries) -> YamlEntries {
    seq![declaration(kind)] + e.filter(
        |x: (YamlView, YamlView)| yaml_text(x.0) != Some(FORMAT_KEY@),
    )
}

/// The entries of a mapping without its declaration.
spec fn undeclared_entries(e: YamlEntries) -> YamlEntries {
    e.filter(|x: (YamlView, YamlView)| x.0 != YamlView::Text(FORMAT_KEY@))
}

proof fn lemma_stamped_as(kind: Kind, doc: YamlView, e: YamlEntries)
    ensures
        stamped(kind, retagged(doc, YamlView::Mapping(e))) == retagged(
            doc,
            YamlView::Mapping(stamped_entries(kind, e)),
        ),
{
    lemma_retagged(doc, YamlView::Mapping(e));
    lemma_retagged_twice(
        doc,
        YamlView::Mapping(e),
        YamlView::Mapping(stamped_entries(kind, e)),
    );
}

proof fn lemma_undeclared_as(doc: YamlView, e: YamlEntries)
    ensures
        undeclared(retagged(doc, YamlView::Mapping(e))) == retagged(
            doc,
            YamlView::Mapping(undeclared_entries(e)),
        ),
{
    lemma_retagged(doc, YamlView::Mapping(e));
    lemma_retagged_twice(doc, YamlView::Mapping(e), YamlView::Mapping(undeclared_entries(e)));
}

/// A value with what it holds in its place is itself.
proof fn lemma_retagged_same(doc: YamlView)
    ensures
        retagged(doc, untagged(doc)) == doc,
    decreases doc,
{
    if let YamlView::Tagged(_, inner) = doc {
        lemma_retagged_same(*inner);
    }
}

proof fn lemma_restamped_entries(kind: Kind, e: YamlEntries)
    ensures
        stamped_entries(kind, undeclared_entries(stamped_entries(kind, e))) == stamped_entries(
            kind,
            e,
        ),
{
    let keep = |x: (YamlView, YamlView)| yaml_text(x.0) != Some(FORMAT_KEY@);
    let rest = e.filter(keep);
    assert forall|i: int| 0 <= i < rest.len() implies yaml_text((#[trigger] rest[i]).0)
        != Some(FORMAT_KEY@) by {
        e.lemma_filter_pred(keep, i);
    }
    lemma_declaration_goes(kind, rest);
}

/// Stamping again what was stamped, once its declaration was taken out, gives it
/// back.
proof fn lemma_restamped(kind: Kind, doc: YamlView)
    requires
        untagged(doc) is Mapping,
    ensures
        stamped(kind, undeclared(stamped(kind, doc))) == stamped(kind, doc),
{
    let e = untagged(doc)->Mapping_0;
    let once = stamped_entries(kind, e);
    let bare = undeclared_entries(once);
    lemma_retagged_same(doc);
    lemma_stamped_as(kind, doc, e);
    lemma_undeclared_as(doc, once);
    lemma_stamped_as(kind, doc, bare);
    lemma_restamped_entries(kind, e);
}

/// A text that begins neither with white space nor with a comment leads no comment
/// block.
proof fn lemma_no_header(out: Seq<char>, h: int)
    requires
        0 <= h < out.len(),
        !is_space(out[h]),
        out[h] != '#',
    ensures
        header_end(out, h) == h,
{
    lemma_found_within(out, seq!['\n'], h);
    let end = line_end(out, h);
    if h < end <= out.len() {
        let line = out.subrange(h, end);
        assert(line[0] == out[h]);
        let (l, r) = lemma_trimmed(line);
        assert(l == 0 && r > 0);
        assert(trimmed(line)[0] == line[0]);
    }
}

/// Writing the same document under the comment block of a text that was written so
/// gives the text again.
pub proof fn lemma_text_again(raw: Seq<char>, body: Seq<char>)
    requires
        header_is_whole(raw),
        opens_plainly(body),
    ensures
        migrated_text(migrated_text(raw, body), body) == migrated_text(raw, body),
{
    let h = header_end(raw, 0);
    let out = migrated_text(raw, body);
    lemma_header_end(raw, 0);
    assert(out[h] == body[0]);
    lemma_no_header(out, h);
    assert(out.take(h) =~= raw.take(h));
    lemma_same_header(raw, out, 0, h);
}

proof fn lemma_undeclared_mapping(doc: YamlView)
    requires
        untagged(doc) is Mapping,
    ensures
        untagged(undeclared(doc)) is Mapping,
{
    let e = untagged(doc)->Mapping_0;
    lemma_retagged_same(doc);
    lemma_undeclared_as(doc, e);
    lemma_retagged(doc, YamlView::Mapping(undeclared_entries(e)));
}

proof fn lemma_stamped_mapping(kind: Kind, doc: YamlView)
    requires
        untagged(doc) is Mapping,
    ensures
        untagged(stamped(kind, doc)) is Mapping,
{
    let e = untagged(doc)->Mapping_0;
    lemma_retagged_same(doc);
    lemma_stamped_as(kind, doc, e);
    lemma_retagged(doc, YamlView::Mapping(stamped_entries(kind, e)));
}

/// What a migration of a file in the current format finds.
pub open spec fn up_to_date(kind: Kind) -> UpgradeView {
    UpgradeView {
        declared: Some(current_format(kind)),
        from: current_format(kind),
        to: current_format(kind),
        notes: Seq::empty(),
    }
}

/// A document that a migration gave is in the current format, and another migration
/// gives it again.
pub proof fn a_migrated_document_migrates_to_itself(kind: Kind, path: Seq<char>, doc: YamlView)
    requires
        untagged(doc) is Mapping,
    ensures
        ({
            let new = stamped(kind, undeclared(doc));
            migration(kind, path, Ok(new)) == Ok::<(YamlView, UpgradeView), Seq<char>>(
                (new, up_to_date(kind)),
            )
        }),
{
    let plain = undeclared(doc);
    lemma_undeclared_mapping(doc);
    lemma_stamped_mapping(kind, plain);
    lemma_restamped(kind, plain);
    a_stamped_document_is_accepted(kind, plain);
}

/// A migrated document is printed with its declaration first: the line of the
/// version that files of the kind are written in, behind the document's tag where
/// it has one.
pub proof fn a_migrated_document_prints_its_version_first(kind: Kind, doc: YamlView)
    requires
        untagged(doc) is Mapping,
    ensures
        printed_first(stamped(kind, undeclared(doc))) == Some(
            if doc is Tagged {
                "!"@
            } else {
                "version: "@ + number_text(Num::Int(current_format(kind) as int)) + "\n"@
            },
        ),
{
    let e = untagged(doc)->Mapping_0;
    lemma_retagged_same(doc);
    lemma_undeclared_as(doc, e);
    lemma_stamped_as(kind, doc, undeclared_entries(e));
    let entries = stamped_entries(kind, undeclared_entries(e));
    assert(entries[0] == declaration(kind));
}

/// A file that was migrated is not changed by another migration: where its text,
/// the comment block of the old text and the printed document, is read as the
/// document that was printed, the document is found in the current format and
/// printed as it was, and the text stays as it is. What is printed begins neither
/// with white space nor with a comment, as `finish_migration` finds.
pub proof fn a_second_migration_changes_nothing(
    kind: Kind,
    path: Seq<char>,
    raw: Seq<char>,
    doc: YamlView,
    body: Seq<char>,
)
    requires
        untagged(doc) is Mapping,
        header_is_whole(raw),
        opens_plainly(body),
    ensures
        ({
            let new = stamped(kind, undeclared(doc));
            let out = migrated_text(raw, body);
            &&& yaml_reading(out) == Ok::<YamlView, Seq<char>>(new) ==> migration(
                kind,
                path,
                yaml_reading(out),
            ) == Ok::<(YamlView, UpgradeView), Seq<char>>((new, up_to_date(kind)))
            &&& settled_migration(path, out, up_to_date(kind), Ok(()), Ok(body)) == Ok::<
                (Seq<char>, MigratedView),
                Seq<char>,
            >(
                (
                    out,
                    MigratedView {
                        path,
                        from: current_format(kind),
                        to: current_format(kind),
                        changed: false,
                        notes: Seq::empty(),
                    },
                ),
            )
        }),
{
    let out = migrated_text(raw, body);
    a_migrated_document_migrates_to_itself(kind, path, doc);
    lemma_text_again(raw, body);
    assert(Seq::<Seq<char>>::empty() + dropped_comments(out, false) =~= Seq::<
        Seq<char>,
    >::empty());
}

} // verus!
