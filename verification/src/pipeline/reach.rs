//! Plans that lead to plans: resolving a document deeply looks at every plan it
//! leads to, and at each of them once.

use crate::pipeline::catalog::{
    both, deep_findings, deep_plan_findings, distinct_refs, lemma_visiting, plan_findings, prefixed,
    unvisited, CatalogCheckView, ToolCatalogView,
};
use crate::pipeline::doc::{doc_at, PlanDocView};
use vstd::prelude::*;

verus! {

/// The identifiers that are seen by following the references in a queue, last
/// first, after those that were seen before.
pub open spec fn seen_from(
    queue: Seq<Seq<char>>,
    visited: Seq<Seq<char>>,
    docs: Seq<PlanDocView>,
) -> Seq<Seq<char>>
    decreases unvisited(docs, visited), queue.len(),
{
    if queue.len() == 0 {
        visited
    } else {
        let identifier = queue.last();
        let rest = queue.drop_last();
        if visited.contains(identifier) {
            seen_from(rest, visited, docs)
        } else {
            proof {
                lemma_visiting(docs, visited, identifier);
            }
            match doc_at(docs, identifier, 0) {
                None => seen_from(rest, visited.push(identifier), docs),
                Some(i) => seen_from(
                    rest + distinct_refs(docs[i].steps),
                    visited.push(identifier),
                    docs,
                ),
            }
        }
    }
}

/// The identifiers that are seen from a document, its own first.
pub open spec fn seen_from_doc(doc: PlanDocView, docs: Seq<PlanDocView>) -> Seq<Seq<char>> {
    seen_from(distinct_refs(doc.steps), seq![doc.identifier], docs)
}

/// What a plan's own findings are, under its name; nothing where no document
/// has the identifier.
pub open spec fn own_findings(
    identifier: Seq<char>,
    docs: Seq<PlanDocView>,
    catalog: ToolCatalogView,
) -> CatalogCheckView {
    match doc_at(docs, identifier, 0) {
        None => CatalogCheckView { errors: Seq::empty(), notes: Seq::empty() },
        Some(i) => {
            let sub = plan_findings(docs[i].steps, docs[i].requires_servers, catalog);
            CatalogCheckView {
                errors: prefixed(identifier, sub.errors),
                notes: prefixed(identifier, sub.notes),
            }
        },
    }
}

/// The findings of plans, from the one at `i` on.
pub open spec fn findings_of(
    identifiers: Seq<Seq<char>>,
    i: int,
    docs: Seq<PlanDocView>,
    catalog: ToolCatalogView,
) -> CatalogCheckView
    decreases identifiers.len() - i,
{
    if i < 0 || i >= identifiers.len() {
        CatalogCheckView { errors: Seq::empty(), notes: Seq::empty() }
    } else {
        both(
            own_findings(identifiers[i], docs, catalog),
            findings_of(identifiers, i + 1, docs, catalog),
        )
    }
}

/// Whether each identifier is referred to by the plan before it, and the first by
/// the document; none is the document's own.
pub open spec fn is_chain(
    doc: PlanDocView,
    docs: Seq<PlanDocView>,
    chain: Seq<Seq<char>>,
) -> bool {
    &&& chain.len() > 0
    &&& distinct_refs(doc.steps).contains(chain[0])
    &&& forall|i: int| 0 <= i < chain.len() ==> #[trigger] chain[i] != doc.identifier
    &&& forall|i: int|
        0 <= i < chain.len() - 1 ==> refers(docs, #[trigger] chain[i], chain[i + 1])
}

/// Whether the plan of an identifier refers to another.
pub open spec fn refers(docs: Seq<PlanDocView>, from: Seq<char>, to: Seq<char>) -> bool {
    match doc_at(docs, from, 0) {
        Some(i) => distinct_refs(docs[i].steps).contains(to),
        None => false,
    }
}

/// Whether a document leads to an identifier over references.
pub open spec fn leads_to(
    doc: PlanDocView,
    docs: Seq<PlanDocView>,
    identifier: Seq<char>,
) -> bool {
    exists|chain: Seq<Seq<char>>|
        #[trigger] is_chain(doc, docs, chain) && chain.last() == identifier
}

proof fn lemma_push_contains<A>(s: Seq<A>, a: A, x: A)
    ensures
        s.push(a).contains(x) <==> s.contains(x) || x == a,
{
    if s.contains(x) {
        let k = choose|k: int| 0 <= k < s.len() && s[k] == x;
        assert(s.push(a)[k] == x);
    }
    if x == a {
        assert(s.push(a)[s.len() as int] == x);
    }
}

/// What was seen stays at the front, and nothing is seen twice.
proof fn lemma_seen_once(
    queue: Seq<Seq<char>>,
    visited: Seq<Seq<char>>,
    docs: Seq<PlanDocView>,
)
    requires
        visited.no_duplicates(),
    ensures
        seen_from(queue, visited, docs).no_duplicates(),
        visited.len() <= seen_from(queue, visited, docs).len(),
        seen_from(queue, visited, docs).take(visited.len() as int) == visited,
    decreases unvisited(docs, visited), queue.len(),
{
    let all = seen_from(queue, visited, docs);
    if queue.len() == 0 {
        assert(all.take(visited.len() as int) =~= visited);
    } else {
        let identifier = queue.last();
        let rest = queue.drop_last();
        if visited.contains(identifier) {
            lemma_seen_once(rest, visited, docs);
        } else {
            let seen = visited.push(identifier);
            lemma_visiting(docs, visited, identifier);
            assert(seen.no_duplicates());
            match doc_at(docs, identifier, 0) {
                None => lemma_seen_once(rest, seen, docs),
                Some(i) => lemma_seen_once(rest + distinct_refs(docs[i].steps), seen, docs),
            }
            assert(all.take(visited.len() as int) =~= visited) by {
                assert forall|k: int| 0 <= k < visited.len() implies all[k] == visited[k] by {
                    assert(all.take(seen.len() as int)[k] == seen[k]);
                }
            }
        }
    }
}

/// What is in the queue is seen, and so is all that the plans refer to which
/// are seen newly.
proof fn lemma_seen_all(
    queue: Seq<Seq<char>>,
    visited: Seq<Seq<char>>,
    docs: Seq<PlanDocView>,
)
    requires
        visited.no_duplicates(),
    ensures
        forall|x: Seq<char>| #[trigger]
            queue.contains(x) ==> seen_from(queue, visited, docs).contains(x),
        forall|k: int, x: Seq<char>|
            visited.len() <= k < seen_from(queue, visited, docs).len() && #[trigger] refers(
                docs,
                #[trigger] seen_from(queue, visited, docs)[k],
                x,
            ) ==> seen_from(queue, visited, docs).contains(x),
    decreases unvisited(docs, visited), queue.len(),
{
    let all = seen_from(queue, visited, docs);
    if queue.len() > 0 {
        let identifier = queue.last();
        let rest = queue.drop_last();
        lemma_seen_once(queue, visited, docs);
        if visited.contains(identifier) {
            lemma_seen_all(rest, visited, docs);
            assert(all == seen_from(rest, visited, docs));
            assert(all.contains(identifier)) by {
                let k = choose|k: int| 0 <= k < visited.len() && visited[k] == identifier;
                assert(all.take(visited.len() as int)[k] == all[k]);
            }
            assert forall|x: Seq<char>| #[trigger] queue.contains(x) implies all.contains(x) by {
                if x != identifier {
                    lemma_push_contains(rest, identifier, x);
                    assert(rest.push(identifier) =~= queue);
                }
            }
        } else {
            let seen = visited.push(identifier);
            lemma_visiting(docs, visited, identifier);
            let more = match doc_at(docs, identifier, 0) {
                None => Seq::<Seq<char>>::empty(),
                Some(i) => distinct_refs(docs[i].steps),
            };
            let next = match doc_at(docs, identifier, 0) {
                None => rest,
                Some(i) => rest + more,
            };
            assert(seen.no_duplicates());
            lemma_seen_once(next, seen, docs);
            lemma_seen_all(next, seen, docs);
            assert(all == seen_from(next, seen, docs));
            assert(all.contains(identifier)) by {
                assert(all.take(seen.len() as int)[visited.len() as int] == identifier);
                assert(all[visited.len() as int] == identifier);
            }
            assert forall|x: Seq<char>| #[trigger] queue.contains(x) implies all.contains(x) by {
                if x != identifier {
                    lemma_push_contains(rest, identifier, x);
                    assert(rest.push(identifier) =~= queue);
                    let k = choose|k: int| 0 <= k < rest.len() && rest[k] == x;
                    assert(next[k] == x);
                    assert(next.contains(x));
                }
            }
            assert forall|k: int, x: Seq<char>|
                visited.len() <= k < all.len() && #[trigger] refers(
                    docs,
                    #[trigger] all[k],
                    x,
                ) implies all.contains(x) by {
                if k == visited.len() {
                    assert(all.take(seen.len() as int)[k] == identifier);
                    assert(more.contains(x));
                    let m = choose|m: int| 0 <= m < more.len() && more[m] == x;
                    assert(next[rest.len() + m] == x);
                    assert(next.contains(x));
                }
            }
        }
    }
}

/// What is seen newly is what the document leads to.
proof fn lemma_seen_is_led_to(
    doc: PlanDocView,
    docs: Seq<PlanDocView>,
    queue: Seq<Seq<char>>,
    visited: Seq<Seq<char>>,
)
    requires
        visited.no_duplicates(),
        visited.contains(doc.identifier),
        forall|x: Seq<char>| #[trigger]
            queue.contains(x) && x != doc.identifier ==> leads_to(doc, docs, x),
    ensures
        forall|k: int|
            visited.len() <= k < seen_from(queue, visited, docs).len() ==> leads_to(
                doc,
                docs,
                #[trigger] seen_from(queue, visited, docs)[k],
            ),
    decreases unvisited(docs, visited), queue.len(),
{
    let all = seen_from(queue, visited, docs);
    if queue.len() > 0 {
        let identifier = queue.last();
        let rest = queue.drop_last();
        assert(queue.contains(identifier));
        assert forall|x: Seq<char>| #[trigger] rest.contains(x) implies queue.contains(x) by {
            let k = choose|k: int| 0 <= k < rest.len() && rest[k] == x;
            assert(queue[k] == x);
        }
        if visited.contains(identifier) {
            lemma_seen_is_led_to(doc, docs, rest, visited);
            assert(all == seen_from(rest, visited, docs));
        } else {
            let seen = visited.push(identifier);
            lemma_visiting(docs, visited, identifier);
            assert(seen.no_duplicates());
            lemma_push_contains(visited, identifier, doc.identifier);
            assert(leads_to(doc, docs, identifier));
            let next = match doc_at(docs, identifier, 0) {
                None => rest,
                Some(i) => rest + distinct_refs(docs[i].steps),
            };
            assert forall|x: Seq<char>| #[trigger]
                next.contains(x) && x != doc.identifier implies leads_to(doc, docs, x) by {
                if !rest.contains(x) {
                    let m = choose|m: int| 0 <= m < next.len() && next[m] == x;
                    assert(m >= rest.len()) by {
                        if m < rest.len() {
                            assert(rest[m] == x);
                        }
                    }
                    assert(refers(docs, identifier, x)) by {
                        let i = doc_at(docs, identifier, 0)->0;
                        assert(distinct_refs(docs[i].steps)[m - rest.len()] == x);
                    }
                    lemma_longer_chain(doc, docs, identifier, x);
                }
            }
            lemma_seen_once(next, seen, docs);
            lemma_seen_is_led_to(doc, docs, next, seen);
            assert(all == seen_from(next, seen, docs));
            assert(all.take(seen.len() as int)[visited.len() as int] == identifier);
            assert forall|k: int| visited.len() <= k < all.len() implies leads_to(
                doc,
                docs,
                #[trigger] all[k],
            ) by {
                if k == visited.len() {
                    assert(all[k] == identifier);
                } else {
                    assert(seen.len() <= k);
                }
            }
        }
    }
}

proof fn lemma_longer_chain(
    doc: PlanDocView,
    docs: Seq<PlanDocView>,
    from: Seq<char>,
    to: Seq<char>,
)
    requires
        leads_to(doc, docs, from),
        refers(docs, from, to),
        to != doc.identifier,
    ensures
        leads_to(doc, docs, to),
{
    let chain = choose|chain: Seq<Seq<char>>| #[trigger]
        is_chain(doc, docs, chain) && chain.last() == from;
    let longer = chain.push(to);
    assert(longer[0] == chain[0]);
    assert forall|i: int| 0 <= i < longer.len() implies #[trigger] longer[i]
        != doc.identifier by {
        if i < chain.len() {
            assert(longer[i] == chain[i]);
        }
    }
    assert forall|i: int| 0 <= i < longer.len() - 1 implies refers(
        docs,
        #[trigger] longer[i],
        longer[i + 1],
    ) by {
        assert(longer[i] == chain[i]);
        if i < chain.len() - 1 {
            assert(longer[i + 1] == chain[i + 1]);
        }
    }
    assert(is_chain(doc, docs, longer) && longer.last() == to);
}

/// Every link of a chain is seen.
proof fn lemma_chain_is_seen(
    doc: PlanDocView,
    docs: Seq<PlanDocView>,
    chain: Seq<Seq<char>>,
    n: int,
)
    requires
        is_chain(doc, docs, chain),
        0 <= n < chain.len(),
    ensures
        seen_from_doc(doc, docs).skip(1).contains(chain[n]),
    decreases n,
{
    let queue = distinct_refs(doc.steps);
    let visited = seq![doc.identifier];
    let all = seen_from_doc(doc, docs);
    lemma_seen_once(queue, visited, docs);
    lemma_seen_all(queue, visited, docs);
    if n > 0 {
        lemma_chain_is_seen(doc, docs, chain, n - 1);
        let k = choose|k: int| 0 <= k < all.skip(1).len() && all.skip(1)[k] == chain[n - 1];
        assert(all[k + 1] == chain[n - 1]);
        assert(refers(docs, chain[n - 1], chain[n - 1 + 1]));
        assert(refers(docs, all[k + 1], chain[n]));
    }
    assert(all.contains(chain[n]));
    let k = choose|k: int| 0 <= k < all.len() && all[k] == chain[n];
    assert(all.take(1)[0] == all[0]);
    assert(all[0] == doc.identifier);
    assert(k > 0);
    assert(all.skip(1)[k - 1] == chain[n]);
}

/// What following a queue finds is what the plans have that are seen newly.
proof fn lemma_findings(
    queue: Seq<Seq<char>>,
    visited: Seq<Seq<char>>,
    docs: Seq<PlanDocView>,
    catalog: ToolCatalogView,
    found: CatalogCheckView,
)
    requires
        visited.no_duplicates(),
    ensures
        deep_findings(queue, visited, docs, catalog, found) == both(
            found,
            findings_of(
                seen_from(queue, visited, docs),
                visited.len() as int,
                docs,
                catalog,
            ),
        ),
    decreases unvisited(docs, visited), queue.len(),
{
    let all = seen_from(queue, visited, docs);
    let rest_found = findings_of(all, visited.len() as int, docs, catalog);
    if queue.len() == 0 {
        assert(both(found, rest_found).errors =~= found.errors);
        assert(both(found, rest_found).notes =~= found.notes);
    } else {
        let identifier = queue.last();
        let rest = queue.drop_last();
        if visited.contains(identifier) {
            lemma_findings(rest, visited, docs, catalog, found);
        } else {
            let seen = visited.push(identifier);
            lemma_visiting(docs, visited, identifier);
            assert(seen.no_duplicates());
            let own = own_findings(identifier, docs, catalog);
            let later = findings_of(all, seen.len() as int, docs, catalog);
            let next = match doc_at(docs, identifier, 0) {
                None => rest,
                Some(i) => rest + distinct_refs(docs[i].steps),
            };
            lemma_seen_once(next, seen, docs);
            assert(all.take(seen.len() as int)[visited.len() as int] == identifier);
            assert(all[visited.len() as int] == identifier);
            assert(rest_found == both(own, later));
            lemma_findings(next, seen, docs, catalog, found);
            lemma_findings(next, seen, docs, catalog, both(found, own));
            assert(both(found, both(own, later)).errors =~= both(both(found, own), later).errors);
            assert(both(found, both(own, later)).notes =~= both(both(found, own), later).notes);
            if doc_at(docs, identifier, 0) is None {
                assert(both(found, own).errors =~= found.errors);
                assert(both(found, own).notes =~= found.notes);
            }
        }
    }
}

/// Deep resolution reports the document's own findings, and then those of every
/// plan it leads to, each exactly once: the identifiers seen after its own are
/// distinct, and they are those that it leads to. References may be cyclic.
pub proof fn every_plan_led_to_is_resolved_once(
    doc: PlanDocView,
    docs: Seq<PlanDocView>,
    catalog: ToolCatalogView,
)
    ensures
        seen_from_doc(doc, docs).len() > 0,
        seen_from_doc(doc, docs)[0] == doc.identifier,
        seen_from_doc(doc, docs).no_duplicates(),
        forall|x: Seq<char>| #[trigger]
            seen_from_doc(doc, docs).skip(1).contains(x) <==> leads_to(doc, docs, x),
        deep_plan_findings(doc, docs, catalog) == both(
            plan_findings(doc.steps, doc.requires_servers, catalog),
            findings_of(seen_from_doc(doc, docs), 1, docs, catalog),
        ),
{
    let queue = distinct_refs(doc.steps);
    let visited = seq![doc.identifier];
    let all = seen_from_doc(doc, docs);
    assert(visited[0] == doc.identifier);
    lemma_seen_once(queue, visited, docs);
    assert(all.take(1)[0] == all[0]);
    assert forall|x: Seq<char>| #[trigger]
        queue.contains(x) && x != doc.identifier implies leads_to(doc, docs, x) by {
        let chain = seq![x];
        assert(is_chain(doc, docs, chain) && chain.last() == x);
    }
    lemma_seen_is_led_to(doc, docs, queue, visited);
    assert forall|x: Seq<char>| #[trigger] all.skip(1).contains(x) <==> leads_to(
        doc,
        docs,
        x,
    ) by {
        if all.skip(1).contains(x) {
            let k = choose|k: int| 0 <= k < all.skip(1).len() && all.skip(1)[k] == x;
            assert(all[k + 1] == x);
        }
        if leads_to(doc, docs, x) {
            let chain = choose|chain: Seq<Seq<char>>| #[trigger]
                is_chain(doc, docs, chain) && chain.last() == x;
            lemma_chain_is_seen(doc, docs, chain, chain.len() - 1);
        }
    }
    lemma_findings(
        queue,
        visited,
        docs,
        catalog,
        plan_findings(doc.steps, doc.requires_servers, catalog),
    );
}

} // verus!
