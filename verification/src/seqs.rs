//! Sequence operations shared by the specifications.

use vstd::prelude::*;

verus! {

/// Appending is associative.
pub broadcast proof fn append_append<A>(p: Seq<A>, x: Seq<A>, y: Seq<A>)
    ensures
        #[trigger] (p + (x + y)) == p + x + y,
{
    assert(p + (x + y) =~= p + x + y);
}

/// Appending nothing changes nothing.
pub broadcast proof fn append_nothing<A>(p: Seq<A>)
    ensures
        #[trigger] (p + Seq::<A>::empty()) == p,
{
    assert(p + Seq::<A>::empty() =~= p);
}

/// All the values, or the first error.
pub open spec fn collected<A, E>(s: Seq<Result<A, E>>) -> Result<Seq<A>, E>
    decreases s.len(),
{
    if s.len() == 0 {
        Ok(Seq::empty())
    } else {
        match collected(s.drop_last()) {
            Err(e) => Err(e),
            Ok(done) => match s.last() {
                Err(e) => Err(e),
                Ok(a) => Ok(done.push(a)),
            },
        }
    }
}

/// Collecting the first `i + 1` results continues from the first `i`.
pub proof fn lemma_collected_step<A, E>(s: Seq<Result<A, E>>, i: int)
    requires
        0 <= i < s.len(),
    ensures
        collected(s.take(i + 1)) == (match collected(s.take(i)) {
            Err(e) => Err(e),
            Ok(done) => match s[i] {
                Err(e) => Err(e),
                Ok(a) => Ok(done.push(a)),
            },
        }),
{
    assert(s.take(i + 1).drop_last() =~= s.take(i));
}

/// An error among the first `i` results is the error of them all.
pub proof fn lemma_collected_error<A, E>(s: Seq<Result<A, E>>, i: int)
    requires
        0 <= i <= s.len(),
        collected(s.take(i)) is Err,
    ensures
        collected(s) == collected(s.take(i)),
    decreases s.len() - i,
{
    if i < s.len() {
        lemma_collected_step(s, i);
        lemma_collected_error(s, i + 1);
    } else {
        assert(s.take(i) =~= s);
    }
}

/// `acc` followed by the items of `s` that are new to it.
pub open spec fn adding_new<A>(acc: Seq<A>, s: Seq<A>) -> Seq<A>
    decreases s.len(),
{
    if s.len() == 0 {
        acc
    } else {
        let before = adding_new(acc, s.drop_last());
        if before.contains(s.last()) {
            before
        } else {
            before.push(s.last())
        }
    }
}

/// The items of `s`, each at its first occurrence only.
pub open spec fn distinct<A>(s: Seq<A>) -> Seq<A> {
    adding_new(Seq::empty(), s)
}

/// Adding in two portions is adding the whole.
pub proof fn lemma_adding_new_concat<A>(acc: Seq<A>, a: Seq<A>, b: Seq<A>)
    ensures
        adding_new(acc, a + b) == adding_new(adding_new(acc, a), b),
    decreases b.len(),
{
    if b.len() == 0 {
        assert(a + b =~= a);
    } else {
        assert((a + b).drop_last() =~= a + b.drop_last());
        lemma_adding_new_concat(acc, a, b.drop_last());
    }
}

/// Adding what is new adds everything.
pub proof fn lemma_adding_new_contains<A>(acc: Seq<A>, s: Seq<A>, a: A)
    ensures
        adding_new(acc, s).contains(a) <==> acc.contains(a) || s.contains(a),
    decreases s.len(),
{
    if s.len() > 0 {
        let front = s.drop_last();
        let before = adding_new(acc, front);
        lemma_adding_new_contains(acc, front, a);
        assert(s.contains(a) <==> front.contains(a) || s.last() == a) by {
            if s.contains(a) {
                let i = choose|i: int| 0 <= i < s.len() && s[i] == a;
                if i < front.len() {
                    assert(front[i] == a);
                }
            }
            if front.contains(a) {
                let i = choose|i: int| 0 <= i < front.len() && front[i] == a;
                assert(s[i] == a);
            }
        }
        if !before.contains(s.last()) {
            let after = before.push(s.last());
            assert(after.contains(a) <==> before.contains(a) || s.last() == a) by {
                if before.contains(a) {
                    let i = choose|i: int| 0 <= i < before.len() && before[i] == a;
                    assert(after[i] == a);
                }
                if s.last() == a {
                    assert(after[before.len() as int] == a);
                }
            }
        }
    }
}

/// Where collecting fails, it fails with the error of one of the results.
pub proof fn lemma_collected_fails<A, E>(s: Seq<Result<A, E>>) -> (i: int)
    requires
        collected(s) is Err,
    ensures
        0 <= i < s.len(),
        s[i] is Err,
        s[i]->Err_0 == collected(s)->Err_0,
    decreases s.len(),
{
    if collected(s.drop_last()) is Err {
        lemma_collected_fails(s.drop_last())
    } else {
        s.len() - 1
    }
}

} // verus!
