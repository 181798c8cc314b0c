//! What small objects hold.

use crate::value::{a_set_key_reads_back, lookup, object, Entries, Json};
use vstd::prelude::*;

verus! {

proof fn lemma_next(pairs: Entries, key: Seq<char>)
    requires
        pairs.len() > 0,
    ensures
        lookup(object(pairs), key) == (if pairs.last().0 == key {
            Some(pairs.last().1)
        } else {
            lookup(object(pairs.drop_last()), key)
        }),
{
    a_set_key_reads_back(object(pairs.drop_last()), pairs.last().0, pairs.last().1, key);
}

/// An object of one pair holds it and nothing else.
pub proof fn lemma_holds_one(k1: Seq<char>, v1: Json, key: Seq<char>)
    ensures
        lookup(object(seq![(k1, v1)]), key) == (if key == k1 { Some(v1) } else { None }),
{
    let pairs = seq![(k1, v1)];
    lemma_next(pairs, key);
    assert(pairs.drop_last() =~= Entries::empty());
    assert(lookup(object(Entries::empty()), key) is None);
}

/// An object of two pairs holds them and nothing else.
pub proof fn lemma_holds_two(k1: Seq<char>, v1: Json, k2: Seq<char>, v2: Json, key: Seq<char>)
    requires
        k1 != k2,
    ensures
        lookup(object(seq![(k1, v1), (k2, v2)]), key) == (
            if key == k1 { Some(v1) } else if key == k2 { Some(v2) } else { None }
        ),
{
    let pairs = seq![(k1, v1), (k2, v2)];
    lemma_next(pairs, key);
    let front1 = seq![(k1, v1)];
    assert(pairs.drop_last() =~= front1);
    lemma_next(front1, key);
    assert(front1.drop_last() =~= Entries::empty());
    assert(lookup(object(Entries::empty()), key) is None);
}

/// An object of three pairs holds them and nothing else.
pub proof fn lemma_holds_three(
    k1: Seq<char>,
    v1: Json,
    k2: Seq<char>,
    v2: Json,
    k3: Seq<char>,
    v3: Json,
    key: Seq<char>,
)
    requires
        k1 != k2,
        k1 != k3,
        k2 != k3,
    ensures
        lookup(object(seq![(k1, v1), (k2, v2), (k3, v3)]), key) == (
            if key == k1 {
                Some(v1)
            } else if key == k2 {
                Some(v2)
            } else if key == k3 {
                Some(v3)
            } else {
                None
            }
        ),
{
    let pairs = seq![(k1, v1), (k2, v2), (k3, v3)];
    lemma_next(pairs, key);
    let front2 = seq![(k1, v1), (k2, v2)];
    assert(pairs.drop_last() =~= front2);
    lemma_next(front2, key);
    let front1 = seq![(k1, v1)];
    assert(front2.drop_last() =~= front1);
    lemma_next(front1, key);
    assert(front1.drop_last() =~= Entries::empty());
    assert(lookup(object(Entries::empty()), key) is None);
}

/// An object of four pairs holds them and nothing else.
pub proof fn lemma_holds_four(
    k1: Seq<char>,
    v1: Json,
    k2: Seq<char>,
    v2: Json,
    k3: Seq<char>,
    v3: Json,
    k4: Seq<char>,
    v4: Json,
    key: Seq<char>,
)
    requires
        k1 != k2,
        k1 != k3,
        k1 != k4,
        k2 != k3,
        k2 != k4,
        k3 != k4,
    ensures
        lookup(object(seq![(k1, v1), (k2, v2), (k3, v3), (k4, v4)]), key) == (
            if key == k1 {
                Some(v1)
            } else if key == k2 {
                Some(v2)
            } else if key == k3 {
                Some(v3)
            } else if key == k4 {
                Some(v4)
            } else {
                None
            }
        ),
{
    let pairs = seq![(k1, v1), (k2, v2), (k3, v3), (k4, v4)];
    lemma_next(pairs, key);
    let front3 = seq![(k1, v1), (k2, v2), (k3, v3)];
    assert(pairs.drop_last() =~= front3);
    lemma_next(front3, key);
    let front2 = seq![(k1, v1), (k2, v2)];
    assert(front3.drop_last() =~= front2);
    lemma_next(front2, key);
    let front1 = seq![(k1, v1)];
    assert(front2.drop_last() =~= front1);
    lemma_next(front1, key);
    assert(front1.drop_last() =~= Entries::empty());
    assert(lookup(object(Entries::empty()), key) is None);
}

/// An object of five pairs holds them and nothing else.
pub proof fn lemma_holds_five(
    k1: Seq<char>,
    v1: Json,
    k2: Seq<char>,
    v2: Json,
    k3: Seq<char>,
    v3: Json,
    k4: Seq<char>,
    v4: Json,
    k5: Seq<char>,
    v5: Json,
    key: Seq<char>,
)
    requires
        k1 != k2,
        k1 != k3,
        k1 != k4,
        k1 != k5,
        k2 != k3,
        k2 != k4,
        k2 != k5,
        k3 != k4,
        k3 != k5,
        k4 != k5,
    ensures
        lookup(object(seq![(k1, v1), (k2, v2), (k3, v3), (k4, v4), (k5, v5)]), key) == (
            if key == k1 {
                Some(v1)
            } else if key == k2 {
                Some(v2)
            } else if key == k3 {
                Some(v3)
            } else if key == k4 {
                Some(v4)
            } else if key == k5 {
                Some(v5)
            } else {
                None
            }
        ),
{
    let pairs = seq![(k1, v1), (k2, v2), (k3, v3), (k4, v4), (k5, v5)];
    lemma_next(pairs, key);
    let front4 = seq![(k1, v1), (k2, v2), (k3, v3), (k4, v4)];
    assert(pairs.drop_last() =~= front4);
    lemma_next(front4, key);
    let front3 = seq![(k1, v1), (k2, v2), (k3, v3)];
    assert(front4.drop_last() =~= front3);
    lemma_next(front3, key);
    let front2 = seq![(k1, v1), (k2, v2)];
    assert(front3.drop_last() =~= front2);
    lemma_next(front2, key);
    let front1 = seq![(k1, v1)];
    assert(front2.drop_last() =~= front1);
    lemma_next(front1, key);
    assert(front1.drop_last() =~= Entries::empty());
    assert(lookup(object(Entries::empty()), key) is None);
}

/// An object of six pairs holds them and nothing else.
pub proof fn lemma_holds_six(
    k1: Seq<char>,
    v1: Json,
    k2: Seq<char>,
    v2: Json,
    k3: Seq<char>,
    v3: Json,
    k4: Seq<char>,
    v4: Json,
    k5: Seq<char>,
    v5: Json,
    k6: Seq<char>,
    v6: Json,
    key: Seq<char>,
)
    requires
        k1 != k2,
        k1 != k3,
        k1 != k4,
        k1 != k5,
        k1 != k6,
        k2 != k3,
        k2 != k4,
        k2 != k5,
        k2 != k6,
        k3 != k4,
        k3 != k5,
        k3 != k6,
        k4 != k5,
        k4 != k6,
        k5 != k6,
    ensures
        lookup(object(seq![(k1, v1), (k2, v2), (k3, v3), (k4, v4), (k5, v5), (k6, v6)]), key) == (
            if key == k1 {
                Some(v1)
            } else if key == k2 {
                Some(v2)
            } else if key == k3 {
                Some(v3)
            } else if key == k4 {
                Some(v4)
            } else if key == k5 {
                Some(v5)
            } else if key == k6 {
                Some(v6)
            } else {
                None
            }
        ),
{
    let pairs = seq![(k1, v1), (k2, v2), (k3, v3), (k4, v4), (k5, v5), (k6, v6)];
    lemma_next(pairs, key);
    let front5 = seq![(k1, v1), (k2, v2), (k3, v3), (k4, v4), (k5, v5)];
    assert(pairs.drop_last() =~= front5);
    lemma_next(front5, key);
    let front4 = seq![(k1, v1), (k2, v2), (k3, v3), (k4, v4)];
    assert(front5.drop_last() =~= front4);
    lemma_next(front4, key);
    let front3 = seq![(k1, v1), (k2, v2), (k3, v3)];
    assert(front4.drop_last() =~= front3);
    lemma_next(front3, key);
    let front2 = seq![(k1, v1), (k2, v2)];
    assert(front3.drop_last() =~= front2);
    lemma_next(front2, key);
    let front1 = seq![(k1, v1)];
    assert(front2.drop_last() =~= front1);
    lemma_next(front1, key);
    assert(front1.drop_last() =~= Entries::empty());
    assert(lookup(object(Entries::empty()), key) is None);
}

} // verus!
