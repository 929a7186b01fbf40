//! What holds of the edit distance for all sequences: it is zero between a
//! sequence and itself and nowhere else, it is symmetric, the two lengths
//! bound it from both sides, and no detour is shorter than the direct way.

use vstd::prelude::*;
use crate::distance::edit_distance;
use crate::script::{
    lemma_no_script_is_shorter, lemma_scripts_chain, lemma_shortest_script_reaches,
    shortest_script,
};

verus! {

/// The longer of two lengths.
pub open spec fn longer(m: nat, n: nat) -> nat {
    if m >= n {
        m
    } else {
        n
    }
}

/// How far two lengths are apart.
pub open spec fn length_gap(m: nat, n: nat) -> nat {
    if m >= n {
        (m - n) as nat
    } else {
        (n - m) as nat
    }
}

/// No edit is needed to turn a sequence into itself.
pub proof fn lemma_distance_to_self_is_zero<T>(x: Seq<T>)
    ensures
        edit_distance(x, x) == 0,
    decreases x.len(),
{
    if x.len() > 0 {
        lemma_distance_to_self_is_zero(x.drop_last());
    }
}

/// Turning `a` into `b` takes as many edits as turning `b` into `a`.
pub proof fn lemma_distance_symmetric<T>(a: Seq<T>, b: Seq<T>)
    ensures
        edit_distance(a, b) == edit_distance(b, a),
    decreases a.len() + b.len(),
{
    if a.len() > 0 && b.len() > 0 {
        lemma_distance_symmetric(a.drop_last(), b);
        lemma_distance_symmetric(a, b.drop_last());
        lemma_distance_symmetric(a.drop_last(), b.drop_last());
    }
}

/// The distance never exceeds the longer of the two lengths.
pub proof fn lemma_distance_at_most_longer<T>(a: Seq<T>, b: Seq<T>)
    ensures
        0 <= edit_distance(a, b) <= longer(a.len(), b.len()),
    decreases a.len() + b.len(),
{
    if a.len() > 0 && b.len() > 0 {
        lemma_distance_at_most_longer(a.drop_last(), b.drop_last());
    }
}

/// The distance is never less than the difference of the two lengths.
pub proof fn lemma_distance_at_least_length_gap<T>(a: Seq<T>, b: Seq<T>)
    ensures
        edit_distance(a, b) >= length_gap(a.len(), b.len()),
    decreases a.len() + b.len(),
{
    if a.len() > 0 && b.len() > 0 {
        lemma_distance_at_least_length_gap(a.drop_last(), b);
        lemma_distance_at_least_length_gap(a, b.drop_last());
        lemma_distance_at_least_length_gap(a.drop_last(), b.drop_last());
    }
}

/// Only equal sequences are at distance zero.
pub proof fn lemma_distance_zero_means_equal<T>(a: Seq<T>, b: Seq<T>)
    requires
        edit_distance(a, b) == 0,
    ensures
        a == b,
{
    lemma_shortest_script_reaches(a, b);
}

/// Going from `a` to `c` directly takes no more edits than going by way of
/// `b`.
pub proof fn lemma_distance_triangle<T>(a: Seq<T>, b: Seq<T>, c: Seq<T>)
    ensures
        edit_distance(a, c) <= edit_distance(a, b) + edit_distance(b, c),
{
    lemma_shortest_script_reaches(a, b);
    lemma_shortest_script_reaches(b, c);
    lemma_scripts_chain(shortest_script(a, b), shortest_script(b, c), a, b, c);
    lemma_no_script_is_shorter(shortest_script(a, b) + shortest_script(b, c), a, c);
}

} // verus!
