//! The edit distance between two sequences, and its computation on text.

use vstd::prelude::*;
use crate::metric::{lemma_distance_at_most_longer, lemma_distance_symmetric};

verus! {

/// What it costs to line up `x` with `y`: nothing when they agree, one
/// substitution when they differ.
pub open spec fn substitution_cost<T>(x: T, y: T) -> nat {
    if x == y {
        0
    } else {
        1
    }
}

/// The least of three naturals.
pub open spec fn min3(x: nat, y: nat, z: nat) -> nat {
    if x <= y && x <= z {
        x
    } else if y <= z {
        y
    } else {
        z
    }
}

/// The Levenshtein distance between `a` and `b`: the least number of
/// single-element deletions, insertions and substitutions that turn `a`
/// into `b`.
///
/// Turning `a` into the empty sequence deletes every element; turning the
/// empty sequence into `b` inserts every element. Otherwise the last step
/// either deletes the last element of `a`, inserts the last element of `b`,
/// or lines the two last elements up.
///
/// That this number is reached by a sequence of edits, and that no sequence
/// of edits is shorter, is proved in [`crate::script`].
pub open spec fn edit_distance<T>(a: Seq<T>, b: Seq<T>) -> nat
    decreases a.len() + b.len(),
{
    if a.len() == 0 {
        b.len()
    } else if b.len() == 0 {
        a.len()
    } else {
        min3(
            edit_distance(a.drop_last(), b) + 1,
            edit_distance(a, b.drop_last()) + 1,
            edit_distance(a.drop_last(), b.drop_last()) + substitution_cost(a.last(), b.last()),
        )
    }
}

/// The distance between the first `i` elements of `a` and the first `k`
/// elements of `b`: the entry in row `i` and column `k` of the table that
/// the computation fills.
pub open spec fn prefix_distance<T>(a: Seq<T>, b: Seq<T>, i: int, k: int) -> nat {
    edit_distance(a.take(i), b.take(k))
}

/// How entry `(i + 1, k + 1)` of the table follows from its three neighbours.
proof fn lemma_table_step<T>(a: Seq<T>, b: Seq<T>, i: int, k: int)
    requires
        0 <= i < a.len(),
        0 <= k < b.len(),
    ensures
        prefix_distance(a, b, i + 1, k + 1) == min3(
            prefix_distance(a, b, i, k + 1) + 1,
            prefix_distance(a, b, i + 1, k) + 1,
            prefix_distance(a, b, i, k) + substitution_cost(a[i], b[k]),
        ),
{
    assert(a.take(i + 1).drop_last() =~= a.take(i));
    assert(b.take(k + 1).drop_last() =~= b.take(k));
}

/// The codepoints of `s`, in order, with constant-time access by position.
pub fn chars_of(s: &str) -> (v: Vec<char>)
    ensures
        v@ == s@,
{
    broadcast use vstd::string::group_string_axioms;

    let mut v: Vec<char> = Vec::new();
    for c in it: s.chars()
        invariant
            v@ == it.history(),
    {
        v.push(c);
    }
    v
}

/// The last entry of the table of prefix distances, with one row for each
/// element of `down` and one column for each element of `across`.
///
/// The table is filled row by row; only the row being filled and the one
/// before it are kept, each one entry longer than `across`.
fn last_table_entry(down: &[char], across: &[char]) -> (d: usize)
    ensures
        d == edit_distance(down@, across@),
{
    let rows = down.len();
    let columns = across.len();

    let mut prev: Vec<usize> = Vec::new();
    let mut cur: Vec<usize> = Vec::new();
    prev.push(0);
    cur.push(0);
    let mut j: usize = 0;
    while j < columns
        invariant
            j <= columns,
            columns == across@.len(),
            prev.len() == j + 1,
            cur.len() == j + 1,
            forall|k: int|
                0 <= k <= j ==> prev[k] == #[trigger] prefix_distance(down@, across@, 0, k),
        decreases columns - j,
    {
        j += 1;
        prev.push(j);
        cur.push(0);
    }

    let mut i: usize = 0;
    while i < rows
        invariant
            i <= rows,
            rows == down@.len(),
            columns == across@.len(),
            prev.len() == columns + 1,
            cur.len() == columns + 1,
            forall|k: int|
                0 <= k <= columns ==> prev[k] == #[trigger] prefix_distance(
                    down@,
                    across@,
                    i as int,
                    k,
                ),
        decreases rows - i,
    {
        cur[0] = i + 1;
        let mut j: usize = 0;
        while j < columns
            invariant
                i < rows,
                j <= columns,
                rows == down@.len(),
                columns == across@.len(),
                prev.len() == columns + 1,
                cur.len() == columns + 1,
                forall|k: int|
                    0 <= k <= columns ==> prev[k] == #[trigger] prefix_distance(
                        down@,
                        across@,
                        i as int,
                        k,
                    ),
                forall|k: int|
                    0 <= k <= j ==> cur[k] == #[trigger] prefix_distance(
                        down@,
                        across@,
                        i + 1,
                        k,
                    ),
            decreases columns - j,
        {
            let up = prev[j + 1];
            let left = cur[j];
            let diagonal = prev[j];
            proof {
                lemma_table_step(down@, across@, i as int, j as int);
                // neither neighbour is large enough for the sums below to overflow
                lemma_distance_at_most_longer(down@.take(i as int), across@.take(j + 1));
                lemma_distance_at_most_longer(down@.take(i as int), across@.take(j as int));
                assert(up == prefix_distance(down@, across@, i as int, j + 1));
                assert(left == prefix_distance(down@, across@, i + 1, j as int));
                assert(diagonal == prefix_distance(down@, across@, i as int, j as int));
            }
            let edited = if up <= left {
                up + 1
            } else {
                left + 1
            };
            let aligned = if down[i] == across[j] {
                diagonal
            } else {
                diagonal + 1
            };
            cur[j + 1] = if edited <= aligned {
                edited
            } else {
                aligned
            };
            j += 1;
        }
        std::mem::swap(&mut prev, &mut cur);
        i += 1;
    }
    proof {
        assert(down@.take(rows as int) =~= down@);
        assert(across@.take(columns as int) =~= across@);
        assert(prev[columns as int] == prefix_distance(
            down@,
            across@,
            rows as int,
            columns as int,
        ));
    }
    prev[columns]
}

/// The edit distance between two sequences of codepoints.
///
/// The distance is symmetric, so the shorter sequence is laid across the
/// table: the two rows kept are as long as the shorter input.
pub fn distance(a: &[char], b: &[char]) -> (d: usize)
    ensures
        d == edit_distance(a@, b@),
{
    if a.len() < b.len() {
        proof {
            lemma_distance_symmetric(a@, b@);
        }
        last_table_entry(b, a)
    } else {
        last_table_entry(a, b)
    }
}

/// The edit distance between two text values, counted in codepoints.
pub fn levenshtein_distance(str_a: &str, str_b: &str) -> (d: usize)
    ensures
        d == edit_distance(str_a@, str_b@),
{
    let a = chars_of(str_a);
    let b = chars_of(str_b);
    distance(a.as_slice(), b.as_slice())
}

} // verus!
