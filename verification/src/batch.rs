//! The ratio applied position by position to two aligned sequences of
//! optional text.

use vstd::prelude::*;
use crate::ratio::{levenshtein_ratio, pair_ratio, Fraction, Ratio};

verus! {

/// The two sequences handed to a batch operation differ in length.
#[derive(Clone, Copy, Debug, PartialEq, Eq, Structural)]
pub struct AlignmentError {
    /// Length of the first sequence.
    pub left: usize,
    /// Length of the second sequence.
    pub right: usize,
}

/// The codepoints of an entry, where the entry is present.
pub open spec fn text_of(entry: Option<String>) -> Option<Seq<char>> {
    match entry {
        Some(s) => Some(s@),
        None => None,
    }
}

/// The value of a result, where the result is present.
pub open spec fn value_of(result: Option<Ratio>) -> Option<Fraction> {
    match result {
        Some(r) => Some(r@),
        None => None,
    }
}

/// What one position of a batch yields: nothing where either entry is
/// missing, the ratio of the two entries otherwise.
pub open spec fn paired_ratio(a: Option<Seq<char>>, b: Option<Seq<char>>) -> Option<Fraction> {
    match (a, b) {
        (Some(x), Some(y)) => Some(pair_ratio(x, y)),
        _ => None,
    }
}

/// Computes the ratio of each pair of entries of two aligned sequences.
///
/// A missing entry on either side gives a missing result at that position;
/// it is not read as empty text. Sequences of different lengths are refused
/// as a whole.
pub fn apply_pairs(seq_a: &[Option<String>], seq_b: &[Option<String>]) -> (out: Result<
    Vec<Option<Ratio>>,
    AlignmentError,
>)
    ensures
        out is Err <==> seq_a@.len() != seq_b@.len(),
        out matches Err(e) ==> e.left == seq_a@.len() && e.right == seq_b@.len(),
        out matches Ok(column) ==> {
            &&& column@.len() == seq_a@.len()
            &&& forall|k: int|
                0 <= k < column@.len() ==> #[trigger] value_of(column@[k]) == paired_ratio(
                    text_of(seq_a@[k]),
                    text_of(seq_b@[k]),
                )
            &&& forall|k: int|
                0 <= k < column@.len() ==> (#[trigger] column@[k] matches Some(r) ==> r.wf()
                    && r@.in_unit_interval())
        },
{
    let n = seq_a.len();
    if n != seq_b.len() {
        return Err(AlignmentError { left: n, right: seq_b.len() });
    }
    let mut column: Vec<Option<Ratio>> = Vec::new();
    let mut k: usize = 0;
    while k < n
        invariant
            k <= n,
            n == seq_a@.len(),
            n == seq_b@.len(),
            column@.len() == k,
            forall|p: int|
                0 <= p < k ==> #[trigger] value_of(column@[p]) == paired_ratio(
                    text_of(seq_a@[p]),
                    text_of(seq_b@[p]),
                ),
            forall|p: int|
                0 <= p < k ==> (#[trigger] column@[p] matches Some(r) ==> r.wf()
                    && r@.in_unit_interval()),
        decreases n - k,
    {
        let result = match (&seq_a[k], &seq_b[k]) {
            (Some(x), Some(y)) => Some(levenshtein_ratio(x.as_str(), y.as_str())),
            _ => None,
        };
        column.push(result);
        k += 1;
    }
    Ok(column)
}

} // verus!
