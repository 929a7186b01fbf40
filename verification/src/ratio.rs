//! The similarity ratio: an edit distance normalised by the longer of the
//! two lengths, held as an exact fraction.

use vstd::prelude::*;
use crate::distance::{chars_of, distance, edit_distance};
use crate::metric::{lemma_distance_at_most_longer, lemma_distance_to_self_is_zero, longer};

verus! {

/// An exact rational number, `numerator / denominator`.
pub struct Fraction {
    pub numerator: int,
    pub denominator: int,
}

impl Fraction {
    /// The fraction is a number: its denominator is positive.
    pub open spec fn defined(self) -> bool {
        self.denominator > 0
    }

    /// The fraction equals one.
    pub open spec fn is_one(self) -> bool {
        self.defined() && self.numerator == self.denominator
    }

    /// The fraction equals zero.
    pub open spec fn is_zero(self) -> bool {
        self.defined() && self.numerator == 0
    }

    /// The fraction lies between zero and one, both included.
    pub open spec fn in_unit_interval(self) -> bool {
        self.defined() && 0 <= self.numerator <= self.denominator
    }
}

/// A similarity score. Its value is `1 - shortfall / scale`: `shortfall`
/// counts the edits that separate two text values and `scale` is what the
/// count is measured against.
#[derive(Clone, Copy, Debug, PartialEq, Eq, Structural)]
pub struct Ratio {
    pub shortfall: usize,
    pub scale: usize,
}

impl View for Ratio {
    type V = Fraction;

    /// The value of the score, `(scale - shortfall) / scale`.
    open spec fn view(&self) -> Fraction {
        Fraction { numerator: self.scale - self.shortfall, denominator: self.scale as int }
    }
}

impl Ratio {
    /// The score is a number: there is no division by zero in it.
    pub open spec fn wf(self) -> bool {
        self.scale >= 1
    }
}

/// The ratio that belongs to a distance between sequences of lengths `len_a`
/// and `len_b`: `1 - distance / greatest` where `greatest` is the longer
/// length, and one where both lengths are zero.
pub open spec fn ratio_value(distance: nat, len_a: nat, len_b: nat) -> Fraction {
    let greatest = longer(len_a, len_b);
    if greatest == 0 {
        Fraction { numerator: 1, denominator: 1 }
    } else {
        Fraction { numerator: greatest - distance, denominator: greatest as int }
    }
}

/// The similarity ratio of two sequences.
pub open spec fn pair_ratio<T>(a: Seq<T>, b: Seq<T>) -> Fraction {
    ratio_value(edit_distance(a, b), a.len(), b.len())
}

/// Normalises a distance by the longer of two lengths.
pub fn map_ratio(distance: usize, len_a: usize, len_b: usize) -> (r: Ratio)
    ensures
        r.wf(),
        r@ == ratio_value(distance as nat, len_a as nat, len_b as nat),
{
    let greatest = if len_a >= len_b {
        len_a
    } else {
        len_b
    };
    if greatest == 0 {
        Ratio { shortfall: 0, scale: 1 }
    } else {
        Ratio { shortfall: distance, scale: greatest }
    }
}

/// The similarity ratio of two text values, counted in codepoints.
pub fn levenshtein_ratio(str_a: &str, str_b: &str) -> (r: Ratio)
    ensures
        r.wf(),
        r@ == pair_ratio(str_a@, str_b@),
        r@.in_unit_interval(),
{
    let a = chars_of(str_a);
    let b = chars_of(str_b);
    let levenshtein_dist = distance(a.as_slice(), b.as_slice());
    proof {
        lemma_ratio_in_unit_interval(str_a@, str_b@);
    }
    map_ratio(levenshtein_dist, a.len(), b.len())
}

/// The ratio of any two sequences lies between zero and one.
pub proof fn lemma_ratio_in_unit_interval<T>(a: Seq<T>, b: Seq<T>)
    ensures
        pair_ratio(a, b).in_unit_interval(),
{
    lemma_distance_at_most_longer(a, b);
}

/// A sequence is as similar to itself as can be: the ratio is one.
pub proof fn lemma_ratio_to_self_is_one<T>(x: Seq<T>)
    ensures
        pair_ratio(x, x).is_one(),
{
    lemma_distance_to_self_is_zero(x);
}

} // verus!
