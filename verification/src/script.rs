//! Edit scripts: the distance as the length of a shortest sequence of
//! single-element edits that turns one sequence into another.

use vstd::prelude::*;
use crate::distance::edit_distance;
use crate::metric::lemma_distance_to_self_is_zero;

verus! {

/// One single-element edit of a sequence.
pub enum Edit<T> {
    /// Removes the element at position `at`.
    Delete { at: int },
    /// Puts `item` in front of position `at`, or at the end where `at` is
    /// the length.
    Insert { at: int, item: T },
    /// Puts `item` in the place of the element at position `at`.
    Substitute { at: int, item: T },
}

impl<T> Edit<T> {
    /// The edit names a position that `s` has.
    pub open spec fn fits(self, s: Seq<T>) -> bool {
        match self {
            Edit::Delete { at } => 0 <= at < s.len(),
            Edit::Insert { at, item } => 0 <= at <= s.len(),
            Edit::Substitute { at, item } => 0 <= at < s.len(),
        }
    }

    /// The sequence that the edit makes of `s`.
    pub open spec fn apply(self, s: Seq<T>) -> Seq<T> {
        match self {
            Edit::Delete { at } => s.remove(at),
            Edit::Insert { at, item } => s.insert(at, item),
            Edit::Substitute { at, item } => s.update(at, item),
        }
    }
}

/// Carrying out the edits of `script` one after the other, starting from `a`,
/// is possible at every step and ends in `b`.
pub open spec fn transforms<T>(script: Seq<Edit<T>>, a: Seq<T>, b: Seq<T>) -> bool
    decreases script.len(),
{
    if script.len() == 0 {
        a == b
    } else {
        script[0].fits(a) && transforms(script.drop_first(), script[0].apply(a), b)
    }
}

/// Removing one element brings a sequence at most one edit further from `b`.
proof fn lemma_removal_adds_at_most_one<T>(s: Seq<T>, p: int, b: Seq<T>)
    requires
        0 <= p < s.len(),
    ensures
        edit_distance(s.remove(p), b) <= edit_distance(s, b) + 1,
    decreases s.len() + b.len(),
{
    let front = s.drop_last();
    if b.len() == 0 {
    } else if p == s.len() - 1 {
        assert(s.remove(p) =~= front);
        lemma_removal_adds_at_most_one(s, p, b.drop_last());
    } else {
        assert(s.remove(p).drop_last() =~= front.remove(p));
        assert(s.remove(p).last() == s.last());
        lemma_removal_adds_at_most_one(front, p, b);
        lemma_removal_adds_at_most_one(s, p, b.drop_last());
        lemma_removal_adds_at_most_one(front, p, b.drop_last());
    }
}

/// Removing one element brings a sequence at most one edit nearer to `b`.
proof fn lemma_removal_saves_at_most_one<T>(s: Seq<T>, p: int, b: Seq<T>)
    requires
        0 <= p < s.len(),
    ensures
        edit_distance(s, b) <= edit_distance(s.remove(p), b) + 1,
    decreases s.len() + b.len(),
{
    let front = s.drop_last();
    if b.len() == 0 {
    } else if p == s.len() - 1 {
        assert(s.remove(p) =~= front);
    } else {
        assert(s.remove(p).drop_last() =~= front.remove(p));
        assert(s.remove(p).last() == s.last());
        lemma_removal_saves_at_most_one(front, p, b);
        lemma_removal_saves_at_most_one(s, p, b.drop_last());
        lemma_removal_saves_at_most_one(front, p, b.drop_last());
    }
}

/// Replacing one element brings a sequence at most one edit further from `b`.
proof fn lemma_replacement_adds_at_most_one<T>(s: Seq<T>, p: int, x: T, b: Seq<T>)
    requires
        0 <= p < s.len(),
    ensures
        edit_distance(s.update(p, x), b) <= edit_distance(s, b) + 1,
    decreases s.len() + b.len(),
{
    let front = s.drop_last();
    if b.len() == 0 {
    } else if p == s.len() - 1 {
        assert(s.update(p, x).drop_last() =~= front);
        lemma_replacement_adds_at_most_one(s, p, x, b.drop_last());
    } else {
        assert(s.update(p, x).drop_last() =~= front.update(p, x));
        lemma_replacement_adds_at_most_one(front, p, x, b);
        lemma_replacement_adds_at_most_one(s, p, x, b.drop_last());
        lemma_replacement_adds_at_most_one(front, p, x, b.drop_last());
    }
}

/// One edit changes the distance to any sequence by at most one: undoing it
/// costs no more than one edit.
pub proof fn lemma_one_edit_saves_at_most_one<T>(e: Edit<T>, a: Seq<T>, b: Seq<T>)
    requires
        e.fits(a),
    ensures
        edit_distance(a, b) <= edit_distance(e.apply(a), b) + 1,
{
    match e {
        Edit::Delete { at } => {
            lemma_removal_saves_at_most_one(a, at, b);
        },
        Edit::Insert { at, item } => {
            let longer = a.insert(at, item);
            assert(longer.remove(at) =~= a);
            lemma_removal_adds_at_most_one(longer, at, b);
        },
        Edit::Substitute { at, item } => {
            let changed = a.update(at, item);
            assert(changed.update(at, a[at]) =~= a);
            lemma_replacement_adds_at_most_one(changed, at, a[at], b);
        },
    }
}

/// No script that turns `a` into `b` is shorter than the distance.
pub proof fn lemma_no_script_is_shorter<T>(script: Seq<Edit<T>>, a: Seq<T>, b: Seq<T>)
    requires
        transforms(script, a, b),
    ensures
        edit_distance(a, b) <= script.len(),
    decreases script.len(),
{
    if script.len() == 0 {
        lemma_distance_to_self_is_zero(a);
    } else {
        lemma_no_script_is_shorter(script.drop_first(), script[0].apply(a), b);
        lemma_one_edit_saves_at_most_one(script[0], a, b);
    }
}

/// A script that turns `a` into `b` in as few edits as the distance says.
///
/// It follows one cheapest way through the recurrence of the distance:
/// delete the last element of `a` first and go on from there; or turn `a`
/// into `b` without its last element and insert that one at the end; or
/// leave the last position alone where the two last elements agree; or turn
/// the front of `a` into the front of `b` and substitute the last element.
pub open spec fn shortest_script<T>(a: Seq<T>, b: Seq<T>) -> Seq<Edit<T>>
    decreases a.len() + b.len(),
{
    if a.len() == 0 && b.len() == 0 {
        Seq::empty()
    } else if b.len() == 0 || (a.len() > 0 && edit_distance(a, b) == edit_distance(
        a.drop_last(),
        b,
    ) + 1) {
        seq![Edit::Delete { at: a.len() - 1 }] + shortest_script(a.drop_last(), b)
    } else if a.len() == 0 || edit_distance(a, b) == edit_distance(a, b.drop_last()) + 1 {
        shortest_script(a, b.drop_last()).push(Edit::Insert { at: b.len() - 1, item: b.last() })
    } else if a.last() == b.last() {
        shortest_script(a.drop_last(), b.drop_last())
    } else {
        shortest_script(a.drop_last(), b.drop_last()).push(
            Edit::Substitute { at: b.len() - 1, item: b.last() },
        )
    }
}

/// A script can be carried on by one more edit.
pub proof fn lemma_script_extends<T>(script: Seq<Edit<T>>, e: Edit<T>, a: Seq<T>, b: Seq<T>)
    requires
        transforms(script, a, b),
        e.fits(b),
    ensures
        transforms(script.push(e), a, e.apply(b)),
    decreases script.len(),
{
    let longer = script.push(e);
    if script.len() == 0 {
        assert(longer.drop_first() =~= script);
        assert(transforms(longer.drop_first(), e.apply(a), e.apply(b)));
    } else {
        assert(longer.drop_first() =~= script.drop_first().push(e));
        lemma_script_extends(script.drop_first(), e, script[0].apply(a), b);
    }
}

/// Two scripts can be carried out one after the other.
pub proof fn lemma_scripts_chain<T>(
    first: Seq<Edit<T>>,
    second: Seq<Edit<T>>,
    a: Seq<T>,
    b: Seq<T>,
    c: Seq<T>,
)
    requires
        transforms(first, a, b),
        transforms(second, b, c),
    ensures
        transforms(first + second, a, c),
    decreases first.len(),
{
    if first.len() == 0 {
        assert(first + second =~= second);
    } else {
        assert((first + second).drop_first() =~= first.drop_first() + second);
        lemma_scripts_chain(first.drop_first(), second, first[0].apply(a), b, c);
    }
}

/// A script leaves alone what stands behind the part it works on.
pub proof fn lemma_script_keeps_tail<T>(script: Seq<Edit<T>>, a: Seq<T>, b: Seq<T>, x: T)
    requires
        transforms(script, a, b),
    ensures
        transforms(script, a.push(x), b.push(x)),
    decreases script.len(),
{
    if script.len() > 0 {
        let e = script[0];
        assert(e.apply(a.push(x)) =~= e.apply(a).push(x));
        lemma_script_keeps_tail(script.drop_first(), e.apply(a), b, x);
    }
}

/// The distance is reached: `shortest_script(a, b)` turns `a` into `b` and
/// has exactly `edit_distance(a, b)` edits.
pub proof fn lemma_shortest_script_reaches<T>(a: Seq<T>, b: Seq<T>)
    ensures
        transforms(shortest_script(a, b), a, b),
        shortest_script(a, b).len() == edit_distance(a, b),
    decreases a.len() + b.len(),
{
    let script = shortest_script(a, b);
    if a.len() == 0 && b.len() == 0 {
        assert(a =~= b);
    } else if b.len() == 0 || (a.len() > 0 && edit_distance(a, b) == edit_distance(
        a.drop_last(),
        b,
    ) + 1) {
        let e = Edit::<T>::Delete { at: a.len() - 1 };
        let rest = shortest_script(a.drop_last(), b);
        lemma_shortest_script_reaches(a.drop_last(), b);
        assert(e.apply(a) =~= a.drop_last());
        assert(script.drop_first() =~= rest);
    } else if a.len() == 0 || edit_distance(a, b) == edit_distance(a, b.drop_last()) + 1 {
        let e = Edit::Insert { at: b.len() - 1, item: b.last() };
        lemma_shortest_script_reaches(a, b.drop_last());
        lemma_script_extends(shortest_script(a, b.drop_last()), e, a, b.drop_last());
        assert(e.apply(b.drop_last()) =~= b);
    } else {
        let front = shortest_script(a.drop_last(), b.drop_last());
        lemma_shortest_script_reaches(a.drop_last(), b.drop_last());
        lemma_script_keeps_tail(front, a.drop_last(), b.drop_last(), a.last());
        let reached = b.drop_last().push(a.last());
        assert(a.drop_last().push(a.last()) =~= a);
        if a.last() == b.last() {
            assert(reached =~= b);
        } else {
            let e = Edit::Substitute { at: b.len() - 1, item: b.last() };
            lemma_script_extends(front, e, a, reached);
            assert(e.apply(reached) =~= b);
        }
    }
}

} // verus!
