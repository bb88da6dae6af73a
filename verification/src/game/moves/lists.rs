//! Lists of positions: joining and searching them.

use crate::game::Position;
use vstd::prelude::*;

verus! {

/// The join of two lists holds what either holds; it repeats nothing if
/// neither does and they share nothing.
pub(crate) proof fn lemma_join(a: Seq<Position>, b: Seq<Position>)
    ensures
        forall|p: Position| #[trigger] (a + b).contains(p) <==> (a.contains(p) || b.contains(p)),
        (a.no_duplicates() && b.no_duplicates() && (forall|p: Position|
            !(a.contains(p) && b.contains(p)))) ==> (a + b).no_duplicates(),
{
    assert forall|p: Position| (a + b).contains(p) implies (a.contains(p) || b.contains(p)) by {
        let i = choose|i: int| 0 <= i < (a + b).len() && (a + b)[i] == p;
        if i < a.len() {
            assert(a[i] == p);
        } else {
            assert(b[i - a.len()] == p);
        }
    }
    assert forall|p: Position| (a.contains(p) || b.contains(p)) implies (a + b).contains(p) by {
        if a.contains(p) {
            let i = choose|i: int| 0 <= i < a.len() && a[i] == p;
            assert((a + b)[i] == p);
        } else {
            let i = choose|i: int| 0 <= i < b.len() && b[i] == p;
            assert((a + b)[a.len() + i] == p);
        }
    }
    if a.no_duplicates() && b.no_duplicates() && (forall|p: Position|
        !(a.contains(p) && b.contains(p))) {
        assert forall|i: int, j: int|
            0 <= i < (a + b).len() && 0 <= j < (a + b).len() && i != j implies (a + b)[i] != (a
            + b)[j] by {
            if i < a.len() && j >= a.len() {
                assert(a.contains(a[i]));
                assert(b.contains(b[j - a.len()]));
            } else if j < a.len() && i >= a.len() {
                assert(a.contains(a[j]));
                assert(b.contains(b[i - a.len()]));
            }
        }
    }
}

/// Appends `p` to a list: it then holds `p` and what it held; it repeats
/// nothing if it did not and `p` is new to it.
pub(crate) proof fn lemma_push(a: Seq<Position>, p: Position)
    ensures
        forall|q: Position| #[trigger] a.push(p).contains(q) <==> (a.contains(q) || q == p),
        (a.no_duplicates() && !a.contains(p)) ==> a.push(p).no_duplicates(),
{
    assert(a.push(p) =~= a + seq![p]);
    lemma_join(a, seq![p]);
    assert forall|q: Position| seq![p].contains(q) <==> q == p by {
        if q == p {
            assert(seq![p][0] == q);
        }
    }
}

/// Moves the positions of `more` to the end of `moves`.
pub(crate) fn extend_moves(moves: &mut Vec<Position>, more: Vec<Position>)
    ensures
        final(moves)@ == old(moves)@ + more@,
{
    let mut more = more;
    moves.append(&mut more);
}

/// Whether `moves` holds `target`.
pub(crate) fn contains_position(moves: &Vec<Position>, target: Position) -> (found: bool)
    ensures
        found == moves@.contains(target),
{
    let mut i: usize = 0;
    while i < moves.len()
        invariant
            i <= moves.len(),
            forall|j: int| 0 <= j < i ==> moves[j] != target,
        decreases moves.len() - i,
    {
        if moves[i] == target {
            return true;
        }
        i += 1;
    }
    false
}

} // verus!
