//! The marks a depth-first walk leaves on the nodes of its current path.

use vstd::prelude::*;

verus! {

/// How many positions are not marked.
pub open spec fn unvisited(marks: Seq<bool>) -> nat
    decreases marks.len(),
{
    if marks.len() == 0 {
        0
    } else {
        unvisited(marks.drop_last()) + if marks.last() {
            0nat
        } else {
            1nat
        }
    }
}

/// Marks of length `n` with only position `i` marked.
pub open spec fn only(n: nat, i: int) -> Seq<bool> {
    Seq::new(n, |j: int| j == i)
}

/// Marking an unmarked position leaves one unmarked position fewer.
pub proof fn lemma_visit(marks: Seq<bool>, i: int)
    requires
        0 <= i < marks.len(),
        !marks[i],
    ensures
        unvisited(marks.update(i, true)) + 1 == unvisited(marks),
    decreases marks.len(),
{
    let after = marks.update(i, true);
    if i == marks.len() - 1 {
        assert(after.drop_last() == marks.drop_last());
    } else {
        lemma_visit(marks.drop_last(), i);
        assert(after.drop_last() == marks.drop_last().update(i, true));
    }
}

/// Marks of length `n`, all unmarked but position `i`.
pub fn only_marks(n: usize, i: usize) -> (v: Vec<bool>)
    ensures
        v@ == only(n as nat, i as int),
{
    let mut v: Vec<bool> = Vec::new();
    let mut j: usize = 0;
    while j < n
        invariant
            j <= n,
            v@ == Seq::new(j as nat, |t: int| t == i as int),
        decreases n - j,
    {
        v.push(j == i);
        j += 1;
        assert(v@ =~= Seq::new(j as nat, |t: int| t == i as int));
    }
    v
}

} // verus!
