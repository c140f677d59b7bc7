//! Picking some records of a list, in the order of the list.
use vstd::prelude::*;

verus! {

/// The positions whose mark is set, in ascending order.
pub open spec fn picked(marks: Seq<bool>) -> Seq<usize>
    decreases marks.len(),
{
    if marks.len() == 0 {
        Seq::empty()
    } else if marks.last() {
        picked(marks.drop_last()).push((marks.len() - 1) as usize)
    } else {
        picked(marks.drop_last())
    }
}

/// The positions whose mark is set, in ascending order.
pub fn pick(marks: &Vec<bool>) -> (r: Vec<usize>)
    ensures
        r@ == picked(marks@),
{
    let mut r: Vec<usize> = Vec::new();
    let mut i: usize = 0;
    assert(r@ =~= picked(marks@.take(0)));
    while i < marks.len()
        invariant
            i <= marks@.len(),
            r@ == picked(marks@.take(i as int)),
        decreases marks@.len() - i,
    {
        assert(marks@.take(i + 1).drop_last() =~= marks@.take(i as int));
        if marks[i] {
            r.push(i);
        }
        i += 1;
    }
    assert(marks@.take(marks@.len() as int) =~= marks@);
    r
}

/// Picking lists exactly the positions that are marked, each once and in ascending order.
pub proof fn law_picked(marks: Seq<bool>)
    requires
        marks.len() <= usize::MAX,
    ensures
        forall|k: int|
            0 <= k < picked(marks).len() ==> (#[trigger] picked(marks)[k]) < marks.len()
                && marks[picked(marks)[k] as int],
        forall|j: int, k: int|
            0 <= j < k < picked(marks).len() ==> #[trigger] picked(marks)[j] < #[trigger] picked(
                marks,
            )[k],
        forall|i: int|
            0 <= i < marks.len() && #[trigger] marks[i] ==> picked(marks).contains(i as usize),
    decreases marks.len(),
{
    if marks.len() > 0 {
        let rest = marks.drop_last();
        law_picked(rest);
        let out = picked(marks);
        let inner = picked(rest);
        assert forall|i: int| 0 <= i < marks.len() && #[trigger] marks[i] implies out.contains(
            i as usize,
        ) by {
            if i < rest.len() {
                assert(rest[i]);
                let k = choose|k: int| 0 <= k < inner.len() && inner[k] == i as usize;
                assert(out[k] == i as usize);
            } else {
                assert(out[inner.len() as int] == i as usize);
            }
        }
    }
}

/// A position is picked exactly where its mark is set.
pub proof fn law_picked_iff(marks: Seq<bool>, i: int)
    requires
        0 <= i < marks.len() <= usize::MAX,
    ensures
        picked(marks).contains(i as usize) <==> marks[i],
{
    law_picked(marks);
    if picked(marks).contains(i as usize) {
        let k = choose|k: int| 0 <= k < picked(marks).len() && picked(marks)[k] == i as usize;
        assert(marks[picked(marks)[k] as int]);
    }
}

} // verus!
