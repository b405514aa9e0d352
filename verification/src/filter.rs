//! Narrowing a table to the rows that a predicate accepts.

use vstd::prelude::*;
use crate::sort::reversed;

verus! {

/// A yes-or-no question about a row of type `T`.
pub trait RowFilter<T> {
    /// Whether the filter lets `row` through.
    spec fn accepts(&self, row: &T) -> bool;

    /// Whether the filter lets `row` through.
    fn test(&self, row: &T) -> (r: bool)
        ensures
            r == self.accepts(row),
    ;
}

/// The rows of `rows` that `predicate` accepts, in the order in which they
/// stand in `rows`.
pub open spec fn kept<T, P: RowFilter<T>>(predicate: P, rows: Seq<T>) -> Seq<T> {
    rows.filter(|row: T| predicate.accepts(&row))
}

/// Returns the rows that `predicate` accepts, in the order in which they
/// came.
pub fn filter<T, P: RowFilter<T>>(records: Vec<T>, predicate: &P) -> (out: Vec<T>)
    ensures
        out@ == kept(*predicate, records@),
{
    let ghost all = records@;
    let ghost accepts = |row: T| predicate.accepts(&row);
    let mut rest = reversed(records);
    let mut out: Vec<T> = Vec::new();
    assert(all.take(0).filter(accepts) =~= Seq::<T>::empty()) by {
        reveal(Seq::filter);
    }
    while rest.len() > 0
        invariant
            rest@.len() <= all.len(),
            rest@ == all.reverse().take(rest@.len() as int),
            out@ == all.take(all.len() - rest@.len()).filter(accepts),
            accepts == |row: T| predicate.accepts(&row),
        decreases rest@.len(),
    {
        let ghost i = all.len() - rest@.len();
        let row = rest.pop().unwrap();
        proof {
            assert(row == all[i]);
            assert(all.take(i + 1) =~= all.take(i).push(row));
            all.take(i).lemma_filter_push(row, accepts);
        }
        if predicate.test(&row) {
            out.push(row);
        }
    }
    assert(all.take(all.len() as int) =~= all);
    out
}

/// Every row of the result is a row that the predicate accepts, and the
/// result is a selection of rows of the input in their order: it can be
/// read off the input at strictly increasing positions.
pub proof fn lemma_kept_rows<T, P: RowFilter<T>>(predicate: P, rows: Seq<T>)
    ensures
        kept(predicate, rows).len() <= rows.len(),
        forall|i: int|
            0 <= i < kept(predicate, rows).len() ==> predicate.accepts(
                &#[trigger] kept(predicate, rows)[i],
            ),
        forall|i: int|
            0 <= i < rows.len() && predicate.accepts(&rows[i]) ==> kept(predicate, rows).contains(
                #[trigger] rows[i],
            ),
        rows.len() > 0 ==> kept(predicate, rows) == if predicate.accepts(&rows.last()) {
            kept(predicate, rows.drop_last()).push(rows.last())
        } else {
            kept(predicate, rows.drop_last())
        },
{
    let accepts = |row: T| predicate.accepts(&row);
    broadcast use vstd::seq_lib::group_filter_ensures;
    if rows.len() > 0 {
        assert(rows.drop_last().push(rows.last()) =~= rows);
        rows.drop_last().lemma_filter_push(rows.last(), accepts);
    }
}

/// Filtering a second time with the same predicate changes nothing.
pub proof fn lemma_filter_idempotent<T, P: RowFilter<T>>(predicate: P, rows: Seq<T>)
    ensures
        kept(predicate, kept(predicate, rows)) == kept(predicate, rows),
    decreases rows.len(),
{
    let accepts = |row: T| predicate.accepts(&row);
    if rows.len() == 0 {
        reveal(Seq::filter);
        assert(rows.filter(accepts) =~= rows);
    } else {
        let front = rows.drop_last();
        let last = rows.last();
        assert(front.push(last) =~= rows);
        front.lemma_filter_push(last, accepts);
        lemma_filter_idempotent(predicate, front);
        if accepts(last) {
            front.filter(accepts).lemma_filter_push(last, accepts);
        }
    }
}

} // verus!
