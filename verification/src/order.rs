//! Rows live in their table in id order. A filtered listing (a delete that
//! keeps the other rows, a status selection) keeps that order and the id
//! bounds, which is what lets every store re-establish its well-formedness
//! after such an operation.

use vstd::prelude::*;

verus! {

/// A filtered selection keeps the stored order and the key bounds: if the
/// key is strictly increasing over the rows and bounded by `lo` and `hi`,
/// the same holds over the selection.
pub proof fn lemma_filter_keeps_order<T>(
    rows: Seq<T>,
    pred: spec_fn(T) -> bool,
    key: spec_fn(T) -> i64,
    lo: i64,
    hi: i64,
)
    requires
        forall|i: int, j: int| 0 <= i < j < rows.len() ==> key(rows[i]) < key(rows[j]),
        forall|i: int| 0 <= i < rows.len() ==> lo <= #[trigger] key(rows[i]) < hi,
    ensures
        forall|i: int, j: int|
            0 <= i < j < rows.filter(pred).len() ==> key(rows.filter(pred)[i]) < key(
                rows.filter(pred)[j],
            ),
        forall|i: int|
            0 <= i < rows.filter(pred).len() ==> lo <= #[trigger] key(rows.filter(pred)[i]) < hi,
    decreases rows.len(),
{
    reveal(Seq::filter);
    if rows.len() == 0 {
    } else {
        let prefix = rows.drop_last();
        let last = rows.last();
        assert(forall|i: int|
            0 <= i < prefix.len() ==> lo <= #[trigger] key(prefix[i]) < key(last));
        lemma_filter_keeps_order(prefix, pred, key, lo, key(last));
        if pred(last) {
            assert(rows.filter(pred) =~= prefix.filter(pred).push(last));
        } else {
            assert(rows.filter(pred) =~= prefix.filter(pred));
        }
        assert(lo <= key(last) < hi);
    }
}

/// A filtered selection takes its rows from the table: every row of the
/// selection satisfies the predicate and is one of the stored rows.
pub proof fn lemma_filter_is_selection<T>(rows: Seq<T>, pred: spec_fn(T) -> bool)
    ensures
        forall|i: int|
            0 <= i < rows.filter(pred).len() ==> pred(#[trigger] rows.filter(pred)[i]),
        forall|i: int|
            0 <= i < rows.filter(pred).len() ==> rows.contains(#[trigger] rows.filter(pred)[i]),
    decreases rows.len(),
{
    reveal(Seq::filter);
    if rows.len() == 0 {
    } else {
        let prefix = rows.drop_last();
        let last = rows.last();
        lemma_filter_is_selection(prefix, pred);
        assert(forall|j: int| 0 <= j < prefix.len() ==> prefix[j] == rows[j]);
        assert forall|i: int|
            0 <= i < rows.filter(pred).len() implies rows.contains(
            #[trigger] rows.filter(pred)[i],
        ) by {
            let x = rows.filter(pred)[i];
            if pred(last) && i == rows.filter(pred).len() - 1 {
                assert(x == last);
                assert(rows[rows.len() - 1] == x);
            } else {
                assert(x == prefix.filter(pred)[i]);
                assert(prefix.contains(x));
                let j = choose|j: int| 0 <= j < prefix.len() && prefix[j] == x;
                assert(rows[j] == x);
            }
        }
    }
}

} // verus!
