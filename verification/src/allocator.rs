//! First-fit allocation of an order line over a collection of batches.

use vstd::prelude::*;
use crate::batch::Batch;
use crate::model::BatchModel;
use crate::order_line::{LineModel, OrderLine};

verus! {

/// No batch in the collection is of the line's product with enough free
/// quantity to take the line.
#[derive(Debug, Clone, Copy, PartialEq, Eq)]
pub struct OutOfStock;

/// The models of a collection of batches, in the collection's order.
pub open spec fn batch_models(batches: Seq<Batch>) -> Seq<BatchModel> {
    batches.map_values(|batch: Batch| batch@)
}

/// Every batch of the collection is well formed.
pub open spec fn all_wf(batches: Seq<Batch>) -> bool {
    forall|i: int| 0 <= i < batches.len() ==> (#[trigger] batches[i]).wf()
}

/// Batch `k` can take `line`, and no batch before it can.
pub open spec fn is_first_fit(batches: Seq<BatchModel>, line: LineModel, k: int) -> bool {
    &&& 0 <= k < batches.len()
    &&& batches[k].can_allocate(line)
    &&& forall|j: int| 0 <= j < k ==> !(#[trigger] batches[j]).can_allocate(line)
}

/// No batch of the collection can take `line`.
pub open spec fn out_of_stock(batches: Seq<BatchModel>, line: LineModel) -> bool {
    forall|j: int| 0 <= j < batches.len() ==> !(#[trigger] batches[j]).can_allocate(line)
}

/// The position of the first batch that can take `line`, if there is one.
pub open spec fn first_fit(batches: Seq<BatchModel>, line: LineModel) -> Option<int> {
    if exists|k: int| is_first_fit(batches, line, k) {
        Some(choose|k: int| is_first_fit(batches, line, k))
    } else {
        None
    }
}

/// The first batch that can take a line is the only position that
/// `first_fit` can name.
pub proof fn lemma_first_fit_found(batches: Seq<BatchModel>, line: LineModel, k: int)
    requires
        is_first_fit(batches, line, k),
    ensures
        first_fit(batches, line) == Some(k),
{
    let chosen = choose|k: int| is_first_fit(batches, line, k);
    if chosen < k {
        assert(!batches[chosen].can_allocate(line));
    } else if k < chosen {
        assert(!batches[k].can_allocate(line));
    }
}

/// `first_fit` names no position exactly when no batch can take the line.
pub proof fn lemma_first_fit_none(batches: Seq<BatchModel>, line: LineModel)
    ensures
        first_fit(batches, line) is None <==> out_of_stock(batches, line),
{
    if out_of_stock(batches, line) {
        if exists|k: int| is_first_fit(batches, line, k) {
            let k = choose|k: int| is_first_fit(batches, line, k);
            assert(!batches[k].can_allocate(line));
        }
    } else {
        let j = choose|j: int| 0 <= j < batches.len() && batches[j].can_allocate(line);
        lemma_some_batch_fits(batches, line, j);
    }
}

/// Where some batch can take the line, there is a first one that can.
proof fn lemma_some_batch_fits(batches: Seq<BatchModel>, line: LineModel, j: int)
    requires
        0 <= j < batches.len(),
        batches[j].can_allocate(line),
    ensures
        exists|k: int| is_first_fit(batches, line, k),
    decreases j,
{
    if exists|i: int| 0 <= i < j && batches[i].can_allocate(line) {
        let i = choose|i: int| 0 <= i < j && batches[i].can_allocate(line);
        lemma_some_batch_fits(batches, line, i);
    } else {
        assert(is_first_fit(batches, line, j));
    }
}

/// Allocates `line` to the first batch, in the collection's order, that can
/// take it, and returns that batch's reference. If no batch can take the
/// line, nothing changes and the result is `OutOfStock`.
pub fn allocate(line: &OrderLine, batches: &mut Vec<Batch>) -> (result: Result<String, OutOfStock>)
    requires
        line@.valid(),
        all_wf(old(batches)@),
    ensures
        final(batches)@.len() == old(batches)@.len(),
        all_wf(final(batches)@),
        match first_fit(batch_models(old(batches)@), line@) {
            Some(k) => {
                &&& result matches Ok(reference) && reference@ == old(batches)@[k]@.reference
                &&& final(batches)@[k]@ == old(batches)@[k]@.allocate(line@)
                &&& forall|j: int|
                    0 <= j < old(batches)@.len() && j != k
                        ==> final(batches)@[j] == old(batches)@[j]
            },
            None => result is Err && final(batches)@ == old(batches)@,
        },
{
    let mut i: usize = 0;
    while i < batches.len()
        invariant
            i <= batches.len(),
            batches@ == old(batches)@,
            all_wf(batches@),
            line@.valid(),
            forall|j: int| 0 <= j < i ==> !(#[trigger] batch_models(batches@)[j]).can_allocate(line@),
        decreases batches.len() - i,
    {
        if batches[i].can_allocate(line) {
            proof {
                assert(batch_models(batches@)[i as int] == batches@[i as int]@);
                lemma_first_fit_found(batch_models(batches@), line@, i as int);
            }
            batches[i].allocate(line);
            let reference = batches[i].reference().clone();
            return Ok(reference);
        }
        assert(batch_models(batches@)[i as int] == batches@[i as int]@);
        i += 1;
    }
    proof {
        lemma_first_fit_none(batch_models(batches@), line@);
    }
    Err(OutOfStock)
}

} // verus!
