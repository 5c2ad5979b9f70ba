//! What holds of every batch and every order line, proved over the models
//! that the contracts of the executable functions speak of.

use vstd::prelude::*;
use crate::model::{
    lemma_total_quantity_empty, lemma_total_quantity_insert, lemma_total_quantity_nonnegative,
    BatchModel,
};
use crate::order_line::LineModel;

verus! {

/// A batch refuses every line of another product, and an attempt to allocate
/// such a line leaves the batch, and so its allocated quantity, unchanged.
pub proof fn lemma_other_sku_refused(batch: BatchModel, line: LineModel)
    requires
        batch.sku != line.sku,
    ensures
        !batch.can_allocate(line),
        batch.allocate(line) == batch,
        batch.allocate(line).allocated_quantity() == batch.allocated_quantity(),
{
}

/// A batch can take a line of its own product exactly when the line asks for
/// no more than the purchased quantity less the allocated quantity.
pub proof fn lemma_same_sku_fits_iff_room(batch: BatchModel, line: LineModel)
    requires
        batch.sku == line.sku,
    ensures
        batch.can_allocate(line) <==> line.qty <= batch.purchased_quantity
            - batch.allocated_quantity(),
{
}

/// A refused line changes nothing, and an accepted line that was not yet
/// allocated raises the allocated quantity by exactly its own quantity.
pub proof fn lemma_allocate_effect(batch: BatchModel, line: LineModel)
    requires
        batch.allocations.finite(),
    ensures
        batch.allocate(line).allocations.finite(),
        batch.allocate(line).allocated_quantity()
            == if batch.can_allocate(line) && !batch.holds(line) {
            batch.allocated_quantity() + line.qty
        } else {
            batch.allocated_quantity()
        },
{
    if batch.can_allocate(line) {
        lemma_total_quantity_insert(batch.allocations, line);
    }
}

/// Allocating the same line to the same batch twice gives the same batch,
/// and so the same allocated quantity, as allocating it once.
pub proof fn lemma_allocate_idempotent(batch: BatchModel, line: LineModel)
    ensures
        batch.allocate(line).allocate(line) == batch.allocate(line),
        batch.allocate(line).allocate(line).allocated_quantity()
            == batch.allocate(line).allocated_quantity(),
{
    let once = batch.allocate(line);
    if batch.can_allocate(line) {
        assert(once.allocations.insert(line) =~= once.allocations);
    }
}

/// After an allocation attempt a batch holds exactly the lines it held
/// before and, if the batch could take it, the line attempted.
pub proof fn lemma_allocate_holds(batch: BatchModel, line: LineModel, other: LineModel)
    ensures
        batch.allocate(line).holds(other) <==> batch.holds(other) || (other == line
            && batch.can_allocate(line)),
{
}

/// No sequence of allocation attempts changes what a batch was purchased
/// with, nor takes a line away from it.
pub proof fn lemma_allocations_only_grow(batch: BatchModel, lines: Seq<LineModel>)
    ensures
        batch.allocate_all(lines).reference == batch.reference,
        batch.allocate_all(lines).sku == batch.sku,
        batch.allocate_all(lines).purchased_quantity == batch.purchased_quantity,
        batch.allocations.subset_of(batch.allocate_all(lines).allocations),
    decreases lines.len(),
{
    if lines.len() > 0 {
        lemma_allocations_only_grow(batch, lines.drop_last());
    }
}

/// A batch that has no more allocated than was purchased stays so after any
/// sequence of allocation attempts, whatever the lines are.
pub proof fn lemma_never_over_allocated(batch: BatchModel, lines: Seq<LineModel>)
    requires
        batch.allocations.finite(),
        batch.allocated_quantity() <= batch.purchased_quantity,
    ensures
        batch.allocate_all(lines).allocations.finite(),
        batch.allocate_all(lines).allocated_quantity()
            <= batch.allocate_all(lines).purchased_quantity,
    decreases lines.len(),
{
    if lines.len() > 0 {
        lemma_never_over_allocated(batch, lines.drop_last());
        lemma_allocations_only_grow(batch, lines.drop_last());
        lemma_allocate_effect(batch.allocate_all(lines.drop_last()), lines.last());
    }
}

/// A freshly purchased batch with a non-negative quantity is well formed and
/// has nothing allocated.
pub proof fn lemma_new_batch_wf(reference: Seq<char>, sku: Seq<char>, purchased_quantity: int)
    requires
        0 <= purchased_quantity,
    ensures
        BatchModel::new(reference, sku, purchased_quantity).wf(),
        BatchModel::new(reference, sku, purchased_quantity).allocated_quantity() == 0,
{
    lemma_total_quantity_empty();
}

/// An allocation attempt with a valid line keeps a well-formed batch well
/// formed.
pub proof fn lemma_allocate_preserves_wf(batch: BatchModel, line: LineModel)
    requires
        batch.wf(),
        line.valid(),
    ensures
        batch.allocate(line).wf(),
{
    lemma_allocate_effect(batch, line);
}

/// Any sequence of allocation attempts with valid lines keeps a well-formed
/// batch well formed.
pub proof fn lemma_allocate_all_preserves_wf(batch: BatchModel, lines: Seq<LineModel>)
    requires
        batch.wf(),
        forall|i: int| 0 <= i < lines.len() ==> (#[trigger] lines[i]).valid(),
    ensures
        batch.allocate_all(lines).wf(),
    decreases lines.len(),
{
    if lines.len() > 0 {
        lemma_allocate_all_preserves_wf(batch, lines.drop_last());
        lemma_allocate_preserves_wf(batch.allocate_all(lines.drop_last()), lines.last());
    }
}

/// In a well-formed batch the allocated and the available quantity both lie
/// between zero and the purchased quantity.
pub proof fn lemma_quantities_in_range(batch: BatchModel)
    requires
        batch.wf(),
    ensures
        0 <= batch.allocated_quantity() <= batch.purchased_quantity,
        0 <= batch.available_quantity() <= batch.purchased_quantity,
{
    lemma_total_quantity_nonnegative(batch.allocations);
}

} // verus!
