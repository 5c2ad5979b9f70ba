//! The batch: one receipt of stock for one product, together with the order
//! lines allocated against it.

use vstd::prelude::*;
use crate::model::{
    lemma_total_quantity_empty, lemma_total_quantity_insert, total_quantity, BatchModel,
};
use crate::order_line::{LineModel, OrderLine};

verus! {

/// A purchased lot of a single product.
///
/// The allocated lines form a set: they are kept in a vector in which no line
/// occurs twice.
#[derive(Debug)]
pub struct Batch {
    reference: String,
    sku: String,
    purchased_quantity: i32,
    allocations: Vec<OrderLine>,
}

/// The models of the lines of a vector, in the vector's order.
spec fn line_models(lines: Seq<OrderLine>) -> Seq<LineModel> {
    lines.map_values(|line: OrderLine| line@)
}

/// The sum of the quantities of a sequence of lines, taken front to back.
spec fn running_total(lines: Seq<LineModel>) -> int
    decreases lines.len(),
{
    if lines.len() == 0 {
        0
    } else {
        running_total(lines.drop_last()) + lines.last().qty
    }
}

/// Summing a duplicate-free sequence front to back gives the total of its set.
proof fn lemma_running_total_is_total(lines: Seq<LineModel>)
    requires
        lines.no_duplicates(),
    ensures
        running_total(lines) == total_quantity(lines.to_set()),
    decreases lines.len(),
{
    if lines.len() == 0 {
        assert(lines.to_set() =~= Set::empty());
        lemma_total_quantity_empty();
    } else {
        let front = lines.drop_last();
        let last = lines.last();
        lemma_running_total_is_total(front);
        assert(lines =~= front.push(last));
        front.lemma_push_to_set_commute(last);
        vstd::seq_lib::seq_to_set_is_finite(front);
        assert(!front.to_set().contains(last)) by {
            if front.to_set().contains(last) {
                let i = choose|i: int| 0 <= i < front.len() && front[i] == last;
                assert(lines[i] == lines[lines.len() - 1]);
            }
        }
        lemma_total_quantity_insert(front.to_set(), last);
    }
}

/// With no negative quantity in it, a sequence's running total never falls
/// as the sequence is read.
proof fn lemma_running_total_grows(lines: Seq<LineModel>, k: int)
    requires
        0 <= k <= lines.len(),
        forall|i: int| 0 <= i < lines.len() ==> lines[i].qty >= 0,
    ensures
        0 <= running_total(lines.take(k)) <= running_total(lines),
    decreases lines.len(),
{
    if lines.len() == 0 {
        assert(lines.take(k) =~= lines);
    } else if k == lines.len() {
        assert(lines.take(k) =~= lines);
        lemma_running_total_grows(lines.drop_last(), k - 1);
    } else {
        lemma_running_total_grows(lines.drop_last(), k);
        assert(lines.drop_last().take(k) =~= lines.take(k));
    }
}

impl View for Batch {
    type V = BatchModel;

    closed spec fn view(&self) -> BatchModel {
        BatchModel {
            reference: self.reference@,
            sku: self.sku@,
            purchased_quantity: self.purchased_quantity as int,
            allocations: line_models(self.allocations@).to_set(),
        }
    }
}

impl Batch {
    /// No line is stored twice.
    pub closed spec fn distinct(&self) -> bool {
        line_models(self.allocations@).no_duplicates()
    }

    /// A batch is well formed when it stores no line twice and its model
    /// satisfies the batch invariant.
    pub open spec fn wf(&self) -> bool {
        self.distinct() && self@.wf()
    }

    /// A batch of `purchased_quantity` units of `sku`, with nothing allocated.
    pub fn new(reference: String, sku: String, purchased_quantity: i32) -> (batch: Batch)
        requires
            purchased_quantity >= 0,
        ensures
            batch.wf(),
            batch@ == BatchModel::new(reference@, sku@, purchased_quantity as int),
    {
        let batch = Batch { reference, sku, purchased_quantity, allocations: Vec::new() };
        proof {
            assert(line_models(batch.allocations@).to_set() =~= Set::empty());
            lemma_total_quantity_empty();
        }
        batch
    }

    /// The batch's unique reference.
    pub fn reference(&self) -> (reference: &String)
        ensures
            reference@ == self@.reference,
    {
        &self.reference
    }

    /// The product this batch holds.
    pub fn sku(&self) -> (sku: &String)
        ensures
            sku@ == self@.sku,
    {
        &self.sku
    }

    /// The quantity this batch was purchased with.
    pub fn purchased_quantity(&self) -> (quantity: i32)
        ensures
            quantity == self@.purchased_quantity,
    {
        self.purchased_quantity
    }

    /// Whether `line` is allocated to this batch.
    pub fn holds(&self, line: &OrderLine) -> (held: bool)
        ensures
            held == self@.holds(line@),
    {
        let mut i: usize = 0;
        while i < self.allocations.len()
            invariant
                i <= self.allocations.len(),
                forall|j: int| 0 <= j < i ==> line_models(self.allocations@)[j] != line@,
            decreases self.allocations.len() - i,
        {
            if self.allocations[i] == *line {
                assert(line_models(self.allocations@)[i as int] == line@);
                return true;
            }
            i += 1;
        }
        false
    }

    /// The sum of the quantities of the lines allocated so far; it never
    /// exceeds what was purchased.
    pub fn allocated_quantity(&self) -> (total: i32)
        requires
            self.wf(),
        ensures
            total == self@.allocated_quantity(),
            0 <= total <= self@.purchased_quantity,
    {
        let ghost lines = line_models(self.allocations@);
        proof {
            lemma_running_total_is_total(lines);
            assert forall|j: int| 0 <= j < lines.len() implies lines[j].qty >= 0 by {
                assert(lines.to_set().contains(lines[j]));
            }
        }
        let mut total: i32 = 0;
        let mut i: usize = 0;
        while i < self.allocations.len()
            invariant
                i <= self.allocations.len(),
                lines == line_models(self.allocations@),
                forall|j: int| 0 <= j < lines.len() ==> lines[j].qty >= 0,
                total == running_total(lines.take(i as int)),
                running_total(lines) <= i32::MAX,
            decreases self.allocations.len() - i,
        {
            proof {
                lemma_running_total_grows(lines, i + 1);
                assert(lines.take(i + 1).drop_last() =~= lines.take(i as int));
            }
            total = total + self.allocations[i].qty;
            i += 1;
        }
        proof {
            assert(lines.take(i as int) =~= lines);
            lemma_running_total_grows(lines, 0);
        }
        total
    }

    /// The quantity still free: what was purchased less what is allocated.
    pub fn available_quantity(&self) -> (available: i32)
        requires
            self.wf(),
        ensures
            available == self@.available_quantity(),
            0 <= available <= self@.purchased_quantity,
    {
        self.purchased_quantity - self.allocated_quantity()
    }

    /// Whether this batch can take `line`: the line is for this batch's
    /// product and asks for no more than is free.
    pub fn can_allocate(&self, line: &OrderLine) -> (can: bool)
        requires
            self.wf(),
        ensures
            can == self@.can_allocate(line@),
    {
        self.sku == line.sku && self.available_quantity() >= line.qty
    }

    /// Allocates `line` to this batch if the batch can take it, and does
    /// nothing otherwise. A line that is already allocated is not added again.
    pub fn allocate(&mut self, line: &OrderLine)
        requires
            old(self).wf(),
            line@.valid(),
        ensures
            final(self).wf(),
            final(self)@ == old(self)@.allocate(line@),
    {
        if self.can_allocate(line) {
            if !self.holds(line) {
                let ghost before = line_models(self.allocations@);
                self.allocations.push(line.clone());
                proof {
                    assert(line_models(self.allocations@) =~= before.push(line@));
                    before.lemma_push_to_set_commute(line@);
                    vstd::seq_lib::seq_to_set_is_finite(before);
                    lemma_total_quantity_insert(before.to_set(), line@);
                }
            } else {
                assert(self@.allocations.insert(line@) =~= self@.allocations);
            }
        }
    }
}

} // verus!
