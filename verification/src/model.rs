//! The mathematical model of a batch: what it was purchased with and the set
//! of order lines allocated against it.

use vstd::prelude::*;
use crate::order_line::LineModel;

verus! {

/// The sum of the quantities of a finite set of order lines.
pub open spec fn total_quantity(lines: Set<LineModel>) -> int {
    lines.fold(0int, |sum: int, line: LineModel| sum + line.qty)
}

/// The mathematical content of a batch.
#[verifier::ext_equal]
pub ghost struct BatchModel {
    pub reference: Seq<char>,
    pub sku: Seq<char>,
    pub purchased_quantity: int,
    pub allocations: Set<LineModel>,
}

impl BatchModel {
    /// A freshly purchased batch, with nothing allocated against it.
    pub open spec fn new(reference: Seq<char>, sku: Seq<char>, purchased_quantity: int) -> BatchModel {
        BatchModel { reference, sku, purchased_quantity, allocations: Set::empty() }
    }

    /// Whether `line` is currently allocated to this batch.
    pub open spec fn holds(self, line: LineModel) -> bool {
        self.allocations.contains(line)
    }

    /// The quantity taken up by the lines allocated so far.
    pub open spec fn allocated_quantity(self) -> int {
        total_quantity(self.allocations)
    }

    /// The quantity still free.
    pub open spec fn available_quantity(self) -> int {
        self.purchased_quantity - self.allocated_quantity()
    }

    /// A batch can take a line of its own product that fits in what is free.
    pub open spec fn can_allocate(self, line: LineModel) -> bool {
        self.sku == line.sku && self.available_quantity() >= line.qty
    }

    /// The batch after an attempt to allocate `line`: the line joins the
    /// allocations if the batch can take it, and nothing changes otherwise.
    pub open spec fn allocate(self, line: LineModel) -> BatchModel {
        if self.can_allocate(line) {
            BatchModel { allocations: self.allocations.insert(line), ..self }
        } else {
            self
        }
    }

    /// The batch after attempting to allocate each of `lines` in turn.
    pub open spec fn allocate_all(self, lines: Seq<LineModel>) -> BatchModel
        decreases lines.len(),
    {
        if lines.len() == 0 {
            self
        } else {
            self.allocate_all(lines.drop_last()).allocate(lines.last())
        }
    }

    /// The invariant of a batch: a non-negative purchase, finitely many
    /// allocated lines, each valid and of the batch's own product, and never
    /// more allocated than was purchased.
    pub open spec fn wf(self) -> bool {
        &&& 0 <= self.purchased_quantity
        &&& self.allocations.finite()
        &&& forall|line: LineModel| #[trigger]
            self.allocations.contains(line) ==> line.valid() && line.sku == self.sku
        &&& self.allocated_quantity() <= self.purchased_quantity
    }
}

/// Nothing is allocated in an empty set of lines.
pub proof fn lemma_total_quantity_empty()
    ensures
        total_quantity(Set::empty()) == 0,
{
    vstd::set::fold::lemma_fold_empty(0int, |sum: int, line: LineModel| sum + line.qty);
}

/// A line that joins a set adds its quantity to the total; one that is
/// already there adds nothing.
pub proof fn lemma_total_quantity_insert(lines: Set<LineModel>, line: LineModel)
    requires
        lines.finite(),
    ensures
        total_quantity(lines.insert(line)) == if lines.contains(line) {
            total_quantity(lines)
        } else {
            total_quantity(lines) + line.qty
        },
{
    if lines.contains(line) {
        assert(lines.insert(line) =~= lines);
    } else {
        vstd::set::fold::lemma_fold_insert(
            lines,
            0int,
            |sum: int, line: LineModel| sum + line.qty,
            line,
        );
    }
}

/// A set of lines with no negative quantity among them has a non-negative total.
pub proof fn lemma_total_quantity_nonnegative(lines: Set<LineModel>)
    requires
        lines.finite(),
        forall|line: LineModel| #[trigger] lines.contains(line) ==> line.qty >= 0,
    ensures
        total_quantity(lines) >= 0,
    decreases lines.len(),
{
    if lines.is_empty() {
        assert(lines =~= Set::empty());
        lemma_total_quantity_empty();
    } else {
        let line = lines.choose();
        let rest = lines.remove(line);
        lemma_total_quantity_nonnegative(rest);
        lemma_total_quantity_insert(rest, line);
        assert(rest.insert(line) =~= lines);
    }
}

} // verus!
