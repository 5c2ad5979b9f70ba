//! The order line: a request for a quantity of one product on behalf of one order.

use vstd::prelude::*;

verus! {

/// A request to allocate `qty` units of the product `sku` for the order `orderid`.
///
/// An order line is a plain value: two lines with the same three fields are
/// the same line.
#[derive(Debug, Hash)]
pub struct OrderLine {
    pub orderid: String,
    pub sku: String,
    pub qty: i32,
}

/// The mathematical content of an [`OrderLine`].
#[verifier::ext_equal]
pub ghost struct LineModel {
    pub orderid: Seq<char>,
    pub sku: Seq<char>,
    pub qty: int,
}

impl View for OrderLine {
    type V = LineModel;

    open spec fn view(&self) -> LineModel {
        LineModel { orderid: self.orderid@, sku: self.sku@, qty: self.qty as int }
    }
}

impl LineModel {
    /// A line is valid when it asks for a positive quantity.
    pub open spec fn valid(self) -> bool {
        self.qty > 0
    }
}

impl PartialEq for OrderLine {
    fn eq(&self, other: &Self) -> (res: bool) {
        self.orderid == other.orderid && self.sku == other.sku && self.qty == other.qty
    }
}

impl vstd::std_specs::cmp::PartialEqSpecImpl for OrderLine {
    open spec fn obeys_eq_spec() -> bool {
        true
    }

    /// Two lines are equal exactly when all three of their fields are.
    open spec fn eq_spec(&self, other: &Self) -> bool {
        self@ == other@
    }
}

impl Eq for OrderLine {}

impl Clone for OrderLine {
    fn clone(&self) -> (res: Self)
        ensures
            res == *self,
    {
        OrderLine { orderid: self.orderid.clone(), sku: self.sku.clone(), qty: self.qty }
    }
}

} // verus!
