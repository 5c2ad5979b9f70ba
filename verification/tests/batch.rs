use allocation::{Batch, OrderLine};

fn new_line(orderid: &str, sku: &str, qty: i32) -> OrderLine {
    OrderLine { orderid: String::from(orderid), sku: String::from(sku), qty }
}

fn new_batch(reference: &str, sku: &str, purchased_quantity: i32) -> Batch {
    Batch::new(String::from(reference), String::from(sku), purchased_quantity)
}

#[test]
fn new_batch_has_nothing_allocated() {
    let batch = new_batch("batch1", "sku1", 15);
    assert_eq!(batch.reference(), "batch1");
    assert_eq!(batch.sku(), "sku1");
    assert_eq!(batch.purchased_quantity(), 15);
    assert_eq!(batch.allocated_quantity(), 0);
    assert_eq!(batch.available_quantity(), 15);
    assert!(!batch.holds(&new_line("order1", "sku1", 1)));
}

#[test]
fn line_of_another_sku_is_refused_and_changes_nothing() {
    let mut batch = new_batch("batch1", "sku1", 15);
    batch.allocate(&new_line("order1", "sku1", 4));
    let other = new_line("order2", "sku2", 1);
    assert!(!batch.can_allocate(&other));
    batch.allocate(&other);
    assert_eq!(batch.allocated_quantity(), 4);
    assert_eq!(batch.available_quantity(), 11);
    assert!(!batch.holds(&other));
}

#[test]
fn line_of_the_same_sku_fits_exactly_when_there_is_room() {
    let mut batch = new_batch("batch1", "sku1", 15);
    batch.allocate(&new_line("order1", "sku1", 5));
    assert!(batch.can_allocate(&new_line("order2", "sku1", 1)));
    assert!(batch.can_allocate(&new_line("order2", "sku1", 9)));
    assert!(batch.can_allocate(&new_line("order2", "sku1", 10)));
    assert!(!batch.can_allocate(&new_line("order2", "sku1", 11)));
    assert!(!batch.can_allocate(&new_line("order2", "sku1", i32::MAX)));
}

#[test]
fn line_larger_than_the_batch_cannot_be_allocated() {
    let batch = new_batch("batch1", "sku1", 15);
    assert!(!batch.can_allocate(&new_line("order1", "sku1", 20)));
}

#[test]
fn allocating_the_same_line_twice_counts_once() {
    let mut once = new_batch("batch1", "sku1", 50);
    once.allocate(&new_line("order1", "sku1", 20));

    let mut twice = new_batch("batch1", "sku1", 50);
    twice.allocate(&new_line("order1", "sku1", 20));
    twice.allocate(&new_line("order1", "sku1", 20));

    assert_eq!(once.allocated_quantity(), 20);
    assert_eq!(twice.allocated_quantity(), 20);
    assert_eq!(twice.available_quantity(), 30);
    assert!(twice.holds(&new_line("order1", "sku1", 20)));
}

#[test]
fn same_order_and_sku_with_another_quantity_is_another_line() {
    let mut batch = new_batch("batch1", "sku1", 50);
    batch.allocate(&new_line("order1", "sku1", 20));
    batch.allocate(&new_line("order1", "sku1", 10));
    assert_eq!(batch.allocated_quantity(), 30);
    assert!(batch.holds(&new_line("order1", "sku1", 20)));
    assert!(batch.holds(&new_line("order1", "sku1", 10)));
    assert!(!batch.holds(&new_line("order1", "sku1", 30)));
}

#[test]
fn allocated_quantity_is_the_sum_of_the_allocated_lines() {
    let mut batch = new_batch("batch1", "sku1", 100);
    batch.allocate(&new_line("order1", "sku1", 7));
    batch.allocate(&new_line("order2", "sku1", 11));
    batch.allocate(&new_line("order3", "sku1", 13));
    assert_eq!(batch.allocated_quantity(), 31);
}

#[test]
fn available_quantity_is_purchased_less_allocated() {
    let mut batch = new_batch("batch1", "sku1", 100);
    batch.allocate(&new_line("order1", "sku1", 7));
    batch.allocate(&new_line("order2", "sku1", 11));
    assert_eq!(batch.available_quantity(), 82);
    assert_eq!(
        batch.available_quantity(),
        batch.purchased_quantity() - batch.allocated_quantity()
    );
}

#[test]
fn allocated_quantity_never_exceeds_purchased_quantity() {
    let mut batch = new_batch("batch1", "sku1", 25);
    let lines = vec![
        new_line("order1", "sku1", 10),
        new_line("order2", "sku1", 10),
        new_line("order3", "sku1", 10),
        new_line("order4", "sku2", 1),
        new_line("order5", "sku1", 5),
        new_line("order5", "sku1", 5),
        new_line("order6", "sku1", 1),
        new_line("order7", "sku1", 26),
    ];
    for line in lines.iter() {
        batch.allocate(line);
        assert!(batch.allocated_quantity() <= batch.purchased_quantity());
        assert!(batch.available_quantity() >= 0);
    }
    assert_eq!(batch.allocated_quantity(), 25);
    assert!(batch.holds(&new_line("order1", "sku1", 10)));
    assert!(batch.holds(&new_line("order2", "sku1", 10)));
    assert!(!batch.holds(&new_line("order3", "sku1", 10)));
    assert!(batch.holds(&new_line("order5", "sku1", 5)));
    assert!(!batch.holds(&new_line("order6", "sku1", 1)));
}

#[test]
fn refused_line_is_a_silent_no_op() {
    let mut batch = new_batch("batch1", "sku1", 15);
    let too_large = new_line("order1", "sku1", 16);
    batch.allocate(&too_large);
    assert_eq!(batch.allocated_quantity(), 0);
    assert_eq!(batch.available_quantity(), 15);
    assert!(!batch.holds(&too_large));
}

#[test]
fn line_that_fits_exactly_fills_the_batch() {
    let mut batch = new_batch("batch1", "sku1", 15);
    let exact = new_line("order1", "sku1", 15);
    assert!(batch.can_allocate(&exact));
    batch.allocate(&exact);
    assert_eq!(batch.allocated_quantity(), 15);
    assert_eq!(batch.available_quantity(), 0);
    assert!(batch.holds(&exact));
}

#[test]
fn full_batch_refuses_even_a_line_it_holds() {
    let mut batch = new_batch("batch1", "sku1", 15);
    let exact = new_line("order1", "sku1", 15);
    batch.allocate(&exact);
    assert!(!batch.can_allocate(&exact));
    batch.allocate(&exact);
    assert_eq!(batch.allocated_quantity(), 15);
    assert!(batch.holds(&exact));
}

#[test]
fn batch_with_room_accepts_a_line_it_already_holds() {
    let mut batch = new_batch("batch1", "sku1", 15);
    let small = new_line("order1", "sku1", 5);
    batch.allocate(&small);
    assert!(batch.can_allocate(&small));
    batch.allocate(&small);
    assert_eq!(batch.allocated_quantity(), 5);
}

#[test]
fn batch_purchased_with_nothing_takes_no_line() {
    let mut batch = new_batch("batch1", "sku1", 0);
    let smallest = new_line("order1", "sku1", 1);
    assert!(!batch.can_allocate(&smallest));
    batch.allocate(&smallest);
    assert_eq!(batch.allocated_quantity(), 0);
    assert_eq!(batch.available_quantity(), 0);
}

#[test]
fn largest_batch_takes_the_largest_line() {
    let mut batch = new_batch("batch1", "sku1", i32::MAX);
    let largest = new_line("order1", "sku1", i32::MAX);
    assert!(batch.can_allocate(&largest));
    batch.allocate(&largest);
    assert_eq!(batch.allocated_quantity(), i32::MAX);
    assert_eq!(batch.available_quantity(), 0);
    assert!(!batch.can_allocate(&new_line("order2", "sku1", 1)));
}

#[test]
fn sku_comparison_is_exact() {
    let batch = new_batch("batch1", "sku1", 15);
    assert!(!batch.can_allocate(&new_line("order1", "SKU1", 1)));
    assert!(!batch.can_allocate(&new_line("order1", "sku", 1)));
    assert!(!batch.can_allocate(&new_line("order1", "sku11", 1)));
    assert!(batch.can_allocate(&new_line("order1", "sku1", 1)));
}
