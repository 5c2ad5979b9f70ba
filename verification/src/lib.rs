//! First-fit allocation of customer order lines to batches of purchased stock.

pub mod allocator;
pub mod batch;
pub mod laws;
pub mod model;
pub mod order_line;

pub use allocator::{allocate, OutOfStock};
pub use batch::Batch;
pub use model::{total_quantity, BatchModel};
pub use order_line::{LineModel, OrderLine};
