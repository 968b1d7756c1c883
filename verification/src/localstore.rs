//! An item as the in-memory store counts it.

use vstd::prelude::*;

verus! {

/// A named item with the quantity in stock.
#[derive(Debug, Clone)]
pub struct Item {
    pub name: String,
    pub quantity: i32,
}

} // verus!
