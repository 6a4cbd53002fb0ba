//! An on-ledger allocator of plots on a two-dimensional land plane.
//!
//! A plane hands out its plots one at a time, ring by ring, in a fixed order.
//! Each plot lives in an account whose address is derived from the plane's
//! address and the plot's coordinates, so that a request can only ever claim
//! the one plot the plane is about to hand out.

pub mod account;
pub mod address;
pub mod error;
pub mod instruction;
pub mod order;
pub mod processor;
pub mod state;
pub mod utils;
