//! Verified core of a food-ordering backend.
//!
//! The library models the persistent state of the service — catalog tables,
//! users, payment types, orders and their cart lines — as an in-memory
//! [`store::Store`] with an explicit well-formedness invariant, and proves the
//! catalog and order-placement operations against it. Everything that touches
//! the network or a real database lives outside this crate and hands plain
//! values in and out.

pub mod date;
pub mod models;
pub mod store;
pub mod catalog;
pub mod orders;
pub mod laws;
