//! A record store for users and their workout plans.
//!
//! `table` holds an ordered key-to-record table and `counter` a source of
//! identifiers; `service` combines two of each into the store and states
//! every operation over an abstract state; `plan` derives a plan from a
//! user's attributes; `laws` proves what holds across operations.

pub mod counter;
pub mod laws;
pub mod model;
pub mod plan;
pub mod service;
pub mod store;
pub mod table;
