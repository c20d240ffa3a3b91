//! An in-memory session store: a table of session records keyed by opaque
//! identifiers, with the five storage operations of a session backend.
//!
//! `table` holds the table as a sequential data structure whose operations
//! have exact contracts over the model of `model`; `memory_store` shares one
//! such table between threads behind a single lock and hands what the lock
//! gives to the functions of `locked`, which answer for each outcome of the
//! lock; `laws` states what holds of every run of the operations.

pub mod error;
pub mod ident;
pub mod laws;
pub mod locked;
pub mod memory_store;
pub mod model;
pub mod table;
