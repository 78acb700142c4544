//! Storage of to-do items and their labels.
//!
//! Items and labels stand in a many-to-many relation. The crate holds the
//! entity model, the folding of joined rows into nested items, an in-memory
//! store, the statement plans that a relational store follows, and what
//! those plans come to on a backend that serves them.

pub mod backend;
pub mod entity;
pub mod error;
pub mod fold;
pub mod memory;
pub mod model;
pub mod relational;
pub mod repository;
