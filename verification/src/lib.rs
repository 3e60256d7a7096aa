//! A registry of recyclable items.
//!
//! An [`store::ItemStore`] hands out identifiers, keeps one record per
//! registered item, lets a record be marked as matched exactly once, and
//! lists what it holds. Every operation is specified against the
//! mathematical model in [`model`], and what holds across several calls
//! is proved in [`laws`].

pub mod item;
pub mod laws;
pub mod model;
pub mod store;
