//! Core of an in-memory columnar data library implementing the Apache Arrow
//! physical layout: immutable shared byte buffers, growable mutable buffers,
//! incremental array builders, and the type/schema metadata describing them.

pub mod array;
pub mod array_data;
pub mod bit_util;
pub mod buffer;
pub mod builder;
pub mod datatypes;
pub mod error;
pub mod json;
