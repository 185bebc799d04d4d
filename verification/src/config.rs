//! Typed settings consumed by the core.

pub mod base;
