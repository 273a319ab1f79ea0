//! Expands a declarative application manifest — HTTP-style route handlers
//! backed by WebAssembly modules, plus static-asset globs — into a
//! distributable invoice of content-addressed parcels organized into
//! named groups.

pub mod build_condition;
pub mod errors;
pub mod expander;
pub mod hippofacts;
pub mod invoice;
pub mod registry_id;
