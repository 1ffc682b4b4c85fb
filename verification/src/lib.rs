//! Generates safe wrappers around the functions of a dynamically loaded
//! native library from a declarative description of them.

pub mod assemble;
pub mod binding;
pub mod emit;
pub mod error;
pub mod interpreter;
pub mod invariants;
pub mod model;
pub mod pattern;
pub mod prototype;
pub mod text;
pub mod types;

pub use crate::error::Error;
pub use crate::error::Fault;
