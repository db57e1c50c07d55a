//! The driver of the Cascade policy compiler.
//!
//! Cascade policies are compiled to CIL in a fixed order of steps, from reading the input files to
//! writing the policy of each system. This crate decides, from what the steps so far have
//! answered, which step is next, when a compilation ends, and with which policies or which errors.
//! The steps themselves are performed by whoever runs the compilation: see [`dialogue`].
pub mod ast;
pub mod compile;
pub mod dialogue;
pub mod error;
pub mod laws;
pub mod load;
pub mod names;
pub mod plan;
pub mod progress;
pub mod sexp;
pub mod steps;
pub mod syntax;
pub mod text;

pub use compile::{compile_combined, compile_system_policies, compile_system_policies_all};
