//! Module-level lowering of a validated WebAssembly module to a native
//! intermediate-representation module.
//!
//! The crate decides what the native module holds (globals, function
//! prototypes, the linear-memory image, the indirect-call table) and in which
//! order; it keeps that module as plain data, so that every decision is stated
//! in a contract and proved. Turning the data into a backend module, compiling
//! function bodies and writing the result out is left to the caller.

pub mod codegen;
pub mod error;
pub mod native;
pub mod options;
pub mod text;
pub mod types;
pub mod wasm;

pub use options::Opt;
