//! Schema-view generator.
//!
//! Given one canonical record definition whose fields carry visibility
//! directives (`hide`, `show`, `optional`), the library derives one record
//! definition per declared view: each view exposes a chosen subset of the
//! fields, every surviving field keeping its original type or being wrapped
//! in an optional container.  Directive parsing, conflict and reference
//! validation, and view emission are all verified; a thin adapter outside
//! the library turns token streams into the plain data model used here.

pub mod ast;
pub mod diag;
pub mod directives;
pub mod emit;
pub mod laws;
pub mod validate;

pub use emit::structur;

