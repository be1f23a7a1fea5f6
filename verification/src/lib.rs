//! A verified execution engine for small keyboard-macro programs.
//!
//! A program is an ordered list of instructions that thread a single text
//! value (the input register) through a variable store, with goto-style
//! control flow.  The engine resolves `{{name}}` template tags, evaluates
//! branch conditions, and drives a program counter with checked jump bounds.
//! Instructions with external effects (printing, dialogs, clipboard,
//! processes, network) are surfaced as effect requests for an unverified
//! driver to perform.

pub mod actions;
pub mod engine;
pub mod errors;
pub mod evaluation;
pub mod numeric;
pub mod text;
pub mod vars;
