//! A small text-template engine: a template string with embedded directives is
//! rendered against a read-only environment of named values.
//!
//! Two directive forms are recognized in-line with literal text:
//! `{= EXPR =}` evaluates an expression and emits its textual value, and
//! `{% STMT %}` carries control flow (`if`/`elif`/`else`/`endif`) or `print`.
//! Everything outside directives is emitted verbatim.
//!
//! The pipeline is: block segmenter -> tokenizer -> recursive-descent
//! evaluator with a value stack and a nestable branch controller.

pub mod amps;
pub mod context;
pub mod laws;
pub mod metadata;
pub mod parser;
pub mod scan;
pub mod text;
pub mod token;
pub mod token_types;
