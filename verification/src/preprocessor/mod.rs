//! The shader source preprocessor.
//!
//! Shader files hold plain text interleaved with directives written as
//! `///#include "file"`, `///#if expr`, `///#elseif expr`, `///#else`,
//! `///#endif`, `///#decl name = expr`, `///#assign name = expr` and
//! references `#{name}`. Parsing, expression evaluation and expansion of a
//! set of already read files are verified here; reading files is left to the
//! caller, which answers the requests of [`loader::IncludeLoader`].

pub mod syntax;
pub mod unicode;
pub mod lexer;
pub mod expr;
pub mod command;
pub mod error;
pub mod eval;
pub mod counter;
pub mod interp;
pub mod expand;
pub mod config;
pub mod include_graph;
pub mod loader;
