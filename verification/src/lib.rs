//! Front end of a protocol-buffer interface-description-language compiler:
//! lexing, parsing, import resolution, name binding, validation, and
//! lowering to resolved descriptors, all as pure functions on plain values.

pub mod ast;
pub mod binder;
pub mod descriptor;
pub mod diag;
pub mod lexer;
pub mod parser;
pub mod paths;
pub mod pipeline;
pub mod resolver;
pub mod text;
pub mod validator;
