//! Front end for a small imperative language: a lexer with error recovery,
//! a precedence-climbing expression parser, a statement/translation-unit
//! parser, and a generator that lowers the parsed unit to a textual
//! low-level intermediate representation.
//!
//! Every stage is specified exactly: the tokens and errors of a lexing run,
//! the expression tree or structured error of a parse, and the byte-for-byte
//! text of a generated module are each pinned to a specification function of
//! the input alone.

pub mod ast;
pub mod decimal;
pub mod error;
pub mod ir_gen;
pub mod lexeme;
pub mod lexer;
pub mod operation_parser;
pub mod parser;
pub mod text;
pub mod tokens;
