//! Type declarations from schema documents, and the repair of generated
//! declarations.
//!
//! A document of named schemas ([`schema`]) is resolved into a flat list of
//! named entities ([`resolver`], [`ir`]), and the entities are emitted as
//! source text ([`generator`]). Apart from that, declarations that another
//! generator wrote are repaired as a syntax tree ([`syntax`], [`repair`]).
//!
//! Every function states what it returns over mathematical values: texts are
//! sequences of characters, lists are sequences, and every type has a view.
//! What is taken on trust is marked as such: a few functions of `std`, the
//! lexer of `proc_macro2` ([`tokens`]), the parser of `syn`
//! ([`syntax::read`]) and the parallel map of `rayon`.

pub mod generator;
pub mod ir;
pub mod repair;
pub mod resolver;
pub mod schema;
pub mod syntax;
pub mod text;
pub mod tokens;
