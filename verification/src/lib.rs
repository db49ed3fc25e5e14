//! Execution engine of a small dynamically-typed scripting language: a lexer,
//! a recursive-descent parser producing an abstract syntax tree, and a
//! tree-walking evaluator over a chained lexical environment.
//!
//! Every component is specified against a mathematical model: the lexer and
//! parser against recursive spec functions over the character and token
//! sequences, the evaluator against a denotational spec semantics over model
//! values. The embedder (REPL or file runner) hands the library a source
//! string, a mutable global environment, an output buffer and the current
//! time; it prints whatever the library returns.

pub mod ast;
pub mod environment;
pub mod errors;
pub mod interpreter;
pub mod laws;
pub mod lexer;
pub mod parser;
pub mod semantics;
pub mod text;
pub mod values;
