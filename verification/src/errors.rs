//! Structured error model: every failure of lexing, parsing or evaluation
//! surfaces to the caller as an `Error` carrying a kind and a message; no
//! error is recovered inside the core.

use vstd::prelude::*;

verus! {

/// What went wrong. The kind is the part of an error that contracts pin down;
/// the message is free-form human-readable text.
#[derive(Clone, Copy, Debug, PartialEq, Eq, Structural)]
pub enum ErrorKind {
    /// Malformed input to the lexer (an unterminated string literal).
    Lex,
    /// An unexpected token met during parsing.
    Parse,
    /// A name that no scope in the chain defines.
    NameResolution,
    /// An operation applied to a value of the wrong kind.
    TypeMismatch,
    /// A call with the wrong number of arguments.
    Arity,
    /// An assignment to an immutable binding.
    Immutability,
    /// A call whose callee is not a function value.
    NotCallable,
    /// A `for` loop over a value that is not an array.
    NotIterable,
    /// A declaration of a name already declared in the same scope.
    DuplicateDecl,
    /// A `ret` statement outside any function body.
    ReturnOutsideFunction,
    /// The call-depth guard was exhausted.
    DepthLimit,
}

/// A fatal error of the core: lexing, parsing and evaluation abort with one.
#[derive(Clone, Debug)]
pub struct Error {
    pub kind: ErrorKind,
    pub msg: String,
}

impl Error {
    pub fn new(kind: ErrorKind, msg: &str) -> (r: Error)
        ensures
            r.kind == kind,
    {
        Error { kind, msg: msg.to_owned() }
    }
}

} // verus!
