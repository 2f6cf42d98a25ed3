//! Error values carried through parsing and code generation.
//!
//! Every failure is a value, never a panic: the parser reports the kind of
//! syntactic fault together with the position of the offending token, and
//! the code generator reports which lowering rule could not be applied.
//! The command-line front end alone turns a terminal error into a message
//! and an exit status.
use vstd::prelude::*;

verus! {

/// What went wrong while parsing.
#[derive(Debug, Clone, Copy, PartialEq, Eq, Structural)]
pub enum ParseErrorKind {
    /// A token was read that no production accepts at that point.
    UnexpectedToken,
    /// The token stream ended while a production still needed input.
    UnexpectedEof,
}

/// A syntactic fault, with the index of the offending token in the
/// token stream (for an unexpected end of stream, the stream's length).
#[derive(Debug, Clone, Copy, PartialEq, Eq, Structural)]
pub struct ParseError {
    pub kind: ParseErrorKind,
    pub pos: usize,
}

/// What went wrong while lowering an abstract syntax tree.
#[derive(Debug, Clone, Copy, PartialEq, Eq, Structural)]
pub enum CodegenError {
    /// A binary operator other than `+` was asked for; only addition has a
    /// lowering, and miscompiling silently is never an option.
    UnsupportedOperator,
    /// The general-purpose register pool ran dry; there is no spill path.
    RegisterExhausted,
    /// An expression read a variable that no binding holds.
    UnboundVariable,
    /// The built-in `println!` was called with anything but a single
    /// literal argument.
    MalformedBuiltin,
    /// An expression shape that no lowering rule covers, such as a nested
    /// call or operation in argument position.
    UnsupportedConstruct,
}

/// Any terminal fault of the whole pipeline.
#[derive(Debug, Clone, Copy, PartialEq, Eq, Structural)]
pub enum CompileError {
    Parse(ParseError),
    Codegen(CodegenError),
}

} // verus!
