//! A small ahead-of-time compiler: it turns a tiny imperative language
//! (function definitions, `let` bindings, `return`, a single binary `+`,
//! function calls and a built-in `println!`) into textual x86-64 assembly
//! for a Unix-style syscall ABI.
//!
//! The pipeline is strictly linear: the tokenizer splits the source text
//! into chunks, the lexer classifies them into tokens, the parser builds
//! an abstract syntax tree by recursive descent, the code generator
//! lowers each function with a fixed-pool register allocator, and the
//! serializer renders the result into assembly lines.
//!
//! Every stage is deterministic: each executable function is proved equal
//! to a specification function of its input, so identical source text
//! always yields byte-identical assembly.
use vstd::prelude::*;

pub mod assembly;
pub mod ast;
pub mod code_gen;
pub mod errors;
pub mod grammar;
pub mod laws;
pub mod lexer;
pub mod parser;
pub mod rst;
pub mod syscall;
pub mod text;
pub mod token;
pub mod tokenizer;

pub use assembly::AsmCode;
pub use ast::{
    Expr, FnCall, FnParams, FnSignature, Item, ItemConst, ItemFn, Local, Program, Statement,
};
pub use code_gen::generate_code;
pub use errors::{CodegenError, CompileError, ParseError, ParseErrorKind};
pub use lexer::to_token_stream;
pub use parser::{parse, parse_to_program};
pub use rst::Rst;
pub use syscall::SYSCALL;
pub use token::{Operator, Token, Type};
pub use tokenizer::to_token_chunks;

verus! {

/// The assembly module a source text compiles to, or the first fault of
/// parsing or lowering.
pub open spec fn spec_compile_source(s: Seq<char>) -> Result<
    assembly::AsmCodeV,
    CompileError,
> {
    match parser::spec_parse_source(s) {
        Err(e) => Err(CompileError::Parse(e)),
        Ok(p) => match code_gen::spec_generate_code(p) {
            Err(e) => Err(CompileError::Codegen(e)),
            Ok(a) => Ok(a),
        },
    }
}

/// The assembly lines a source text compiles to, or the first fault.
pub open spec fn spec_compile_lines(s: Seq<char>) -> Result<Seq<Seq<char>>, CompileError> {
    match spec_compile_source(s) {
        Err(e) => Err(e),
        Ok(a) => Ok(assembly::spec_serialize_asm(a)),
    }
}

/// Compiles a source text into an assembly module: tokenizing, lexing,
/// parsing and lowering in one pass, stopping at the first fault.
pub fn compile_source(source_code: &String) -> (r: Result<AsmCode, CompileError>)
    ensures
        match spec_compile_source(source_code@) {
            Ok(av) => r is Ok && r->Ok_0@ == av,
            Err(e) => r == Err::<AsmCode, CompileError>(e),
        },
{
    match parser::parse(source_code) {
        Err(e) => Err(CompileError::Parse(e)),
        Ok(program) => match code_gen::generate_code(&program) {
            Err(e) => Err(CompileError::Codegen(e)),
            Ok(code) => Ok(code),
        },
    }
}

/// Compiles a source text all the way to its assembly lines.
pub fn compile_to_lines(source_code: &String) -> (r: Result<Vec<String>, CompileError>)
    ensures
        match spec_compile_lines(source_code@) {
            Ok(lines) => r is Ok && r->Ok_0.deep_view() == lines,
            Err(e) => r == Err::<Vec<String>, CompileError>(e),
        },
{
    match compile_source(source_code) {
        Err(e) => Err(e),
        Ok(code) => Ok(code.serialize()),
    }
}

} // verus!
