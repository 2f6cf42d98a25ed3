use nanoc::{
    compile_source, generate_code, parse, CodegenError, CompileError, Expr, FnCall, FnSignature,
    Item, ItemFn, ParseErrorKind, Program, Rst, Statement, SYSCALL,
};

#[test]
fn top_level_let_is_an_unexpected_token() {
    let source = "let x = 1;".to_string();
    let err = parse(&source).unwrap_err();
    assert_eq!(err.kind, ParseErrorKind::UnexpectedToken);
    assert_eq!(err.pos, 0);
}

#[test]
fn unterminated_block_is_an_unexpected_end() {
    let source = "fn main() {".to_string();
    let err = parse(&source).unwrap_err();
    assert_eq!(err.kind, ParseErrorKind::UnexpectedEof);
    assert_eq!(err.pos, 5);
}

#[test]
fn chained_operators_are_rejected() {
    let source = "fn main() { let x = 1 + 2 + 3; }".to_string();
    let err = parse(&source).unwrap_err();
    assert_eq!(err.kind, ParseErrorKind::UnexpectedToken);
}

#[test]
fn unbound_variable_is_reported() {
    let source = "fn main() { return y; }".to_string();
    let err = compile_source(&source).unwrap_err();
    assert_eq!(err, CompileError::Codegen(CodegenError::UnboundVariable));
}

#[test]
fn println_with_a_variable_is_malformed() {
    let source = "fn main() { let x = 1; println!(x); }".to_string();
    let err = compile_source(&source).unwrap_err();
    assert_eq!(err, CompileError::Codegen(CodegenError::MalformedBuiltin));
}

#[test]
fn seventh_literal_exhausts_the_scratch_pool() {
    let source = "fn main() { let a = 1; let b = 2; let c = 3; let d = 4; \
                  let e = 5; let f = 6; let g = 7; }"
        .to_string();
    let err = compile_source(&source).unwrap_err();
    assert_eq!(err, CompileError::Codegen(CodegenError::RegisterExhausted));
}

#[test]
fn six_literals_still_fit_the_scratch_pool() {
    let source = "fn main() { let a = 1; let b = 2; let c = 3; let d = 4; \
                  let e = 5; let f = 6; }"
        .to_string();
    assert!(compile_source(&source).is_ok());
}

#[test]
fn nested_call_argument_is_an_unsupported_construct() {
    let program = Program {
        items: vec![Item::ItemFn(ItemFn {
            signature: FnSignature {
                ident: "main".to_string(),
                args: vec![],
                output: None,
            },
            block: vec![Statement::FnCall(FnCall {
                name: "probe".to_string(),
                args: vec![Expr::ExprFnCall(FnCall {
                    name: "inner".to_string(),
                    args: vec![],
                })],
            })],
        })],
    };
    let err = generate_code(&program).unwrap_err();
    assert_eq!(err, CodegenError::UnsupportedConstruct);
}

#[test]
fn registers_spell_their_assembly_names() {
    assert_eq!(Rst::RAX.as_str(), "rax");
    assert_eq!(Rst::RDI.to_string(), "rdi".to_string());
    assert_eq!(Rst::R15.as_str(), "r15");
}

#[test]
fn syscall_numbers_spell_their_immediates() {
    assert_eq!(SYSCALL::WRITE.to_string(), "0x2000004".to_string());
    assert_eq!(SYSCALL::EXIT.to_string(), "0x2000001".to_string());
}
