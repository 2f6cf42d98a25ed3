use nanoc::{
    compile_source, compile_to_lines, parse, parse_to_program, to_token_chunks, to_token_stream,
    CodegenError, CompileError, Expr, FnCall, FnParams, FnSignature, Item, ItemFn, Local, Operator,
    Program, Statement, Token, Type,
};

#[test]
fn test_lex() {
    let source = "fn main() { let x: i32 = 10; }";
    let chunks = to_token_chunks(source);
    let tokens = to_token_stream(chunks);
    let expected_tokens = vec![
        Token::Fn,
        Token::Identifier("main".to_string()),
        Token::LParentheses,
        Token::RParentheses,
        Token::LBrace,
        Token::Let,
        Token::Identifier("x".to_string()),
        Token::Collon,
        Token::Type(Type::I32),
        Token::Identifier("=".to_string()),
        Token::Identifier("10".to_string()),
        Token::Semicolon,
        Token::RBrace,
    ];
    assert_eq!(tokens, expected_tokens);
}

#[test]
fn test_parse() {
    let tokens = vec![
        Token::Fn,
        Token::Identifier("main".to_string()),
        Token::LParentheses,
        Token::RParentheses,
        Token::LBrace,
        Token::Let,
        Token::Identifier("x".to_string()),
        Token::Collon,
        Token::Type(Type::I32),
        Token::Identifier("=".to_string()),
        Token::Identifier("10".to_string()),
        Token::Semicolon,
        Token::RBrace,
    ];
    let ast = parse_to_program(tokens).unwrap();
    let expected_ast = Program {
        items: vec![Item::ItemFn(ItemFn {
            signature: FnSignature {
                ident: "main".to_string(),
                args: vec![],
                output: None,
            },
            block: vec![Statement::Local(Local {
                name: "x".to_string(),
                var_type: "I32".to_string(),
                value: Expr::ExprLit("10".to_string()),
            })],
        })],
    };
    assert_eq!(format!("{:?}", ast), format!("{:?}", expected_ast));
}

#[test]
fn test_parse_exp() {
    let tokens = vec![
        Token::Fn,
        Token::Identifier("main".to_string()),
        Token::LParentheses,
        Token::RParentheses,
        Token::LBrace,
        Token::Let,
        Token::Identifier("x".to_string()),
        Token::Collon,
        Token::Type(Type::I32),
        Token::Identifier("=".to_string()),
        Token::Identifier("10".to_string()),
        Token::Operator(Operator::Plus),
        Token::Identifier("20".to_string()),
        Token::Semicolon,
        Token::RBrace,
    ];
    let ast = parse_to_program(tokens).unwrap();
    let expected_ast = Program {
        items: vec![Item::ItemFn(ItemFn {
            signature: FnSignature {
                ident: "main".to_string(),
                args: vec![],
                output: None,
            },
            block: vec![Statement::Local(Local {
                name: "x".to_string(),
                var_type: "I32".to_string(),
                value: Expr::ExprBinaryOp {
                    left: Box::new(Expr::ExprLit("10".to_string())),
                    op: Operator::Plus,
                    right: Box::new(Expr::ExprLit("20".to_string())),
                },
            })],
        })],
    };
    assert_eq!(format!("{:?}", ast), format!("{:?}", expected_ast));
}

#[test]
fn test_parse_function_call() {
    let tokens = vec![
        Token::Fn,
        Token::Identifier("main".to_string()),
        Token::LParentheses,
        Token::RParentheses,
        Token::LBrace,
        // let result = sum(1, 2);
        Token::Let,
        Token::Identifier("result".to_string()),
        Token::Identifier("=".to_string()),
        Token::Identifier("sum".to_string()),
        Token::LParentheses,
        Token::Literal("1".to_string()),
        Token::Comma,
        Token::Literal("2".to_string()),
        Token::RParentheses,
        Token::Semicolon,
        Token::RBrace,
        // fn sum(int1: i32, int2: i32): i32 { ... }
        Token::Fn,
        Token::Identifier("sum".to_string()),
        Token::LParentheses,
        Token::Identifier("int1".to_string()),
        Token::Collon,
        Token::Type(Type::I32),
        Token::Comma,
        Token::Identifier("int2".to_string()),
        Token::Collon,
        Token::Type(Type::I32),
        Token::RParentheses,
        Token::Collon,
        Token::Type(Type::I32),
        Token::LBrace,
        // let result = int1 + int2;
        Token::Let,
        Token::Identifier("result".to_string()),
        Token::Identifier("=".to_string()),
        Token::Identifier("int1".to_string()),
        Token::Operator(Operator::Plus),
        Token::Identifier("int2".to_string()),
        Token::Semicolon,
        // return result;
        Token::Return,
        Token::Identifier("result".to_string()),
        Token::Semicolon,
        Token::RBrace,
    ];
    let ast = parse_to_program(tokens).unwrap();
    let expected_ast = Program {
        items: vec![
            Item::ItemFn(ItemFn {
                signature: FnSignature {
                    ident: "main".to_string(),
                    args: vec![],
                    output: None,
                },
                block: vec![Statement::Local(Local {
                    name: "result".to_string(),
                    var_type: "".to_string(),
                    value: Expr::ExprFnCall(FnCall {
                        name: "sum".to_string(),
                        args: vec![
                            Expr::ExprLit("1".to_string()),
                            Expr::ExprLit("2".to_string()),
                        ],
                    }),
                })],
            }),
            Item::ItemFn(ItemFn {
                signature: FnSignature {
                    ident: "sum".to_string(),
                    args: vec![
                        FnParams {
                            name: "int1".to_string(),
                            arg_type: "I32".to_string(),
                        },
                        FnParams {
                            name: "int2".to_string(),
                            arg_type: "I32".to_string(),
                        },
                    ],
                    output: Some("I32".to_string()),
                },
                block: vec![
                    Statement::Local(Local {
                        name: "result".to_string(),
                        var_type: "".to_string(),
                        value: Expr::ExprBinaryOp {
                            left: Box::new(Expr::ExprVariable("int1".to_string())),
                            op: Operator::Plus,
                            right: Box::new(Expr::ExprVariable("int2".to_string())),
                        },
                    }),
                    Statement::Return(Expr::ExprVariable("result".to_string())),
                ],
            }),
        ],
    };
    assert_eq!(format!("{:?}", ast), format!("{:?}", expected_ast));
}

#[test]
fn println_program_compiles_to_write_and_exit() {
    let source = "fn main() { println!(\"hi\"); }".to_string();
    let lines = compile_to_lines(&source).unwrap();
    let expected: Vec<String> = vec![
        "global _main",
        "default rel",
        "section .data",
        "    msg db \"hi\", 0x0A",
        "    msg_len equ $ - msg",
        "section .text",
        "_main:",
        "    mov rax, 0x2000004",
        "    mov rdi, 1",
        "    lea rsi, [msg]",
        "    mov rdx, msg_len",
        "    syscall",
        "    mov rax, 0x2000001",
        "    xor rdi, rdi",
        "    syscall",
    ]
    .into_iter()
    .map(str::to_string)
    .collect();
    assert_eq!(lines, expected);
}

#[test]
fn let_program_parses_from_source_text() {
    let source = "fn main() { let x: i32 = 10; }".to_string();
    let ast = parse(&source).unwrap();
    assert_eq!(ast.items.len(), 1);
    match &ast.items[0] {
        Item::ItemFn(f) => {
            assert_eq!(f.signature.ident, "main");
            assert_eq!(f.signature.args.len(), 0);
            assert_eq!(f.block.len(), 1);
            match &f.block[0] {
                Statement::Local(local) => {
                    assert_eq!(local.name, "x");
                    assert_eq!(local.var_type, "I32");
                    match &local.value {
                        Expr::ExprLit(lit) => assert_eq!(lit, "10"),
                        other => panic!("expected a literal, got {:?}", other),
                    }
                }
                other => panic!("expected a let statement, got {:?}", other),
            }
        }
        other => panic!("expected a function item, got {:?}", other),
    }
}

#[test]
fn sum_program_places_arguments_in_order() {
    let source = "fn main() { let result = sum(1, 2); } \
                  fn sum(int1: i32, int2: i32): i32 { let result = int1 + int2; return result; }"
        .to_string();
    let lines = compile_to_lines(&source).unwrap();
    let expected: Vec<String> = vec![
        "global _main",
        "default rel",
        "section .data",
        "section .text",
        "_main:",
        "    mov rdi, 1",
        "    mov rsi, 2",
        "    call sum",
        "    mov r10, rax",
        "    mov rax, 0x2000001",
        "    xor rdi, rdi",
        "    syscall",
        "sum:",
        "    add rdi, rsi",
        "    mov rax, rdi",
        "    ret",
    ]
    .into_iter()
    .map(str::to_string)
    .collect();
    assert_eq!(lines, expected);
}

#[test]
fn unsupported_operator_aborts_compilation() {
    let source = "fn main() { let x: i32 = 10 - 5; }".to_string();
    let err = compile_source(&source).unwrap_err();
    assert_eq!(
        err,
        CompileError::Codegen(CodegenError::UnsupportedOperator)
    );
}

#[test]
fn repeated_runs_give_identical_assembly() {
    let source = "fn main() { let result = sum(1, 2); } \
                  fn sum(int1: i32, int2: i32): i32 { let result = int1 + int2; return result; }"
        .to_string();
    let first = compile_to_lines(&source).unwrap();
    let second = compile_to_lines(&source).unwrap();
    assert_eq!(first, second);
}

#[test]
fn item_count_and_order_follow_the_source() {
    let source = "fn alpha() { } fn beta() { } fn gamma() { }".to_string();
    let ast = parse(&source).unwrap();
    assert_eq!(ast.items.len(), 3);
    let names: Vec<&str> = ast
        .items
        .iter()
        .map(|item| match item {
            Item::ItemFn(f) => f.signature.ident.as_str(),
            Item::ItemConst(_) => panic!("no constant items in this source"),
        })
        .collect();
    assert_eq!(names, vec!["alpha", "beta", "gamma"]);
}

#[test]
fn third_parameter_is_bound_to_rdx() {
    let source = "fn pick(a: i32, b: i32, c: i32): i32 { return c; }".to_string();
    let lines = compile_to_lines(&source).unwrap();
    assert!(lines.contains(&"    mov rax, rdx".to_string()));
}

#[test]
fn variable_arguments_move_from_their_registers() {
    let source = "fn main() { let x = 7; probe(x, 2); } fn probe(a: i32, b: i32) { }".to_string();
    let lines = compile_to_lines(&source).unwrap();
    let body: Vec<String> = vec![
        "_main:",
        "    mov r10, 7",
        "    mov rdi, r10",
        "    mov rsi, 2",
        "    call probe",
    ]
    .into_iter()
    .map(str::to_string)
    .collect();
    let start = lines.iter().position(|l| l == "_main:").unwrap();
    assert_eq!(&lines[start..start + body.len()], &body[..]);
}
