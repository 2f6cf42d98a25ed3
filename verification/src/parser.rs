//! Recursive-descent parser: token stream to abstract syntax tree.
//!
//! Each production consumes exactly the tokens it recognises, looking at
//! most one token ahead, and reports the first fault it meets: there is
//! no error recovery and no multi-error accumulation. Expression parsing
//! distinguishes a single operand, one binary application and a call by
//! the one token that follows; it supports no parenthesised grouping and
//! no operator chains.
//!
//! An identifier chunk that is a nonempty run of digits names no
//! variable: in operand and argument position it is read as a literal,
//! exactly as a quoted chunk is.
//!
//! The specification functions `spec_parse_*` define the parse of every
//! token sequence; each executable function is proved to return exactly
//! what its specification function says, error positions included.
use vstd::prelude::*;

use crate::ast::{
    Expr, ExprV, FnCall, FnCallV, FnParams, FnParamsV, FnSignature, FnSignatureV, Item, ItemFn,
    ItemFnV, ItemV, Local, LocalV, Program, ProgramV, Statement, StatementV,
};
use crate::errors::{ParseError, ParseErrorKind};
use crate::lexer::{spec_token_stream, to_token_stream};
use crate::text::{is_numeric, is_numeric_str, str_eq};
use crate::token::{type_chars, Token, TokenV};
use crate::tokenizer::{spec_token_chunks, to_token_chunks};

verus! {

/// The error for a stream that ended while a production needed input.
pub open spec fn eof_err(toks: Seq<TokenV>) -> ParseError {
    ParseError { kind: ParseErrorKind::UnexpectedEof, pos: toks.len() as usize }
}

/// The error for an offending token at position `i`.
pub open spec fn unexpected_err(i: int) -> ParseError {
    ParseError { kind: ParseErrorKind::UnexpectedToken, pos: i as usize }
}

/// What a single token means in operand or argument position, if
/// anything: literals and digit runs are values, other identifiers are
/// variables.
pub open spec fn spec_operand(t: TokenV) -> Option<ExprV> {
    match t {
        TokenV::Identifier(s) => if is_numeric(s) {
            Some(ExprV::ExprLit(s))
        } else {
            Some(ExprV::ExprVariable(s))
        },
        TokenV::Literal(s) => Some(ExprV::ExprLit(s)),
        _ => None,
    }
}

/// The argument list read after the opening parenthesis, `acc` holding
/// the arguments already read.
pub open spec fn spec_parse_args(toks: Seq<TokenV>, i: int, acc: Seq<ExprV>) -> Result<
    (Seq<ExprV>, int),
    ParseError,
>
    decreases toks.len() - i,
{
    if i >= toks.len() {
        Err(eof_err(toks))
    } else if toks[i] is RParentheses {
        Ok((acc, i + 1))
    } else {
        match spec_operand(toks[i]) {
            None => Err(unexpected_err(i)),
            Some(e) => if i + 1 >= toks.len() {
                Err(eof_err(toks))
            } else if toks[i + 1] is Comma {
                spec_parse_args(toks, i + 2, acc.push(e))
            } else if toks[i + 1] is RParentheses {
                spec_parse_args(toks, i + 1, acc.push(e))
            } else {
                Err(unexpected_err(i + 1))
            },
        }
    }
}

/// A parenthesised argument list, starting at the `(` itself.
pub open spec fn spec_parse_fn_args(toks: Seq<TokenV>, i: int) -> Result<
    (Seq<ExprV>, int),
    ParseError,
> {
    if i >= toks.len() {
        Err(eof_err(toks))
    } else if !(toks[i] is LParentheses) {
        Err(unexpected_err(i))
    } else {
        spec_parse_args(toks, i + 1, Seq::empty())
    }
}

/// One declared parameter, its trailing comma included when present.
pub open spec fn spec_parse_param(toks: Seq<TokenV>, i: int) -> Result<(FnParamsV, int), ParseError> {
    if i >= toks.len() {
        Err(eof_err(toks))
    } else {
        match toks[i] {
            TokenV::Identifier(name) => if i + 1 >= toks.len() {
                Err(eof_err(toks))
            } else if !(toks[i + 1] is Collon) {
                Err(unexpected_err(i + 1))
            } else if i + 2 >= toks.len() {
                Err(eof_err(toks))
            } else {
                match toks[i + 2] {
                    TokenV::Type(t) => {
                        let param = FnParamsV { name, arg_type: type_chars(t) };
                        if i + 3 < toks.len() && toks[i + 3] is Comma {
                            Ok((param, i + 4))
                        } else {
                            Ok((param, i + 3))
                        }
                    },
                    _ => Err(unexpected_err(i + 2)),
                }
            },
            _ => Err(unexpected_err(i)),
        }
    }
}

/// A successful parameter ends past its start and inside the stream.
pub proof fn lemma_parse_param_progress(toks: Seq<TokenV>, i: int)
    requires
        spec_parse_param(toks, i) is Ok,
    ensures
        i < spec_parse_param(toks, i)->Ok_0.1 <= toks.len(),
{
}

/// The parameter list read after the opening parenthesis of a signature.
pub open spec fn spec_parse_params(toks: Seq<TokenV>, i: int, acc: Seq<FnParamsV>) -> Result<
    (Seq<FnParamsV>, int),
    ParseError,
>
    decreases toks.len() - i,
    via spec_parse_params_dec
{
    if i >= toks.len() {
        Err(eof_err(toks))
    } else if toks[i] is RParentheses {
        Ok((acc, i + 1))
    } else {
        match spec_parse_param(toks, i) {
            Err(e) => Err(e),
            Ok((param, j)) => spec_parse_params(toks, j, acc.push(param)),
        }
    }
}

#[via_fn]
proof fn spec_parse_params_dec(toks: Seq<TokenV>, i: int, acc: Seq<FnParamsV>) {
    if i < toks.len() && !(toks[i] is RParentheses) {
        if spec_parse_param(toks, i) is Ok {
            lemma_parse_param_progress(toks, i);
        }
    }
}

/// A whole signature: name, parameters, optional return type.
pub open spec fn spec_parse_signature(toks: Seq<TokenV>, i: int) -> Result<
    (FnSignatureV, int),
    ParseError,
> {
    if i >= toks.len() {
        Err(eof_err(toks))
    } else {
        match toks[i] {
            TokenV::Identifier(ident) => if i + 1 >= toks.len() {
                Err(eof_err(toks))
            } else if !(toks[i + 1] is LParentheses) {
                Err(unexpected_err(i + 1))
            } else {
                match spec_parse_params(toks, i + 2, Seq::empty()) {
                    Err(e) => Err(e),
                    Ok((args, j)) => if j < toks.len() && toks[j] is Collon {
                        if j + 1 >= toks.len() {
                            Err(eof_err(toks))
                        } else {
                            match toks[j + 1] {
                                TokenV::Type(t) => Ok(
                                    (
                                        FnSignatureV {
                                            ident,
                                            args,
                                            output: Some(type_chars(t)),
                                        },
                                        j + 2,
                                    ),
                                ),
                                _ => Err(unexpected_err(j + 1)),
                            }
                        }
                    } else {
                        Ok((FnSignatureV { ident, args, output: None }, j))
                    },
                }
            },
            _ => Err(unexpected_err(i)),
        }
    }
}

/// One expression: a single operand closed by `;`, one binary
/// application, or a call.
pub open spec fn spec_parse_expr(toks: Seq<TokenV>, i: int) -> Result<(ExprV, int), ParseError> {
    if i >= toks.len() {
        Err(eof_err(toks))
    } else if i + 1 >= toks.len() {
        Err(eof_err(toks))
    } else {
        match toks[i + 1] {
            TokenV::Operator(op) => match spec_operand(toks[i]) {
                None => Err(unexpected_err(i)),
                Some(left) => if i + 2 >= toks.len() {
                    Err(eof_err(toks))
                } else {
                    match spec_operand(toks[i + 2]) {
                        None => Err(unexpected_err(i + 2)),
                        Some(right) => Ok(
                            (
                                ExprV::ExprBinaryOp {
                                    left: Box::new(left),
                                    op,
                                    right: Box::new(right),
                                },
                                i + 3,
                            ),
                        ),
                    }
                },
            },
            TokenV::Semicolon => match spec_operand(toks[i]) {
                None => Err(unexpected_err(i)),
                Some(e) => Ok((e, i + 1)),
            },
            TokenV::LParentheses => match toks[i] {
                TokenV::Identifier(name) => match spec_parse_fn_args(toks, i + 1) {
                    Err(e) => Err(e),
                    Ok((args, j)) => Ok((ExprV::ExprFnCall(FnCallV { name, args }), j)),
                },
                _ => Err(unexpected_err(i)),
            },
            _ => Err(unexpected_err(i + 1)),
        }
    }
}

/// The tail of a `let` statement from the `=` sign on, the name and
/// annotation already read.
pub open spec fn spec_parse_let_tail(
    toks: Seq<TokenV>,
    k: int,
    name: Seq<char>,
    var_type: Seq<char>,
) -> Result<(StatementV, int), ParseError> {
    if k >= toks.len() {
        Err(eof_err(toks))
    } else {
        match toks[k] {
            TokenV::Identifier(eq) => if eq == "="@ {
                match spec_parse_expr(toks, k + 1) {
                    Err(e) => Err(e),
                    Ok((value, j)) => if j >= toks.len() {
                        Err(eof_err(toks))
                    } else if toks[j] is Semicolon {
                        Ok((StatementV::Local(LocalV { name, var_type, value }), j + 1))
                    } else {
                        Err(unexpected_err(j))
                    },
                }
            } else {
                Err(unexpected_err(k))
            },
            _ => Err(unexpected_err(k)),
        }
    }
}

/// A `let` statement, starting right after the `let` keyword.
pub open spec fn spec_parse_let(toks: Seq<TokenV>, i: int) -> Result<(StatementV, int), ParseError> {
    if i >= toks.len() {
        Err(eof_err(toks))
    } else {
        match toks[i] {
            TokenV::Identifier(name) => if i + 1 >= toks.len() {
                Err(eof_err(toks))
            } else if toks[i + 1] is Collon {
                if i + 2 >= toks.len() {
                    Err(eof_err(toks))
                } else {
                    match toks[i + 2] {
                        TokenV::Type(t) => spec_parse_let_tail(toks, i + 3, name, type_chars(t)),
                        _ => Err(unexpected_err(i + 2)),
                    }
                }
            } else {
                spec_parse_let_tail(toks, i + 1, name, Seq::empty())
            },
            _ => Err(unexpected_err(i)),
        }
    }
}

/// One statement: a `let`, a call closed by `;`, or a `return`.
pub open spec fn spec_parse_statement(toks: Seq<TokenV>, i: int) -> Result<
    (StatementV, int),
    ParseError,
> {
    if i >= toks.len() {
        Err(eof_err(toks))
    } else {
        match toks[i] {
            TokenV::Let => spec_parse_let(toks, i + 1),
            TokenV::Identifier(name) => if i + 1 >= toks.len() {
                Err(eof_err(toks))
            } else if toks[i + 1] is LParentheses {
                match spec_parse_fn_args(toks, i + 1) {
                    Err(e) => Err(e),
                    Ok((args, j)) => if j >= toks.len() {
                        Err(eof_err(toks))
                    } else if toks[j] is Semicolon {
                        Ok((StatementV::FnCall(FnCallV { name, args }), j + 1))
                    } else {
                        Err(unexpected_err(j))
                    },
                }
            } else {
                Err(unexpected_err(i + 1))
            },
            TokenV::Return => match spec_parse_expr(toks, i + 1) {
                Err(e) => Err(e),
                Ok((value, j)) => if j >= toks.len() {
                    Err(eof_err(toks))
                } else if toks[j] is Semicolon {
                    Ok((StatementV::Return(value), j + 1))
                } else {
                    Err(unexpected_err(j))
                },
            },
            _ => Err(unexpected_err(i)),
        }
    }
}

/// The statements of a block, read until the closing brace; `acc` holds
/// the statements already read.
pub open spec fn spec_parse_block_stmts(toks: Seq<TokenV>, i: int, acc: Seq<StatementV>) -> Result<
    (Seq<StatementV>, int),
    ParseError,
>
    decreases toks.len() - i,
    via spec_parse_block_stmts_dec
{
    if i >= toks.len() {
        Err(eof_err(toks))
    } else if toks[i] is RBrace {
        Ok((acc, i + 1))
    } else {
        match spec_parse_statement(toks, i) {
            Err(e) => Err(e),
            Ok((s, j)) => spec_parse_block_stmts(toks, j, acc.push(s)),
        }
    }
}

/// A braced block.
pub open spec fn spec_parse_block(toks: Seq<TokenV>, i: int) -> Result<
    (Seq<StatementV>, int),
    ParseError,
> {
    if i >= toks.len() {
        Err(eof_err(toks))
    } else if !(toks[i] is LBrace) {
        Err(unexpected_err(i))
    } else {
        spec_parse_block_stmts(toks, i + 1, Seq::empty())
    }
}

/// One top-level item; only `fn` opens one.
pub open spec fn spec_parse_item(toks: Seq<TokenV>, i: int) -> Result<(ItemV, int), ParseError> {
    if i >= toks.len() {
        Err(eof_err(toks))
    } else if !(toks[i] is Fn) {
        Err(unexpected_err(i))
    } else {
        match spec_parse_signature(toks, i + 1) {
            Err(e) => Err(e),
            Ok((signature, j)) => match spec_parse_block(toks, j) {
                Err(e) => Err(e),
                Ok((block, k)) => Ok((ItemV::ItemFn(ItemFnV { signature, block }), k)),
            },
        }
    }
}

/// All items until the stream ends; `acc` holds the items already read.
pub open spec fn spec_parse_items(toks: Seq<TokenV>, i: int, acc: Seq<ItemV>) -> Result<
    (Seq<ItemV>, int),
    ParseError,
>
    decreases toks.len() - i,
    via spec_parse_items_dec
{
    if i >= toks.len() {
        Ok((acc, i))
    } else {
        match spec_parse_item(toks, i) {
            Err(e) => Err(e),
            Ok((it, j)) => spec_parse_items(toks, j, acc.push(it)),
        }
    }
}

/// The parse of a whole token stream.
pub open spec fn spec_parse_program(toks: Seq<TokenV>) -> Result<ProgramV, ParseError> {
    match spec_parse_items(toks, 0, Seq::empty()) {
        Err(e) => Err(e),
        Ok((items, _)) => Ok(ProgramV { items }),
    }
}

/// A successful argument list ends past its start and inside the stream.
pub proof fn lemma_parse_args_progress(toks: Seq<TokenV>, i: int, acc: Seq<ExprV>)
    requires
        spec_parse_args(toks, i, acc) is Ok,
    ensures
        i < spec_parse_args(toks, i, acc)->Ok_0.1 <= toks.len(),
    decreases toks.len() - i,
{
    if i >= toks.len() {
    } else if toks[i] is RParentheses {
    } else {
        match spec_operand(toks[i]) {
            None => {},
            Some(e) => {
                if i + 1 < toks.len() && toks[i + 1] is Comma {
                    lemma_parse_args_progress(toks, i + 2, acc.push(e));
                } else if i + 1 < toks.len() && toks[i + 1] is RParentheses {
                    lemma_parse_args_progress(toks, i + 1, acc.push(e));
                }
            },
        }
    }
}

/// A successful parenthesised argument list consumes at least `( )`.
pub proof fn lemma_parse_fn_args_progress(toks: Seq<TokenV>, i: int)
    requires
        spec_parse_fn_args(toks, i) is Ok,
    ensures
        i + 1 < spec_parse_fn_args(toks, i)->Ok_0.1 <= toks.len(),
{
    lemma_parse_args_progress(toks, i + 1, Seq::empty());
}

/// A successful parameter list ends past its start and inside the stream.
pub proof fn lemma_parse_params_progress(toks: Seq<TokenV>, i: int, acc: Seq<FnParamsV>)
    requires
        spec_parse_params(toks, i, acc) is Ok,
    ensures
        i < spec_parse_params(toks, i, acc)->Ok_0.1 <= toks.len(),
    decreases toks.len() - i,
{
    if i >= toks.len() {
    } else if toks[i] is RParentheses {
    } else {
        match spec_parse_param(toks, i) {
            Err(_) => {},
            Ok((param, j)) => {
                lemma_parse_param_progress(toks, i);
                lemma_parse_params_progress(toks, j, acc.push(param));
            },
        }
    }
}

/// A successful signature ends past its start and inside the stream.
pub proof fn lemma_parse_signature_progress(toks: Seq<TokenV>, i: int)
    requires
        spec_parse_signature(toks, i) is Ok,
    ensures
        i < spec_parse_signature(toks, i)->Ok_0.1 <= toks.len(),
{
    if i < toks.len() {
        match toks[i] {
            TokenV::Identifier(_) => {
                if i + 1 < toks.len() && toks[i + 1] is LParentheses {
                    if spec_parse_params(toks, i + 2, Seq::empty()) is Ok {
                        lemma_parse_params_progress(toks, i + 2, Seq::empty());
                    }
                }
            },
            _ => {},
        }
    }
}

/// A successful expression ends past its start and inside the stream.
pub proof fn lemma_parse_expr_progress(toks: Seq<TokenV>, i: int)
    requires
        spec_parse_expr(toks, i) is Ok,
    ensures
        i < spec_parse_expr(toks, i)->Ok_0.1 <= toks.len(),
{
    if i + 1 < toks.len() {
        match toks[i + 1] {
            TokenV::LParentheses => {
                if spec_parse_fn_args(toks, i + 1) is Ok {
                    lemma_parse_fn_args_progress(toks, i + 1);
                }
            },
            _ => {},
        }
    }
}

/// A successful `let` tail ends past the `=` and inside the stream.
pub proof fn lemma_parse_let_tail_progress(toks: Seq<TokenV>, k: int, name: Seq<char>, vt: Seq<char>)
    requires
        spec_parse_let_tail(toks, k, name, vt) is Ok,
    ensures
        k < spec_parse_let_tail(toks, k, name, vt)->Ok_0.1 <= toks.len(),
{
    if k < toks.len() && spec_parse_expr(toks, k + 1) is Ok {
        lemma_parse_expr_progress(toks, k + 1);
    }
}

/// A successful `let` statement ends past its start and inside the
/// stream.
pub proof fn lemma_parse_let_progress(toks: Seq<TokenV>, i: int)
    requires
        spec_parse_let(toks, i) is Ok,
    ensures
        i < spec_parse_let(toks, i)->Ok_0.1 <= toks.len(),
{
    if i < toks.len() {
        match toks[i] {
            TokenV::Identifier(name) => {
                if i + 1 < toks.len() {
                    if toks[i + 1] is Collon {
                        if i + 2 < toks.len() {
                            match toks[i + 2] {
                                TokenV::Type(t) => {
                                    if spec_parse_let_tail(toks, i + 3, name, type_chars(t))
                                        is Ok {
                                        lemma_parse_let_tail_progress(
                                            toks,
                                            i + 3,
                                            name,
                                            type_chars(t),
                                        );
                                    }
                                },
                                _ => {},
                            }
                        }
                    } else {
                        if spec_parse_let_tail(toks, i + 1, name, Seq::empty()) is Ok {
                            lemma_parse_let_tail_progress(toks, i + 1, name, Seq::empty());
                        }
                    }
                }
            },
            _ => {},
        }
    }
}

/// A successful statement ends past its start and inside the stream.
pub proof fn lemma_parse_statement_progress(toks: Seq<TokenV>, i: int)
    requires
        spec_parse_statement(toks, i) is Ok,
    ensures
        i < spec_parse_statement(toks, i)->Ok_0.1 <= toks.len(),
{
    if i < toks.len() {
        match toks[i] {
            TokenV::Let => {
                lemma_parse_let_progress(toks, i + 1);
            },
            TokenV::Identifier(_) => {
                if i + 1 < toks.len() && toks[i + 1] is LParentheses {
                    if spec_parse_fn_args(toks, i + 1) is Ok {
                        lemma_parse_fn_args_progress(toks, i + 1);
                    }
                }
            },
            TokenV::Return => {
                if spec_parse_expr(toks, i + 1) is Ok {
                    lemma_parse_expr_progress(toks, i + 1);
                }
            },
            _ => {},
        }
    }
}

#[via_fn]
proof fn spec_parse_block_stmts_dec(toks: Seq<TokenV>, i: int, acc: Seq<StatementV>) {
    if i < toks.len() && !(toks[i] is RBrace) {
        if spec_parse_statement(toks, i) is Ok {
            lemma_parse_statement_progress(toks, i);
        }
    }
}

/// A successful block ends past its start and inside the stream.
pub proof fn lemma_parse_block_progress(toks: Seq<TokenV>, i: int)
    requires
        spec_parse_block(toks, i) is Ok,
    ensures
        i < spec_parse_block(toks, i)->Ok_0.1 <= toks.len(),
{
    if i < toks.len() && toks[i] is LBrace {
        lemma_parse_block_stmts_progress(toks, i + 1, Seq::empty());
    }
}

/// A successful statement list ends past its start and inside the
/// stream.
pub proof fn lemma_parse_block_stmts_progress(toks: Seq<TokenV>, i: int, acc: Seq<StatementV>)
    requires
        spec_parse_block_stmts(toks, i, acc) is Ok,
    ensures
        i < spec_parse_block_stmts(toks, i, acc)->Ok_0.1 <= toks.len(),
    decreases toks.len() - i,
{
    if i >= toks.len() {
    } else if toks[i] is RBrace {
    } else {
        match spec_parse_statement(toks, i) {
            Err(_) => {},
            Ok((s, j)) => {
                lemma_parse_statement_progress(toks, i);
                lemma_parse_block_stmts_progress(toks, j, acc.push(s));
            },
        }
    }
}

/// A successful item ends past its start and inside the stream.
pub proof fn lemma_parse_item_progress(toks: Seq<TokenV>, i: int)
    requires
        spec_parse_item(toks, i) is Ok,
    ensures
        i < spec_parse_item(toks, i)->Ok_0.1 <= toks.len(),
{
    if i < toks.len() && toks[i] is Fn {
        match spec_parse_signature(toks, i + 1) {
            Err(_) => {},
            Ok((signature, j)) => {
                lemma_parse_signature_progress(toks, i + 1);
                if spec_parse_block(toks, j) is Ok {
                    lemma_parse_block_progress(toks, j);
                }
            },
        }
    }
}

#[via_fn]
proof fn spec_parse_items_dec(toks: Seq<TokenV>, i: int, acc: Seq<ItemV>) {
    if i < toks.len() {
        if spec_parse_item(toks, i) is Ok {
            lemma_parse_item_progress(toks, i);
        }
    }
}

/// The parse of a whole source text, chunking and lexing included.
pub open spec fn spec_parse_source(s: Seq<char>) -> Result<ProgramV, ParseError> {
    spec_parse_program(spec_token_stream(spec_token_chunks(s)))
}

/// Whether an executable production's result is exactly what its
/// specification says: the same view at the same position, or the very
/// same error.
pub open spec fn res_matches<T: DeepView>(
    r: Result<(T, usize), ParseError>,
    s: Result<(T::V, int), ParseError>,
) -> bool {
    match (r, s) {
        (Ok(rp), Ok(sp)) => rp.0.deep_view() == sp.0 && rp.1 as int == sp.1,
        (Err(e), Err(ev)) => e == ev,
        _ => false,
    }
}

/// Whether a whole-value result is exactly what its specification says.
pub open spec fn res_value_matches<T: View>(
    r: Result<T, ParseError>,
    s: Result<T::V, ParseError>,
) -> bool {
    match (r, s) {
        (Ok(x), Ok(xv)) => x@ == xv,
        (Err(e), Err(ev)) => e == ev,
        _ => false,
    }
}

fn operand_expr(t: &Token) -> (r: Option<Expr>)
    ensures
        r.deep_view() == spec_operand(t@),
{
    match t {
        Token::Identifier(s) => if is_numeric_str(s.as_str()) {
            Some(Expr::ExprLit(s.clone()))
        } else {
            Some(Expr::ExprVariable(s.clone()))
        },
        Token::Literal(s) => Some(Expr::ExprLit(s.clone())),
        _ => None,
    }
}

fn parse_fn_arg(tokens: &Vec<Token>, i: usize) -> (r: Result<(Vec<Expr>, usize), ParseError>)
    ensures
        res_matches(r, spec_parse_fn_args(tokens.deep_view(), i as int)),
{
    let ghost dv = tokens.deep_view();
    if i >= tokens.len() {
        return Err(ParseError { kind: ParseErrorKind::UnexpectedEof, pos: tokens.len() });
    }
    proof {
        assert(dv[i as int] == tokens@[i as int]@);
    }
    match &tokens[i] {
        Token::LParentheses => {},
        _ => {
            return Err(ParseError { kind: ParseErrorKind::UnexpectedToken, pos: i });
        },
    }
    let mut args: Vec<Expr> = Vec::new();
    let mut k: usize = i + 1;
    proof {
        assert(args.deep_view() =~= Seq::<ExprV>::empty());
    }
    loop
        invariant
            dv == tokens.deep_view(),
            dv.len() == tokens@.len(),
            i < tokens@.len(),
            k <= tokens@.len(),
            dv[i as int] is LParentheses,
            spec_parse_args(dv, k as int, args.deep_view()) == spec_parse_fn_args(dv, i as int),
        decreases tokens@.len() - k,
    {
        let ghost accv = args.deep_view();
        if k >= tokens.len() {
            return Err(ParseError { kind: ParseErrorKind::UnexpectedEof, pos: tokens.len() });
        }
        proof {
            assert(dv[k as int] == tokens@[k as int]@);
        }
        match &tokens[k] {
            Token::RParentheses => {
                return Ok((args, k + 1));
            },
            _ => {},
        }
        match operand_expr(&tokens[k]) {
            None => {
                return Err(ParseError { kind: ParseErrorKind::UnexpectedToken, pos: k });
            },
            Some(e) => {
                if k + 1 >= tokens.len() {
                    return Err(
                        ParseError { kind: ParseErrorKind::UnexpectedEof, pos: tokens.len() },
                    );
                }
                proof {
                    assert(dv[k as int + 1] == tokens@[k as int + 1]@);
                }
                let ghost ev = e.deep_view();
                match &tokens[k + 1] {
                    Token::Comma => {
                        args.push(e);
                        proof {
                            assert(args.deep_view() =~= accv.push(ev));
                        }
                        k = k + 2;
                    },
                    Token::RParentheses => {
                        args.push(e);
                        proof {
                            assert(args.deep_view() =~= accv.push(ev));
                        }
                        k = k + 1;
                    },
                    _ => {
                        return Err(ParseError { kind: ParseErrorKind::UnexpectedToken, pos: k + 1 });
                    },
                }
            },
        }
    }
}

fn parse_fn_call(tokens: &Vec<Token>, i: usize, ident: &String) -> (r: Result<
    (FnCall, usize),
    ParseError,
>)
    ensures
        res_matches(
            r,
            match spec_parse_fn_args(tokens.deep_view(), i as int) {
                Ok((args, j)) => Ok::<_, ParseError>(
                    (FnCallV { name: ident@, args }, j),
                ),
                Err(e) => Err(e),
            },
        ),
{
    match parse_fn_arg(tokens, i) {
        Err(e) => Err(e),
        Ok((args, j)) => {
            proof {
                crate::ast::lemma_exprs_view_is_deep_view(args);
            }
            Ok((FnCall { name: ident.clone(), args }, j))
        },
    }
}

fn parse_expr(tokens: &Vec<Token>, i: usize) -> (r: Result<(Expr, usize), ParseError>)
    ensures
        res_matches(r, spec_parse_expr(tokens.deep_view(), i as int)),
{
    let ghost dv = tokens.deep_view();
    if i >= tokens.len() {
        return Err(ParseError { kind: ParseErrorKind::UnexpectedEof, pos: tokens.len() });
    }
    if i + 1 >= tokens.len() {
        return Err(ParseError { kind: ParseErrorKind::UnexpectedEof, pos: tokens.len() });
    }
    proof {
        assert(dv[i as int] == tokens@[i as int]@);
        assert(dv[i as int + 1] == tokens@[i as int + 1]@);
    }
    match &tokens[i + 1] {
        Token::Operator(op) => {
            let op = *op;
            match operand_expr(&tokens[i]) {
                None => Err(ParseError { kind: ParseErrorKind::UnexpectedToken, pos: i }),
                Some(left) => {
                    if i + 2 >= tokens.len() {
                        return Err(
                            ParseError { kind: ParseErrorKind::UnexpectedEof, pos: tokens.len() },
                        );
                    }
                    proof {
                        assert(dv[i as int + 2] == tokens@[i as int + 2]@);
                    }
                    match operand_expr(&tokens[i + 2]) {
                        None => Err(
                            ParseError { kind: ParseErrorKind::UnexpectedToken, pos: i + 2 },
                        ),
                        Some(right) => Ok(
                            (
                                Expr::ExprBinaryOp {
                                    left: Box::new(left),
                                    op,
                                    right: Box::new(right),
                                },
                                i + 3,
                            ),
                        ),
                    }
                },
            }
        },
        Token::Semicolon => match operand_expr(&tokens[i]) {
            None => Err(ParseError { kind: ParseErrorKind::UnexpectedToken, pos: i }),
            Some(e) => Ok((e, i + 1)),
        },
        Token::LParentheses => match &tokens[i] {
            Token::Identifier(name) => match parse_fn_call(tokens, i + 1, name) {
                Err(e) => Err(e),
                Ok((call, j)) => Ok((Expr::ExprFnCall(call), j)),
            },
            _ => Err(ParseError { kind: ParseErrorKind::UnexpectedToken, pos: i }),
        },
        _ => Err(ParseError { kind: ParseErrorKind::UnexpectedToken, pos: i + 1 }),
    }
}

fn parse_let_statement(tokens: &Vec<Token>, i: usize) -> (r: Result<(Statement, usize), ParseError>)
    ensures
        res_matches(r, spec_parse_let(tokens.deep_view(), i as int)),
{
    let ghost dv = tokens.deep_view();
    if i >= tokens.len() {
        return Err(ParseError { kind: ParseErrorKind::UnexpectedEof, pos: tokens.len() });
    }
    proof {
        assert(dv[i as int] == tokens@[i as int]@);
    }
    let name = match &tokens[i] {
        Token::Identifier(n) => n.clone(),
        _ => {
            return Err(ParseError { kind: ParseErrorKind::UnexpectedToken, pos: i });
        },
    };
    if i + 1 >= tokens.len() {
        return Err(ParseError { kind: ParseErrorKind::UnexpectedEof, pos: tokens.len() });
    }
    proof {
        assert(dv[i as int + 1] == tokens@[i as int + 1]@);
    }
    let var_type: String;
    let k: usize;
    let annotated = match &tokens[i + 1] {
        Token::Collon => true,
        _ => false,
    };
    if annotated {
        if i + 2 >= tokens.len() {
            return Err(ParseError { kind: ParseErrorKind::UnexpectedEof, pos: tokens.len() });
        }
        proof {
            assert(dv[i as int + 2] == tokens@[i as int + 2]@);
        }
        match &tokens[i + 2] {
            Token::Type(t) => {
                var_type = String::from_str(t.name_str());
                k = i + 3;
            },
            _ => {
                return Err(ParseError { kind: ParseErrorKind::UnexpectedToken, pos: i + 2 });
            },
        }
    } else {
        var_type = String::new();
        k = i + 1;
    }
    if k >= tokens.len() {
        return Err(ParseError { kind: ParseErrorKind::UnexpectedEof, pos: tokens.len() });
    }
    proof {
        assert(dv[k as int] == tokens@[k as int]@);
    }
    let eq_sign = match &tokens[k] {
        Token::Identifier(s) => str_eq(s.as_str(), "="),
        _ => false,
    };
    if !eq_sign {
        return Err(ParseError { kind: ParseErrorKind::UnexpectedToken, pos: k });
    }
    match parse_expr(tokens, k + 1) {
        Err(e) => Err(e),
        Ok((value, j)) => {
            if j >= tokens.len() {
                return Err(ParseError { kind: ParseErrorKind::UnexpectedEof, pos: tokens.len() });
            }
            proof {
                assert(dv[j as int] == tokens@[j as int]@);
            }
            match &tokens[j] {
                Token::Semicolon => Ok(
                    (Statement::Local(Local { name, var_type, value }), j + 1),
                ),
                _ => Err(ParseError { kind: ParseErrorKind::UnexpectedToken, pos: j }),
            }
        },
    }
}

fn parse_statement(tokens: &Vec<Token>, i: usize) -> (r: Result<(Statement, usize), ParseError>)
    ensures
        res_matches(r, spec_parse_statement(tokens.deep_view(), i as int)),
{
    let ghost dv = tokens.deep_view();
    if i >= tokens.len() {
        return Err(ParseError { kind: ParseErrorKind::UnexpectedEof, pos: tokens.len() });
    }
    proof {
        assert(dv[i as int] == tokens@[i as int]@);
    }
    match &tokens[i] {
        Token::Let => parse_let_statement(tokens, i + 1),
        Token::Identifier(name) => {
            if i + 1 >= tokens.len() {
                return Err(ParseError { kind: ParseErrorKind::UnexpectedEof, pos: tokens.len() });
            }
            proof {
                assert(dv[i as int + 1] == tokens@[i as int + 1]@);
            }
            let is_call = match &tokens[i + 1] {
                Token::LParentheses => true,
                _ => false,
            };
            if is_call {
                match parse_fn_call(tokens, i + 1, name) {
                    Err(e) => Err(e),
                    Ok((call, j)) => {
                        if j >= tokens.len() {
                            return Err(
                                ParseError {
                                    kind: ParseErrorKind::UnexpectedEof,
                                    pos: tokens.len(),
                                },
                            );
                        }
                        proof {
                            assert(dv[j as int] == tokens@[j as int]@);
                        }
                        match &tokens[j] {
                            Token::Semicolon => Ok((Statement::FnCall(call), j + 1)),
                            _ => Err(ParseError { kind: ParseErrorKind::UnexpectedToken, pos: j }),
                        }
                    },
                }
            } else {
                Err(ParseError { kind: ParseErrorKind::UnexpectedToken, pos: i + 1 })
            }
        },
        Token::Return => match parse_expr(tokens, i + 1) {
            Err(e) => Err(e),
            Ok((value, j)) => {
                if j >= tokens.len() {
                    return Err(
                        ParseError { kind: ParseErrorKind::UnexpectedEof, pos: tokens.len() },
                    );
                }
                proof {
                    assert(dv[j as int] == tokens@[j as int]@);
                }
                match &tokens[j] {
                    Token::Semicolon => Ok((Statement::Return(value), j + 1)),
                    _ => Err(ParseError { kind: ParseErrorKind::UnexpectedToken, pos: j }),
                }
            },
        },
        _ => Err(ParseError { kind: ParseErrorKind::UnexpectedToken, pos: i }),
    }
}

fn parse_block(tokens: &Vec<Token>, i: usize) -> (r: Result<(Vec<Statement>, usize), ParseError>)
    ensures
        res_matches(r, spec_parse_block(tokens.deep_view(), i as int)),
{
    let ghost dv = tokens.deep_view();
    if i >= tokens.len() {
        return Err(ParseError { kind: ParseErrorKind::UnexpectedEof, pos: tokens.len() });
    }
    proof {
        assert(dv[i as int] == tokens@[i as int]@);
    }
    match &tokens[i] {
        Token::LBrace => {},
        _ => {
            return Err(ParseError { kind: ParseErrorKind::UnexpectedToken, pos: i });
        },
    }
    let mut statements: Vec<Statement> = Vec::new();
    let mut k: usize = i + 1;
    proof {
        assert(statements.deep_view() =~= Seq::<StatementV>::empty());
    }
    loop
        invariant
            dv == tokens.deep_view(),
            dv.len() == tokens@.len(),
            i < tokens@.len(),
            k <= tokens@.len(),
            dv[i as int] is LBrace,
            spec_parse_block_stmts(dv, k as int, statements.deep_view()) == spec_parse_block(
                dv,
                i as int,
            ),
        decreases tokens@.len() - k,
    {
        let ghost accv = statements.deep_view();
        if k >= tokens.len() {
            return Err(ParseError { kind: ParseErrorKind::UnexpectedEof, pos: tokens.len() });
        }
        proof {
            assert(dv[k as int] == tokens@[k as int]@);
        }
        match &tokens[k] {
            Token::RBrace => {
                return Ok((statements, k + 1));
            },
            _ => {},
        }
        match parse_statement(tokens, k) {
            Err(e) => {
                return Err(e);
            },
            Ok((s, j)) => {
                proof {
                    lemma_parse_statement_progress(dv, k as int);
                }
                let ghost sv = s.deep_view();
                statements.push(s);
                proof {
                    assert(statements.deep_view() =~= accv.push(sv));
                }
                k = j;
            },
        }
    }
}

fn parse_item_fn(tokens: &Vec<Token>, i: usize) -> (r: Result<(Item, usize), ParseError>)
    ensures
        res_matches(
            r,
            match spec_parse_signature(tokens.deep_view(), i as int) {
                Err(e) => Err(e),
                Ok((signature, j)) => match spec_parse_block(tokens.deep_view(), j) {
                    Err(e) => Err(e),
                    Ok((block, k)) => Ok((ItemV::ItemFn(ItemFnV { signature, block }), k)),
                },
            },
        ),
{
    match parse_fn_signature(tokens, i) {
        Err(e) => Err(e),
        Ok((signature, j)) => match parse_block(tokens, j) {
            Err(e) => Err(e),
            Ok((block, k)) => Ok((Item::ItemFn(ItemFn { signature, block }), k)),
        },
    }
}

fn parse_item(tokens: &Vec<Token>, i: usize) -> (r: Result<(Item, usize), ParseError>)
    ensures
        res_matches(r, spec_parse_item(tokens.deep_view(), i as int)),
{
    let ghost dv = tokens.deep_view();
    if i >= tokens.len() {
        return Err(ParseError { kind: ParseErrorKind::UnexpectedEof, pos: tokens.len() });
    }
    proof {
        assert(dv[i as int] == tokens@[i as int]@);
    }
    match &tokens[i] {
        Token::Fn => parse_item_fn(tokens, i + 1),
        _ => Err(ParseError { kind: ParseErrorKind::UnexpectedToken, pos: i }),
    }
}

#[verifier::loop_isolation(false)]
fn parse_fn_signature(tokens: &Vec<Token>, i: usize) -> (r: Result<(FnSignature, usize), ParseError>)
    ensures
        res_matches(r, spec_parse_signature(tokens.deep_view(), i as int)),
{
    let ghost dv = tokens.deep_view();
    if i >= tokens.len() {
        return Err(ParseError { kind: ParseErrorKind::UnexpectedEof, pos: tokens.len() });
    }
    proof {
        assert(dv[i as int] == tokens@[i as int]@);
    }
    let ident = match &tokens[i] {
        Token::Identifier(name) => name.clone(),
        _ => {
            return Err(ParseError { kind: ParseErrorKind::UnexpectedToken, pos: i });
        },
    };
    if i + 1 >= tokens.len() {
        return Err(ParseError { kind: ParseErrorKind::UnexpectedEof, pos: tokens.len() });
    }
    proof {
        assert(dv[i as int + 1] == tokens@[i as int + 1]@);
    }
    match &tokens[i + 1] {
        Token::LParentheses => {},
        _ => {
            return Err(ParseError { kind: ParseErrorKind::UnexpectedToken, pos: i + 1 });
        },
    }
    let mut args: Vec<FnParams> = Vec::new();
    let mut k: usize = i + 2;
    proof {
        assert(args.deep_view() =~= Seq::<FnParamsV>::empty());
    }
    loop
        invariant
            k <= tokens@.len(),
            spec_parse_params(dv, k as int, args.deep_view()) == spec_parse_params(
                dv,
                i as int + 2,
                Seq::empty(),
            ),
        decreases tokens@.len() - k,
    {
        let ghost accv = args.deep_view();
        if k >= tokens.len() {
            return Err(ParseError { kind: ParseErrorKind::UnexpectedEof, pos: tokens.len() });
        }
        proof {
            assert(dv[k as int] == tokens@[k as int]@);
        }
        let closed = match &tokens[k] {
            Token::RParentheses => true,
            _ => false,
        };
        if closed {
            k = k + 1;
            break ;
        }
        match parse_fn_params(tokens, k) {
            Err(e) => {
                return Err(e);
            },
            Ok((param, j)) => {
                proof {
                    lemma_parse_param_progress(dv, k as int);
                }
                let ghost pv = param.deep_view();
                args.push(param);
                proof {
                    assert(args.deep_view() =~= accv.push(pv));
                }
                k = j;
            },
        }
    }
    let output: Option<String>;
    let j: usize;
    let has_output = if k < tokens.len() {
        proof {
            assert(dv[k as int] == tokens@[k as int]@);
        }
        match &tokens[k] {
            Token::Collon => true,
            _ => false,
        }
    } else {
        false
    };
    if has_output {
        if k + 1 >= tokens.len() {
            return Err(ParseError { kind: ParseErrorKind::UnexpectedEof, pos: tokens.len() });
        }
        proof {
            assert(dv[k as int + 1] == tokens@[k as int + 1]@);
        }
        match &tokens[k + 1] {
            Token::Type(t) => {
                output = Some(String::from_str(t.name_str()));
                j = k + 2;
            },
            _ => {
                return Err(ParseError { kind: ParseErrorKind::UnexpectedToken, pos: k + 1 });
            },
        }
    } else {
        output = None;
        j = k;
    }
    Ok((FnSignature { ident, args, output }, j))
}

fn parse_fn_params(tokens: &Vec<Token>, i: usize) -> (r: Result<(FnParams, usize), ParseError>)
    ensures
        res_matches(r, spec_parse_param(tokens.deep_view(), i as int)),
{
    let ghost dv = tokens.deep_view();
    if i >= tokens.len() {
        return Err(ParseError { kind: ParseErrorKind::UnexpectedEof, pos: tokens.len() });
    }
    proof {
        assert(dv[i as int] == tokens@[i as int]@);
    }
    let name = match &tokens[i] {
        Token::Identifier(n) => n.clone(),
        _ => {
            return Err(ParseError { kind: ParseErrorKind::UnexpectedToken, pos: i });
        },
    };
    if i + 1 >= tokens.len() {
        return Err(ParseError { kind: ParseErrorKind::UnexpectedEof, pos: tokens.len() });
    }
    proof {
        assert(dv[i as int + 1] == tokens@[i as int + 1]@);
    }
    match &tokens[i + 1] {
        Token::Collon => {},
        _ => {
            return Err(ParseError { kind: ParseErrorKind::UnexpectedToken, pos: i + 1 });
        },
    }
    if i + 2 >= tokens.len() {
        return Err(ParseError { kind: ParseErrorKind::UnexpectedEof, pos: tokens.len() });
    }
    proof {
        assert(dv[i as int + 2] == tokens@[i as int + 2]@);
    }
    let arg_type = match &tokens[i + 2] {
        Token::Type(t) => String::from_str(t.name_str()),
        _ => {
            return Err(ParseError { kind: ParseErrorKind::UnexpectedToken, pos: i + 2 });
        },
    };
    let trailing_comma = if i + 3 < tokens.len() {
        proof {
            assert(dv[i as int + 3] == tokens@[i as int + 3]@);
        }
        match &tokens[i + 3] {
            Token::Comma => true,
            _ => false,
        }
    } else {
        false
    };
    let param = FnParams { name, arg_type };
    if trailing_comma {
        Ok((param, i + 4))
    } else {
        Ok((param, i + 3))
    }
}

/// Parses a complete token stream into a program: the items in source
/// order, or the first fault met.
pub fn parse_to_program(tokens: Vec<Token>) -> (r: Result<Program, ParseError>)
    ensures
        res_value_matches(r, spec_parse_program(tokens.deep_view())),
{
    let ghost dv = tokens.deep_view();
    let mut items: Vec<Item> = Vec::new();
    let mut i: usize = 0;
    proof {
        assert(items.deep_view() =~= Seq::<ItemV>::empty());
    }
    while i < tokens.len()
        invariant
            dv == tokens.deep_view(),
            dv.len() == tokens@.len(),
            i <= tokens@.len(),
            spec_parse_items(dv, i as int, items.deep_view()) == spec_parse_items(
                dv,
                0,
                Seq::empty(),
            ),
        decreases tokens@.len() - i,
    {
        let ghost accv = items.deep_view();
        match parse_item(&tokens, i) {
            Err(e) => {
                return Err(e);
            },
            Ok((it, j)) => {
                proof {
                    lemma_parse_item_progress(dv, i as int);
                }
                let ghost iv = it.deep_view();
                items.push(it);
                proof {
                    assert(items.deep_view() =~= accv.push(iv));
                }
                i = j;
            },
        }
    }
    Ok(Program { items })
}

/// Parses source text: it chunks, lexes, and builds the syntax tree.
pub fn parse(source_code: &String) -> (r: Result<Program, ParseError>)
    ensures
        res_value_matches(r, spec_parse_source(source_code@)),
{
    let chunks = to_token_chunks(source_code.as_str());
    let token_iter = to_token_stream(chunks);
    parse_to_program(token_iter)
}

} // verus!
