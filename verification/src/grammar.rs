//! The supported grammar, stated generatively: a rendering of every
//! well-formed syntax tree into its token sequence, and the proof that
//! the parser accepts every such sequence and rebuilds exactly that
//! tree. This is the parser's totality on the grammar: no syntactically
//! valid program is ever rejected, and items come back in source order.
use vstd::prelude::*;

use crate::ast::{ExprV, FnParamsV, FnSignatureV, ItemV, LocalV, ProgramV, StatementV};
use crate::errors::ParseError;
use crate::parser::{
    spec_operand, spec_parse_args, spec_parse_block, spec_parse_block_stmts, spec_parse_expr,
    spec_parse_fn_args, spec_parse_item, spec_parse_items, spec_parse_let, spec_parse_let_tail,
    spec_parse_param, spec_parse_params, spec_parse_program, spec_parse_signature,
    spec_parse_statement,
};
use crate::text::is_numeric;
use crate::token::{type_chars, TokenV, Type};

verus! {

/// Whether a leaf can stand as an operand or argument and read back as
/// itself: any literal, or a variable whose name is not a digit run.
pub open spec fn wf_operand(e: ExprV) -> bool {
    match e {
        ExprV::ExprLit(_) => true,
        ExprV::ExprVariable(s) => !is_numeric(s),
        _ => false,
    }
}

/// Whether every argument of a call is a well-formed leaf.
pub open spec fn wf_args(args: Seq<ExprV>) -> bool {
    forall|i: int| 0 <= i < args.len() ==> wf_operand(#[trigger] args[i])
}

/// Whether an expression fits the grammar: a leaf, one binary
/// application of leaves, or a call with leaf arguments.
pub open spec fn wf_expr(e: ExprV) -> bool {
    match e {
        ExprV::ExprLit(_) => true,
        ExprV::ExprVariable(s) => !is_numeric(s),
        ExprV::ExprBinaryOp { left, op: _, right } => wf_operand(*left) && wf_operand(*right),
        ExprV::ExprFnCall(call) => wf_args(call.args),
    }
}

/// Whether a name is the spelling of a type annotation.
pub open spec fn wf_type_name(s: Seq<char>) -> bool {
    s == "I32"@ || s == "F64"@
}

/// Whether a statement fits the grammar.
pub open spec fn wf_stmt(st: StatementV) -> bool {
    match st {
        StatementV::Local(l) => (l.var_type == Seq::<char>::empty() || wf_type_name(l.var_type))
            && wf_expr(l.value),
        StatementV::FnCall(call) => wf_args(call.args),
        StatementV::Return(e) => wf_expr(e),
    }
}

/// Whether every statement of a block fits the grammar.
pub open spec fn wf_stmts(stmts: Seq<StatementV>) -> bool {
    forall|i: int| 0 <= i < stmts.len() ==> wf_stmt(#[trigger] stmts[i])
}

/// Whether a signature fits the grammar: every parameter annotated with
/// a type name, and so the return annotation when present.
pub open spec fn wf_sig(sig: FnSignatureV) -> bool {
    &&& forall|i: int| 0 <= i < sig.args.len() ==> wf_type_name((#[trigger] sig.args[i]).arg_type)
    &&& match sig.output {
        None => true,
        Some(t) => wf_type_name(t),
    }
}

/// Whether an item fits the grammar. Only function items do: the
/// grammar has no production for constant items.
pub open spec fn wf_item(item: ItemV) -> bool {
    match item {
        ItemV::ItemFn(f) => wf_sig(f.signature) && wf_stmts(f.block),
        ItemV::ItemConst(_) => false,
    }
}

/// Whether a whole program fits the grammar.
pub open spec fn wf_program(p: ProgramV) -> bool {
    forall|i: int| 0 <= i < p.items.len() ==> wf_item(#[trigger] p.items[i])
}

/// The token a leaf renders to.
pub open spec fn render_operand(e: ExprV) -> TokenV {
    match e {
        ExprV::ExprLit(s) => TokenV::Literal(s),
        ExprV::ExprVariable(s) => TokenV::Identifier(s),
        _ => TokenV::Literal(Seq::empty()),
    }
}

/// The type token of a spelled annotation.
pub open spec fn type_token(s: Seq<char>) -> TokenV {
    if s == "I32"@ {
        TokenV::Type(Type::I32)
    } else {
        TokenV::Type(Type::F64)
    }
}

/// The comma-separated argument tokens of a call, parentheses excluded.
pub open spec fn render_args_list(args: Seq<ExprV>) -> Seq<TokenV>
    decreases args.len(),
{
    if args.len() == 0 {
        Seq::empty()
    } else if args.len() == 1 {
        seq![render_operand(args[0])]
    } else {
        seq![render_operand(args[0]), TokenV::Comma] + render_args_list(args.drop_first())
    }
}

/// A call's argument tokens, parentheses included.
pub open spec fn render_call_args(args: Seq<ExprV>) -> Seq<TokenV> {
    seq![TokenV::LParentheses] + render_args_list(args) + seq![TokenV::RParentheses]
}

/// An expression's tokens.
pub open spec fn render_expr(e: ExprV) -> Seq<TokenV> {
    match e {
        ExprV::ExprBinaryOp { left, op, right } => seq![
            render_operand(*left),
            TokenV::Operator(op),
            render_operand(*right),
        ],
        ExprV::ExprFnCall(call) => seq![TokenV::Identifier(call.name)] + render_call_args(
            call.args,
        ),
        _ => seq![render_operand(e)],
    }
}

/// A `let` statement's tokens.
pub open spec fn render_local(l: LocalV) -> Seq<TokenV> {
    seq![TokenV::Let, TokenV::Identifier(l.name)] + (if l.var_type == Seq::<char>::empty() {
        Seq::<TokenV>::empty()
    } else {
        seq![TokenV::Collon, type_token(l.var_type)]
    }) + seq![TokenV::Identifier("="@)] + render_expr(l.value) + seq![TokenV::Semicolon]
}

/// A statement's tokens.
pub open spec fn render_stmt(st: StatementV) -> Seq<TokenV> {
    match st {
        StatementV::Local(l) => render_local(l),
        StatementV::FnCall(call) => seq![TokenV::Identifier(call.name)] + render_call_args(
            call.args,
        ) + seq![TokenV::Semicolon],
        StatementV::Return(e) => seq![TokenV::Return] + render_expr(e) + seq![TokenV::Semicolon],
    }
}

/// A block's statement tokens, braces excluded.
pub open spec fn render_stmts(stmts: Seq<StatementV>) -> Seq<TokenV>
    decreases stmts.len(),
{
    if stmts.len() == 0 {
        Seq::empty()
    } else {
        render_stmt(stmts[0]) + render_stmts(stmts.drop_first())
    }
}

/// A signature's parameter tokens, parentheses excluded.
pub open spec fn render_params(params: Seq<FnParamsV>) -> Seq<TokenV>
    decreases params.len(),
{
    if params.len() == 0 {
        Seq::empty()
    } else if params.len() == 1 {
        seq![TokenV::Identifier(params[0].name), TokenV::Collon, type_token(params[0].arg_type)]
    } else {
        seq![
            TokenV::Identifier(params[0].name),
            TokenV::Collon,
            type_token(params[0].arg_type),
            TokenV::Comma,
        ] + render_params(params.drop_first())
    }
}

/// A signature's tokens: name, parenthesised parameters, optional
/// return annotation.
pub open spec fn render_sig(sig: FnSignatureV) -> Seq<TokenV> {
    seq![TokenV::Identifier(sig.ident), TokenV::LParentheses] + render_params(sig.args) + seq![
        TokenV::RParentheses,
    ] + (match sig.output {
        None => Seq::<TokenV>::empty(),
        Some(t) => seq![TokenV::Collon, type_token(t)],
    })
}

/// A function item's tokens.
pub open spec fn render_item(item: ItemV) -> Seq<TokenV> {
    match item {
        ItemV::ItemFn(f) => seq![TokenV::Fn] + render_sig(f.signature) + seq![TokenV::LBrace]
            + render_stmts(f.block) + seq![TokenV::RBrace],
        ItemV::ItemConst(_) => Seq::empty(),
    }
}

/// A program's tokens: its items, in order.
pub open spec fn render_items(items: Seq<ItemV>) -> Seq<TokenV>
    decreases items.len(),
{
    if items.len() == 0 {
        Seq::empty()
    } else {
        render_item(items[0]) + render_items(items.drop_first())
    }
}

/// A program's token sequence.
pub open spec fn render_program(p: ProgramV) -> Seq<TokenV> {
    render_items(p.items)
}

proof fn lemma_tok_at(toks: Seq<TokenV>, i: int, r: Seq<TokenV>, j: int)
    requires
        0 <= i,
        0 <= j < r.len(),
        i + r.len() <= toks.len(),
        toks.subrange(i, i + r.len()) == r,
    ensures
        toks[i + j] == r[j],
{
    assert(toks.subrange(i, i + r.len())[j] == toks[i + j]);
}

proof fn lemma_subrange_split(toks: Seq<TokenV>, i: int, a: Seq<TokenV>, b: Seq<TokenV>)
    requires
        0 <= i,
        i + a.len() + b.len() <= toks.len(),
        toks.subrange(i, i + a.len() + b.len()) == a + b,
    ensures
        toks.subrange(i, i + a.len()) == a,
        toks.subrange(i + a.len(), i + a.len() + b.len()) == b,
{
    assert forall|j: int| 0 <= j < a.len() implies toks.subrange(i, i + a.len())[j] == a[j] by {
        assert(toks.subrange(i, i + a.len() + b.len())[j] == toks[i + j]);
        assert(toks.subrange(i, i + a.len())[j] == toks[i + j]);
        assert((a + b)[j] == a[j]);
    }
    assert(toks.subrange(i, i + a.len()) =~= a);
    assert forall|j: int|
        0 <= j < b.len() implies toks.subrange(i + a.len(), i + a.len() + b.len())[j] == b[j] by {
        assert(toks.subrange(i, i + a.len() + b.len())[a.len() + j] == toks[i + a.len() + j]);
        assert(toks.subrange(i + a.len(), i + a.len() + b.len())[j] == toks[i + a.len() + j]);
        assert((a + b)[a.len() + j] == b[j]);
    }
    assert(toks.subrange(i + a.len(), i + a.len() + b.len()) =~= b);
}

proof fn rt_args(toks: Seq<TokenV>, i: int, args: Seq<ExprV>, acc: Seq<ExprV>)
    requires
        wf_args(args),
        0 <= i,
        i + render_args_list(args).len() < toks.len(),
        toks.subrange(i, i + render_args_list(args).len()) == render_args_list(args),
        toks[i + render_args_list(args).len()] is RParentheses,
    ensures
        spec_parse_args(toks, i, acc) == Ok::<_, ParseError>(
            (acc + args, i + render_args_list(args).len() + 1),
        ),
    decreases args.len(),
{
    let rl = render_args_list(args);
    if args.len() == 0 {
        assert(acc + args =~= acc);
    } else {
        assert(wf_operand(args[0]));
        lemma_tok_at(toks, i, rl, 0);
        assert(rl[0] == render_operand(args[0]));
        assert(spec_operand(toks[i]) == Some(args[0]));
        assert(!(toks[i] is RParentheses));
        if args.len() == 1 {
            assert(toks[i + 1] is RParentheses);
            assert(spec_parse_args(toks, i, acc) == spec_parse_args(toks, i + 1, acc.push(args[0])));
            assert(spec_parse_args(toks, i + 1, acc.push(args[0])) == Ok::<_, ParseError>(
                (acc.push(args[0]), i + 2),
            ));
            assert(acc.push(args[0]) =~= acc + args);
        } else {
            lemma_tok_at(toks, i, rl, 1);
            assert(rl[1] == TokenV::Comma);
            assert(toks[i + 1] is Comma);
            let rest = args.drop_first();
            let head: Seq<TokenV> = seq![render_operand(args[0]), TokenV::Comma];
            assert(rl =~= head + render_args_list(rest));
            lemma_subrange_split(toks, i, head, render_args_list(rest));
            assert(forall|k: int| 0 <= k < rest.len() ==> wf_operand(#[trigger] rest[k]));
            rt_args(toks, i + 2, rest, acc.push(args[0]));
            assert(spec_parse_args(toks, i, acc) == spec_parse_args(
                toks,
                i + 2,
                acc.push(args[0]),
            ));
            assert(acc.push(args[0]) + rest =~= acc + args);
        }
    }
}

proof fn rt_call_args(toks: Seq<TokenV>, i: int, args: Seq<ExprV>)
    requires
        wf_args(args),
        0 <= i,
        i + render_call_args(args).len() <= toks.len(),
        toks.subrange(i, i + render_call_args(args).len()) == render_call_args(args),
    ensures
        spec_parse_fn_args(toks, i) == Ok::<_, ParseError>(
            (args, i + render_call_args(args).len()),
        ),
{
    let rc = render_call_args(args);
    let rl = render_args_list(args);
    assert(rc.len() == rl.len() + 2);
    lemma_tok_at(toks, i, rc, 0);
    assert(rc[0] == TokenV::LParentheses);
    let tail: Seq<TokenV> = rl + seq![TokenV::RParentheses];
    assert(rc =~= seq![TokenV::LParentheses] + tail);
    lemma_subrange_split(toks, i, seq![TokenV::LParentheses], tail);
    lemma_subrange_split(toks, i + 1, rl, seq![TokenV::RParentheses]);
    lemma_tok_at(toks, i + 1 + rl.len(), seq![TokenV::RParentheses], 0);
    rt_args(toks, i + 1, args, Seq::empty());
    assert(Seq::<ExprV>::empty() + args =~= args);
}

proof fn rt_expr(toks: Seq<TokenV>, i: int, e: ExprV)
    requires
        wf_expr(e),
        0 <= i,
        i + render_expr(e).len() < toks.len(),
        toks.subrange(i, i + render_expr(e).len()) == render_expr(e),
        toks[i + render_expr(e).len()] is Semicolon,
    ensures
        spec_parse_expr(toks, i) == Ok::<_, ParseError>((e, i + render_expr(e).len())),
{
    let r = render_expr(e);
    match e {
        ExprV::ExprBinaryOp { left, op, right } => {
            lemma_tok_at(toks, i, r, 0);
            lemma_tok_at(toks, i, r, 1);
            lemma_tok_at(toks, i, r, 2);
            assert(toks[i + 1] == TokenV::Operator(op));
            assert(spec_operand(toks[i]) == Some(*left));
            assert(spec_operand(toks[i + 2]) == Some(*right));
        },
        ExprV::ExprFnCall(call) => {
            lemma_tok_at(toks, i, r, 0);
            lemma_tok_at(toks, i, r, 1);
            assert(r[1] == render_call_args(call.args)[0]);
            assert(toks[i] == TokenV::Identifier(call.name));
            assert(toks[i + 1] is LParentheses);
            assert(r =~= seq![TokenV::Identifier(call.name)] + render_call_args(call.args));
            lemma_subrange_split(
                toks,
                i,
                seq![TokenV::Identifier(call.name)],
                render_call_args(call.args),
            );
            rt_call_args(toks, i + 1, call.args);
        },
        _ => {
            lemma_tok_at(toks, i, r, 0);
            assert(toks[i + 1] is Semicolon);
            assert(spec_operand(toks[i]) == Some(e));
        },
    }
}

proof fn rt_let(toks: Seq<TokenV>, i: int, l: LocalV)
    requires
        wf_stmt(StatementV::Local(l)),
        0 <= i,
        i + render_local(l).len() <= toks.len(),
        toks.subrange(i, i + render_local(l).len()) == render_local(l),
    ensures
        spec_parse_let(toks, i + 1) == Ok::<_, ParseError>(
            (StatementV::Local(l), i + render_local(l).len()),
        ),
{
    let r = render_local(l);
    let annot: Seq<TokenV> = if l.var_type == Seq::<char>::empty() {
        Seq::empty()
    } else {
        seq![TokenV::Collon, type_token(l.var_type)]
    };
    let prefix = seq![TokenV::Let, TokenV::Identifier(l.name)] + annot + seq![
        TokenV::Identifier("="@),
    ];
    let re = render_expr(l.value);
    let k = i + 2 + annot.len() as int;  // index of the `=` sign
    assert(r =~= prefix + (re + seq![TokenV::Semicolon]));
    lemma_subrange_split(toks, i, prefix, re + seq![TokenV::Semicolon]);
    let estart = k + 1;
    assert(estart == i + prefix.len());
    lemma_subrange_split(toks, estart, re, seq![TokenV::Semicolon]);
    lemma_tok_at(toks, estart + re.len(), seq![TokenV::Semicolon], 0);
    lemma_tok_at(toks, i, prefix, 1);
    assert(prefix[1] == TokenV::Identifier(l.name));
    assert(toks[i + 1] == TokenV::Identifier(l.name));
    lemma_tok_at(toks, i, prefix, 2 + annot.len() as int);
    assert(prefix[2 + annot.len() as int] == TokenV::Identifier("="@)) by {
        let head = seq![TokenV::Let, TokenV::Identifier(l.name)] + annot;
        assert(head.len() == 2 + annot.len());
        assert((head + seq![TokenV::Identifier("="@)])[head.len() as int] == seq![
            TokenV::Identifier("="@),
        ][0]);
    }
    assert(toks[k] == TokenV::Identifier(l.name) || toks[k] == TokenV::Identifier("="@));
    assert(toks[k] == TokenV::Identifier("="@));
    rt_expr(toks, estart, l.value);
    if l.var_type == Seq::<char>::empty() {
        assert(annot.len() == 0);
        assert(toks[i + 2] == TokenV::Identifier("="@));
        assert(!(toks[i + 2] is Collon));
        assert(spec_parse_let(toks, i + 1) == spec_parse_let_tail(
            toks,
            i + 2,
            l.name,
            Seq::empty(),
        ));
    } else {
        lemma_tok_at(toks, i, prefix, 2);
        lemma_tok_at(toks, i, prefix, 3);
        assert(prefix[2] == TokenV::Collon) by {
            assert((seq![TokenV::Let, TokenV::Identifier(l.name)] + annot)[2] == annot[0]);
        }
        assert(prefix[3] == type_token(l.var_type)) by {
            assert((seq![TokenV::Let, TokenV::Identifier(l.name)] + annot)[3] == annot[1]);
        }
        assert(toks[i + 2] is Collon);
        assert(wf_type_name(l.var_type));
        assert(type_chars(type_token(l.var_type)->Type_0) == l.var_type);
        assert(spec_parse_let(toks, i + 1) == spec_parse_let_tail(toks, i + 4, l.name, l.var_type));
    }
}

proof fn rt_statement(toks: Seq<TokenV>, i: int, st: StatementV)
    requires
        wf_stmt(st),
        0 <= i,
        i + render_stmt(st).len() <= toks.len(),
        toks.subrange(i, i + render_stmt(st).len()) == render_stmt(st),
    ensures
        spec_parse_statement(toks, i) == Ok::<_, ParseError>((st, i + render_stmt(st).len())),
{
    let r = render_stmt(st);
    lemma_tok_at(toks, i, r, 0);
    match st {
        StatementV::Local(l) => {
            assert(r[0] == TokenV::Let);
            rt_let(toks, i, l);
        },
        StatementV::FnCall(call) => {
            let rc = render_call_args(call.args);
            assert(r =~= seq![TokenV::Identifier(call.name)] + rc + seq![TokenV::Semicolon]);
            assert(toks[i] == TokenV::Identifier(call.name));
            lemma_tok_at(toks, i, r, 1);
            assert(r[1] == rc[0]) by {
                assert((seq![TokenV::Identifier(call.name)] + rc + seq![TokenV::Semicolon])[1]
                    == rc[0]);
            }
            assert(toks[i + 1] is LParentheses);
            assert(r =~= (seq![TokenV::Identifier(call.name)] + rc) + seq![TokenV::Semicolon]);
            lemma_subrange_split(
                toks,
                i,
                seq![TokenV::Identifier(call.name)] + rc,
                seq![TokenV::Semicolon],
            );
            lemma_subrange_split(toks, i, seq![TokenV::Identifier(call.name)], rc);
            lemma_tok_at(toks, i + 1 + rc.len(), seq![TokenV::Semicolon], 0);
            rt_call_args(toks, i + 1, call.args);
        },
        StatementV::Return(e) => {
            assert(r[0] == TokenV::Return);
            let re = render_expr(e);
            assert(r =~= seq![TokenV::Return] + re + seq![TokenV::Semicolon]);
            assert(r =~= seq![TokenV::Return] + (re + seq![TokenV::Semicolon]));
            lemma_subrange_split(toks, i, seq![TokenV::Return], re + seq![TokenV::Semicolon]);
            lemma_subrange_split(toks, i + 1, re, seq![TokenV::Semicolon]);
            lemma_tok_at(toks, i + 1 + re.len(), seq![TokenV::Semicolon], 0);
            rt_expr(toks, i + 1, e);
        },
    }
}

proof fn rt_block_stmts(toks: Seq<TokenV>, i: int, stmts: Seq<StatementV>, acc: Seq<StatementV>)
    requires
        wf_stmts(stmts),
        0 <= i,
        i + render_stmts(stmts).len() < toks.len(),
        toks.subrange(i, i + render_stmts(stmts).len()) == render_stmts(stmts),
        toks[i + render_stmts(stmts).len()] is RBrace,
    ensures
        spec_parse_block_stmts(toks, i, acc) == Ok::<_, ParseError>(
            (acc + stmts, i + render_stmts(stmts).len() + 1),
        ),
    decreases stmts.len(),
{
    let rs = render_stmts(stmts);
    if stmts.len() == 0 {
        assert(acc + stmts =~= acc);
    } else {
        let r0 = render_stmt(stmts[0]);
        assert(wf_stmt(stmts[0]));
        assert(r0.len() > 0) by {
            match stmts[0] {
                StatementV::Local(l) => {},
                StatementV::FnCall(_) => {},
                StatementV::Return(_) => {},
            }
        }
        let rest = stmts.drop_first();
        assert(rs =~= r0 + render_stmts(rest));
        lemma_subrange_split(toks, i, r0, render_stmts(rest));
        lemma_tok_at(toks, i, r0, 0);
        assert(!(toks[i] is RBrace)) by {
            match stmts[0] {
                StatementV::Local(l) => {
                    assert(r0[0] == TokenV::Let);
                },
                StatementV::FnCall(call) => {
                    assert(r0[0] == TokenV::Identifier(call.name));
                },
                StatementV::Return(_) => {
                    assert(r0[0] == TokenV::Return);
                },
            }
        }
        rt_statement(toks, i, stmts[0]);
        assert(forall|k: int| 0 <= k < rest.len() ==> wf_stmt(#[trigger] rest[k]));
        rt_block_stmts(toks, i + r0.len(), rest, acc.push(stmts[0]));
        assert(acc.push(stmts[0]) + rest =~= acc + stmts);
    }
}

proof fn rt_params(toks: Seq<TokenV>, i: int, params: Seq<FnParamsV>, acc: Seq<FnParamsV>)
    requires
        forall|k: int| 0 <= k < params.len() ==> wf_type_name((#[trigger] params[k]).arg_type),
        0 <= i,
        i + render_params(params).len() < toks.len(),
        toks.subrange(i, i + render_params(params).len()) == render_params(params),
        toks[i + render_params(params).len()] is RParentheses,
    ensures
        spec_parse_params(toks, i, acc) == Ok::<_, ParseError>(
            (acc + params, i + render_params(params).len() + 1),
        ),
    decreases params.len(),
{
    let rp = render_params(params);
    if params.len() == 0 {
        assert(acc + params =~= acc);
    } else {
        let p0 = params[0];
        let pv = FnParamsV { name: p0.name, arg_type: type_chars(type_token(p0.arg_type)->Type_0) };
        lemma_tok_at(toks, i, rp, 0);
        lemma_tok_at(toks, i, rp, 1);
        lemma_tok_at(toks, i, rp, 2);
        assert(toks[i] == TokenV::Identifier(p0.name));
        assert(toks[i + 1] is Collon);
        assert(toks[i + 2] == type_token(p0.arg_type));
        assert(wf_type_name(p0.arg_type));
        assert(type_chars(type_token(p0.arg_type)->Type_0) == p0.arg_type);
        assert(pv == p0);
        if params.len() == 1 {
            assert(rp.len() == 3);
            assert(toks[i + 3] is RParentheses);
            assert(spec_parse_param(toks, i) == Ok::<_, ParseError>((p0, i + 3)));
            assert(spec_parse_params(toks, i, acc) == spec_parse_params(toks, i + 3, acc.push(p0)));
            assert(spec_parse_params(toks, i + 3, acc.push(p0)) == Ok::<_, ParseError>(
                (acc.push(p0), i + 4),
            ));
            assert(acc.push(p0) =~= acc + params);
        } else {
            lemma_tok_at(toks, i, rp, 3);
            assert(rp[3] == TokenV::Comma);
            assert(toks[i + 3] is Comma);
            assert(spec_parse_param(toks, i) == Ok::<_, ParseError>((p0, i + 4)));
            let rest = params.drop_first();
            let head: Seq<TokenV> = seq![
                TokenV::Identifier(p0.name),
                TokenV::Collon,
                type_token(p0.arg_type),
                TokenV::Comma,
            ];
            assert(rp =~= head + render_params(rest));
            lemma_subrange_split(toks, i, head, render_params(rest));
            assert(forall|k: int|
                0 <= k < rest.len() ==> wf_type_name((#[trigger] rest[k]).arg_type));
            rt_params(toks, i + 4, rest, acc.push(p0));
            assert(spec_parse_params(toks, i, acc) == spec_parse_params(toks, i + 4, acc.push(p0)));
            assert(acc.push(p0) + rest =~= acc + params);
        }
    }
}

proof fn rt_signature(toks: Seq<TokenV>, i: int, sig: FnSignatureV)
    requires
        wf_sig(sig),
        0 <= i,
        i + render_sig(sig).len() < toks.len(),
        toks.subrange(i, i + render_sig(sig).len()) == render_sig(sig),
        toks[i + render_sig(sig).len()] is LBrace,
    ensures
        spec_parse_signature(toks, i) == Ok::<_, ParseError>((sig, i + render_sig(sig).len())),
{
    let r = render_sig(sig);
    let rp = render_params(sig.args);
    let tail: Seq<TokenV> = match sig.output {
        None => Seq::empty(),
        Some(t) => seq![TokenV::Collon, type_token(t)],
    };
    assert(r =~= seq![TokenV::Identifier(sig.ident), TokenV::LParentheses] + rp + (seq![
        TokenV::RParentheses,
    ] + tail));
    lemma_tok_at(toks, i, r, 0);
    lemma_tok_at(toks, i, r, 1);
    assert(toks[i] == TokenV::Identifier(sig.ident));
    assert(toks[i + 1] is LParentheses);
    assert(r =~= (seq![TokenV::Identifier(sig.ident), TokenV::LParentheses] + rp) + (seq![
        TokenV::RParentheses,
    ] + tail));
    lemma_subrange_split(
        toks,
        i,
        seq![TokenV::Identifier(sig.ident), TokenV::LParentheses] + rp,
        seq![TokenV::RParentheses] + tail,
    );
    lemma_subrange_split(
        toks,
        i,
        seq![TokenV::Identifier(sig.ident), TokenV::LParentheses],
        rp,
    );
    let rpar = i + 2 + rp.len();
    lemma_tok_at(toks, rpar, seq![TokenV::RParentheses] + tail, 0);
    assert(toks[rpar] is RParentheses);
    rt_params(toks, i + 2, sig.args, Seq::empty());
    assert(Seq::<FnParamsV>::empty() + sig.args =~= sig.args);
    assert(spec_parse_params(toks, i + 2, Seq::empty()) == Ok::<_, ParseError>(
        (sig.args, rpar + 1),
    ));
    match sig.output {
        None => {
            assert(toks[rpar + 1] is LBrace);
            assert(!(toks[rpar + 1] is Collon));
        },
        Some(t) => {
            lemma_tok_at(toks, rpar, seq![TokenV::RParentheses] + tail, 1);
            lemma_tok_at(toks, rpar, seq![TokenV::RParentheses] + tail, 2);
            assert((seq![TokenV::RParentheses] + tail)[1] == TokenV::Collon);
            assert((seq![TokenV::RParentheses] + tail)[2] == type_token(t));
            assert(toks[rpar + 1] is Collon);
            assert(toks[rpar + 2] == type_token(t));
            assert(wf_type_name(t));
            assert(type_chars(type_token(t)->Type_0) == t);
        },
    }
}

proof fn rt_item(toks: Seq<TokenV>, i: int, item: ItemV)
    requires
        wf_item(item),
        0 <= i,
        i + render_item(item).len() <= toks.len(),
        toks.subrange(i, i + render_item(item).len()) == render_item(item),
    ensures
        spec_parse_item(toks, i) == Ok::<_, ParseError>((item, i + render_item(item).len())),
{
    let r = render_item(item);
    match item {
        ItemV::ItemFn(f) => {
            let rs = render_sig(f.signature);
            let rb = render_stmts(f.block);
            assert(r =~= seq![TokenV::Fn] + (rs + (seq![TokenV::LBrace] + rb + seq![
                TokenV::RBrace,
            ])));
            lemma_tok_at(toks, i, r, 0);
            assert(toks[i] is Fn);
            lemma_subrange_split(
                toks,
                i,
                seq![TokenV::Fn],
                rs + (seq![TokenV::LBrace] + rb + seq![TokenV::RBrace]),
            );
            lemma_subrange_split(toks, i + 1, rs, seq![TokenV::LBrace] + rb + seq![TokenV::RBrace]);
            let lb = i + 1 + rs.len();
            lemma_tok_at(toks, lb, seq![TokenV::LBrace] + rb + seq![TokenV::RBrace], 0);
            assert((seq![TokenV::LBrace] + rb + seq![TokenV::RBrace])[0] == TokenV::LBrace);
            assert(toks[lb] is LBrace);
            rt_signature(toks, i + 1, f.signature);
            assert(seq![TokenV::LBrace] + rb + seq![TokenV::RBrace] =~= seq![TokenV::LBrace] + (rb
                + seq![TokenV::RBrace]));
            lemma_subrange_split(toks, lb, seq![TokenV::LBrace], rb + seq![TokenV::RBrace]);
            lemma_subrange_split(toks, lb + 1, rb, seq![TokenV::RBrace]);
            lemma_tok_at(toks, lb + 1 + rb.len(), seq![TokenV::RBrace], 0);
            rt_block_stmts(toks, lb + 1, f.block, Seq::empty());
            assert(Seq::<StatementV>::empty() + f.block =~= f.block);
            assert(spec_parse_block(toks, lb) == Ok::<_, ParseError>(
                (f.block, lb + 1 + rb.len() + 1),
            ));
            assert(lb + 1 + rb.len() + 1 == i + r.len());
        },
        ItemV::ItemConst(_) => {
            assert(false);
        },
    }
}

proof fn rt_items(toks: Seq<TokenV>, i: int, items: Seq<ItemV>, acc: Seq<ItemV>)
    requires
        forall|k: int| 0 <= k < items.len() ==> wf_item(#[trigger] items[k]),
        0 <= i,
        i + render_items(items).len() == toks.len(),
        toks.subrange(i, toks.len() as int) == render_items(items),
    ensures
        spec_parse_items(toks, i, acc) == Ok::<_, ParseError>((acc + items, toks.len() as int)),
    decreases items.len(),
{
    if items.len() == 0 {
        assert(i == toks.len());
        assert(acc + items =~= acc);
    } else {
        let r0 = render_item(items[0]);
        assert(wf_item(items[0]));
        let rest = items.drop_first();
        assert(render_items(items) =~= r0 + render_items(rest));
        lemma_subrange_split(toks, i, r0, render_items(rest));
        assert(r0.len() > 0) by {
            match items[0] {
                ItemV::ItemFn(_) => {},
                ItemV::ItemConst(_) => {},
            }
        }
        assert(i < toks.len());
        rt_item(toks, i, items[0]);
        assert(forall|k: int| 0 <= k < rest.len() ==> wf_item(#[trigger] rest[k]));
        assert(toks.subrange(i + r0.len(), toks.len() as int) == render_items(rest));
        rt_items(toks, i + r0.len(), rest, acc.push(items[0]));
        assert(acc.push(items[0]) + rest =~= acc + items);
    }
}

/// Parser totality on the supported grammar: every program that fits
/// the grammar, rendered to its token sequence, parses successfully and
/// comes back as exactly that program — with as many items as the
/// source has `fn` items, in source order.
pub proof fn lemma_parser_total_on_grammar(p: ProgramV)
    requires
        wf_program(p),
    ensures
        spec_parse_program(render_program(p)) == Ok::<ProgramV, ParseError>(p),
{
    let toks = render_program(p);
    assert(toks.subrange(0, toks.len() as int) =~= toks);
    rt_items(toks, 0, p.items, Seq::empty());
    assert(Seq::<ItemV>::empty() + p.items =~= p.items);
    assert(spec_parse_items(toks, 0, Seq::empty()) == Ok::<_, ParseError>(
        (p.items, toks.len() as int),
    ));
    assert(ProgramV { items: p.items } =~= p);
}

} // verus!
