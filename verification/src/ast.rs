//! The abstract syntax tree the parser builds and the code generator
//! lowers, together with its mathematical view.
//!
//! The tree is built once during parsing and read-only afterwards; every
//! expression bottoms out in a literal or variable leaf, and each node
//! exclusively owns its children.
use vstd::prelude::*;

use crate::token::Operator;

verus! {

broadcast use vstd::std_specs::vec::axiom_vec_index_decreases;

/// A top-level item. Only functions are lowered; a constant item is
/// representable but has no code-generation path.
#[derive(Debug)]
pub enum Item {
    ItemFn(ItemFn),
    ItemConst(ItemConst),
}

/// A function definition: its signature and the statements of its body.
#[derive(Debug)]
pub struct ItemFn {
    pub signature: FnSignature,
    pub block: Vec<Statement>,
}

/// One statement of a function body.
#[derive(Debug)]
pub enum Statement {
    Local(Local),
    FnCall(FnCall),
    Return(Expr),
}

/// A `let` binding. `var_type` is empty when the annotation was omitted.
#[derive(Debug)]
pub struct Local {
    pub name: String,
    pub var_type: String,
    pub value: Expr,
}

/// A call, either as a statement or as an expression.
#[derive(Debug)]
pub struct FnCall {
    pub name: String,
    pub args: Vec<Expr>,
}

/// An expression tree.
#[derive(Debug)]
pub enum Expr {
    ExprLit(String),
    ExprBinaryOp { left: Box<Expr>, op: Operator, right: Box<Expr> },
    ExprVariable(String),
    ExprFnCall(FnCall),
}

/// A function's name, parameters in declaration order, and optional
/// return type.
#[derive(Debug)]
pub struct FnSignature {
    pub ident: String,
    pub args: Vec<FnParams>,
    pub output: Option<String>,
}

/// One declared parameter.
#[derive(Debug)]
pub struct FnParams {
    pub name: String,
    pub arg_type: String,
}

/// A top-level constant item; parsed shapes never reach code generation.
#[derive(Debug)]
pub struct ItemConst {
    pub name: String,
    pub value: String,
}

/// A whole source file: its items in source order, which is also the
/// emission order.
#[derive(Debug)]
pub struct Program {
    pub items: Vec<Item>,
}

/// Mathematical view of [`Program`].
#[verifier::ext_equal]
pub ghost struct ProgramV {
    pub items: Seq<ItemV>,
}

/// Mathematical view of [`Item`].
#[verifier::ext_equal]
pub ghost enum ItemV {
    ItemFn(ItemFnV),
    ItemConst(ItemConstV),
}

/// Mathematical view of [`ItemFn`].
#[verifier::ext_equal]
pub ghost struct ItemFnV {
    pub signature: FnSignatureV,
    pub block: Seq<StatementV>,
}

/// Mathematical view of [`Statement`].
#[verifier::ext_equal]
pub ghost enum StatementV {
    Local(LocalV),
    FnCall(FnCallV),
    Return(ExprV),
}

/// Mathematical view of [`Local`].
#[verifier::ext_equal]
pub ghost struct LocalV {
    pub name: Seq<char>,
    pub var_type: Seq<char>,
    pub value: ExprV,
}

/// Mathematical view of [`FnCall`].
#[verifier::ext_equal]
pub ghost struct FnCallV {
    pub name: Seq<char>,
    pub args: Seq<ExprV>,
}

/// Mathematical view of [`Expr`].
#[verifier::ext_equal]
pub ghost enum ExprV {
    ExprLit(Seq<char>),
    ExprBinaryOp { left: Box<ExprV>, op: Operator, right: Box<ExprV> },
    ExprVariable(Seq<char>),
    ExprFnCall(FnCallV),
}

/// Mathematical view of [`FnSignature`].
#[verifier::ext_equal]
pub ghost struct FnSignatureV {
    pub ident: Seq<char>,
    pub args: Seq<FnParamsV>,
    pub output: Option<Seq<char>>,
}

/// Mathematical view of [`FnParams`].
#[verifier::ext_equal]
pub ghost struct FnParamsV {
    pub name: Seq<char>,
    pub arg_type: Seq<char>,
}

/// Mathematical view of [`ItemConst`].
#[verifier::ext_equal]
pub ghost struct ItemConstV {
    pub name: Seq<char>,
    pub value: Seq<char>,
}

pub open spec fn expr_view(e: Expr) -> ExprV
    decreases e,
{
    match e {
        Expr::ExprLit(s) => ExprV::ExprLit(s@),
        Expr::ExprBinaryOp { left, op, right } => ExprV::ExprBinaryOp {
            left: Box::new(expr_view(*left)),
            op,
            right: Box::new(expr_view(*right)),
        },
        Expr::ExprVariable(s) => ExprV::ExprVariable(s@),
        Expr::ExprFnCall(c) => ExprV::ExprFnCall(fn_call_view(c)),
    }
}

pub open spec fn fn_call_view(c: FnCall) -> FnCallV
    decreases c,
{
    FnCallV { name: c.name@, args: exprs_view(c.args) }
}

pub open spec fn exprs_view(v: Vec<Expr>) -> Seq<ExprV>
    decreases v,
{
    Seq::new(
        v@.len(),
        |i: int|
            if 0 <= i < v@.len() {
                expr_view(v@[i])
            } else {
                ExprV::ExprLit(Seq::empty())
            },
    )
}

impl View for Expr {
    type V = ExprV;

    open spec fn view(&self) -> ExprV {
        expr_view(*self)
    }
}

impl DeepView for Expr {
    type V = ExprV;

    open spec fn deep_view(&self) -> ExprV {
        self.view()
    }
}

impl View for FnCall {
    type V = FnCallV;

    open spec fn view(&self) -> FnCallV {
        fn_call_view(*self)
    }
}

impl DeepView for FnCall {
    type V = FnCallV;

    open spec fn deep_view(&self) -> FnCallV {
        self.view()
    }
}

/// The two ways of viewing an argument vector agree.
pub broadcast proof fn lemma_exprs_view_is_deep_view(v: Vec<Expr>)
    ensures
        #[trigger] exprs_view(v) == v.deep_view(),
{
    assert(exprs_view(v) =~= v.deep_view());
}

impl View for Local {
    type V = LocalV;

    open spec fn view(&self) -> LocalV {
        LocalV { name: self.name@, var_type: self.var_type@, value: self.value@ }
    }
}

impl View for Statement {
    type V = StatementV;

    open spec fn view(&self) -> StatementV {
        match self {
            Statement::Local(l) => StatementV::Local(l@),
            Statement::FnCall(c) => StatementV::FnCall(c@),
            Statement::Return(e) => StatementV::Return(e@),
        }
    }
}

impl DeepView for Statement {
    type V = StatementV;

    open spec fn deep_view(&self) -> StatementV {
        self.view()
    }
}

impl View for FnParams {
    type V = FnParamsV;

    open spec fn view(&self) -> FnParamsV {
        FnParamsV { name: self.name@, arg_type: self.arg_type@ }
    }
}

impl DeepView for FnParams {
    type V = FnParamsV;

    open spec fn deep_view(&self) -> FnParamsV {
        self.view()
    }
}

impl View for FnSignature {
    type V = FnSignatureV;

    open spec fn view(&self) -> FnSignatureV {
        FnSignatureV {
            ident: self.ident@,
            args: self.args.deep_view(),
            output: match self.output {
                Some(s) => Some(s@),
                None => None,
            },
        }
    }
}

impl DeepView for FnSignature {
    type V = FnSignatureV;

    open spec fn deep_view(&self) -> FnSignatureV {
        self.view()
    }
}

impl View for ItemFn {
    type V = ItemFnV;

    open spec fn view(&self) -> ItemFnV {
        ItemFnV { signature: self.signature@, block: self.block.deep_view() }
    }
}

impl View for ItemConst {
    type V = ItemConstV;

    open spec fn view(&self) -> ItemConstV {
        ItemConstV { name: self.name@, value: self.value@ }
    }
}

impl View for Item {
    type V = ItemV;

    open spec fn view(&self) -> ItemV {
        match self {
            Item::ItemFn(f) => ItemV::ItemFn(f@),
            Item::ItemConst(c) => ItemV::ItemConst(c@),
        }
    }
}

impl DeepView for Item {
    type V = ItemV;

    open spec fn deep_view(&self) -> ItemV {
        self.view()
    }
}

impl View for Program {
    type V = ProgramV;

    open spec fn view(&self) -> ProgramV {
        ProgramV { items: self.items.deep_view() }
    }
}

} // verus!
