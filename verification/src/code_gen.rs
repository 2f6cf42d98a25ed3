//! The code generator: it lowers each function of a program into an
//! ordered instruction list plus data directives, with a fixed-pool
//! register allocator modelling a System-V-style integer calling
//! convention.
//!
//! Per function there are four resources: a six-register argument pool,
//! consumed in source order and refilled after every call; a two-register
//! return pool, refilled after every `return`; a six-register scratch
//! pool that is never refilled — running dry is a reported error, there
//! is no spill path; and a map from variable name to the register
//! currently holding its value, where a rebinding overwrites. A `let`
//! binding aliases whatever register its expression produced.
//!
//! The specification functions `spec_handle_*` and `spec_generate_code`
//! pin the exact instruction and data lists of every lowering, and each
//! executable function is proved to produce exactly them.
use vstd::prelude::*;

use crate::assembly::{
    spec_initial_asm, AsmCode, AsmCodeV, DataDirective, DataDirectiveV, FnCode, FnCodeV,
    Instruction, InstructionV,
};
use crate::ast::{
    Expr, ExprV, FnCall, FnCallV, FnParams, FnParamsV, Item, ItemFn, ItemFnV, ItemV, Program,
    ProgramV, Statement, StatementV,
};
use crate::errors::CodegenError;
use crate::token::Operator;
use crate::rst::{rst_chars, Rst};
use crate::syscall::{syscall_chars, SYSCALL};
use crate::text::str_eq;

verus! {

/// The scratch pool as stored: popping hands out `r10` through `r15`.
pub open spec fn spec_general_pool() -> Seq<Rst> {
    seq![Rst::R15, Rst::R14, Rst::R13, Rst::R12, Rst::R11, Rst::R10]
}

/// The argument pool as stored: popping hands out `rdi`, `rsi`, `rdx`,
/// `rcx`, `r8`, `r9` in calling-convention order.
pub open spec fn spec_argument_pool() -> Seq<Rst> {
    seq![Rst::R9, Rst::R8, Rst::RCX, Rst::RDX, Rst::RSI, Rst::RDI]
}

/// The return pool as stored: popping hands out `rax` first.
pub open spec fn spec_return_pool() -> Seq<Rst> {
    seq![Rst::RDX, Rst::RAX]
}

/// The fixed register of the `i`-th parameter.
pub open spec fn spec_param_register(i: int) -> Rst {
    if i == 0 {
        Rst::RDI
    } else if i == 1 {
        Rst::RSI
    } else if i == 2 {
        Rst::RDX
    } else if i == 3 {
        Rst::RCX
    } else if i == 4 {
        Rst::R8
    } else {
        Rst::R9
    }
}

/// The last bound register of a name, if any: later bindings shadow
/// earlier ones.
pub open spec fn spec_lookup(m: Seq<(Seq<char>, Rst)>, name: Seq<char>) -> Option<Rst>
    decreases m.len(),
{
    if m.len() == 0 {
        None
    } else if m.last().0 == name {
        Some(m.last().1)
    } else {
        spec_lookup(m.drop_last(), name)
    }
}

/// The bindings a function starts with: its first six parameters, each
/// on its fixed argument register.
pub open spec fn spec_initial_map(params: Seq<FnParamsV>) -> Seq<(Seq<char>, Rst)> {
    Seq::new(
        if params.len() <= 6 {
            params.len()
        } else {
            6
        },
        |i: int| (params[i].name, spec_param_register(i)),
    )
}

/// Mathematical view of the per-function allocator state.
#[verifier::ext_equal]
pub ghost struct RstManagerV {
    pub val_register_map: Seq<(Seq<char>, Rst)>,
    pub rsts_for_return: Seq<Rst>,
    pub rsts_for_arguments: Seq<Rst>,
    pub rsts_for_general: Seq<Rst>,
}

/// The allocator state a function's lowering starts from.
pub open spec fn spec_manager_new(params: Seq<FnParamsV>) -> RstManagerV {
    RstManagerV {
        val_register_map: spec_initial_map(params),
        rsts_for_return: spec_return_pool(),
        rsts_for_arguments: spec_argument_pool(),
        rsts_for_general: spec_general_pool(),
    }
}

pub struct RstManagerInFn {
    pub val_register_map: Vec<(String, Rst)>,
    pub rsts_for_return: Vec<Rst>,
    pub rsts_for_arguments: Vec<Rst>,
    pub rsts_for_general: Vec<Rst>,
}

impl View for RstManagerInFn {
    type V = RstManagerV;

    open spec fn view(&self) -> RstManagerV {
        RstManagerV {
            val_register_map: self.val_register_map.deep_view(),
            rsts_for_return: self.rsts_for_return@,
            rsts_for_arguments: self.rsts_for_arguments@,
            rsts_for_general: self.rsts_for_general@,
        }
    }
}

fn param_register(i: usize) -> (r: Rst)
    requires
        i < 6,
    ensures
        r == spec_param_register(i as int),
{
    if i == 0 {
        Rst::RDI
    } else if i == 1 {
        Rst::RSI
    } else if i == 2 {
        Rst::RDX
    } else if i == 3 {
        Rst::RCX
    } else if i == 4 {
        Rst::R8
    } else {
        Rst::R9
    }
}

fn general_pool_vec() -> (r: Vec<Rst>)
    ensures
        r@ == spec_general_pool(),
{
    let mut v: Vec<Rst> = Vec::new();
    v.push(Rst::R15);
    v.push(Rst::R14);
    v.push(Rst::R13);
    v.push(Rst::R12);
    v.push(Rst::R11);
    v.push(Rst::R10);
    proof {
        assert(v@ =~= spec_general_pool());
    }
    v
}

fn argument_pool_vec() -> (r: Vec<Rst>)
    ensures
        r@ == spec_argument_pool(),
{
    let mut v: Vec<Rst> = Vec::new();
    v.push(Rst::R9);
    v.push(Rst::R8);
    v.push(Rst::RCX);
    v.push(Rst::RDX);
    v.push(Rst::RSI);
    v.push(Rst::RDI);
    proof {
        assert(v@ =~= spec_argument_pool());
    }
    v
}

fn return_pool_vec() -> (r: Vec<Rst>)
    ensures
        r@ == spec_return_pool(),
{
    let mut v: Vec<Rst> = Vec::new();
    v.push(Rst::RDX);
    v.push(Rst::RAX);
    proof {
        assert(v@ =~= spec_return_pool());
    }
    v
}

impl RstManagerInFn {
    #[verifier::loop_isolation(false)]
    fn new(args: &Vec<FnParams>) -> (r: Self)
        ensures
            r@ == spec_manager_new(args.deep_view()),
    {
        let ghost pv = args.deep_view();
        let mut val_register_map: Vec<(String, Rst)> = Vec::new();
        let bound = if args.len() < 6 {
            args.len()
        } else {
            6
        };
        let mut i: usize = 0;
        proof {
            assert(val_register_map.deep_view() =~= spec_initial_map(pv).take(0));
        }
        while i < bound
            invariant
                i <= bound,
                val_register_map.deep_view() =~= spec_initial_map(pv).take(i as int),
            decreases bound - i,
        {
            let ghost before = val_register_map.deep_view();
            let rst = param_register(i);
            proof {
                assert(pv[i as int] == args@[i as int]@);
            }
            val_register_map.push((args[i].name.clone(), rst));
            proof {
                assert(val_register_map.deep_view() =~= before.push((pv[i as int].name, rst)));
                assert(val_register_map.deep_view() =~= spec_initial_map(pv).take(i as int + 1));
            }
            i = i + 1;
        }
        proof {
            assert(spec_initial_map(pv).take(bound as int) =~= spec_initial_map(pv));
        }
        let r = RstManagerInFn {
            val_register_map,
            rsts_for_general: general_pool_vec(),
            rsts_for_arguments: argument_pool_vec(),
            rsts_for_return: return_pool_vec(),
        };
        proof {
            assert(r@ =~= spec_manager_new(pv));
        }
        r
    }

    /// Looks a name up among the bindings, the latest one winning.
    fn get_rst_from_map(&self, name: &String) -> (r: Option<Rst>)
        ensures
            r == spec_lookup(self@.val_register_map, name@),
    {
        let ghost m = self@.val_register_map;
        let mut idx: usize = self.val_register_map.len();
        proof {
            assert(m.take(idx as int) =~= m);
        }
        while idx > 0
            invariant
                idx <= self.val_register_map@.len(),
                m == self@.val_register_map,
                m.len() == self.val_register_map@.len(),
                spec_lookup(m, name@) == spec_lookup(m.take(idx as int), name@),
            decreases idx,
        {
            let entry = &self.val_register_map[idx - 1];
            proof {
                assert(m[idx as int - 1] == self.val_register_map@[idx as int - 1].deep_view());
                assert(m.take(idx as int).last() == m[idx as int - 1]);
                assert(m.take(idx as int).drop_last() =~= m.take(idx as int - 1));
            }
            if str_eq(entry.0.as_str(), name.as_str()) {
                return Some(entry.1);
            }
            idx = idx - 1;
        }
        proof {
            assert(m.take(0) =~= Seq::<(Seq<char>, Rst)>::empty());
        }
        None
    }

    /// Hands out the next scratch register and records `name` as bound
    /// to it; `None` when the pool is exhausted.
    fn pop_general_rsts(&mut self, name: String) -> (r: Option<Rst>)
        ensures
            match r {
                Some(rst) => old(self)@.rsts_for_general.len() > 0 && rst == old(
                    self,
                )@.rsts_for_general.last() && final(self)@ == (RstManagerV {
                    val_register_map: old(self)@.val_register_map.push((name@, rst)),
                    rsts_for_general: old(self)@.rsts_for_general.drop_last(),
                    ..old(self)@
                }),
                None => old(self)@.rsts_for_general.len() == 0 && final(self)@ == old(self)@,
            },
    {
        let ghost before = self@;
        match self.rsts_for_general.pop() {
            None => {
                proof {
                    assert(self@ =~= before);
                }
                None
            },
            Some(gst) => {
                self.val_register_map.push((name, gst));
                proof {
                    assert(self@.val_register_map =~= before.val_register_map.push((name@, gst)));
                    assert(self@.rsts_for_general =~= before.rsts_for_general.drop_last());
                    assert(self@ =~= RstManagerV {
                        val_register_map: before.val_register_map.push((name@, gst)),
                        rsts_for_general: before.rsts_for_general.drop_last(),
                        ..before
                    });
                }
                Some(gst)
            },
        }
    }

    /// Refills the scratch pool to full capacity.
    fn init_general_rsts(&mut self)
        ensures
            final(self)@ == (RstManagerV { rsts_for_general: spec_general_pool(), ..old(self)@ }),
    {
        let ghost before = self@;
        self.rsts_for_general = general_pool_vec();
        proof {
            assert(self@ =~= RstManagerV { rsts_for_general: spec_general_pool(), ..before });
        }
    }

    /// Hands out the next argument register; `None` when all six are
    /// taken.
    fn pop_argument_rsts(&mut self) -> (r: Option<Rst>)
        ensures
            match r {
                Some(rst) => old(self)@.rsts_for_arguments.len() > 0 && rst == old(
                    self,
                )@.rsts_for_arguments.last() && final(self)@ == (RstManagerV {
                    rsts_for_arguments: old(self)@.rsts_for_arguments.drop_last(),
                    ..old(self)@
                }),
                None => old(self)@.rsts_for_arguments.len() == 0 && final(self)@ == old(self)@,
            },
    {
        let ghost before = self@;
        let r = self.rsts_for_arguments.pop();
        proof {
            if r is Some {
                assert(self@ =~= RstManagerV {
                    rsts_for_arguments: before.rsts_for_arguments.drop_last(),
                    ..before
                });
            } else {
                assert(self@ =~= before);
            }
        }
        r
    }

    /// Refills the argument pool, as happens after every call site.
    fn init_argument_rsts(&mut self)
        ensures
            final(self)@ == (RstManagerV { rsts_for_arguments: spec_argument_pool(), ..old(self)@ }),
    {
        let ghost before = self@;
        self.rsts_for_arguments = argument_pool_vec();
        proof {
            assert(self@ =~= RstManagerV { rsts_for_arguments: spec_argument_pool(), ..before });
        }
    }

    /// Hands out the next return register, the primary first.
    fn pop_return_rsts(&mut self) -> (r: Option<Rst>)
        ensures
            match r {
                Some(rst) => old(self)@.rsts_for_return.len() > 0 && rst == old(
                    self,
                )@.rsts_for_return.last() && final(self)@ == (RstManagerV {
                    rsts_for_return: old(self)@.rsts_for_return.drop_last(),
                    ..old(self)@
                }),
                None => old(self)@.rsts_for_return.len() == 0 && final(self)@ == old(self)@,
            },
    {
        let ghost before = self@;
        let r = self.rsts_for_return.pop();
        proof {
            if r is Some {
                assert(self@ =~= RstManagerV {
                    rsts_for_return: before.rsts_for_return.drop_last(),
                    ..before
                });
            } else {
                assert(self@ =~= before);
            }
        }
        r
    }

    /// Refills the return pool, as happens after every `return`.
    fn init_return_rsts(&mut self)
        ensures
            final(self)@ == (RstManagerV { rsts_for_return: spec_return_pool(), ..old(self)@ }),
    {
        let ghost before = self@;
        self.rsts_for_return = return_pool_vec();
        proof {
            assert(self@ =~= RstManagerV { rsts_for_return: spec_return_pool(), ..before });
        }
    }
}

/// The label a function is emitted under: `main` becomes the platform
/// entry symbol, every other name is used verbatim.
pub open spec fn spec_convert_label(name: Seq<char>) -> Seq<char> {
    if name == "main"@ {
        "_main"@
    } else {
        name
    }
}

/// The fixed lowering of the built-in `println!`: the write-syscall
/// register setup plus the message data and its assemble-time length.
/// Anything but a single literal argument is a malformed built-in call.
pub open spec fn spec_handle_println(instrs: Seq<InstructionV>, call: FnCallV) -> Result<
    (Seq<InstructionV>, Seq<DataDirectiveV>),
    CodegenError,
> {
    if call.args.len() == 1 && call.args[0] is ExprLit {
        let lit = call.args[0]->ExprLit_0;
        Ok(
            (
                instrs + seq![
                    InstructionV::MOVE {
                        dest: rst_chars(Rst::RAX),
                        src: syscall_chars(SYSCALL::WRITE),
                    },
                    InstructionV::MOVE { dest: rst_chars(Rst::RDI), src: "1"@ },
                    InstructionV::LOAD { dest: rst_chars(Rst::RSI), addr: "msg"@ },
                    InstructionV::MOVE { dest: rst_chars(Rst::RDX), src: "msg_len"@ },
                    InstructionV::SYSCALL,
                ],
                seq![
                    DataDirectiveV::DB { left: "msg"@, right: seq![lit, "0x0A"@] },
                    DataDirectiveV::EQUE { left: "msg_len"@, right: seq!["$ - msg"@] },
                ],
            ),
        )
    } else {
        Err(CodegenError::MalformedBuiltin)
    }
}

/// The argument moves of a call: each literal or bound variable goes to
/// the next argument register, strictly in source order. A nested call
/// or operation in argument position has no lowering.
pub open spec fn spec_emit_call_args(
    mgr: RstManagerV,
    instrs: Seq<InstructionV>,
    args: Seq<ExprV>,
) -> Result<(RstManagerV, Seq<InstructionV>), CodegenError>
    decreases args.len(),
{
    if args.len() == 0 {
        Ok((mgr, instrs))
    } else {
        match args[0] {
            ExprV::ExprLit(lit) => if mgr.rsts_for_arguments.len() == 0 {
                Err(CodegenError::RegisterExhausted)
            } else {
                let dest = mgr.rsts_for_arguments.last();
                let mgr1 = RstManagerV {
                    rsts_for_arguments: mgr.rsts_for_arguments.drop_last(),
                    ..mgr
                };
                spec_emit_call_args(
                    mgr1,
                    instrs.push(InstructionV::MOVE { dest: rst_chars(dest), src: lit }),
                    args.drop_first(),
                )
            },
            ExprV::ExprVariable(name) => match spec_lookup(mgr.val_register_map, name) {
                None => Err(CodegenError::UnboundVariable),
                Some(rst) => if mgr.rsts_for_arguments.len() == 0 {
                    Err(CodegenError::RegisterExhausted)
                } else {
                    let dest = mgr.rsts_for_arguments.last();
                    let mgr1 = RstManagerV {
                        rsts_for_arguments: mgr.rsts_for_arguments.drop_last(),
                        ..mgr
                    };
                    spec_emit_call_args(
                        mgr1,
                        instrs.push(
                            InstructionV::MOVE { dest: rst_chars(dest), src: rst_chars(rst) },
                        ),
                        args.drop_first(),
                    )
                },
            },
            _ => Err(CodegenError::UnsupportedConstruct),
        }
    }
}

/// The lowering of a call: `println!` takes its fixed form; any other
/// call places its arguments, refills the argument pool, and emits the
/// call itself.
pub open spec fn spec_handle_fn_call(
    mgr: RstManagerV,
    instrs: Seq<InstructionV>,
    call: FnCallV,
) -> Result<(RstManagerV, Seq<InstructionV>, Seq<DataDirectiveV>), CodegenError> {
    if call.name == "println!"@ {
        match spec_handle_println(instrs, call) {
            Err(e) => Err(e),
            Ok((instrs1, data)) => Ok((mgr, instrs1, data)),
        }
    } else {
        match spec_emit_call_args(mgr, instrs, call.args) {
            Err(e) => Err(e),
            Ok((mgr1, instrs1)) => Ok(
                (
                    RstManagerV { rsts_for_arguments: spec_argument_pool(), ..mgr1 },
                    instrs1.push(InstructionV::CALL { func: spec_convert_label(call.name) }),
                    Seq::empty(),
                ),
            ),
        }
    }
}

/// The lowering of one expression to the register holding its value.
pub open spec fn spec_handle_expr(mgr: RstManagerV, instrs: Seq<InstructionV>, e: ExprV) -> Result<
    (RstManagerV, Seq<InstructionV>, Rst),
    CodegenError,
>
    decreases e,
{
    match e {
        ExprV::ExprLit(lit) => if mgr.rsts_for_general.len() == 0 {
            Err(CodegenError::RegisterExhausted)
        } else {
            let rst = mgr.rsts_for_general.last();
            let mgr1 = RstManagerV {
                val_register_map: mgr.val_register_map.push(("tmp"@, rst)),
                rsts_for_general: mgr.rsts_for_general.drop_last(),
                ..mgr
            };
            Ok((mgr1, instrs.push(InstructionV::MOVE { dest: rst_chars(rst), src: lit }), rst))
        },
        ExprV::ExprVariable(name) => match spec_lookup(mgr.val_register_map, name) {
            None => Err(CodegenError::UnboundVariable),
            Some(rst) => Ok((mgr, instrs, rst)),
        },
        ExprV::ExprFnCall(call) => match spec_handle_fn_call(mgr, instrs, call) {
            Err(e) => Err(e),
            Ok((mgr1, instrs1, _data)) => if mgr1.rsts_for_general.len() == 0 {
                Err(CodegenError::RegisterExhausted)
            } else {
                let rst = mgr1.rsts_for_general.last();
                let mgr2 = RstManagerV {
                    val_register_map: mgr1.val_register_map.push((call.name, rst)),
                    rsts_for_general: mgr1.rsts_for_general.drop_last(),
                    ..mgr1
                };
                if mgr2.rsts_for_return.len() == 0 {
                    Err(CodegenError::RegisterExhausted)
                } else {
                    let ret = mgr2.rsts_for_return.last();
                    let mgr3 = RstManagerV { rsts_for_return: spec_return_pool(), ..mgr2 };
                    Ok(
                        (
                            mgr3,
                            instrs1.push(
                                InstructionV::MOVE { dest: rst_chars(rst), src: rst_chars(ret) },
                            ),
                            rst,
                        ),
                    )
                }
            },
        },
        ExprV::ExprBinaryOp { left, op, right } => match spec_handle_expr(mgr, instrs, *left) {
            Err(e) => Err(e),
            Ok((mgr1, instrs1, left_rst)) => match spec_handle_expr(mgr1, instrs1, *right) {
                Err(e) => Err(e),
                Ok((mgr2, instrs2, right_rst)) => match op {
                    Operator::Plus => Ok(
                        (
                            mgr2,
                            instrs2.push(
                                InstructionV::ADD {
                                    dest: rst_chars(left_rst),
                                    src: rst_chars(right_rst),
                                },
                            ),
                            left_rst,
                        ),
                    ),
                    _ => Err(CodegenError::UnsupportedOperator),
                },
            },
        },
    }
}

/// The lowering of one statement.
pub open spec fn spec_handle_statement(
    mgr: RstManagerV,
    instrs: Seq<InstructionV>,
    data: Seq<DataDirectiveV>,
    st: StatementV,
) -> Result<(RstManagerV, Seq<InstructionV>, Seq<DataDirectiveV>), CodegenError> {
    match st {
        StatementV::FnCall(call) => match spec_handle_fn_call(mgr, instrs, call) {
            Err(e) => Err(e),
            Ok((mgr1, instrs1, d)) => Ok((mgr1, instrs1, data + d)),
        },
        StatementV::Local(l) => match spec_handle_expr(mgr, instrs, l.value) {
            Err(e) => Err(e),
            Ok((mgr1, instrs1, rst)) => Ok(
                (
                    RstManagerV {
                        val_register_map: mgr1.val_register_map.push((l.name, rst)),
                        ..mgr1
                    },
                    instrs1,
                    data,
                ),
            ),
        },
        StatementV::Return(e) => match spec_handle_expr(mgr, instrs, e) {
            Err(err) => Err(err),
            Ok((mgr1, instrs1, rst)) => if mgr1.rsts_for_return.len() == 0 {
                Err(CodegenError::RegisterExhausted)
            } else {
                let ret = mgr1.rsts_for_return.last();
                Ok(
                    (
                        RstManagerV { rsts_for_return: spec_return_pool(), ..mgr1 },
                        instrs1.push(
                            InstructionV::MOVE { dest: rst_chars(ret), src: rst_chars(rst) },
                        ).push(InstructionV::RET),
                        data,
                    ),
                )
            },
        },
    }
}

/// The lowering of a statement list, first to last.
pub open spec fn spec_handle_stmts(
    mgr: RstManagerV,
    instrs: Seq<InstructionV>,
    data: Seq<DataDirectiveV>,
    stmts: Seq<StatementV>,
) -> Result<(RstManagerV, Seq<InstructionV>, Seq<DataDirectiveV>), CodegenError>
    decreases stmts.len(),
{
    if stmts.len() == 0 {
        Ok((mgr, instrs, data))
    } else {
        match spec_handle_statement(mgr, instrs, data, stmts[0]) {
            Err(e) => Err(e),
            Ok((mgr1, instrs1, data1)) => spec_handle_stmts(
                mgr1,
                instrs1,
                data1,
                stmts.drop_first(),
            ),
        }
    }
}

/// The fixed exit sequence appended to `main` alone: load the exit
/// syscall number, zero the status register, issue the syscall.
pub open spec fn spec_exit_seq() -> Seq<InstructionV> {
    seq![
        InstructionV::MOVE { dest: rst_chars(Rst::RAX), src: syscall_chars(SYSCALL::EXIT) },
        InstructionV::XOR { src1: rst_chars(Rst::RDI), src2: rst_chars(Rst::RDI) },
        InstructionV::SYSCALL,
    ]
}

/// The lowering of one function item: its label, its instruction list,
/// and the data it contributed.
pub open spec fn spec_handle_fn(f: ItemFnV) -> Result<
    (FnCodeV, Seq<DataDirectiveV>),
    CodegenError,
> {
    match spec_handle_stmts(
        spec_manager_new(f.signature.args),
        Seq::empty(),
        Seq::empty(),
        f.block,
    ) {
        Err(e) => Err(e),
        Ok((_, instrs, data)) => {
            let instrs2 = if f.signature.ident == "main"@ {
                instrs + spec_exit_seq()
            } else {
                instrs
            };
            Ok((FnCodeV { label: spec_convert_label(f.signature.ident), instructions: instrs2 }, data))
        },
    }
}

/// The lowering of an item list into a growing module: function items
/// append their code and data in source order; constant items are inert.
pub open spec fn spec_gen_items(acc: AsmCodeV, items: Seq<ItemV>) -> Result<
    AsmCodeV,
    CodegenError,
>
    decreases items.len(),
{
    if items.len() == 0 {
        Ok(acc)
    } else {
        match items[0] {
            ItemV::ItemFn(f) => match spec_handle_fn(f) {
                Err(e) => Err(e),
                Ok((fc, data)) => spec_gen_items(
                    AsmCodeV {
                        directives: acc.directives,
                        text_sec: acc.text_sec.push(fc),
                        data_sec: acc.data_sec + data,
                    },
                    items.drop_first(),
                ),
            },
            ItemV::ItemConst(_) => spec_gen_items(acc, items.drop_first()),
        }
    }
}

/// The whole module a program lowers to, or the first fault met.
pub open spec fn spec_generate_code(p: ProgramV) -> Result<AsmCodeV, CodegenError> {
    spec_gen_items(spec_initial_asm(), p.items)
}

fn convert_to_asm_fn_name(fn_name: &String) -> (r: String)
    ensures
        r@ == spec_convert_label(fn_name@),
{
    if str_eq(fn_name.as_str(), "main") {
        String::from_str("_main")
    } else {
        fn_name.clone()
    }
}

fn handle_println(
    instructions: &mut Vec<Instruction>,
    fn_call: &FnCall,
    data_directives: &mut Vec<DataDirective>,
) -> (r: Result<(), CodegenError>)
    ensures
        match spec_handle_println(old(instructions).deep_view(), fn_call@) {
            Ok(out) => r is Ok && final(instructions).deep_view() == out.0
                && final(data_directives).deep_view() == old(data_directives).deep_view() + out.1,
            Err(e) => r == Err::<(), CodegenError>(e),
        },
{
    let ghost ins0 = instructions.deep_view();
    let ghost data0 = data_directives.deep_view();
    let ghost callv = fn_call@;
    if fn_call.args.len() != 1 {
        return Err(CodegenError::MalformedBuiltin);
    }
    proof {
        assert(callv.args[0] == crate::ast::expr_view(fn_call.args@[0]));
    }
    match &fn_call.args[0] {
        Expr::ExprLit(lit) => {
            instructions.push(
                Instruction::MOVE { dest: Rst::RAX.to_string(), src: SYSCALL::WRITE.to_string() },
            );
            instructions.push(
                Instruction::MOVE { dest: Rst::RDI.to_string(), src: String::from_str("1") },
            );
            instructions.push(
                Instruction::LOAD { dest: Rst::RSI.to_string(), addr: String::from_str("msg") },
            );
            let mut db_operands: Vec<String> = Vec::new();
            db_operands.push(lit.clone());
            db_operands.push(String::from_str("0x0A"));
            proof {
                assert(db_operands.deep_view() =~= seq![lit@, "0x0A"@]);
            }
            data_directives.push(
                DataDirective::DB { left: String::from_str("msg"), right: db_operands },
            );
            instructions.push(
                Instruction::MOVE {
                    dest: Rst::RDX.to_string(),
                    src: String::from_str("msg_len"),
                },
            );
            let mut equ_operands: Vec<String> = Vec::new();
            equ_operands.push(String::from_str("$ - msg"));
            proof {
                assert(equ_operands.deep_view() =~= seq!["$ - msg"@]);
            }
            data_directives.push(
                DataDirective::EQUE { left: String::from_str("msg_len"), right: equ_operands },
            );
            instructions.push(Instruction::SYSCALL);
            proof {
                let out = spec_handle_println(ins0, callv)->Ok_0;
                assert(instructions.deep_view() =~= out.0);
                assert(data_directives.deep_view() =~= data0 + out.1);
            }
            Ok(())
        },
        _ => Err(CodegenError::MalformedBuiltin),
    }
}

#[verifier::loop_isolation(false)]
fn handle_fn_call(
    instructions: &mut Vec<Instruction>,
    fn_call: &FnCall,
    rst_manager: &mut RstManagerInFn,
    data_directives: &mut Vec<DataDirective>,
) -> (r: Result<(), CodegenError>)
    ensures
        match spec_handle_fn_call(
            old(rst_manager)@,
            old(instructions).deep_view(),
            fn_call@,
        ) {
            Ok(out) => r is Ok && final(rst_manager)@ == out.0 && final(instructions).deep_view()
                == out.1 && final(data_directives).deep_view() == old(data_directives).deep_view()
                + out.2,
            Err(e) => r == Err::<(), CodegenError>(e),
        },
{
    let ghost mgr0 = rst_manager@;
    let ghost ins0 = instructions.deep_view();
    let ghost data0 = data_directives.deep_view();
    let ghost callv = fn_call@;
    if str_eq(fn_call.name.as_str(), "println!") {
        let r = handle_println(instructions, fn_call, data_directives);
        return r;
    }
    let ghost argsv = callv.args;
    let n = fn_call.args.len();
    let mut idx: usize = 0;
    proof {
        assert(argsv.skip(0) =~= argsv);
    }
    while idx < n
        invariant
            idx <= n,
            n == fn_call.args@.len(),
            spec_emit_call_args(rst_manager@, instructions.deep_view(), argsv.skip(idx as int))
                == spec_emit_call_args(mgr0, ins0, argsv),
        decreases n - idx,
    {
        let ghost mgr_here = rst_manager@;
        let ghost ins_here = instructions.deep_view();
        proof {
            assert(argsv.skip(idx as int)[0] == argsv[idx as int]);
            assert(argsv[idx as int] == crate::ast::expr_view(fn_call.args@[idx as int]));
            assert(argsv.skip(idx as int).drop_first() =~= argsv.skip(idx as int + 1));
        }
        match &fn_call.args[idx] {
            Expr::ExprLit(lit) => {
                match rst_manager.pop_argument_rsts() {
                    None => {
                        return Err(CodegenError::RegisterExhausted);
                    },
                    Some(rst) => {
                        instructions.push(
                            Instruction::MOVE { dest: rst.to_string(), src: lit.clone() },
                        );
                        proof {
                            assert(instructions.deep_view() =~= ins_here.push(
                                InstructionV::MOVE { dest: rst_chars(rst), src: lit@ },
                            ));
                        }
                    },
                }
            },
            Expr::ExprVariable(var_name) => {
                match rst_manager.get_rst_from_map(var_name) {
                    None => {
                        return Err(CodegenError::UnboundVariable);
                    },
                    Some(src_rst) => {
                        match rst_manager.pop_argument_rsts() {
                            None => {
                                return Err(CodegenError::RegisterExhausted);
                            },
                            Some(rst) => {
                                instructions.push(
                                    Instruction::MOVE {
                                        dest: rst.to_string(),
                                        src: src_rst.to_string(),
                                    },
                                );
                                proof {
                                    assert(instructions.deep_view() =~= ins_here.push(
                                        InstructionV::MOVE {
                                            dest: rst_chars(rst),
                                            src: rst_chars(src_rst),
                                        },
                                    ));
                                }
                            },
                        }
                    },
                }
            },
            _ => {
                return Err(CodegenError::UnsupportedConstruct);
            },
        }
        idx = idx + 1;
    }
    proof {
        assert(argsv.skip(n as int) =~= Seq::<ExprV>::empty());
    }
    rst_manager.init_argument_rsts();
    instructions.push(Instruction::CALL { func: convert_to_asm_fn_name(&fn_call.name) });
    proof {
        let out = spec_handle_fn_call(mgr0, ins0, callv)->Ok_0;
        assert(rst_manager@ =~= out.0);
        assert(instructions.deep_view() =~= out.1);
        assert(data_directives.deep_view() =~= data0 + Seq::<DataDirectiveV>::empty());
    }
    Ok(())
}

fn handle_expression(
    instructions: &mut Vec<Instruction>,
    expr: &Expr,
    rst_manager: &mut RstManagerInFn,
) -> (r: Result<Rst, CodegenError>)
    ensures
        match spec_handle_expr(old(rst_manager)@, old(instructions).deep_view(), expr@) {
            Ok(out) => r == Ok::<Rst, CodegenError>(out.2) && final(rst_manager)@ == out.0
                && final(instructions).deep_view() == out.1,
            Err(e) => r == Err::<Rst, CodegenError>(e),
        },
    decreases expr,
{
    let ghost mgr0 = rst_manager@;
    let ghost ins0 = instructions.deep_view();
    match expr {
        Expr::ExprLit(lit) => {
            match rst_manager.pop_general_rsts(String::from_str("tmp")) {
                None => Err(CodegenError::RegisterExhausted),
                Some(rst) => {
                    instructions.push(Instruction::MOVE { dest: rst.to_string(), src: lit.clone() });
                    proof {
                        let out = spec_handle_expr(mgr0, ins0, expr@)->Ok_0;
                        assert(rst_manager@ =~= out.0);
                        assert(instructions.deep_view() =~= out.1);
                    }
                    Ok(rst)
                },
            }
        },
        Expr::ExprVariable(var_name) => {
            match rst_manager.get_rst_from_map(var_name) {
                None => Err(CodegenError::UnboundVariable),
                Some(rst) => Ok(rst),
            }
        },
        Expr::ExprFnCall(fn_call) => {
            let mut discarded: Vec<DataDirective> = Vec::new();
            match handle_fn_call(instructions, fn_call, rst_manager, &mut discarded) {
                Err(e) => Err(e),
                Ok(_) => {
                    match rst_manager.pop_general_rsts(fn_call.name.clone()) {
                        None => Err(CodegenError::RegisterExhausted),
                        Some(rst) => {
                            match rst_manager.pop_return_rsts() {
                                None => Err(CodegenError::RegisterExhausted),
                                Some(ret) => {
                                    instructions.push(
                                        Instruction::MOVE {
                                            dest: rst.to_string(),
                                            src: ret.to_string(),
                                        },
                                    );
                                    rst_manager.init_return_rsts();
                                    proof {
                                        let out = spec_handle_expr(mgr0, ins0, expr@)->Ok_0;
                                        assert(rst_manager@ =~= out.0);
                                        assert(instructions.deep_view() =~= out.1);
                                    }
                                    Ok(rst)
                                },
                            }
                        },
                    }
                },
            }
        },
        Expr::ExprBinaryOp { left, op, right } => {
            match handle_expression(instructions, left, rst_manager) {
                Err(e) => Err(e),
                Ok(left_rst) => {
                    match handle_expression(instructions, right, rst_manager) {
                        Err(e) => Err(e),
                        Ok(right_rst) => {
                            match op {
                                Operator::Plus => {
                                    instructions.push(
                                        Instruction::ADD {
                                            dest: left_rst.to_string(),
                                            src: right_rst.to_string(),
                                        },
                                    );
                                    proof {
                                        let out = spec_handle_expr(mgr0, ins0, expr@)->Ok_0;
                                        assert(rst_manager@ =~= out.0);
                                        assert(instructions.deep_view() =~= out.1);
                                    }
                                    Ok(left_rst)
                                },
                                _ => Err(CodegenError::UnsupportedOperator),
                            }
                        },
                    }
                },
            }
        },
    }
}

fn handle_exit(instructions: &mut Vec<Instruction>)
    ensures
        final(instructions).deep_view() == old(instructions).deep_view() + spec_exit_seq(),
{
    let ghost ins0 = instructions.deep_view();
    instructions.push(
        Instruction::MOVE { dest: Rst::RAX.to_string(), src: SYSCALL::EXIT.to_string() },
    );
    instructions.push(
        Instruction::XOR { src1: Rst::RDI.to_string(), src2: Rst::RDI.to_string() },
    );
    instructions.push(Instruction::SYSCALL);
    proof {
        assert(instructions.deep_view() =~= ins0 + spec_exit_seq());
    }
}

#[verifier::loop_isolation(false)]
fn handle_fn(asm_code: &mut AsmCode, item_fn: &ItemFn) -> (r: Result<(), CodegenError>)
    ensures
        match spec_handle_fn(item_fn@) {
            Ok(out) => r is Ok && final(asm_code)@.directives == old(asm_code)@.directives
                && final(asm_code)@.text_sec == old(asm_code)@.text_sec.push(out.0)
                && final(asm_code)@.data_sec == old(asm_code)@.data_sec + out.1,
            Err(e) => r == Err::<(), CodegenError>(e),
        },
{
    let ghost fv = item_fn@;
    let mut instructions: Vec<Instruction> = Vec::new();
    let mut data_directives: Vec<DataDirective> = Vec::new();
    let mut rgt_manager = RstManagerInFn::new(&item_fn.signature.args);
    let ghost mgr0 = rgt_manager@;
    let ghost blockv = fv.block;
    proof {
        assert(mgr0 == spec_manager_new(fv.signature.args));
        assert(blockv.skip(0) =~= blockv);
        assert(instructions.deep_view() =~= Seq::<InstructionV>::empty());
        assert(data_directives.deep_view() =~= Seq::<DataDirectiveV>::empty());
    }
    let n = item_fn.block.len();
    let mut idx: usize = 0;
    while idx < n
        invariant
            idx <= n,
            n == item_fn.block@.len(),
            spec_handle_stmts(
                rgt_manager@,
                instructions.deep_view(),
                data_directives.deep_view(),
                blockv.skip(idx as int),
            ) == spec_handle_stmts(mgr0, Seq::empty(), Seq::empty(), blockv),
        decreases n - idx,
    {
        let ghost mgr_here = rgt_manager@;
        let ghost ins_here = instructions.deep_view();
        let ghost data_here = data_directives.deep_view();
        proof {
            assert(blockv.skip(idx as int)[0] == blockv[idx as int]);
            assert(blockv[idx as int] == item_fn.block@[idx as int]@);
            assert(blockv.skip(idx as int).drop_first() =~= blockv.skip(idx as int + 1));
        }
        match &item_fn.block[idx] {
            Statement::FnCall(fn_call) => {
                match handle_fn_call(
                    &mut instructions,
                    fn_call,
                    &mut rgt_manager,
                    &mut data_directives,
                ) {
                    Err(e) => {
                        return Err(e);
                    },
                    Ok(_) => {},
                }
            },
            Statement::Local(local) => {
                match handle_expression(&mut instructions, &local.value, &mut rgt_manager) {
                    Err(e) => {
                        return Err(e);
                    },
                    Ok(rst) => {
                        let ghost mgr_mid = rgt_manager@;
                        rgt_manager.val_register_map.push((local.name.clone(), rst));
                        proof {
                            assert(rgt_manager@.val_register_map
                                =~= mgr_mid.val_register_map.push((local.name@, rst)));
                            assert(rgt_manager@ =~= RstManagerV {
                                val_register_map: mgr_mid.val_register_map.push(
                                    (local.name@, rst),
                                ),
                                ..mgr_mid
                            });
                        }
                    },
                }
            },
            Statement::Return(ret) => {
                match handle_expression(&mut instructions, ret, &mut rgt_manager) {
                    Err(e) => {
                        return Err(e);
                    },
                    Ok(ret_rst) => {
                        match rgt_manager.pop_return_rsts() {
                            None => {
                                return Err(CodegenError::RegisterExhausted);
                            },
                            Some(dest) => {
                                let ghost ins_mid = instructions.deep_view();
                                instructions.push(
                                    Instruction::MOVE {
                                        dest: dest.to_string(),
                                        src: ret_rst.to_string(),
                                    },
                                );
                                instructions.push(Instruction::RET);
                                rgt_manager.init_return_rsts();
                                proof {
                                    assert(instructions.deep_view() =~= ins_mid.push(
                                        InstructionV::MOVE {
                                            dest: rst_chars(dest),
                                            src: rst_chars(ret_rst),
                                        },
                                    ).push(InstructionV::RET));
                                }
                            },
                        }
                    },
                }
            },
        }
        idx = idx + 1;
    }
    proof {
        assert(blockv.skip(n as int) =~= Seq::<StatementV>::empty());
    }
    if str_eq(item_fn.signature.ident.as_str(), "main") {
        handle_exit(&mut instructions);
    }
    let ghost out = spec_handle_fn(fv)->Ok_0;
    proof {
        assert(instructions.deep_view() =~= out.0.instructions);
    }
    let ghost asm0 = asm_code@;
    let label = convert_to_asm_fn_name(&item_fn.signature.ident);
    asm_code.text_sec.push(FnCode { label, instructions });
    asm_code.data_sec.append(&mut data_directives);
    proof {
        assert(asm_code@.text_sec =~= asm0.text_sec.push(out.0));
        assert(asm_code@.data_sec =~= asm0.data_sec + out.1);
        assert(asm_code@.directives =~= asm0.directives);
    }
    Ok(())
}

/// Lowers a whole program into an assembly module, or reports the first
/// fault met; the result is exactly [`spec_generate_code`] of the
/// program.
#[verifier::loop_isolation(false)]
pub fn generate_code(program: &Program) -> (r: Result<AsmCode, CodegenError>)
    ensures
        match spec_generate_code(program@) {
            Ok(av) => r is Ok && r->Ok_0@ == av,
            Err(e) => r == Err::<AsmCode, CodegenError>(e),
        },
{
    let mut asm_code = AsmCode::new();
    let ghost itemsv = program@.items;
    proof {
        assert(itemsv.skip(0) =~= itemsv);
    }
    let n = program.items.len();
    let mut idx: usize = 0;
    while idx < n
        invariant
            idx <= n,
            n == program.items@.len(),
            spec_gen_items(asm_code@, itemsv.skip(idx as int)) == spec_generate_code(program@),
        decreases n - idx,
    {
        let ghost acc_here = asm_code@;
        proof {
            assert(itemsv.skip(idx as int)[0] == itemsv[idx as int]);
            assert(itemsv[idx as int] == program.items@[idx as int]@);
            assert(itemsv.skip(idx as int).drop_first() =~= itemsv.skip(idx as int + 1));
        }
        match &program.items[idx] {
            Item::ItemFn(item_fn) => {
                match handle_fn(&mut asm_code, item_fn) {
                    Err(e) => {
                        return Err(e);
                    },
                    Ok(_) => {
                        proof {
                            let stepped = AsmCodeV {
                                directives: acc_here.directives,
                                text_sec: acc_here.text_sec.push(
                                    spec_handle_fn(itemsv[idx as int]->ItemFn_0)->Ok_0.0,
                                ),
                                data_sec: acc_here.data_sec + spec_handle_fn(
                                    itemsv[idx as int]->ItemFn_0,
                                )->Ok_0.1,
                            };
                            assert(asm_code@ =~= stepped);
                        }
                    },
                }
            },
            Item::ItemConst(_) => {},
        }
        idx = idx + 1;
    }
    proof {
        assert(itemsv.skip(n as int) =~= Seq::<ItemV>::empty());
    }
    Ok(asm_code)
}

} // verus!
