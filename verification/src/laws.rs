//! The library's global guarantees, each stated and proved over the
//! specification functions that the executable functions are pinned to.
use vstd::prelude::*;

use crate::ast::{ExprV, FnCallV, FnParamsV, ItemV, ProgramV, StatementV};
use crate::code_gen::{
    spec_argument_pool, spec_convert_label, spec_emit_call_args, spec_generate_code,
    spec_handle_expr, spec_handle_fn_call, spec_initial_map, spec_lookup, spec_manager_new,
    spec_param_register, RstManagerV,
};
use crate::assembly::InstructionV;
use crate::rst::{rst_chars, Rst};
use crate::spec_compile_lines;

verus! {

broadcast use vstd::seq::group_seq_axioms;

/// Determinism: the compiled lines are a mathematical function of the
/// source text alone, so two runs of the pipeline on equal texts yield
/// byte-identical assembly. Together with the `ensures` of
/// `compile_to_lines`, which pins each run's result to
/// `spec_compile_lines` of its input, equal inputs give equal outputs.
pub proof fn lemma_pipeline_deterministic(s1: Seq<char>, s2: Seq<char>)
    requires
        s1 == s2,
    ensures
        spec_compile_lines(s1) == spec_compile_lines(s2),
{
}

/// No two parameters share a name.
pub open spec fn distinct_param_names(params: Seq<FnParamsV>) -> bool {
    forall|i: int, j: int|
        0 <= i < j < params.len() ==> (#[trigger] params[i]).name != (#[trigger] params[j]).name
}

proof fn lemma_lookup_initial_prefix(params: Seq<FnParamsV>, n: int, i: int)
    requires
        0 <= i < n <= params.len(),
        n <= 6,
        distinct_param_names(params),
    ensures
        spec_lookup(
            Seq::new(n as nat, |j: int| (params[j].name, spec_param_register(j))),
            params[i].name,
        ) == Some(spec_param_register(i)),
    decreases n,
{
    let m = Seq::new(n as nat, |j: int| (params[j].name, spec_param_register(j)));
    if i == n - 1 {
        assert(m.last() == (params[i].name, spec_param_register(i)));
    } else {
        assert(m.last().0 == params[n - 1].name);
        assert(params[n - 1].name != params[i].name);
        assert(m.drop_last() =~= Seq::new(
            (n - 1) as nat,
            |j: int| (params[j].name, spec_param_register(j)),
        ));
        lemma_lookup_initial_prefix(params, n - 1, i);
    }
}

/// Parameter-register mapping: in a function signature of at most six
/// parameters with pairwise distinct names, parameter `i` starts out
/// bound to the `i`-th fixed argument register. (With a duplicated name
/// the later binding shadows the earlier, as rebinding always does.)
pub proof fn lemma_param_register_mapping(params: Seq<FnParamsV>, i: int)
    requires
        params.len() <= 6,
        0 <= i < params.len(),
        distinct_param_names(params),
    ensures
        spec_lookup(spec_manager_new(params).val_register_map, params[i].name) == Some(
            spec_param_register(i),
        ),
{
    assert(spec_initial_map(params) =~= Seq::new(
        params.len(),
        |j: int| (params[j].name, spec_param_register(j)),
    ));
    lemma_lookup_initial_prefix(params, params.len() as int, i);
}

/// The operand text an argument's move carries: the literal itself, or
/// the register its variable is bound to.
pub open spec fn spec_arg_source(m: Seq<(Seq<char>, Rst)>, a: ExprV) -> Seq<char> {
    match a {
        ExprV::ExprLit(l) => l,
        ExprV::ExprVariable(v) => rst_chars(spec_lookup(m, v)->Some_0),
        _ => Seq::empty(),
    }
}

/// Whether one call argument has a lowering under the bindings `m`: it
/// is a literal, or a variable that `m` binds.
pub open spec fn spec_arg_lowers(m: Seq<(Seq<char>, Rst)>, a: ExprV) -> bool {
    match a {
        ExprV::ExprLit(_) => true,
        ExprV::ExprVariable(v) => spec_lookup(m, v) is Some,
        _ => false,
    }
}

proof fn lemma_emit_args_ordered(
    mgr: RstManagerV,
    instrs: Seq<InstructionV>,
    args: Seq<ExprV>,
    k: int,
)
    requires
        0 <= k,
        k + args.len() <= 6,
        mgr.rsts_for_arguments == spec_argument_pool().take(6 - k),
        forall|i: int| 0 <= i < args.len() ==> spec_arg_lowers(mgr.val_register_map, #[trigger] args[i]),
    ensures
        spec_emit_call_args(mgr, instrs, args) is Ok,
        ({
            let out = spec_emit_call_args(mgr, instrs, args)->Ok_0;
            &&& out.0.val_register_map == mgr.val_register_map
            &&& out.0.rsts_for_general == mgr.rsts_for_general
            &&& out.0.rsts_for_return == mgr.rsts_for_return
            &&& out.0.rsts_for_arguments == spec_argument_pool().take(6 - k - args.len())
            &&& out.1.len() == instrs.len() + args.len()
            &&& (forall|i: int| 0 <= i < instrs.len() ==> out.1[i] == instrs[i])
            &&& (forall|i: int|
                0 <= i < args.len() ==> out.1[instrs.len() + i] == (InstructionV::MOVE {
                    dest: rst_chars(spec_param_register(k + i)),
                    src: spec_arg_source(mgr.val_register_map, args[i]),
                }))
        }),
    decreases args.len(),
{
    if args.len() == 0 {
        assert(spec_argument_pool().take(6 - k) =~= spec_argument_pool().take(6 - k - 0));
    } else {
        let pool = spec_argument_pool().take(6 - k);
        assert(pool.len() == 6 - k);
        assert(pool.last() == spec_argument_pool()[5 - k]);
        assert(spec_argument_pool()[5 - k] == spec_param_register(k)) by {
            if k == 0 {
            } else if k == 1 {
            } else if k == 2 {
            } else if k == 3 {
            } else if k == 4 {
            } else {
                assert(k == 5);
            }
        }
        assert(pool.drop_last() =~= spec_argument_pool().take(6 - (k + 1)));
        let dest = pool.last();
        let a0 = args[0];
        assert(spec_arg_lowers(mgr.val_register_map, a0));
        let mgr1 = RstManagerV { rsts_for_arguments: pool.drop_last(), ..mgr };
        let moved = InstructionV::MOVE {
            dest: rst_chars(dest),
            src: spec_arg_source(mgr.val_register_map, a0),
        };
        assert(forall|i: int|
            0 <= i < args.drop_first().len() ==> spec_arg_lowers(
                mgr1.val_register_map,
                #[trigger] args.drop_first()[i],
            ));
        lemma_emit_args_ordered(mgr1, instrs.push(moved), args.drop_first(), k + 1);
        match a0 {
            ExprV::ExprLit(_) => {
                assert(spec_emit_call_args(mgr, instrs, args) == spec_emit_call_args(
                    mgr1,
                    instrs.push(moved),
                    args.drop_first(),
                ));
            },
            ExprV::ExprVariable(_) => {
                assert(spec_emit_call_args(mgr, instrs, args) == spec_emit_call_args(
                    mgr1,
                    instrs.push(moved),
                    args.drop_first(),
                ));
            },
            _ => {
                assert(false);
            },
        }
        let out = spec_emit_call_args(mgr, instrs, args)->Ok_0;
        assert(out == spec_emit_call_args(mgr1, instrs.push(moved), args.drop_first())->Ok_0);
        assert(out.0.rsts_for_arguments =~= spec_argument_pool().take(6 - k - args.len()));
        assert forall|i: int| 0 <= i < instrs.len() implies out.1[i] == instrs[i] by {
            assert(out.1[i] == instrs.push(moved)[i]);
        }
        assert forall|i: int| 0 <= i < args.len() implies out.1[instrs.len() + i]
            == (InstructionV::MOVE {
            dest: rst_chars(spec_param_register(k + i)),
            src: spec_arg_source(mgr.val_register_map, args[i]),
        }) by {
            if i == 0 {
                assert(out.1[instrs.len() as int] == instrs.push(moved)[instrs.len() as int]);
            } else {
                assert(args.drop_first()[i - 1] == args[i]);
                assert(out.1[instrs.push(moved).len() + (i - 1)] == (InstructionV::MOVE {
                    dest: rst_chars(spec_param_register(k + 1 + (i - 1))),
                    src: spec_arg_source(mgr1.val_register_map, args.drop_first()[i - 1]),
                }));
            }
        }
    }
}

/// Call-argument ordering: a call (other than the built-in) whose
/// arguments are literals or bound variables, at most six of them,
/// lowers successfully when the argument pool is full, and the emitted
/// instructions place argument `i` in the `i`-th fixed argument
/// register, strictly in source order, followed by the call itself.
pub proof fn lemma_call_argument_ordering(
    mgr: RstManagerV,
    instrs: Seq<InstructionV>,
    call: FnCallV,
)
    requires
        call.name != "println!"@,
        mgr.rsts_for_arguments == spec_argument_pool(),
        call.args.len() <= 6,
        forall|i: int|
            0 <= i < call.args.len() ==> spec_arg_lowers(mgr.val_register_map, #[trigger] call.args[i]),
    ensures
        spec_handle_fn_call(mgr, instrs, call) is Ok,
        ({
            let out = spec_handle_fn_call(mgr, instrs, call)->Ok_0;
            &&& out.1.len() == instrs.len() + call.args.len() + 1
            &&& (forall|i: int| 0 <= i < instrs.len() ==> out.1[i] == instrs[i])
            &&& (forall|i: int|
                0 <= i < call.args.len() ==> out.1[instrs.len() + i] == (InstructionV::MOVE {
                    dest: rst_chars(spec_param_register(i)),
                    src: spec_arg_source(mgr.val_register_map, call.args[i]),
                }))
            &&& out.1[instrs.len() + call.args.len() as int] == (InstructionV::CALL {
                func: spec_convert_label(call.name),
            })
        }),
{
    assert(spec_argument_pool().take(6) =~= spec_argument_pool());
    lemma_emit_args_ordered(mgr, instrs, call.args, 0);
}

/// Whether an expression applies an operator other than `+` anywhere in
/// it.
pub open spec fn expr_has_unsupported_op(e: ExprV) -> bool
    decreases e,
{
    match e {
        ExprV::ExprBinaryOp { left, op, right } => !(op is Plus) || expr_has_unsupported_op(*left)
            || expr_has_unsupported_op(*right),
        ExprV::ExprFnCall(call) => exprs_have_unsupported_op(call.args),
        _ => false,
    }
}

/// Whether any expression of the list applies an unsupported operator.
pub open spec fn exprs_have_unsupported_op(args: Seq<ExprV>) -> bool
    decreases args,
{
    args.len() > 0 && (expr_has_unsupported_op(args[0]) || exprs_have_unsupported_op(
        args.drop_first(),
    ))
}

proof fn lemma_emit_args_err(mgr: RstManagerV, instrs: Seq<InstructionV>, args: Seq<ExprV>)
    requires
        exprs_have_unsupported_op(args),
    ensures
        spec_emit_call_args(mgr, instrs, args) is Err,
    decreases args.len(),
{
    assert(args.len() > 0);
    match args[0] {
        ExprV::ExprLit(lit) => {
            assert(!expr_has_unsupported_op(args[0]));
            assert(exprs_have_unsupported_op(args.drop_first()));
            if mgr.rsts_for_arguments.len() > 0 {
                let dest = mgr.rsts_for_arguments.last();
                let mgr1 = RstManagerV {
                    rsts_for_arguments: mgr.rsts_for_arguments.drop_last(),
                    ..mgr
                };
                lemma_emit_args_err(
                    mgr1,
                    instrs.push(InstructionV::MOVE { dest: rst_chars(dest), src: lit }),
                    args.drop_first(),
                );
            }
        },
        ExprV::ExprVariable(name) => {
            assert(!expr_has_unsupported_op(args[0]));
            assert(exprs_have_unsupported_op(args.drop_first()));
            match spec_lookup(mgr.val_register_map, name) {
                None => {},
                Some(rst) => {
                    if mgr.rsts_for_arguments.len() > 0 {
                        let dest = mgr.rsts_for_arguments.last();
                        let mgr1 = RstManagerV {
                            rsts_for_arguments: mgr.rsts_for_arguments.drop_last(),
                            ..mgr
                        };
                        lemma_emit_args_err(
                            mgr1,
                            instrs.push(
                                InstructionV::MOVE { dest: rst_chars(dest), src: rst_chars(rst) },
                            ),
                            args.drop_first(),
                        );
                    }
                },
            }
        },
        _ => {},
    }
}

proof fn lemma_fn_call_err(mgr: RstManagerV, instrs: Seq<InstructionV>, call: FnCallV)
    requires
        exprs_have_unsupported_op(call.args),
    ensures
        spec_handle_fn_call(mgr, instrs, call) is Err,
{
    if call.name == "println!"@ {
        if call.args.len() == 1 && call.args[0] is ExprLit {
            assert(!expr_has_unsupported_op(call.args[0]));
            assert(call.args.drop_first() =~= Seq::<ExprV>::empty());
            assert(!exprs_have_unsupported_op(call.args.drop_first()));
        }
    } else {
        lemma_emit_args_err(mgr, instrs, call.args);
    }
}

/// Lowering an expression that applies an unsupported operator anywhere
/// always fails; no instruction list with wrong arithmetic is produced.
pub proof fn lemma_expr_unsupported_op_err(
    mgr: RstManagerV,
    instrs: Seq<InstructionV>,
    e: ExprV,
)
    requires
        expr_has_unsupported_op(e),
    ensures
        spec_handle_expr(mgr, instrs, e) is Err,
    decreases e,
{
    match e {
        ExprV::ExprBinaryOp { left, op, right } => {
            if expr_has_unsupported_op(*left) {
                lemma_expr_unsupported_op_err(mgr, instrs, *left);
            } else {
                match spec_handle_expr(mgr, instrs, *left) {
                    Err(_) => {},
                    Ok((mgr1, instrs1, _)) => {
                        if expr_has_unsupported_op(*right) {
                            lemma_expr_unsupported_op_err(mgr1, instrs1, *right);
                        }
                    },
                }
            }
        },
        ExprV::ExprFnCall(call) => {
            lemma_fn_call_err(mgr, instrs, call);
        },
        _ => {},
    }
}

/// Whether a statement applies an unsupported operator anywhere.
pub open spec fn stmt_has_unsupported_op(st: StatementV) -> bool {
    match st {
        StatementV::Local(l) => expr_has_unsupported_op(l.value),
        StatementV::Return(e) => expr_has_unsupported_op(e),
        StatementV::FnCall(call) => exprs_have_unsupported_op(call.args),
    }
}

/// Whether any statement of the list applies an unsupported operator.
pub open spec fn stmts_have_unsupported_op(stmts: Seq<StatementV>) -> bool
    decreases stmts.len(),
{
    stmts.len() > 0 && (stmt_has_unsupported_op(stmts[0]) || stmts_have_unsupported_op(
        stmts.drop_first(),
    ))
}

/// Whether any function of the program applies an unsupported operator.
pub open spec fn program_has_unsupported_op(p: ProgramV) -> bool {
    exists|i: int|
        0 <= i < p.items.len() && match #[trigger] p.items[i] {
            ItemV::ItemFn(f) => stmts_have_unsupported_op(f.block),
            ItemV::ItemConst(_) => false,
        }
}

proof fn lemma_stmt_err(
    mgr: RstManagerV,
    instrs: Seq<InstructionV>,
    data: Seq<crate::assembly::DataDirectiveV>,
    st: StatementV,
)
    requires
        stmt_has_unsupported_op(st),
    ensures
        crate::code_gen::spec_handle_statement(mgr, instrs, data, st) is Err,
{
    match st {
        StatementV::Local(l) => {
            lemma_expr_unsupported_op_err(mgr, instrs, l.value);
        },
        StatementV::Return(e) => {
            lemma_expr_unsupported_op_err(mgr, instrs, e);
        },
        StatementV::FnCall(call) => {
            lemma_fn_call_err(mgr, instrs, call);
        },
    }
}

proof fn lemma_stmts_err(
    mgr: RstManagerV,
    instrs: Seq<InstructionV>,
    data: Seq<crate::assembly::DataDirectiveV>,
    stmts: Seq<StatementV>,
)
    requires
        stmts_have_unsupported_op(stmts),
    ensures
        crate::code_gen::spec_handle_stmts(mgr, instrs, data, stmts) is Err,
    decreases stmts.len(),
{
    if stmt_has_unsupported_op(stmts[0]) {
        lemma_stmt_err(mgr, instrs, data, stmts[0]);
    } else {
        match crate::code_gen::spec_handle_statement(mgr, instrs, data, stmts[0]) {
            Err(_) => {},
            Ok((mgr1, instrs1, data1)) => {
                lemma_stmts_err(mgr1, instrs1, data1, stmts.drop_first());
            },
        }
    }
}

proof fn lemma_gen_items_err(acc: crate::assembly::AsmCodeV, items: Seq<ItemV>, i: int)
    requires
        0 <= i < items.len(),
        (match items[i] {
            ItemV::ItemFn(f) => stmts_have_unsupported_op(f.block),
            ItemV::ItemConst(_) => false,
        }),
    ensures
        crate::code_gen::spec_gen_items(acc, items) is Err,
    decreases items.len(),
{
    match items[0] {
        ItemV::ItemFn(f) => {
            if i == 0 {
                lemma_stmts_err(
                    spec_manager_new(f.signature.args),
                    Seq::empty(),
                    Seq::empty(),
                    f.block,
                );
            } else {
                match crate::code_gen::spec_handle_fn(f) {
                    Err(_) => {},
                    Ok((fc, data)) => {
                        assert(items.drop_first()[i - 1] == items[i]);
                        lemma_gen_items_err(
                            crate::assembly::AsmCodeV {
                                directives: acc.directives,
                                text_sec: acc.text_sec.push(fc),
                                data_sec: acc.data_sec + data,
                            },
                            items.drop_first(),
                            i - 1,
                        );
                    },
                }
            }
        },
        ItemV::ItemConst(_) => {
            assert(i != 0);
            assert(items.drop_first()[i - 1] == items[i]);
            lemma_gen_items_err(acc, items.drop_first(), i - 1);
        },
    }
}

/// Unsupported-operator rejection: a program that applies `-`, `*` or
/// `/` anywhere fails to compile; no assembly with wrong arithmetic is
/// ever produced. When the operator itself is reached with both
/// operands lowered, the fault reported is the unsupported operator, as
/// `spec_handle_expr` states.
pub proof fn lemma_unsupported_operator_rejection(p: ProgramV)
    requires
        program_has_unsupported_op(p),
    ensures
        spec_generate_code(p) is Err,
{
    let i = choose|i: int|
        0 <= i < p.items.len() && match #[trigger] p.items[i] {
            ItemV::ItemFn(f) => stmts_have_unsupported_op(f.block),
            ItemV::ItemConst(_) => false,
        };
    lemma_gen_items_err(crate::assembly::spec_initial_asm(), p.items, i);
}

} // verus!
