//! The function compiler: resolves an entry point through the source
//! locator, parses the reachable call graph, and lowers it to a flat
//! instruction stream for the target machine.
//!
//! Lowering model: the machine has no registers and no heap, only a
//! value stack, so locals live at stack offsets tracked at compile
//! time. Each function is emitted exactly once behind a unique entry
//! label, however many call sites reference it; recursion and mutual
//! recursion are handled by resolving every call to the callee's label
//! index up front, so compilation never re-enters a function. Branch
//! bodies are emitted out of line behind fresh branch labels and
//! entered through a conditional-skip-plus-call pair, the idiom of the
//! target machine. Label ids are minted from a monotonic counter owned
//! by one compilation run: function entries take the indexes of the
//! definition list, branch labels everything past it.
//!
//! Before hand-off the stream is checked against the emitter's
//! invariant — every referenced label defined exactly once, every
//! argument in range — so a successful compilation carries
//! `well_labelled` and `stream_valid`.

use vstd::prelude::*;

use crate::ast::{
    BinOp,
    Expr,
    FunctionDef,
    Operand,
    Stmt,
    block_jump_count,
    blocks_jump_count,
    def_calls_name,
    def_has_call_with_arity,
    def_jump_count,
    defs_jump_count,
    def_is_jumping,
    def_mentions_var,
    def_wf,
    expr_mentions_var,
    expr_wf,
    no_def_named,
    operand_is_var,
    operand_wf,
    stmt_calls,
    stmt_has_call,
    stmt_is_jumping,
    stmt_mentions_var,
    stmt_wf,
};
use crate::error::Error;
use crate::inputs::{FIELD_ORDER, copy_bytes};
use crate::instr::{
    Instr,
    call_count,
    call_target,
    def_id,
    defines_label,
    distinct_defs,
    fn_label_count,
    instr_valid,
    label_defined,
    stream_valid,
    well_labelled,
};
use crate::locator::{Locator, SourceUnit, bytes_eq, found_before, is_first_match};
use crate::parse::parse_unit;

verus! {

/// Append one instruction, tracking the stream's label and call counts.
fn push_op(out: &mut Vec<Instr>, x: Instr)
    ensures
        final(out)@ == old(out)@.push(x),
        fn_label_count(final(out)@) == fn_label_count(old(out)@) + (if x is FnLabel {
            1int
        } else {
            0int
        }),
        call_count(final(out)@) == call_count(old(out)@) + (if x is Call {
            1int
        } else {
            0int
        }),
{
    out.push(x);
    proof {
        assert(out@.drop_last() =~= old(out)@);
    }
}

/// The position of the first definition carrying `name`, if any.
fn find_def(defs: &Vec<FunctionDef>, name: &Vec<u8>) -> (r: Option<usize>)
    ensures
        match r {
            Some(i) => i < defs@.len() && defs@[i as int].name@ == name@,
            None => forall|i: int| 0 <= i < defs@.len() ==> (#[trigger] defs@[i]).name@ != name@,
        },
{
    let mut i: usize = 0;
    while i < defs.len()
        invariant
            0 <= i <= defs@.len(),
            forall|k: int| 0 <= k < i ==> (#[trigger] defs@[k]).name@ != name@,
        decreases defs@.len() - i,
    {
        if bytes_eq(&defs[i].name, name) {
            return Some(i);
        }
        i = i + 1;
    }
    None
}

/// The position of the latest (innermost) binding of `name` in scope.
fn find_var(scope: &Vec<Vec<u8>>, name: &Vec<u8>) -> (r: Option<usize>)
    ensures
        r matches Some(i) ==> i < scope@.len(),
{
    let mut i: usize = scope.len();
    while i > 0
        invariant
            i <= scope@.len(),
        decreases i,
    {
        i = i - 1;
        if bytes_eq(&scope[i], name) {
            return Some(i);
        }
    }
    None
}

/// Emit the code that places one operand on top of the stack, above
/// `temps` values already pushed past the named frame.
fn emit_operand(
    o: &Operand,
    scope: &Vec<Vec<u8>>,
    temps: usize,
    fname: &Vec<u8>,
    out: &mut Vec<Instr>,
) -> (r: Result<(), Error>)
    requires
        operand_wf(*o),
    ensures
        r is Ok ==> fn_label_count(final(out)@) == fn_label_count(old(out)@) && call_count(
            final(out)@,
        ) == call_count(old(out)@),
        r matches Err(err) ==> match err {
            Error::UnresolvedSymbol { function, symbol } => function@ == fname@ && operand_is_var(
                *o,
                symbol@,
            ),
            Error::StackDepthExceeded { function } => function@ == fname@,
            _ => false,
        },
{
    match o {
        Operand::Lit(v) => {
            push_op(out, Instr::Push(*v));
            Ok(())
        },
        Operand::Var(name) => {
            match find_var(scope, name) {
                None => Err(
                    Error::UnresolvedSymbol { function: copy_bytes(fname), symbol: copy_bytes(name) },
                ),
                Some(idx) => {
                    let depth: u128 = (scope.len() - 1 - idx) as u128 + temps as u128;
                    if depth > 15 {
                        return Err(Error::StackDepthExceeded { function: copy_bytes(fname) });
                    }
                    push_op(out, Instr::Dup(depth as u64));
                    Ok(())
                },
            }
        },
    }
}

/// Emit the code that leaves the value of an expression on top of the
/// stack: a push or copy, an arithmetic pattern, or argument pushes
/// followed by a call to the callee's entry label.
fn emit_expr(
    e: &Expr,
    scope: &Vec<Vec<u8>>,
    fname: &Vec<u8>,
    defs: &Vec<FunctionDef>,
    out: &mut Vec<Instr>,
) -> (r: Result<(), Error>)
    requires
        expr_wf(*e),
    ensures
        r is Ok ==> fn_label_count(final(out)@) == fn_label_count(old(out)@),
        r is Ok ==> call_count(final(out)@) == call_count(old(out)@) + (if *e is Call {
            1int
        } else {
            0int
        }),
        r matches Err(err) ==> match err {
            Error::UnresolvedSymbol { function, symbol } => function@ == fname@
                && expr_mentions_var(*e, symbol@),
            Error::StackDepthExceeded { function } => function@ == fname@,
            Error::UnresolvedModule { name } => (*e matches Expr::Call(c, _) && c@ == name@)
                && no_def_named(defs@, name@),
            Error::ArityMismatch { expected, got } => (*e matches Expr::Call(c, args) && (
            exists|k: int|
                0 <= k < defs@.len() && (#[trigger] defs@[k]).name@ == c@ && defs@[
                    k
                ].params@.len() == expected
            ) && args@.len() == got) && expected != got,
            _ => false,
        },
{
    match e {
        Expr::Single(o) => emit_operand(o, scope, 0, fname, out),
        Expr::Bin(op, a, b) => {
            let r1 = emit_operand(a, scope, 0, fname, out);
            if r1.is_err() {
                return r1;
            }
            let r2 = emit_operand(b, scope, 1, fname, out);
            if r2.is_err() {
                return r2;
            }
            match op {
                BinOp::Add => push_op(out, Instr::Add),
                BinOp::Mul => push_op(out, Instr::Mul),
                BinOp::Sub => {
                    // a - b = a + (order - 1) * b in the field
                    push_op(out, Instr::Push(FIELD_ORDER - 1));
                    push_op(out, Instr::Mul);
                    push_op(out, Instr::Add);
                },
            }
            Ok(())
        },
        Expr::Call(callee, args) => {
            let t = match find_def(defs, callee) {
                None => {
                    return Err(Error::UnresolvedModule { name: copy_bytes(callee) });
                },
                Some(t) => t,
            };
            if args.len() != defs[t].params.len() {
                return Err(
                    Error::ArityMismatch { expected: defs[t].params.len(), got: args.len() },
                );
            }
            let mut k: usize = 0;
            while k < args.len()
                invariant
                    0 <= k <= args@.len(),
                    *e matches Expr::Call(cc, aa) && aa@ == args@,
                    forall|i: int| 0 <= i < args@.len() ==> operand_wf(#[trigger] args@[i]),
                    fn_label_count(out@) == fn_label_count(old(out)@),
                    call_count(out@) == call_count(old(out)@),
                decreases args@.len() - k,
            {
                let ra = emit_operand(&args[k], scope, k, fname, out);
                if ra.is_err() {
                    proof {
                        let errv = ra->Err_0;
                        match errv {
                            Error::UnresolvedSymbol { function, symbol } => {
                                assert(operand_is_var(args@[k as int], symbol@));
                                assert(expr_mentions_var(*e, symbol@));
                            },
                            _ => {},
                        }
                    }
                    return ra;
                }
                k = k + 1;
            }
            push_op(out, Instr::Call(t as u64));
            Ok(())
        },
    }
}

/// Emit the code of one block's statements. `base` is the label id of
/// the definition's first branch block; `scopes` records, for each
/// block this one branches to, the frame layout at the branch point.
#[verifier::rlimit(30)]
fn compile_stmts(
    stmts: &Vec<Stmt>,
    blk: usize,
    nb: usize,
    base: u64,
    scope: &mut Vec<Vec<u8>>,
    scopes: &mut Vec<Option<Vec<Vec<u8>>>>,
    fname: &Vec<u8>,
    defs: &Vec<FunctionDef>,
    is_entry: bool,
    out: &mut Vec<Instr>,
) -> (r: Result<(), Error>)
    requires
        forall|k: int| 0 <= k < stmts@.len() ==> stmt_wf(#[trigger] stmts@[k], blk as int, nb as int),
        base + nb <= u64::MAX,
        old(scopes)@.len() == nb,
    ensures
        final(scopes)@.len() == nb,
        final(scope)@.len() >= old(scope)@.len(),
        r is Ok ==> fn_label_count(final(out)@) == fn_label_count(old(out)@),
        r is Ok ==> call_count(final(out)@) == call_count(old(out)@) + block_jump_count(stmts@),
        r is Ok && (forall|k: int| 0 <= k < stmts@.len() ==> !stmt_is_jumping(#[trigger] stmts@[k]))
            ==> call_count(final(out)@) == call_count(old(out)@),
        r matches Err(err) ==> match err {
            Error::UnresolvedSymbol { function, symbol } => function@ == fname@ && (exists|k: int|
                0 <= k < stmts@.len() && stmt_mentions_var(#[trigger] stmts@[k], symbol@)),
            Error::StackDepthExceeded { function } => function@ == fname@,
            Error::UnresolvedModule { name } => (exists|k: int|
                0 <= k < stmts@.len() && stmt_calls(#[trigger] stmts@[k], name@)) && no_def_named(
                defs@,
                name@,
            ),
            Error::ArityMismatch { expected, got } => (exists|k: int, nm: Seq<u8>|
                0 <= k < stmts@.len() && #[trigger] stmt_has_call(stmts@[k], nm, got as int) && (
                exists|j: int|
                    0 <= j < defs@.len() && (#[trigger] defs@[j]).name@ == nm && defs@[
                        j
                    ].params@.len() == expected
                )) && expected != got,
            _ => false,
        },
{
    let ghost no_jump = forall|k: int|
        0 <= k < stmts@.len() ==> !stmt_is_jumping(#[trigger] stmts@[k]);
    let mut k: usize = 0;
    while k < stmts.len()
        invariant
            0 <= k <= stmts@.len(),
            forall|i: int| 0 <= i < stmts@.len() ==> stmt_wf(#[trigger] stmts@[i], blk as int, nb as int),
            base + nb <= u64::MAX,
            scopes@.len() == nb,
            no_jump == (forall|i: int|
                0 <= i < stmts@.len() ==> !stmt_is_jumping(#[trigger] stmts@[i])),
            fn_label_count(out@) == fn_label_count(old(out)@),
            call_count(out@) == call_count(old(out)@) + block_jump_count(stmts@.take(k as int)),
            no_jump ==> call_count(out@) == call_count(old(out)@),
            scope@.len() >= old(scope)@.len(),
        decreases stmts@.len() - k,
    {
        let stmt = &stmts[k];
        proof {
            assert(stmt_wf(stmts@[k as int], blk as int, nb as int));
        }
        match stmt {
            Stmt::Let(var, e) => {
                let re = emit_expr(e, scope, fname, defs, out);
                if re.is_err() {
                    proof {
                        lift_expr_err(re->Err_0, stmts@, k as int, *e);
                    }
                    return Err(re.unwrap_err());
                }
                scope.push(copy_bytes(var));
            },
            Stmt::Assign(var, e) => {
                let re = emit_expr(e, scope, fname, defs, out);
                if re.is_err() {
                    proof {
                        lift_expr_err(re->Err_0, stmts@, k as int, *e);
                    }
                    return Err(re.unwrap_err());
                }
                let idx = match find_var(scope, var) {
                    None => {
                        return Err(
                            Error::UnresolvedSymbol {
                                function: copy_bytes(fname),
                                symbol: copy_bytes(var),
                            },
                        );
                    },
                    Some(idx) => idx,
                };
                let depth: u128 = (scope.len() - idx) as u128;
                if depth > 15 {
                    return Err(Error::StackDepthExceeded { function: copy_bytes(fname) });
                }
                push_op(out, Instr::Swap(depth as u64));
                push_op(out, Instr::Pop(1));
            },
            Stmt::If(c, tgt) => {
                let rc = emit_operand(c, scope, 0, fname, out);
                if rc.is_err() {
                    return Err(rc.unwrap_err());
                }
                push_op(out, Instr::Skiz);
                let label: u64 = base + (*tgt as u64 - 1);
                push_op(out, Instr::Call(label));
                let snapshot = scope.clone();
                set_scope(scopes, *tgt, Some(snapshot));
            },
            Stmt::Out(o) => {
                let ro = emit_operand(o, scope, 0, fname, out);
                if ro.is_err() {
                    return Err(ro.unwrap_err());
                }
                push_op(out, Instr::WriteIo(1));
            },
            Stmt::ReadPub(var) => {
                push_op(out, Instr::ReadIo(1));
                scope.push(copy_bytes(var));
            },
            Stmt::ReadSecret(var) => {
                push_op(out, Instr::Divine(1));
                scope.push(copy_bytes(var));
            },
            Stmt::Ret(o) => {
                let ro = emit_operand(o, scope, 0, fname, out);
                if ro.is_err() {
                    return Err(ro.unwrap_err());
                }
                if is_entry {
                    push_op(out, Instr::Halt);
                } else {
                    // drop the frame below the result, one slot at a time
                    let mut f: usize = 0;
                    let frame = scope.len();
                    let ghost cc_mid = call_count(out@);
                    while f < frame
                        invariant
                            fn_label_count(out@) == fn_label_count(old(out)@),
                            call_count(out@) == cc_mid,
                            no_jump ==> call_count(out@) == call_count(old(out)@),
                        decreases frame - f,
                    {
                        push_op(out, Instr::Swap(1));
                        push_op(out, Instr::Pop(1));
                        f = f + 1;
                    }
                    push_op(out, Instr::Return);
                }
            },
        }
        proof {
            assert(stmts@.take(k + 1).drop_last() =~= stmts@.take(k as int));
            assert(stmts@.take(k + 1).last() == stmts@[k as int]);
        }
        k = k + 1;
    }
    proof {
        assert(stmts@.take(k as int) =~= stmts@);
    }
    Ok(())
}


/// Lift an expression-level defect report to the statement that holds
/// the expression.
proof fn lift_expr_err(err: Error, stmts: Seq<Stmt>, k: int, e: Expr)
    requires
        0 <= k < stmts.len(),
        (stmts[k] matches Stmt::Let(_, e2) && e2 == e) || (stmts[k] matches Stmt::Assign(_, e3)
            && e3 == e),
        match err {
            Error::UnresolvedSymbol { function, symbol } => expr_mentions_var(e, symbol@),
            Error::UnresolvedModule { name } => e matches Expr::Call(c, _) && c@ == name@,
            Error::ArityMismatch { expected, got } => e matches Expr::Call(c, args) && args@.len()
                == got,
            _ => true,
        },
    ensures
        match err {
            Error::UnresolvedSymbol { function, symbol } => exists|i: int|
                0 <= i < stmts.len() && stmt_mentions_var(#[trigger] stmts[i], symbol@),
            Error::UnresolvedModule { name } => exists|i: int|
                0 <= i < stmts.len() && stmt_calls(#[trigger] stmts[i], name@),
            Error::ArityMismatch { expected, got } => e matches Expr::Call(c, _) ==> (exists|
                i: int,
            |
                0 <= i < stmts.len() && #[trigger] stmt_has_call(stmts[i], c@, got as int)),
            _ => true,
        },
{
    match err {
        Error::UnresolvedSymbol { function, symbol } => {
            assert(stmt_mentions_var(stmts[k], symbol@));
        },
        Error::UnresolvedModule { name } => {
            assert(stmt_calls(stmts[k], name@));
        },
        Error::ArityMismatch { expected, got } => {
            if e is Call {
                let c = e->Call_0;
                assert(stmt_has_call(stmts[k], c@, got as int));
            }
        },
        _ => {},
    }
}

/// Lift a statement-level defect report from one block to its whole
/// definition, keeping the callee tie for arity defects.
proof fn lift_block_err(err: Error, d: FunctionDef, b: int, defs: Seq<FunctionDef>)
    requires
        0 <= b < d.blocks@.len(),
        match err {
            Error::UnresolvedSymbol { function, symbol } => exists|i: int|
                0 <= i < d.blocks@[b]@.len() && stmt_mentions_var(
                    #[trigger] d.blocks@[b]@[i],
                    symbol@,
                ),
            Error::UnresolvedModule { name } => exists|i: int|
                0 <= i < d.blocks@[b]@.len() && stmt_calls(#[trigger] d.blocks@[b]@[i], name@),
            Error::ArityMismatch { expected, got } => exists|i: int, nm: Seq<u8>|
                0 <= i < d.blocks@[b]@.len() && #[trigger] stmt_has_call(
                    d.blocks@[b]@[i],
                    nm,
                    got as int,
                ) && (exists|j: int|
                    0 <= j < defs.len() && (#[trigger] defs[j]).name@ == nm && defs[
                        j
                    ].params@.len() == expected
                ),
            _ => true,
        },
    ensures
        match err {
            Error::UnresolvedSymbol { function, symbol } => def_mentions_var(d, symbol@),
            Error::UnresolvedModule { name } => def_calls_name(d, name@),
            Error::ArityMismatch { expected, got } => exists|nm: Seq<u8>|
                #[trigger] def_has_call_with_arity(d, nm, got as int) && (exists|j: int|
                    0 <= j < defs.len() && (#[trigger] defs[j]).name@ == nm && defs[
                        j
                    ].params@.len() == expected
                ),
            _ => true,
        },
{
    match err {
        Error::UnresolvedSymbol { function, symbol } => {
            let i = choose|i: int|
                0 <= i < d.blocks@[b]@.len() && stmt_mentions_var(
                    #[trigger] d.blocks@[b]@[i],
                    symbol@,
                );
            assert(stmt_mentions_var(d.blocks@[b]@[i], symbol@));
        },
        Error::UnresolvedModule { name } => {
            let i = choose|i: int|
                0 <= i < d.blocks@[b]@.len() && stmt_calls(#[trigger] d.blocks@[b]@[i], name@);
            assert(stmt_calls(d.blocks@[b]@[i], name@));
        },
        Error::ArityMismatch { expected, got } => {
            let (i, nm) = choose|i: int, nm: Seq<u8>|
                0 <= i < d.blocks@[b]@.len() && #[trigger] stmt_has_call(
                    d.blocks@[b]@[i],
                    nm,
                    got as int,
                ) && (exists|j: int|
                    0 <= j < defs.len() && (#[trigger] defs[j]).name@ == nm && defs[
                        j
                    ].params@.len() == expected
                );
            assert(stmt_has_call(d.blocks@[b]@[i], nm, got as int));
            assert(def_has_call_with_arity(d, nm, got as int));
        },
        _ => {},
    }
}

/// Overwrite one slot of the branch-scope table.
fn set_scope(scopes: &mut Vec<Option<Vec<Vec<u8>>>>, at: usize, v: Option<Vec<Vec<u8>>>)
    requires
        at < old(scopes)@.len(),
    ensures
        final(scopes)@.len() == old(scopes)@.len(),
{
    let slot = &mut scopes[at];
    *slot = v;
}

/// Compile one function: its entry label, the code of its body, and
/// each branch block out of line behind a fresh branch label. The
/// function's body is emitted exactly once: exactly one function-entry
/// label is appended, whatever the number of call sites elsewhere.
fn compile_fn(
    def: &FunctionDef,
    fn_label: u64,
    defs: &Vec<FunctionDef>,
    counter: &mut u64,
    is_entry: bool,
    out: &mut Vec<Instr>,
) -> (r: Result<(), Error>)
    requires
        def_wf(*def),
    ensures
        r is Ok ==> fn_label_count(final(out)@) == fn_label_count(old(out)@) + 1,
        r is Ok ==> call_count(final(out)@) == call_count(old(out)@) + def_jump_count(*def),
        r is Ok && !def_is_jumping(*def) ==> call_count(final(out)@) == call_count(old(out)@),
        r matches Err(err) ==> match err {
            Error::UnresolvedSymbol { function, symbol } => function@ == def.name@
                && def_mentions_var(*def, symbol@),
            Error::StackDepthExceeded { function } => function@ == def.name@,
            Error::LabelSpaceExhausted { function } => function@ == def.name@,
            Error::UnresolvedModule { name } => def_calls_name(*def, name@) && no_def_named(
                defs@,
                name@,
            ),
            Error::ArityMismatch { expected, got } => (exists|nm: Seq<u8>|
                #[trigger] def_has_call_with_arity(*def, nm, got as int) && (exists|j: int|
                    0 <= j < defs@.len() && (#[trigger] defs@[j]).name@ == nm && defs@[
                        j
                    ].params@.len() == expected
                )) && expected != got,
            _ => false,
        },
{
    let nb = def.blocks.len();
    let base = *counter;
    let next_counter = match base.checked_add(nb as u64) {
        None => {
            return Err(Error::LabelSpaceExhausted { function: copy_bytes(&def.name) });
        },
        Some(nc) => nc,
    };
    *counter = next_counter;
    let mut scopes: Vec<Option<Vec<Vec<u8>>>> = Vec::new();
    let mut z: usize = 0;
    while z < nb
        invariant
            scopes@.len() == z <= nb,
        decreases nb - z,
    {
        scopes.push(None);
        z = z + 1;
    }
    set_scope(&mut scopes, 0, Some(def.params.clone()));
    let mut b: usize = 0;
    while b < nb
        invariant
            0 <= b <= nb,
            nb == def.blocks@.len(),
            def_wf(*def),
            base + nb <= u64::MAX,
            scopes@.len() == nb,
            fn_label_count(out@) == fn_label_count(old(out)@) + (if b > 0 {
                1int
            } else {
                0int
            }),
            call_count(out@) == call_count(old(out)@) + blocks_jump_count(
                def.blocks@.take(b as int),
            ),
            !def_is_jumping(*def) ==> call_count(out@) == call_count(old(out)@),
        decreases nb - b,
    {
        if b == 0 {
            push_op(out, Instr::FnLabel(fn_label));
        } else {
            push_op(out, Instr::BrLabel(base + (b as u64 - 1)));
        }
        let sc = scopes[b].clone();
        {
            // a block nothing branches to is compiled all the same,
            // against an empty frame, so every jumping statement of the
            // definition yields exactly one call instruction
            let mut scope = match sc {
                Some(s2) => s2,
                None => Vec::new(),
            };
            {
                let entry_len = scope.len();
                proof {
                    assert(forall|k: int|
                        0 <= k < def.blocks@[b as int]@.len() ==> stmt_wf(
                            #[trigger] def.blocks@[b as int]@[k],
                            b as int,
                            nb as int,
                        ));
                    if !def_is_jumping(*def) {
                        assert(forall|k: int|
                            0 <= k < def.blocks@[b as int]@.len() ==> !stmt_is_jumping(
                                #[trigger] def.blocks@[b as int]@[k],
                            ));
                    }
                }
                let rs = compile_stmts(
                    &def.blocks[b],
                    b,
                    nb,
                    base,
                    &mut scope,
                    &mut scopes,
                    &def.name,
                    defs,
                    is_entry,
                    out,
                );
                if rs.is_err() {
                    proof {
                        lift_block_err(rs->Err_0, *def, b as int, defs@);
                    }
                    return Err(rs.unwrap_err());
                }
                if b > 0 {
                    // discard block locals, then return to the branch site
                    let mut extra = scope.len() - entry_len;
                    let ghost cc_here = call_count(out@);
                    while extra > 0
                        invariant
                            fn_label_count(out@) == fn_label_count(old(out)@) + 1,
                            call_count(out@) == cc_here,
                            !def_is_jumping(*def) ==> call_count(out@) == call_count(old(out)@),
                        decreases extra,
                    {
                        let c: usize = if extra > 5 {
                            5
                        } else {
                            extra
                        };
                        push_op(out, Instr::Pop(c as u64));
                        extra = extra - c;
                    }
                    push_op(out, Instr::Return);
                }
            }
        }
        proof {
            assert(def.blocks@.take(b + 1).drop_last() =~= def.blocks@.take(b as int));
            assert(def.blocks@.take(b + 1).last() == def.blocks@[b as int]);
        }
        b = b + 1;
    }
    proof {
        assert(def.blocks@.take(b as int) =~= def.blocks@);
    }
    Ok(())
}

/// Is this instruction a label definition? (runtime mirror)
fn is_def_instr(x: &Instr) -> (r: bool)
    ensures
        r == defines_label(*x),
{
    match x {
        Instr::FnLabel(_) => true,
        Instr::BrLabel(_) => true,
        _ => false,
    }
}

/// The label id an instruction defines. (runtime mirror)
fn def_id_of(x: &Instr) -> (r: u64)
    ensures
        r == def_id(*x),
{
    match x {
        Instr::FnLabel(l) => *l,
        Instr::BrLabel(l) => *l,
        _ => 0,
    }
}

/// Does every instruction argument lie in range? (runtime mirror)
fn instr_valid_exec(x: &Instr) -> (r: bool)
    ensures
        r == instr_valid(*x),
{
    match x {
        Instr::Push(v) => *v < FIELD_ORDER,
        Instr::Dup(n) => *n <= 15,
        Instr::Swap(n) => 1 <= *n && *n <= 15,
        Instr::Pop(n) => 1 <= *n && *n <= 5,
        Instr::ReadIo(n) => 1 <= *n && *n <= 5,
        Instr::Divine(n) => 1 <= *n && *n <= 5,
        Instr::WriteIo(n) => 1 <= *n && *n <= 5,
        _ => true,
    }
}

/// The emitter's hand-off check: decides exactly whether the stream is
/// well labelled (no duplicate label definitions, every call target
/// defined) and every instruction argument is in range.
pub fn check_stream(s: &Vec<Instr>) -> (r: bool)
    ensures
        r == (well_labelled(s@) && stream_valid(s@)),
{
    // argument ranges
    let mut i: usize = 0;
    while i < s.len()
        invariant
            0 <= i <= s@.len(),
            forall|k: int| 0 <= k < i ==> instr_valid(#[trigger] s@[k]),
        decreases s@.len() - i,
    {
        if !instr_valid_exec(&s[i]) {
            return false;
        }
        i = i + 1;
    }
    // no duplicate label definitions
    let mut a: usize = 0;
    while a < s.len()
        invariant
            0 <= a <= s@.len(),
            forall|x: int, y: int|
                0 <= x < y < s@.len() && x < a && defines_label(#[trigger] s@[x]) && defines_label(
                    #[trigger] s@[y],
                ) ==> def_id(s@[x]) != def_id(s@[y]),
        decreases s@.len() - a,
    {
        if is_def_instr(&s[a]) {
            let ida = def_id_of(&s[a]);
            let mut b: usize = a + 1;
            while b < s.len()
                invariant
                    a < b <= s@.len(),
                    a < s@.len(),
                    defines_label(s@[a as int]),
                    ida == def_id(s@[a as int]),
                    forall|y: int|
                        a < y < b && defines_label(#[trigger] s@[y]) ==> def_id(s@[y]) != ida,
                decreases s@.len() - b,
            {
                if is_def_instr(&s[b]) {
                    if def_id_of(&s[b]) == ida {
                        proof {
                            assert(!distinct_defs(s@));
                        }
                        return false;
                    }
                }
                b = b + 1;
            }
        }
        a = a + 1;
    }
    // every call target defined
    let mut c: usize = 0;
    while c < s.len()
        invariant
            0 <= c <= s@.len(),
            forall|k: int|
                0 <= k < c && (#[trigger] s@[k]) is Call ==> label_defined(s@, call_target(s@[k])),
        decreases s@.len() - c,
    {
        let target = match &s[c] {
            Instr::Call(l) => Some(*l),
            _ => None,
        };
        match target {
            Some(l) => {
                let mut d: usize = 0;
                let mut found = false;
                while d < s.len()
                    invariant
                        0 <= d <= s@.len(),
                        found ==> label_defined(s@, l),
                        !found ==> forall|y: int|
                            0 <= y < d && defines_label(#[trigger] s@[y]) ==> def_id(s@[y]) != l,
                    decreases s@.len() - d,
                {
                    if is_def_instr(&s[d]) {
                        if def_id_of(&s[d]) == l {
                            found = true;
                        }
                    }
                    d = d + 1;
                }
                if !found {
                    proof {
                        assert(s@[c as int] is Call && call_target(s@[c as int]) == l);
                        assert(!label_defined(s@, l));
                    }
                    return false;
                }
            },
            None => {},
        }
        c = c + 1;
    }
    true
}

/// Compile a list of parsed definitions as one program entered at the
/// named function. The entry function's body is laid out first and
/// ends in a halt; every other definition follows, each behind its own
/// entry label and emitted exactly once, so the stream holds exactly
/// one function-entry label per definition and exactly one call
/// instruction per call site or branch of the source. On success the
/// stream passes the emitter's hand-off check: every referenced label
/// is defined exactly once and every argument is in range. An error is
/// returned only when its defect exists in the definitions: an unknown
/// entry or callee name, a call site whose argument count disagrees
/// with its callee, or an occurrence of the reported symbol in the
/// reported function.
pub fn compile_defs(defs: &Vec<FunctionDef>, entry: &Vec<u8>) -> (r: Result<Vec<Instr>, Error>)
    requires
        forall|i: int| 0 <= i < defs@.len() ==> def_wf(#[trigger] defs@[i]),
    ensures
        (forall|i: int| 0 <= i < defs@.len() ==> (#[trigger] defs@[i]).name@ != entry@) ==> (r
            matches Err(e) && e matches Error::UnresolvedModule { name } && name@ == entry@),
        r matches Ok(stream) ==> well_labelled(stream@) && stream_valid(stream@),
        r matches Ok(stream) ==> fn_label_count(stream@) == defs@.len(),
        r matches Ok(stream) ==> call_count(stream@) == defs_jump_count(defs@),
        r matches Ok(stream) ==> ((defs@.len() == 1 && !def_is_jumping(defs@[0])) ==> call_count(
            stream@,
        ) == 0),
        r matches Err(e) ==> match e {
            Error::UnresolvedModule { name } => (name@ == entry@ && no_def_named(defs@, entry@))
                || (exists|j: int|
                0 <= j < defs@.len() && def_calls_name(#[trigger] defs@[j], name@)
            ) && no_def_named(defs@, name@),
            Error::UnresolvedSymbol { function, symbol } => exists|j: int|
                0 <= j < defs@.len() && (#[trigger] defs@[j]).name@ == function@
                    && def_mentions_var(defs@[j], symbol@),
            Error::StackDepthExceeded { function } => exists|j: int|
                0 <= j < defs@.len() && (#[trigger] defs@[j]).name@ == function@,
            Error::LabelSpaceExhausted { function } => exists|j: int|
                0 <= j < defs@.len() && (#[trigger] defs@[j]).name@ == function@,
            Error::ArityMismatch { expected, got } => (exists|j: int, nm: Seq<u8>|
                0 <= j < defs@.len() && #[trigger] def_has_call_with_arity(
                    defs@[j],
                    nm,
                    got as int,
                ) && (exists|k: int|
                    0 <= k < defs@.len() && (#[trigger] defs@[k]).name@ == nm && defs@[
                        k
                    ].params@.len() == expected
                )) && expected != got,
            Error::SyntaxError { .. } => true,
            _ => false,
        },
{
    let ei = match find_def(defs, entry) {
        None => {
            return Err(Error::UnresolvedModule { name: copy_bytes(entry) });
        },
        Some(ei) => ei,
    };
    let n = defs.len();
    let mut out: Vec<Instr> = Vec::new();
    let mut counter: u64 = n as u64;
    let re = compile_fn(&defs[ei], ei as u64, defs, &mut counter, true, &mut out);
    if re.is_err() {
        return Err(re.unwrap_err());
    }
    let mut j: usize = 0;
    while j < n
        invariant
            0 <= j <= n,
            n == defs@.len(),
            ei < n,
            defs@[ei as int].name@ == entry@,
            forall|i: int| 0 <= i < defs@.len() ==> def_wf(#[trigger] defs@[i]),
            fn_label_count(out@) == 1 + (if ei < j {
                j - 1
            } else {
                j as int
            }),
            call_count(out@) == defs_jump_count(defs@.take(j as int)) + (if ei < j {
                0int
            } else {
                def_jump_count(defs@[ei as int])
            }),
            n == 1 && !def_is_jumping(defs@[0]) ==> call_count(out@) == 0,
        decreases n - j,
    {
        if j != ei {
            let rf = compile_fn(&defs[j], j as u64, defs, &mut counter, false, &mut out);
            if rf.is_err() {
                return Err(rf.unwrap_err());
            }
        }
        proof {
            assert(defs@.take(j + 1).drop_last() =~= defs@.take(j as int));
            assert(defs@.take(j + 1).last() == defs@[j as int]);
        }
        j = j + 1;
    }
    proof {
        assert(defs@.take(j as int) =~= defs@);
    }
    if !check_stream(&out) {
        // an internal inconsistency of code generation, not a user error
        return Err(
            Error::SyntaxError { detail: vec![108u8, 97u8, 98u8, 101u8, 108u8, 115u8] },
        );
    }
    Ok(out)
}

/// The compilation pipeline's front half: registered source roots and
/// the compiler that resolves an entry point, parses every reachable
/// definition, and lowers the call graph to an instruction stream.
pub struct Compiler {
    pub locator: Locator,
}

impl Compiler {
    /// A compiler with no roots registered.
    pub fn new() -> (r: Compiler)
        ensures
            r.locator.units@.len() == 0,
    {
        Compiler { locator: Locator::new() }
    }

    /// Register the source units discovered under one more root; roots
    /// registered earlier shadow later ones.
    pub fn register_root(&mut self, found: Vec<SourceUnit>)
        ensures
            final(self).locator.units@ == old(self).locator.units@ + found@,
    {
        self.locator.register_root(found);
    }

    /// Compile the named entry function and everything transitively
    /// reachable from it. An unknown entry name fails with
    /// `UnresolvedModule` carrying that name; a successful stream
    /// carries the emitter's hand-off invariant.
    pub fn compile(&self, entry: &Vec<u8>) -> (r: Result<Vec<Instr>, Error>)
        ensures
            (forall|i: int|
                0 <= i < self.locator.units@.len() ==> (#[trigger] self.locator.units@[i]).name@
                    != entry@) ==> (r matches Err(e) && e matches Error::UnresolvedModule { name }
                && name@ == entry@),
            r matches Ok(stream) ==> well_labelled(stream@) && stream_valid(stream@),
            r matches Err(e) ==> match e {
                Error::UnresolvedModule { name } => name@ == entry@ ==> (forall|i: int|
                    0 <= i < self.locator.units@.len() ==> (#[trigger] self.locator.units@[
                        i
                    ]).name@ != entry@),
                Error::MalformedSource { name } => exists|i: int|
                    0 <= i < self.locator.units@.len() && (#[trigger] self.locator.units@[
                        i
                    ]).name@ == name@,
                Error::ProvingFailed { .. } => false,
                Error::InvalidInputLiteral { .. } => false,
                _ => true,
            },
    {
        let units = &self.locator.units;
        let n = units.len();
        let e0 = match find_unit(units, entry) {
            None => {
                return Err(Error::UnresolvedModule { name: copy_bytes(entry) });
            },
            Some(e0) => e0,
        };
        let mut parsed: Vec<Option<FunctionDef>> = Vec::new();
        let mut z: usize = 0;
        while z < n
            invariant
                parsed@.len() == z <= n,
                forall|i: int| 0 <= i < z ==> (#[trigger] parsed@[i]) is None,
            decreases n - z,
        {
            parsed.push(None);
            z = z + 1;
        }
        let d0 = match parse_unit(&units[e0].name, &units[e0].text) {
            None => {
                return Err(Error::MalformedSource { name: copy_bytes(&units[e0].name) });
            },
            Some(d) => d,
        };
        set_parsed(&mut parsed, e0, Some(d0));
        // follow call names until no new definition is reached; each
        // round that continues has filled at least one empty slot, so
        // `n + 2` rounds always suffice
        let mut round: u128 = 0;
        while round < n as u128 + 2
            invariant
                parsed@.len() == n,
                n == self.locator.units@.len(),
                units == &self.locator.units,
                e0 < n,
                is_first_match(self.locator.units@, entry@, e0 as int),
                parsed@[e0 as int] is Some,
                parsed@[e0 as int] matches Some(d) ==> d.name@ == entry@,
                forall|i: int|
                    0 <= i < n ==> ((#[trigger] parsed@[i]) matches Some(d) ==> def_wf(d)),
            decreases n as u128 + 2 - round,
        {
            let mut progress = false;
            let mut i: usize = 0;
            while i < n
                invariant
                    parsed@.len() == n,
                    n == self.locator.units@.len(),
                    units == &self.locator.units,
                    e0 < n,
                    is_first_match(self.locator.units@, entry@, e0 as int),
                    parsed@[e0 as int] is Some,
                    parsed@[e0 as int] matches Some(d) ==> d.name@ == entry@,
                    forall|k: int|
                        0 <= k < n ==> ((#[trigger] parsed@[k]) matches Some(d) ==> def_wf(d)),
                decreases n - i,
            {
                let calls_opt = match &parsed[i] {
                    Some(d) => Some(collect_calls(d)),
                    None => None,
                };
                match calls_opt {
                    None => {},
                    Some(calls) => {
                        let mut c: usize = 0;
                        while c < calls.len()
                            invariant
                                parsed@.len() == n,
                                n == self.locator.units@.len(),
                                units == &self.locator.units,
                                e0 < n,
                                is_first_match(self.locator.units@, entry@, e0 as int),
                                parsed@[e0 as int] is Some,
                                parsed@[e0 as int] matches Some(d) ==> d.name@ == entry@,
                                forall|k: int|
                                    0 <= k < n ==> ((#[trigger] parsed@[k]) matches Some(d)
                                        ==> def_wf(d)),
                            decreases calls@.len() - c,
                        {
                            let cname = &calls[c];
                            let j = match find_unit(units, cname) {
                                None => {
                                    return Err(
                                        Error::UnresolvedModule { name: copy_bytes(cname) },
                                    );
                                },
                                Some(j) => j,
                            };
                            if parsed[j].is_none() {
                                let dj = match parse_unit(&units[j].name, &units[j].text) {
                                    None => {
                                        return Err(
                                            Error::MalformedSource {
                                                name: copy_bytes(&units[j].name),
                                            },
                                        );
                                    },
                                    Some(d) => d,
                                };
                                set_parsed(&mut parsed, j, Some(dj));
                                progress = true;
                            }
                            c = c + 1;
                        }
                    },
                }
                i = i + 1;
            }
            if !progress {
                break ;
            }
            round = round + 1;
        }
        // gather the reached definitions, the entry function first
        let mut entry_def: Option<FunctionDef> = None;
        let mut others: Vec<FunctionDef> = Vec::new();
        let mut k: usize = 0;
        let ghost gparsed = parsed@;
        let mut rest = parsed;
        while k < n
            invariant
                gparsed.len() == n,
                rest@ == gparsed.skip(k as int),
                k <= n,
                e0 < n,
                is_first_match(self.locator.units@, entry@, e0 as int),
                gparsed[e0 as int] is Some,
                gparsed[e0 as int] matches Some(d) ==> d.name@ == entry@,
                forall|i: int| 0 <= i < gparsed.len() ==> ((#[trigger] gparsed[i]) matches Some(d)
                    ==> def_wf(d)),
                k > e0 <==> entry_def is Some,
                entry_def matches Some(d) ==> def_wf(d),
                entry_def matches Some(d2) ==> d2.name@ == entry@,
                forall|i: int| 0 <= i < others@.len() ==> def_wf(#[trigger] others@[i]),
            decreases n - k,
        {
            let slot = rest.remove(0);
            proof {
                assert(slot == gparsed[k as int]);
                assert(rest@ =~= gparsed.skip(k + 1));
            }
            match slot {
                Some(d) => {
                    if k == e0 {
                        entry_def = Some(d);
                    } else {
                        others.push(d);
                    }
                },
                None => {
                    proof {
                        assert(k != e0);
                    }
                },
            }
            k = k + 1;
        }
        let mut defs: Vec<FunctionDef> = Vec::new();
        match entry_def {
            Some(d) => defs.push(d),
            None => {
                // the gather loop ran past the entry slot, which held a
                // parsed definition, so the entry definition is in hand
                proof {
                    assert(false);
                }
                return Err(Error::MalformedSource { name: copy_bytes(entry) });
            },
        }
        let mut t: usize = 0;
        let no = others.len();
        let mut orest = others;
        while t < no
            invariant
                is_first_match(self.locator.units@, entry@, e0 as int),
                defs@.len() > 0,
                defs@[0].name@ == entry@,
                orest@.len() == no - t,
                forall|i: int| 0 <= i < orest@.len() ==> def_wf(#[trigger] orest@[i]),
                forall|i: int| 0 <= i < defs@.len() ==> def_wf(#[trigger] defs@[i]),
            decreases no - t,
        {
            let d = orest.remove(0);
            defs.push(d);
            t = t + 1;
        }
        compile_defs(&defs, entry)
    }
}

/// Overwrite one slot of the parse table.
fn set_parsed(parsed: &mut Vec<Option<FunctionDef>>, at: usize, v: Option<FunctionDef>)
    requires
        at < old(parsed)@.len(),
    ensures
        final(parsed)@ == old(parsed)@.update(at as int, v),
{
    let slot = &mut parsed[at];
    *slot = v;
}

/// The position of the first unit carrying `name`, if any.
fn find_unit(units: &Vec<SourceUnit>, name: &Vec<u8>) -> (r: Option<usize>)
    ensures
        match r {
            Some(i) => is_first_match(units@, name@, i as int),
            None => forall|i: int| 0 <= i < units@.len() ==> (#[trigger] units@[i]).name@ != name@,
        },
{
    let mut i: usize = 0;
    while i < units.len()
        invariant
            0 <= i <= units@.len(),
            forall|k: int| 0 <= k < i ==> (#[trigger] units@[k]).name@ != name@,
        decreases units@.len() - i,
    {
        if bytes_eq(&units[i].name, name) {
            proof {
                assert(!found_before(units@, name@, i as int));
            }
            return Some(i);
        }
        i = i + 1;
    }
    None
}

/// Every function name the definition's statements call.
fn collect_calls(d: &FunctionDef) -> (r: Vec<Vec<u8>>) {
    let mut names: Vec<Vec<u8>> = Vec::new();
    let mut b: usize = 0;
    while b < d.blocks.len()
        decreases d.blocks@.len() - b,
    {
        let block = &d.blocks[b];
        let mut k: usize = 0;
        while k < block.len()
            decreases block@.len() - k,
        {
            match &block[k] {
                Stmt::Let(_, Expr::Call(nm, _)) => names.push(copy_bytes(nm)),
                Stmt::Assign(_, Expr::Call(nm, _)) => names.push(copy_bytes(nm)),
                _ => {},
            }
            k = k + 1;
        }
        b = b + 1;
    }
    names
}


} // verus!
