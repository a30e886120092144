//! The parsed form of a source function: a name, a parameter list and a
//! body of statements. Conditional bodies are held in a flat table of
//! blocks: block 0 is the function body, and an `If` statement names the
//! block it guards by an index strictly greater than its own block's,
//! so the block table is free of cycles by construction.

use vstd::prelude::*;

use crate::inputs::FIELD_ORDER;

verus! {

/// A leaf value: a field-element literal or a local variable reference.
#[derive(Clone, Debug, PartialEq, Eq)]
pub enum Operand {
    Lit(u64),
    Var(Vec<u8>),
}

/// A field-arithmetic operator.
#[derive(Clone, Copy, Debug, PartialEq, Eq)]
pub enum BinOp {
    Add,
    Sub,
    Mul,
}

/// The right-hand side of a binding: an operand, an application of an
/// arithmetic operator, or a function call.
#[derive(Clone, Debug, PartialEq, Eq)]
pub enum Expr {
    Single(Operand),
    Bin(BinOp, Operand, Operand),
    Call(Vec<u8>, Vec<Operand>),
}

/// One statement of a function body.
#[derive(Clone, Debug, PartialEq, Eq)]
pub enum Stmt {
    /// Bind a new local to the value of an expression.
    Let(Vec<u8>, Expr),
    /// Overwrite an existing local with the value of an expression.
    Assign(Vec<u8>, Expr),
    /// Run the named block when the operand is non-zero.
    If(Operand, usize),
    /// Write the operand to the public output.
    Out(Operand),
    /// Read one public input into a new local.
    ReadPub(Vec<u8>),
    /// Read one secret input into a new local.
    ReadSecret(Vec<u8>),
    /// Leave the operand as the function's value; last statement only.
    Ret(Operand),
}

/// A parsed function definition.
#[derive(Clone, Debug, PartialEq, Eq)]
pub struct FunctionDef {
    pub name: Vec<u8>,
    pub params: Vec<Vec<u8>>,
    pub blocks: Vec<Vec<Stmt>>,
}

pub open spec fn operand_wf(o: Operand) -> bool {
    o matches Operand::Lit(v) ==> v < FIELD_ORDER
}

pub open spec fn expr_wf(e: Expr) -> bool {
    match e {
        Expr::Single(o) => operand_wf(o),
        Expr::Bin(_, a, b) => operand_wf(a) && operand_wf(b),
        Expr::Call(_, args) => forall|i: int| 0 <= i < args@.len() ==> operand_wf(#[trigger] args@[i]),
    }
}

/// A statement is well formed within block `blk` of `nblocks` blocks:
/// literals lie in the field, and an `If` names a strictly later block.
pub open spec fn stmt_wf(s: Stmt, blk: int, nblocks: int) -> bool {
    match s {
        Stmt::Let(_, e) => expr_wf(e),
        Stmt::Assign(_, e) => expr_wf(e),
        Stmt::If(c, b) => operand_wf(c) && blk < b < nblocks,
        Stmt::Out(o) => operand_wf(o),
        Stmt::ReadPub(_) => true,
        Stmt::ReadSecret(_) => true,
        Stmt::Ret(o) => operand_wf(o),
    }
}

/// A block is well formed: every statement is, and a `Ret` stands
/// exactly at the end of the entry block and nowhere else.
pub open spec fn block_wf(stmts: Seq<Stmt>, blk: int, nblocks: int) -> bool {
    (forall|i: int| 0 <= i < stmts.len() ==> stmt_wf(#[trigger] stmts[i], blk, nblocks))
        && (forall|i: int|
        0 <= i < stmts.len() ==> ((#[trigger] stmts[i]) is Ret <==> (blk == 0 && i == stmts.len()
            - 1)))
}

/// A function definition is well formed: it has an entry block ending
/// in a `Ret`, and every block is well formed.
pub open spec fn def_wf(d: FunctionDef) -> bool {
    d.blocks@.len() > 0 && d.blocks@[0]@.len() > 0 && (forall|b: int|
        0 <= b < d.blocks@.len() ==> block_wf((#[trigger] d.blocks@[b])@, b, d.blocks@.len() as int))
}

/// Is this operand a reference to the local named `v`?
pub open spec fn operand_is_var(o: Operand, v: Seq<u8>) -> bool {
    o matches Operand::Var(n) && n@ == v
}

/// Does this expression reference the local named `v`?
pub open spec fn expr_mentions_var(e: Expr, v: Seq<u8>) -> bool {
    match e {
        Expr::Single(o) => operand_is_var(o, v),
        Expr::Bin(_, a, b) => operand_is_var(a, v) || operand_is_var(b, v),
        Expr::Call(_, args) => exists|i: int|
            0 <= i < args@.len() && operand_is_var(#[trigger] args@[i], v),
    }
}

/// Does this statement reference the local named `v`?
pub open spec fn stmt_mentions_var(s: Stmt, v: Seq<u8>) -> bool {
    match s {
        Stmt::Let(_, e) => expr_mentions_var(e, v),
        Stmt::Assign(n, e) => n@ == v || expr_mentions_var(e, v),
        Stmt::If(c, _) => operand_is_var(c, v),
        Stmt::Out(o) => operand_is_var(o, v),
        Stmt::ReadPub(_) => false,
        Stmt::ReadSecret(_) => false,
        Stmt::Ret(o) => operand_is_var(o, v),
    }
}

/// Does any statement of the definition reference the local named `v`?
pub open spec fn def_mentions_var(d: FunctionDef, v: Seq<u8>) -> bool {
    exists|b: int, i: int|
        0 <= b < d.blocks@.len() && 0 <= i < d.blocks@[b]@.len() && stmt_mentions_var(
            #[trigger] d.blocks@[b]@[i],
            v,
        )
}

/// Does this statement call the function named `nm` with `got` arguments?
pub open spec fn stmt_has_call(s: Stmt, nm: Seq<u8>, got: int) -> bool {
    match s {
        Stmt::Let(_, Expr::Call(c, args)) => c@ == nm && args@.len() == got,
        Stmt::Assign(_, Expr::Call(c, args)) => c@ == nm && args@.len() == got,
        _ => false,
    }
}

/// Does this statement call the function named `nm`?
pub open spec fn stmt_calls(s: Stmt, nm: Seq<u8>) -> bool {
    match s {
        Stmt::Let(_, Expr::Call(c, _)) => c@ == nm,
        Stmt::Assign(_, Expr::Call(c, _)) => c@ == nm,
        _ => false,
    }
}

/// Does any statement of the definition call the function named `nm`?
pub open spec fn def_calls_name(d: FunctionDef, nm: Seq<u8>) -> bool {
    exists|b: int, i: int|
        0 <= b < d.blocks@.len() && 0 <= i < d.blocks@[b]@.len() && stmt_calls(
            #[trigger] d.blocks@[b]@[i],
            nm,
        )
}

/// Does any statement of the definition call `nm` with `got` arguments?
pub open spec fn def_has_call_with_arity(d: FunctionDef, nm: Seq<u8>, got: int) -> bool {
    exists|b: int, i: int|
        0 <= b < d.blocks@.len() && 0 <= i < d.blocks@[b]@.len() && stmt_has_call(
            #[trigger] d.blocks@[b]@[i],
            nm,
            got,
        )
}

/// No definition of the list carries this name.
pub open spec fn no_def_named(defs: Seq<FunctionDef>, nm: Seq<u8>) -> bool {
    forall|i: int| 0 <= i < defs.len() ==> (#[trigger] defs[i]).name@ != nm
}

/// Does this statement make the generated code jump: a function call,
/// or a branch (branches are lowered through call instructions on the
/// target machine, whose conditional skip covers one instruction)?
pub open spec fn stmt_is_jumping(s: Stmt) -> bool {
    ||| s matches Stmt::Let(_, Expr::Call(_, _))
    ||| s matches Stmt::Assign(_, Expr::Call(_, _))
    ||| s is If
}

/// One call instruction is emitted per jumping statement: 1 for a
/// call site or a branch, 0 otherwise.
pub open spec fn stmt_jump_count(s: Stmt) -> int {
    if stmt_is_jumping(s) {
        1
    } else {
        0
    }
}

/// The number of jumping statements of one block.
pub open spec fn block_jump_count(stmts: Seq<Stmt>) -> int
    decreases stmts.len(),
{
    if stmts.len() == 0 {
        0
    } else {
        block_jump_count(stmts.drop_last()) + stmt_jump_count(stmts.last())
    }
}

/// The number of jumping statements across a block table.
pub open spec fn blocks_jump_count(blocks: Seq<Vec<Stmt>>) -> int
    decreases blocks.len(),
{
    if blocks.len() == 0 {
        0
    } else {
        blocks_jump_count(blocks.drop_last()) + block_jump_count(blocks.last()@)
    }
}

/// The number of jumping statements of one definition.
pub open spec fn def_jump_count(d: FunctionDef) -> int {
    blocks_jump_count(d.blocks@)
}

/// The number of jumping statements across a definition list: the
/// number of call instructions its compilation emits.
pub open spec fn defs_jump_count(defs: Seq<FunctionDef>) -> int
    decreases defs.len(),
{
    if defs.len() == 0 {
        0
    } else {
        defs_jump_count(defs.drop_last()) + def_jump_count(defs.last())
    }
}

/// Does any statement of the definition call or branch?
pub open spec fn def_is_jumping(d: FunctionDef) -> bool {
    exists|b: int, i: int|
        0 <= b < d.blocks@.len() && 0 <= i < d.blocks@[b]@.len() && stmt_is_jumping(
            #[trigger] d.blocks@[b]@[i],
        )
}

} // verus!
