//! The source-language parser. A unit's text defines one function:
//!
//! ```text
//! fn <name> <param>...
//!   let <var> = <operand> [<op> <operand>]
//!   let <var> = call <name> <operand>...
//!   set <var> = ...            (overwrite an existing local)
//!   pub <var>                  (read one public input)
//!   secret <var>               (read one secret input)
//!   out <operand>              (write to the public output)
//!   if <operand> ... end       (run the body when non-zero)
//!   return <operand>           (last statement)
//! ```
//!
//! Tokens are separated by blanks, one statement per line; an operand
//! is a decimal field-element literal or a local name. `if` bodies are
//! parsed into fresh blocks of the definition's block table, so every
//! `If` statement names a strictly later block and the table stays
//! acyclic; a successful parse is well formed in the sense of `def_wf`.

use vstd::prelude::*;

use crate::ast::{BinOp, Expr, FunctionDef, Operand, Stmt, block_wf, def_wf, expr_wf, operand_wf, stmt_wf};
use crate::inputs::{copy_bytes, parse_token};
use crate::locator::bytes_eq;

verus! {

/// Split raw text into lines of blank-separated tokens.
fn to_lines(text: &Vec<u8>) -> (r: Vec<Vec<Vec<u8>>>) {
    let mut lines: Vec<Vec<Vec<u8>>> = Vec::new();
    let mut line: Vec<Vec<u8>> = Vec::new();
    let mut tok: Vec<u8> = Vec::new();
    let mut i: usize = 0;
    while i < text.len()
        decreases text@.len() - i,
    {
        let b = text[i];
        if b == 10 {
            if tok.len() > 0 {
                line.push(tok);
                tok = Vec::new();
            }
            lines.push(line);
            line = Vec::new();
        } else if b == 32 || b == 9 || b == 13 {
            if tok.len() > 0 {
                line.push(tok);
                tok = Vec::new();
            }
        } else {
            tok.push(b);
        }
        i = i + 1;
    }
    if tok.len() > 0 {
        line.push(tok);
    }
    if line.len() > 0 {
        lines.push(line);
    }
    lines
}

/// Parse an operand: a token starting with a digit is a field-element
/// literal, anything else names a local.
fn parse_operand(t: &Vec<u8>) -> (r: Option<Operand>)
    ensures
        r matches Some(o) ==> operand_wf(o),
{
    if t.len() == 0 {
        return None;
    }
    let b = t[0];
    if 48 <= b && b <= 57 {
        match parse_token(t) {
            Some(v) => Some(Operand::Lit(v)),
            None => None,
        }
    } else {
        Some(Operand::Var(copy_bytes(t)))
    }
}

fn kw_fn(t: &Vec<u8>) -> (r: bool) {
    bytes_eq(t, &vec![102u8, 110u8])
}

fn kw_let(t: &Vec<u8>) -> (r: bool) {
    bytes_eq(t, &vec![108u8, 101u8, 116u8])
}

fn kw_set(t: &Vec<u8>) -> (r: bool) {
    bytes_eq(t, &vec![115u8, 101u8, 116u8])
}

fn kw_if(t: &Vec<u8>) -> (r: bool) {
    bytes_eq(t, &vec![105u8, 102u8])
}

fn kw_end(t: &Vec<u8>) -> (r: bool) {
    bytes_eq(t, &vec![101u8, 110u8, 100u8])
}

fn kw_out(t: &Vec<u8>) -> (r: bool) {
    bytes_eq(t, &vec![111u8, 117u8, 116u8])
}

fn kw_pub(t: &Vec<u8>) -> (r: bool) {
    bytes_eq(t, &vec![112u8, 117u8, 98u8])
}

fn kw_secret(t: &Vec<u8>) -> (r: bool) {
    bytes_eq(t, &vec![115u8, 101u8, 99u8, 114u8, 101u8, 116u8])
}

fn kw_return(t: &Vec<u8>) -> (r: bool) {
    bytes_eq(t, &vec![114u8, 101u8, 116u8, 117u8, 114u8, 110u8])
}

fn kw_call(t: &Vec<u8>) -> (r: bool) {
    bytes_eq(t, &vec![99u8, 97u8, 108u8, 108u8])
}

fn kw_eq_sign(t: &Vec<u8>) -> (r: bool) {
    bytes_eq(t, &vec![61u8])
}

/// Parse the right-hand side of a `let` or `set`: the tokens after the
/// equality sign.
fn parse_rhs(toks: &Vec<Vec<u8>>, from: usize) -> (r: Option<Expr>)
    requires
        from <= toks@.len(),
    ensures
        r matches Some(e) ==> expr_wf(e),
{
    let rest = toks.len() - from;
    if rest == 0 {
        return None;
    }
    if kw_call(&toks[from]) {
        if rest < 2 {
            return None;
        }
        let callee = copy_bytes(&toks[from + 1]);
        let mut args: Vec<Operand> = Vec::new();
        let mut i: usize = from + 2;
        while i < toks.len()
            invariant
                from + 2 <= i <= toks@.len(),
                forall|k: int| 0 <= k < args@.len() ==> operand_wf(#[trigger] args@[k]),
            decreases toks@.len() - i,
        {
            match parse_operand(&toks[i]) {
                Some(o) => args.push(o),
                None => {
                    return None;
                },
            }
            i = i + 1;
        }
        return Some(Expr::Call(callee, args));
    }
    if rest == 1 {
        return match parse_operand(&toks[from]) {
            Some(o) => Some(Expr::Single(o)),
            None => None,
        };
    }
    if rest == 3 {
        let a = match parse_operand(&toks[from]) {
            Some(o) => o,
            None => {
                return None;
            },
        };
        let b = match parse_operand(&toks[from + 2]) {
            Some(o) => o,
            None => {
                return None;
            },
        };
        let opt = &toks[from + 1];
        if opt.len() != 1 {
            return None;
        }
        let op = if opt[0] == 43 {
            BinOp::Add
        } else if opt[0] == 45 {
            BinOp::Sub
        } else if opt[0] == 42 {
            BinOp::Mul
        } else {
            return None;
        };
        return Some(Expr::Bin(op, a, b));
    }
    None
}

/// Parse the statements of one block, starting at line `start`, into
/// slot `my_id` of the block table. The entry block (slot 0) ends at a
/// `return` line followed only by blank lines; any other block ends at
/// its `end` line. Bodies of `if` statements become fresh, strictly
/// later slots.
fn parse_block(lines: &Vec<Vec<Vec<u8>>>, start: usize, blocks: &mut Vec<Vec<Stmt>>, my_id: usize) -> (r:
    Option<usize>)
    requires
        my_id < old(blocks)@.len(),
        start <= lines@.len(),
    ensures
        final(blocks)@.len() >= old(blocks)@.len(),
        my_id < final(blocks)@.len(),
        forall|b: int|
            0 <= b < old(blocks)@.len() && b != my_id ==> final(blocks)@[b] == old(blocks)@[b],
        r matches Some(next) ==> start < next <= lines@.len(),
        r matches Some(next) ==> block_wf(
            final(blocks)@[my_id as int]@,
            my_id as int,
            final(blocks)@.len() as int,
        ),
        r matches Some(next) ==> (my_id == 0 ==> final(blocks)@[my_id as int]@.len() > 0),
        r matches Some(next) ==> forall|b: int|
            old(blocks)@.len() <= b < final(blocks)@.len() ==> block_wf(
                (#[trigger] final(blocks)@[b])@,
                b,
                final(blocks)@.len() as int,
            ),
    decreases lines@.len() - start,
{
    let mut stmts: Vec<Stmt> = Vec::new();
    let mut i: usize = start;
    let ghost old_len = blocks@.len();
    while i < lines.len()
        invariant
            start <= i <= lines@.len(),
            my_id < old_len <= blocks@.len(),
            old_len == old(blocks)@.len(),
            forall|b: int| 0 <= b < old_len && b != my_id ==> blocks@[b] == old(blocks)@[b],
            forall|k: int|
                0 <= k < stmts@.len() ==> stmt_wf(
                    #[trigger] stmts@[k],
                    my_id as int,
                    blocks@.len() as int,
                ),
            forall|k: int| 0 <= k < stmts@.len() ==> !((#[trigger] stmts@[k]) is Ret),
            forall|b: int|
                old_len <= b < blocks@.len() ==> block_wf(
                    (#[trigger] blocks@[b])@,
                    b,
                    blocks@.len() as int,
                ),
        decreases lines@.len() - i,
    {
        let line = &lines[i];
        if line.len() == 0 {
            i = i + 1;
            continue ;
        }
        let head = &line[0];
        if kw_return(head) {
            if my_id != 0 || line.len() != 2 {
                return None;
            }
            let o = match parse_operand(&line[1]) {
                Some(o) => o,
                None => {
                    return None;
                },
            };
            stmts.push(Stmt::Ret(o));
            // only blank lines may follow the return
            let ghost snap = blocks@;
            let mut j: usize = i + 1;
            while j < lines.len()
                invariant
                    i < j <= lines@.len(),
                    blocks@ == snap,
                    my_id < old_len <= blocks@.len(),
                    old_len == old(blocks)@.len(),
                    forall|b: int| 0 <= b < old_len && b != my_id ==> blocks@[b] == old(blocks)@[b],
                decreases lines@.len() - j,
            {
                if lines[j].len() != 0 {
                    return None;
                }
                j = j + 1;
            }
            let ghost gs = stmts@;
            set_block(blocks, my_id, stmts);
            proof {
                assert(block_wf(gs, my_id as int, blocks@.len() as int));
            }
            return Some(lines.len());
        }
        if kw_end(head) {
            if my_id == 0 || line.len() != 1 {
                return None;
            }
            let ghost gs = stmts@;
            set_block(blocks, my_id, stmts);
            proof {
                assert(block_wf(gs, my_id as int, blocks@.len() as int));
            }
            return Some(i + 1);
        }
        if kw_if(head) {
            if line.len() != 2 {
                return None;
            }
            let c = match parse_operand(&line[1]) {
                Some(o) => o,
                None => {
                    return None;
                },
            };
            let child = blocks.len();
            blocks.push(Vec::new());
            match parse_block(lines, i + 1, blocks, child) {
                Some(next) => {
                    stmts.push(Stmt::If(c, child));
                    i = next;
                },
                None => {
                    return None;
                },
            }
            continue ;
        }
        if kw_let(head) || kw_set(head) {
            if line.len() < 4 {
                return None;
            }
            if !kw_eq_sign(&line[2]) {
                return None;
            }
            let var = copy_bytes(&line[1]);
            let e = match parse_rhs(line, 3) {
                Some(e) => e,
                None => {
                    return None;
                },
            };
            if kw_let(head) {
                stmts.push(Stmt::Let(var, e));
            } else {
                stmts.push(Stmt::Assign(var, e));
            }
            i = i + 1;
            continue ;
        }
        if kw_out(head) {
            if line.len() != 2 {
                return None;
            }
            let o = match parse_operand(&line[1]) {
                Some(o) => o,
                None => {
                    return None;
                },
            };
            stmts.push(Stmt::Out(o));
            i = i + 1;
            continue ;
        }
        if kw_pub(head) {
            if line.len() != 2 {
                return None;
            }
            stmts.push(Stmt::ReadPub(copy_bytes(&line[1])));
            i = i + 1;
            continue ;
        }
        if kw_secret(head) {
            if line.len() != 2 {
                return None;
            }
            stmts.push(Stmt::ReadSecret(copy_bytes(&line[1])));
            i = i + 1;
            continue ;
        }
        return None;
    }
    // ran out of lines without a terminator
    None
}

/// Overwrite one slot of the block table.
fn set_block(blocks: &mut Vec<Vec<Stmt>>, at: usize, stmts: Vec<Stmt>)
    requires
        at < old(blocks)@.len(),
    ensures
        final(blocks)@ == old(blocks)@.update(at as int, stmts),
{
    let slot = &mut blocks[at];
    *slot = stmts;
}

/// Parse one source unit as the definition of the function it is named
/// for: a `fn` header whose declared name must match the unit's
/// qualified name, then the entry block. A successful parse is well
/// formed (`def_wf`) and carries the unit's name.
pub fn parse_unit(name: &Vec<u8>, text: &Vec<u8>) -> (r: Option<FunctionDef>)
    ensures
        r matches Some(d) ==> def_wf(d) && d.name@ == name@,
{
    let lines = to_lines(text);
    let mut i: usize = 0;
    while i < lines.len()
        invariant
            i <= lines@.len(),
        decreases lines@.len() - i,
    {
        if lines[i].len() > 0 {
            break ;
        }
        i = i + 1;
    }
    if i >= lines.len() {
        return None;
    }
    let header = &lines[i];
    if header.len() < 2 || !kw_fn(&header[0]) {
        return None;
    }
    if !bytes_eq(&header[1], name) {
        return None;
    }
    let mut params: Vec<Vec<u8>> = Vec::new();
    let mut k: usize = 2;
    while k < header.len()
        invariant
            2 <= k <= header@.len(),
        decreases header@.len() - k,
    {
        params.push(copy_bytes(&header[k]));
        k = k + 1;
    }
    let mut blocks: Vec<Vec<Stmt>> = Vec::new();
    blocks.push(Vec::new());
    match parse_block(&lines, i + 1, &mut blocks, 0) {
        Some(_) => {
            let d = FunctionDef { name: copy_bytes(name), params, blocks };
            proof {
                assert(def_wf(d));
            }
            Some(d)
        },
        None => None,
    }
}

} // verus!
