//! The instruction stream: target-machine operations plus label
//! pseudo-operations. Labels are numeric identifiers, minted uniquely
//! per compilation run; `FnLabel` marks a function entry, `BrLabel` a
//! branch target. The well-labelling predicates here are the emitter's
//! hand-off invariant: every referenced label is defined exactly once.

use vstd::prelude::*;

use crate::inputs::FIELD_ORDER;

verus! {

/// One element of the instruction stream.
#[derive(Clone, Copy, Debug, PartialEq, Eq)]
pub enum Instr {
    /// Definition of a function-entry label.
    FnLabel(u64),
    /// Definition of a branch-target label.
    BrLabel(u64),
    /// Push a field-element literal.
    Push(u64),
    /// Pop two elements, push their field sum.
    Add,
    /// Pop two elements, push their field product.
    Mul,
    /// Copy the element `n` below the top onto the top.
    Dup(u64),
    /// Exchange the top with the element `n` below it.
    Swap(u64),
    /// Discard the top `n` elements.
    Pop(u64),
    /// Jump to a label, remembering the return point.
    Call(u64),
    /// Jump back to the most recent call site.
    Return,
    /// Pop the top; skip the next instruction if it was zero.
    Skiz,
    /// Stop the machine.
    Halt,
    /// Read `n` public inputs onto the stack.
    ReadIo(u64),
    /// Read `n` secret inputs onto the stack.
    Divine(u64),
    /// Pop `n` elements to the public output.
    WriteIo(u64),
}

/// Is this instruction a label definition?
pub open spec fn defines_label(i: Instr) -> bool {
    i is FnLabel || i is BrLabel
}

/// The label id an instruction defines (meaningful under `defines_label`).
pub open spec fn def_id(i: Instr) -> u64 {
    match i {
        Instr::FnLabel(l) => l,
        Instr::BrLabel(l) => l,
        _ => 0,
    }
}

/// The label id a call references (meaningful when `i is Call`).
pub open spec fn call_target(i: Instr) -> u64 {
    match i {
        Instr::Call(l) => l,
        _ => 0,
    }
}

/// No two label definitions in the stream share an id.
pub open spec fn distinct_defs(s: Seq<Instr>) -> bool {
    forall|i: int, j: int|
        0 <= i < j < s.len() && defines_label(#[trigger] s[i]) && defines_label(#[trigger] s[j])
            ==> def_id(s[i]) != def_id(s[j])
}

/// Some instruction of the stream defines label `l`.
pub open spec fn label_defined(s: Seq<Instr>, l: u64) -> bool {
    exists|i: int| 0 <= i < s.len() && defines_label(#[trigger] s[i]) && def_id(s[i]) == l
}

/// Every call in the stream references a defined label.
pub open spec fn calls_resolved(s: Seq<Instr>) -> bool {
    forall|i: int| 0 <= i < s.len() && (#[trigger] s[i]) is Call ==> label_defined(s, call_target(s[i]))
}

/// The emitter's hand-off invariant: every label referenced by a call
/// appears exactly once as a definition.
pub open spec fn well_labelled(s: Seq<Instr>) -> bool {
    distinct_defs(s) && calls_resolved(s)
}

/// Every instruction argument lies in the range its mnemonic accepts.
pub open spec fn instr_valid(i: Instr) -> bool {
    match i {
        Instr::Push(v) => v < FIELD_ORDER,
        Instr::Dup(n) => n <= 15,
        Instr::Swap(n) => 1 <= n && n <= 15,
        Instr::Pop(n) => 1 <= n && n <= 5,
        Instr::ReadIo(n) => 1 <= n && n <= 5,
        Instr::Divine(n) => 1 <= n && n <= 5,
        Instr::WriteIo(n) => 1 <= n && n <= 5,
        _ => true,
    }
}

pub open spec fn stream_valid(s: Seq<Instr>) -> bool {
    forall|i: int| 0 <= i < s.len() ==> instr_valid(#[trigger] s[i])
}

/// In a well-labelled stream, a defined label has exactly one defining
/// position: however many call sites reference one function, they all
/// resolve to the same single copy of its body.
pub proof fn lemma_one_definition_per_label(s: Seq<Instr>, l: u64)
    requires
        well_labelled(s),
        label_defined(s, l),
    ensures
        exists|k: int|
            0 <= k < s.len() && defines_label(#[trigger] s[k]) && def_id(s[k]) == l && (forall|
                k2: int,
            |
                0 <= k2 < s.len() && defines_label(#[trigger] s[k2]) && def_id(s[k2]) == l ==> k2
                    == k),
{
    let k = choose|k: int| 0 <= k < s.len() && defines_label(#[trigger] s[k]) && def_id(s[k]) == l;
    assert forall|k2: int|
        0 <= k2 < s.len() && defines_label(#[trigger] s[k2]) && def_id(s[k2]) == l implies k2
        == k by {
        if k2 < k {
            assert(def_id(s[k2]) != def_id(s[k]));
        }
        if k < k2 {
            assert(def_id(s[k]) != def_id(s[k2]));
        }
    }
}

/// The number of function-entry labels in the stream.
pub open spec fn fn_label_count(s: Seq<Instr>) -> int
    decreases s.len(),
{
    if s.len() == 0 {
        0
    } else {
        fn_label_count(s.drop_last()) + if s.last() is FnLabel {
            1int
        } else {
            0int
        }
    }
}

/// The number of call instructions in the stream.
pub open spec fn call_count(s: Seq<Instr>) -> int
    decreases s.len(),
{
    if s.len() == 0 {
        0
    } else {
        call_count(s.drop_last()) + if s.last() is Call {
            1int
        } else {
            0int
        }
    }
}

} // verus!
