//! The assembly emitter: serializes an instruction stream into the
//! textual dialect the external assembler accepts, one instruction per
//! line, label definitions rendered as `_L<id>:` markers immediately
//! preceding the code they denote. The emitted text is characterized
//! exactly, byte for byte, by `stream_text`.

use vstd::prelude::*;

use crate::instr::Instr;

verus! {

/// The decimal digits of `n`, most significant first.
pub open spec fn dec_spec(n: nat) -> Seq<u8>
    decreases n,
{
    if n < 10 {
        seq![(48 + n) as u8]
    } else {
        dec_spec(n / 10).push((48 + n % 10) as u8)
    }
}

/// The text of a label with id `l`: an underscore, an `L`, the digits.
pub open spec fn label_text(l: u64) -> Seq<u8> {
    seq![95u8, 76u8] + dec_spec(l as nat)
}

/// The exact text one instruction is rendered as.
pub open spec fn instr_text(i: Instr) -> Seq<u8> {
    match i {
        Instr::FnLabel(l) => label_text(l) + seq![58u8, 10u8],
        Instr::BrLabel(l) => label_text(l) + seq![58u8, 10u8],
        Instr::Push(v) => seq![112u8, 117u8, 115u8, 104u8, 32u8] + dec_spec(v as nat) + seq![10u8],
        Instr::Add => seq![97u8, 100u8, 100u8, 10u8],
        Instr::Mul => seq![109u8, 117u8, 108u8, 10u8],
        Instr::Dup(n) => seq![100u8, 117u8, 112u8, 32u8] + dec_spec(n as nat) + seq![10u8],
        Instr::Swap(n) => seq![115u8, 119u8, 97u8, 112u8, 32u8] + dec_spec(n as nat) + seq![10u8],
        Instr::Pop(n) => seq![112u8, 111u8, 112u8, 32u8] + dec_spec(n as nat) + seq![10u8],
        Instr::Call(l) => seq![99u8, 97u8, 108u8, 108u8, 32u8] + label_text(l) + seq![10u8],
        Instr::Return => seq![114u8, 101u8, 116u8, 117u8, 114u8, 110u8, 10u8],
        Instr::Skiz => seq![115u8, 107u8, 105u8, 122u8, 10u8],
        Instr::Halt => seq![104u8, 97u8, 108u8, 116u8, 10u8],
        Instr::ReadIo(n) => seq![114u8, 101u8, 97u8, 100u8, 95u8, 105u8, 111u8, 32u8] + dec_spec(
            n as nat,
        ) + seq![10u8],
        Instr::Divine(n) => seq![100u8, 105u8, 118u8, 105u8, 110u8, 101u8, 32u8] + dec_spec(n as nat)
            + seq![10u8],
        Instr::WriteIo(n) => seq![119u8, 114u8, 105u8, 116u8, 101u8, 95u8, 105u8, 111u8, 32u8]
            + dec_spec(n as nat) + seq![10u8],
    }
}

/// The exact text of a whole stream: each instruction's text in order.
pub open spec fn stream_text(s: Seq<Instr>) -> Seq<u8>
    decreases s.len(),
{
    if s.len() == 0 {
        Seq::empty()
    } else {
        stream_text(s.drop_last()) + instr_text(s.last())
    }
}

/// A decimal rendering is never empty.
proof fn lemma_dec_spec_nonempty(n: nat)
    ensures
        dec_spec(n).len() >= 1,
    decreases n,
{
    if n >= 10 {
        lemma_dec_spec_nonempty(n / 10);
    }
}

/// Decimal renderings of distinct numbers are distinct.
proof fn lemma_dec_spec_injective(m: nat, n: nat)
    requires
        m != n,
    ensures
        dec_spec(m) != dec_spec(n),
    decreases m + n,
{
    if m < 10 && n < 10 {
        assert(dec_spec(m)[0] != dec_spec(n)[0]);
    } else if m < 10 {
        lemma_dec_spec_nonempty(n / 10);
        assert(dec_spec(m).len() == 1);
        assert(dec_spec(n).len() >= 2);
    } else if n < 10 {
        lemma_dec_spec_nonempty(m / 10);
        assert(dec_spec(n).len() == 1);
        assert(dec_spec(m).len() >= 2);
    } else {
        if m % 10 != n % 10 {
            assert(dec_spec(m).last() == (48 + m % 10) as u8);
            assert(dec_spec(n).last() == (48 + n % 10) as u8);
        } else {
            assert(m / 10 != n / 10);
            lemma_dec_spec_injective(m / 10, n / 10);
            if dec_spec(m) == dec_spec(n) {
                assert(dec_spec(m).drop_last() =~= dec_spec(m / 10));
                assert(dec_spec(n).drop_last() =~= dec_spec(n / 10));
            }
        }
    }
}

/// Labels with distinct ids render to distinct address markers, so a
/// stream whose label definitions are distinct serializes to text in
/// which no two label markers collide.
pub proof fn lemma_label_text_injective(l1: u64, l2: u64)
    requires
        l1 != l2,
    ensures
        label_text(l1) != label_text(l2),
{
    lemma_dec_spec_injective(l1 as nat, l2 as nat);
    if label_text(l1) == label_text(l2) {
        assert(label_text(l1).skip(2) =~= dec_spec(l1 as nat));
        assert(label_text(l2).skip(2) =~= dec_spec(l2 as nat));
    }
}

/// Append the decimal digits of `n`.
fn push_dec(out: &mut Vec<u8>, n: u64)
    ensures
        final(out)@ == old(out)@ + dec_spec(n as nat),
    decreases n,
{
    if n < 10 {
        out.push((48 + n) as u8);
        proof {
            assert(out@ =~= old(out)@ + dec_spec(n as nat));
        }
    } else {
        push_dec(out, n / 10);
        out.push((48 + n % 10) as u8);
        proof {
            assert(out@ =~= old(out)@ + dec_spec(n as nat));
        }
    }
}

/// Append the text of a label.
fn push_label(out: &mut Vec<u8>, l: u64)
    ensures
        final(out)@ == old(out)@ + label_text(l),
{
    out.push(95);
    out.push(76);
    push_dec(out, l);
    proof {
        assert(out@ =~= old(out)@ + label_text(l));
    }
}

/// Append the text of one instruction.
fn push_instr(out: &mut Vec<u8>, i: &Instr)
    ensures
        final(out)@ == old(out)@ + instr_text(*i),
{
    match i {
        Instr::FnLabel(l) => {
            push_label(out, *l);
            out.push(58);
            out.push(10);
        },
        Instr::BrLabel(l) => {
            push_label(out, *l);
            out.push(58);
            out.push(10);
        },
        Instr::Push(v) => {
            out.push(112);
            out.push(117);
            out.push(115);
            out.push(104);
            out.push(32);
            push_dec(out, *v);
            out.push(10);
        },
        Instr::Add => {
            out.push(97);
            out.push(100);
            out.push(100);
            out.push(10);
        },
        Instr::Mul => {
            out.push(109);
            out.push(117);
            out.push(108);
            out.push(10);
        },
        Instr::Dup(n) => {
            out.push(100);
            out.push(117);
            out.push(112);
            out.push(32);
            push_dec(out, *n);
            out.push(10);
        },
        Instr::Swap(n) => {
            out.push(115);
            out.push(119);
            out.push(97);
            out.push(112);
            out.push(32);
            push_dec(out, *n);
            out.push(10);
        },
        Instr::Pop(n) => {
            out.push(112);
            out.push(111);
            out.push(112);
            out.push(32);
            push_dec(out, *n);
            out.push(10);
        },
        Instr::Call(l) => {
            out.push(99);
            out.push(97);
            out.push(108);
            out.push(108);
            out.push(32);
            push_label(out, *l);
            out.push(10);
        },
        Instr::Return => {
            out.push(114);
            out.push(101);
            out.push(116);
            out.push(117);
            out.push(114);
            out.push(110);
            out.push(10);
        },
        Instr::Skiz => {
            out.push(115);
            out.push(107);
            out.push(105);
            out.push(122);
            out.push(10);
        },
        Instr::Halt => {
            out.push(104);
            out.push(97);
            out.push(108);
            out.push(116);
            out.push(10);
        },
        Instr::ReadIo(n) => {
            out.push(114);
            out.push(101);
            out.push(97);
            out.push(100);
            out.push(95);
            out.push(105);
            out.push(111);
            out.push(32);
            push_dec(out, *n);
            out.push(10);
        },
        Instr::Divine(n) => {
            out.push(100);
            out.push(105);
            out.push(118);
            out.push(105);
            out.push(110);
            out.push(101);
            out.push(32);
            push_dec(out, *n);
            out.push(10);
        },
        Instr::WriteIo(n) => {
            out.push(119);
            out.push(114);
            out.push(105);
            out.push(116);
            out.push(101);
            out.push(95);
            out.push(105);
            out.push(111);
            out.push(32);
            push_dec(out, *n);
            out.push(10);
        },
    }
    proof {
        assert(out@ =~= old(out)@ + instr_text(*i));
    }
}

/// Serialize an instruction stream into assembly text, in stream
/// order, one instruction or label marker per line.
pub fn emit(stream: &Vec<Instr>) -> (r: Vec<u8>)
    ensures
        r@ == stream_text(stream@),
{
    let mut out: Vec<u8> = Vec::new();
    let mut i: usize = 0;
    proof {
        assert(out@ =~= stream_text(stream@.take(0)));
    }
    while i < stream.len()
        invariant
            0 <= i <= stream@.len(),
            out@ == stream_text(stream@.take(i as int)),
        decreases stream@.len() - i,
    {
        push_instr(&mut out, &stream[i]);
        proof {
            assert(stream@.take(i + 1).drop_last() =~= stream@.take(i as int));
            assert(stream@.take(i + 1).last() == stream@[i as int]);
        }
        i = i + 1;
    }
    proof {
        assert(stream@.take(i as int) =~= stream@);
    }
    out
}

} // verus!
