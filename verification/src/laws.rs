//! The general laws of the machine and of the arithmetic, stated over the
//! step semantics and proved once and for all.
use vstd::prelude::*;

use crate::bytecode::{InstrV, ProgV};
use crate::numfmt::dec_int;
use crate::sem::{
    init_state, keep_len, main_key, peeked, reaches, run_n, step, unwound, FrameV, MachV, StepRes,
};
use crate::value::{add_of, pretty_of, sub_of, ValV};

verus! {

/// The machine halts on a tick exactly when the program counter has left
/// the code — falling off the end is `main`'s natural termination — or
/// the instruction there is `Exit` with a frame to publish from. Every
/// other tick continues or faults.
pub proof fn lemma_halts_only_at_exit_or_end(p: ProgV, s: MachV)
    ensures
        step(p, s) is Halted <==> {
            ||| s.pc < 0
            ||| s.pc >= p.code.len()
            ||| (s.frames.len() > 0 && p.code[s.pc] is Exit)
        },
{
    if 0 <= s.pc < p.code.len() && s.frames.len() > 0 {
        match p.code[s.pc] {
            InstrV::Exit => {},
            _ => {
                assert(!(step(p, s) is Halted));
            },
        }
    }
}

/// No frame of `frames` is inside a try region: an unwind keeps nothing.
proof fn lemma_keep_len_zero(frames: Seq<FrameV>)
    requires
        forall|i: int| 0 <= i < frames.len() ==> !(#[trigger] frames[i]).in_try,
    ensures
        keep_len(frames) == 0,
    decreases frames.len(),
{
    if frames.len() > 0 {
        assert(forall|i: int|
            0 <= i < frames.drop_last().len() ==> !(#[trigger] frames.drop_last()[i]).in_try);
        lemma_keep_len_zero(frames.drop_last());
    }
}

/// An unhandled raise terminates: with a raise pending and no frame in a
/// try region, the unwind empties the frame stack and moves the program
/// counter past every instruction, and the next tick halts with no
/// result.
pub proof fn lemma_unhandled_raise_halts(p: ProgV, s: MachV)
    requires
        s.frames.len() > 0,
        s.frames.last().raise,
        forall|i: int| 0 <= i < s.frames.len() ==> !(#[trigger] s.frames[i]).in_try,
        p.code.len() <= usize::MAX,
    ensures
        unwound(s) matches StepRes::Next(s2) && step(p, s2) == StepRes::Halted(None::<ValV>),
{
    lemma_keep_len_zero(s.frames);
}

/// The operand-stack discipline of a call: the caller's stack loses
/// exactly the arguments — `num_params` of them, the newest — and they
/// become the callee's local slots in declaration order; the callee
/// starts with an empty stack and remembers the instruction after the
/// call.
pub proof fn lemma_call_effect(p: ProgV, s: MachV, c: Seq<char>, f: Seq<char>)
    requires
        0 <= s.pc < p.code.len(),
        p.code[s.pc] == InstrV::Call(c, f),
        s.frames.len() > 0,
        !s.frames.last().raise,
        p.symbols.contains_key((c, f)),
        p.labels.contains_key((c, f)),
        s.frames.last().stack.len() >= p.symbols[(c, f)].num_params,
    ensures
        step(p, s) matches StepRes::Next(s2) && {
            let k = p.symbols[(c, f)].num_params as int;
            let st = s.frames.last().stack;
            &&& s2.frames.len() == s.frames.len() + 1
            &&& s2.frames[s.frames.len() - 1].stack.len() == st.len() - k
            &&& s2.frames.last().locals == st.subrange(st.len() - k, st.len() as int)
            &&& s2.frames.last().stack.len() == 0
            &&& s2.frames.last().ret == s.pc + 1
            &&& s2.pc == p.labels[(c, f)]
        },
{
    let k = p.symbols[(c, f)].num_params as int;
    let fr = s.frames.last();
    let caller = FrameV { stack: fr.stack.subrange(0, fr.stack.len() - k), ..fr };
    let callee = FrameV {
        stack: Seq::empty(),
        locals: fr.stack.subrange(fr.stack.len() - k, fr.stack.len() as int),
        ret: s.pc + 1,
        raise: false,
        in_try: false,
        name: f,
    };
    let s2 = MachV {
        pc: p.labels[(c, f)] as int,
        frames: crate::sem::set_top(s, caller).push(callee),
        ..s
    };
    assert(s2.frames.last() == callee);
    assert(step(p, s) == unwound(s2));
}

/// The operand-stack discipline of a return: the callee's frame goes, and
/// the caller's stack grows by exactly one value — the callee's top of
/// stack, or `None` from an empty one. With `lemma_call_effect` this is
/// the whole law: across a call and its return that does not raise, the
/// caller's operand stack drops `num_params` values and then gains the
/// result.
pub proof fn lemma_ret_effect(p: ProgV, s: MachV)
    requires
        0 <= s.pc < p.code.len(),
        p.code[s.pc] is Ret,
        s.frames.len() >= 2,
        !s.frames[s.frames.len() - 2].raise,
    ensures
        step(p, s) matches StepRes::Next(s2) && {
            let callee = s.frames.last();
            let below = s.frames[s.frames.len() - 2];
            let rv = if callee.stack.len() > 0 {
                callee.stack.last()
            } else {
                ValV::NoneType
            };
            &&& s2.frames.len() == s.frames.len() - 1
            &&& s2.frames.last().stack == below.stack.push(rv)
            &&& s2.frames.last().stack.len() == below.stack.len() + 1
            &&& s2.pc == callee.ret
        },
{
    let callee = s.frames.last();
    let below = s.frames[s.frames.len() - 2];
    let rv = if callee.stack.len() > 0 {
        callee.stack.last()
    } else {
        ValV::NoneType
    };
    let frames2 = s.frames.drop_last().update(
        s.frames.len() - 2,
        FrameV { stack: below.stack.push(rv), ..below },
    );
    let s2 = MachV { pc: callee.ret, frames: frames2, ..s };
    assert(frames2.last() == frames2[s.frames.len() - 2]);
    assert(step(p, s) == unwound(s2));
}

/// `Dup; Pop` is a no-op: two ticks later the frames and the heap are
/// exactly what they were, and execution has moved past both
/// instructions.
pub proof fn lemma_dup_pop_noop(p: ProgV, s: MachV)
    requires
        0 <= s.pc,
        s.pc + 1 < p.code.len(),
        p.code[s.pc] is Dup,
        p.code[s.pc + 1] is Pop,
        s.frames.len() > 0,
        s.frames.last().stack.len() > 0,
        !s.frames.last().raise,
    ensures
        step(p, s) matches StepRes::Next(s1) && step(p, s1) matches StepRes::Next(s2) && s2
            == (MachV { pc: s.pc + 2, ..s }),
{
    let f = s.frames.last();
    let f1 = FrameV { stack: f.stack.push(f.stack.last()), ..f };
    let s1 = MachV { pc: s.pc + 1, frames: crate::sem::set_top(s, f1), ..s };
    assert(s1.frames.last() == f1);
    assert(step(p, s) == unwound(s1));
    let f2 = FrameV { stack: f1.stack.drop_last(), ..f1 };
    let s2 = MachV { pc: s.pc + 2, frames: crate::sem::set_top(s1, f2), ..s1 };
    assert(s2.frames.last() == f2);
    assert(step(p, s1) == unwound(s2));
    assert(f2.stack =~= f.stack);
    assert(f2 =~~= f);
    assert(s2.frames =~= s.frames);
    assert(s2 =~~= (MachV { pc: s.pc + 2, ..s }));
}

/// `Pop; Dup` is ill-formed where `Dup; Pop` is harmless: from a stack of
/// one value, the pop leaves nothing for the dup, and the machine
/// faults.
pub proof fn lemma_pop_dup_faults(p: ProgV, s: MachV)
    requires
        0 <= s.pc,
        s.pc + 1 < p.code.len(),
        p.code[s.pc] is Pop,
        p.code[s.pc + 1] is Dup,
        s.frames.len() > 0,
        s.frames.last().stack.len() == 1,
        !s.frames.last().raise,
    ensures
        step(p, s) matches StepRes::Next(s1) && step(p, s1) == StepRes::Fault,
{
    let f = s.frames.last();
    let f1 = FrameV { stack: f.stack.drop_last(), ..f };
    let s1 = MachV { pc: s.pc + 1, frames: crate::sem::set_top(s, f1), ..s };
    assert(s1.frames.last() == f1);
    assert(step(p, s) == unwound(s1));
    assert(s1.frames.len() > 0);
}

/// The coercion law of the arithmetic: two `Int`s make an `Int`; any
/// `Double` operand promotes the result to `Double`; anything else is the
/// type error. Addition and subtraction agree on when they succeed and on
/// the kind they produce.
pub proof fn lemma_arith_coercion(a: ValV, b: ValV)
    ensures
        add_of(a, b) is Some <==> (a is Int || a is Double) && (b is Int || b is Double),
        sub_of(a, b) is Some <==> add_of(a, b) is Some,
        a is Int && b is Int ==> add_of(a, b)->0 is Int && sub_of(a, b)->0 is Int,
        add_of(a, b) matches Some(v) ==> (v is Double <==> (a is Double || b is Double)),
        sub_of(a, b) matches Some(v) ==> (v is Double <==> (a is Double || b is Double)),
{
}

/// The image of `def main() { n }`: the literal pushed, then the implicit
/// `Exit`, with the entry label at the push.
pub open spec fn literal_main_prog(n: i32) -> ProgV {
    ProgV {
        code: seq![InstrV::PushInt(n), InstrV::Exit],
        symbols: Map::empty().insert(
            main_key(),
            (crate::bytecode::FnV { locals: Seq::empty(), num_params: 0 }),
        ),
        labels: Map::empty().insert(main_key(), 0),
    }
}

/// For any 32-bit integer literal, the two-instruction program of
/// `def main() { n }` halts with `Int(n)`, whose textual form is the
/// decimal form of `n`.
pub proof fn lemma_int_literal_roundtrip(n: i32)
    ensures
        reaches(literal_main_prog(n), StepRes::Halted(Some(ValV::Int(n)))),
        pretty_of(ValV::Int(n)) == dec_int(n as int),
{
    let p = literal_main_prog(n);
    let s0 = init_state(p);
    let f0 = s0.frames.last();
    let f1 = FrameV { stack: f0.stack.push(ValV::Int(n)), ..f0 };
    let s1 = MachV { pc: 1, frames: crate::sem::set_top(s0, f1), ..s0 };
    assert(s1.frames.last() == f1);
    assert(step(p, s0) == unwound(s1));
    assert(unwound(s1) == StepRes::Next(s1));
    assert(run_n(p, s0, 0nat) == StepRes::Next(s0));
    assert(run_n(p, s0, 1nat) == StepRes::Next(s1));
    assert(p.code[1] is Exit);
    assert(peeked(s1) == Some(ValV::Int(n)));
    assert(step(p, s1) == StepRes::Halted(Some(ValV::Int(n))));
    assert(run_n(p, s0, 2nat) == StepRes::Halted(Some(ValV::Int(n))));
}

} // verus!
