//! The formal semantics of the virtual machine: the machine state, one
//! tick of the interpreter loop as a total function, and its iteration.
//! The executable interpreter is proved to follow `step` exactly.
use vstd::prelude::*;

use crate::bytecode::{InstrV, ProgV};
use crate::value::{add_of, cmp_of, sub_of, CmpOp, ValV};

verus! {

/// The distinguished heap slot that the exception sentinel points at.
pub open spec fn exception_ptr() -> nat {
    0
}

/// The model of an activation frame.
#[verifier::ext_equal]
pub struct FrameV {
    pub stack: Seq<ValV>,
    pub locals: Seq<ValV>,
    pub ret: int,
    pub raise: bool,
    pub in_try: bool,
    pub name: Seq<char>,
}

/// The model of a heap object.
pub type ObjV = Map<Seq<char>, ValV>;

/// The model of the whole machine: program counter, frame stack, heap.
#[verifier::ext_equal]
pub struct MachV {
    pub pc: int,
    pub frames: Seq<FrameV>,
    pub heap: Seq<ObjV>,
}

/// What one tick yields: the next state, a halt with the published
/// result, or a fatal condition (the image was miscompiled: stack
/// underflow, an unknown call target, an out-of-range slot or field).
pub enum StepRes {
    Next(MachV),
    Halted(Option<ValV>),
    Fault,
}

/// How many frames an unwind keeps: everything below the newest frame
/// marked as inside a try region — that frame included among the removed —
/// or nothing when no frame is marked.
pub open spec fn keep_len(frames: Seq<FrameV>) -> int
    decreases frames.len(),
{
    if frames.len() == 0 {
        0
    } else if frames.last().in_try {
        frames.len() - 1
    } else {
        keep_len(frames.drop_last())
    }
}

/// The backtrace an unwind collects: the names of the frames above the
/// newest try region, newest first — with no try region anywhere, every
/// frame's name.
pub open spec fn unwind_trace(frames: Seq<FrameV>) -> Seq<Seq<char>>
    decreases frames.len(),
{
    if frames.len() == 0 {
        Seq::empty()
    } else if frames.last().in_try {
        Seq::empty()
    } else {
        seq![frames.last().name] + unwind_trace(frames.drop_last())
    }
}

/// The post-instruction unwind check. With no raise pending the state
/// passes through. With one pending, frames from the newest try region
/// upward are discarded and control resumes at the return address below;
/// with no try region anywhere the frame stack empties and the program
/// counter moves past every instruction, which halts the loop.
pub open spec fn unwound(s: MachV) -> StepRes {
    if s.frames.len() == 0 {
        StepRes::Fault
    } else if !s.frames.last().raise {
        StepRes::Next(s)
    } else {
        let t = keep_len(s.frames);
        if t > 0 {
            StepRes::Next(
                MachV { pc: s.frames[t - 1].ret, frames: s.frames.subrange(0, t), heap: s.heap },
            )
        } else {
            StepRes::Next(
                MachV { pc: usize::MAX as int, frames: Seq::empty(), heap: s.heap },
            )
        }
    }
}

/// The frame after an arithmetic or comparison primitive: both operands
/// leave the stack; the result is pushed, or on a type mismatch the two
/// exception sentinels are pushed and the raise flag set.
pub open spec fn binop_frame(f: FrameV, res: Option<ValV>) -> FrameV {
    let st = f.stack.drop_last().drop_last();
    match res {
        Some(v) => FrameV { stack: st.push(v), ..f },
        None => FrameV {
            stack: st.push(ValV::ObjectRef(exception_ptr())).push(ValV::Str("TypeError"@)),
            raise: true,
            ..f
        },
    }
}

/// The frame after an explicit `Raise`: the sentinels are pushed and the
/// raise flag set; nothing is consumed.
pub open spec fn raise_frame(f: FrameV, kind: Seq<char>) -> FrameV {
    FrameV {
        stack: f.stack.push(ValV::ObjectRef(exception_ptr())).push(ValV::Str(kind)),
        raise: true,
        ..f
    }
}

/// The published result when the loop stops at state `s`: the top of the
/// current frame's stack, if both exist.
pub open spec fn peeked(s: MachV) -> Option<ValV> {
    if s.frames.len() > 0 && s.frames.last().stack.len() > 0 {
        Some(s.frames.last().stack.last())
    } else {
        None
    }
}

/// `s` with the newest frame replaced.
pub open spec fn set_top(s: MachV, f: FrameV) -> Seq<FrameV> {
    s.frames.update(s.frames.len() - 1, f)
}

/// One full tick of the interpreter loop: the fall-off-the-end check, the
/// dispatch on the instruction at the program counter, and the unwind
/// check that follows every instruction but `Exit`.
pub open spec fn step(p: ProgV, s: MachV) -> StepRes {
    if s.pc < 0 || s.pc >= p.code.len() {
        StepRes::Halted(peeked(s))
    } else if s.frames.len() == 0 {
        // every opcode below first takes the current frame except `Jump`,
        // whose unwind check then fails the same way
        StepRes::Fault
    } else {
        let f = s.frames.last();
        match p.code[s.pc] {
            InstrV::PushInt(x) => unwound(
                MachV {
                    pc: s.pc + 1,
                    frames: set_top(s, FrameV { stack: f.stack.push(ValV::Int(x)), ..f }),
                    ..s
                },
            ),
            InstrV::PushStr(t) => unwound(
                MachV {
                    pc: s.pc + 1,
                    frames: set_top(s, FrameV { stack: f.stack.push(ValV::Str(t)), ..f }),
                    ..s
                },
            ),
            InstrV::Pop => if f.stack.len() == 0 {
                StepRes::Fault
            } else {
                unwound(
                    MachV {
                        pc: s.pc + 1,
                        frames: set_top(s, FrameV { stack: f.stack.drop_last(), ..f }),
                        ..s
                    },
                )
            },
            InstrV::Dup => if f.stack.len() == 0 {
                StepRes::Fault
            } else {
                unwound(
                    MachV {
                        pc: s.pc + 1,
                        frames: set_top(s, FrameV { stack: f.stack.push(f.stack.last()), ..f }),
                        ..s
                    },
                )
            },
            InstrV::Add => if f.stack.len() < 2 {
                StepRes::Fault
            } else {
                let lhs = f.stack[f.stack.len() - 2];
                let rhs = f.stack.last();
                unwound(
                    MachV {
                        pc: s.pc + 1,
                        frames: set_top(s, binop_frame(f, add_of(lhs, rhs))),
                        ..s
                    },
                )
            },
            InstrV::Sub => if f.stack.len() < 2 {
                StepRes::Fault
            } else {
                let lhs = f.stack[f.stack.len() - 2];
                let rhs = f.stack.last();
                unwound(
                    MachV {
                        pc: s.pc + 1,
                        frames: set_top(s, binop_frame(f, sub_of(lhs, rhs))),
                        ..s
                    },
                )
            },
            InstrV::Lteq => cmp_step(p, s, CmpOp::Lteq),
            InstrV::Gteq => cmp_step(p, s, CmpOp::Gteq),
            InstrV::Lt => cmp_step(p, s, CmpOp::Lt),
            InstrV::Gt => cmp_step(p, s, CmpOp::Gt),
            InstrV::Eqeq => cmp_step(p, s, CmpOp::Eqeq),
            InstrV::Raise => unwound(
                MachV { frames: set_top(s, raise_frame(f, "Exception"@)), ..s },
            ),
            InstrV::LoadVar(i) => if 0 <= i < f.locals.len() {
                unwound(
                    MachV {
                        pc: s.pc + 1,
                        frames: set_top(s, FrameV { stack: f.stack.push(f.locals[i]), ..f }),
                        ..s
                    },
                )
            } else {
                StepRes::Fault
            },
            InstrV::StoreVar(i) => if f.stack.len() == 0 || i < 0 || i > f.locals.len() {
                StepRes::Fault
            } else {
                let v = f.stack.last();
                let locals = if i < f.locals.len() {
                    f.locals.update(i, v)
                } else {
                    f.locals.push(v)
                };
                unwound(
                    MachV {
                        pc: s.pc + 1,
                        frames: set_top(
                            s,
                            FrameV { stack: f.stack.drop_last(), locals, ..f },
                        ),
                        ..s
                    },
                )
            },
            InstrV::LoadGlobal(_) => StepRes::Fault,
            InstrV::StoreGlobal(_) => StepRes::Fault,
            InstrV::Swap => StepRes::Fault,
            InstrV::NewObject => unwound(
                MachV {
                    pc: s.pc + 1,
                    frames: set_top(
                        s,
                        FrameV {
                            stack: f.stack.push(ValV::ObjectRef(s.heap.len() as nat)),
                            ..f
                        },
                    ),
                    heap: s.heap.push(Map::empty()),
                },
            ),
            InstrV::LoadField(name) => if f.stack.len() == 0 {
                StepRes::Fault
            } else {
                match f.stack.last() {
                    ValV::ObjectRef(x) => if x < s.heap.len() && s.heap[x as int].contains_key(
                        name,
                    ) {
                        unwound(
                            MachV {
                                pc: s.pc + 1,
                                frames: set_top(
                                    s,
                                    FrameV {
                                        stack: f.stack.drop_last().push(s.heap[x as int][name]),
                                        ..f
                                    },
                                ),
                                ..s
                            },
                        )
                    } else {
                        StepRes::Fault
                    },
                    _ => StepRes::Fault,
                }
            },
            InstrV::StoreField(name) => if f.stack.len() < 2 {
                StepRes::Fault
            } else {
                let value = f.stack[f.stack.len() - 2];
                match f.stack.last() {
                    ValV::ObjectRef(x) => if x < s.heap.len() {
                        unwound(
                            MachV {
                                pc: s.pc + 1,
                                frames: set_top(
                                    s,
                                    FrameV { stack: f.stack.drop_last().drop_last(), ..f },
                                ),
                                heap: s.heap.update(
                                    x as int,
                                    s.heap[x as int].insert(name, value),
                                ),
                            },
                        )
                    } else {
                        StepRes::Fault
                    },
                    _ => StepRes::Fault,
                }
            },
            InstrV::JumpIfTrue(pos) => if f.stack.len() == 0 {
                StepRes::Fault
            } else {
                let pc = if f.stack.last() == ValV::Bool(true) {
                    pos
                } else {
                    s.pc + 1
                };
                unwound(
                    MachV {
                        pc,
                        frames: set_top(s, FrameV { stack: f.stack.drop_last(), ..f }),
                        ..s
                    },
                )
            },
            InstrV::JumpIfFalse(pos) => if f.stack.len() == 0 {
                StepRes::Fault
            } else {
                let pc = if f.stack.last() == ValV::Bool(false) {
                    pos
                } else {
                    s.pc + 1
                };
                unwound(
                    MachV {
                        pc,
                        frames: set_top(s, FrameV { stack: f.stack.drop_last(), ..f }),
                        ..s
                    },
                )
            },
            InstrV::Jump(pos) => unwound(MachV { pc: pos, ..s }),
            InstrV::Call(c, fname) => if !p.symbols.contains_key((c, fname))
                || !p.labels.contains_key((c, fname)) {
                StepRes::Fault
            } else {
                let k = p.symbols[(c, fname)].num_params as int;
                if f.stack.len() < k {
                    StepRes::Fault
                } else {
                    let caller = FrameV { stack: f.stack.subrange(0, f.stack.len() - k), ..f };
                    let callee = FrameV {
                        stack: Seq::empty(),
                        locals: f.stack.subrange(f.stack.len() - k, f.stack.len() as int),
                        ret: s.pc + 1,
                        raise: false,
                        in_try: false,
                        name: fname,
                    };
                    unwound(
                        MachV {
                            pc: p.labels[(c, fname)] as int,
                            frames: set_top(s, caller).push(callee),
                            ..s
                        },
                    )
                }
            },
            InstrV::Ret => if s.frames.len() < 2 {
                StepRes::Fault
            } else {
                let ret_val = if f.stack.len() > 0 {
                    f.stack.last()
                } else {
                    ValV::NoneType
                };
                let below = s.frames[s.frames.len() - 2];
                unwound(
                    MachV {
                        pc: f.ret,
                        frames: s.frames.drop_last().update(
                            s.frames.len() - 2,
                            FrameV { stack: below.stack.push(ret_val), ..below },
                        ),
                        ..s
                    },
                )
            },
            InstrV::Exit => StepRes::Halted(peeked(s)),
        }
    }
}

/// The comparison arm of `step`.
pub open spec fn cmp_step(p: ProgV, s: MachV, op: CmpOp) -> StepRes {
    let f = s.frames.last();
    if f.stack.len() < 2 {
        StepRes::Fault
    } else {
        let lhs = f.stack[f.stack.len() - 2];
        let rhs = f.stack.last();
        unwound(
            MachV { pc: s.pc + 1, frames: set_top(s, binop_frame(f, cmp_of(op, lhs, rhs))), ..s },
        )
    }
}

/// The key of the entry point.
pub open spec fn main_key() -> (Seq<char>, Seq<char>) {
    ("global"@, "main"@)
}

/// The machine about to execute a program: the program counter at the
/// `(global, main)` label, one root frame whose return address is the end
/// of the code (falling off the end is `main`'s natural termination), and
/// an empty heap.
pub open spec fn init_state(p: ProgV) -> MachV {
    MachV {
        pc: p.labels[main_key()] as int,
        frames: seq![
            FrameV {
                stack: Seq::empty(),
                locals: Seq::empty(),
                ret: p.code.len() as int,
                raise: false,
                in_try: false,
                name: "main"@,
            },
        ],
        heap: Seq::empty(),
    }
}

/// `k` ticks from state `s`; sticks at a halt or a fault.
pub open spec fn run_n(p: ProgV, s: MachV, k: nat) -> StepRes
    decreases k,
{
    if k == 0 {
        StepRes::Next(s)
    } else {
        match run_n(p, s, (k - 1) as nat) {
            StepRes::Next(s1) => step(p, s1),
            r => r,
        }
    }
}

/// The model of an optional runtime value.
pub open spec fn opt_val_view(r: Option<crate::value::NativeType>) -> Option<ValV> {
    match r {
        Some(v) => Some(v@),
        None => None,
    }
}

/// The machine, started on `p`, reaches outcome `o` in some number of
/// ticks — the program's own looping aside, this is what running means.
pub open spec fn reaches(p: ProgV, o: StepRes) -> bool {
    exists|k: nat| run_n(p, init_state(p), k) == o
}

} // verus!
