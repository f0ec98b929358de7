//! The virtual machine: activation frames over a heap of objects,
//! executing a compiled program image one instruction per tick. The
//! executable interpreter follows the spec-level `step` function exactly.
use vstd::prelude::*;

use crate::bytecode::{Bytecode, Instr, InstrV, ProgV};
use crate::sem::{
    binop_frame, init_state, keep_len, main_key, opt_val_view, peeked, raise_frame, reaches,
    run_n, set_top, step, unwind_trace, unwound, FrameV, MachV, ObjV, StepRes,
};
use crate::table::StrMap;
use crate::value::{
    add_of, add_values, cmp_of, cmp_values, pretty_of, sub_of, sub_values, CmpOp, NativeType, ValV,
};
use vstd::pervasive::VecAdditionalExecFns;

verus! {

/// The distinguished heap slot named by the exception sentinel.
const EXCEPTION_PTR: usize = 0;

/// A heap object: a mapping from field name to value.
pub struct Object {
    fields: StrMap<NativeType>,
}

impl View for Object {
    type V = ObjV;

    closed spec fn view(&self) -> ObjV {
        self.fields@
    }
}

impl Object {
    /// An empty object.
    pub fn new() -> (r: Object)
        ensures
            r@ == Map::<Seq<char>, ValV>::empty(),
    {
        Object { fields: StrMap::new() }
    }
}

/// An activation frame: the operand stack, the local slots, the address
/// execution resumes at after a return, the raise and try-region flags,
/// and the function name for the backtrace.
pub struct Frame {
    stack: Vec<NativeType>,
    locals: Vec<NativeType>,
    return_address: usize,
    raise: bool,
    in_try: bool,
    name: String,
}

/// The views of a frame sequence.
pub open spec fn frames_view(s: Seq<Frame>) -> Seq<FrameV> {
    s.map_values(|f: Frame| f@)
}

/// The views of a heap.
pub open spec fn heap_view(s: Seq<Object>) -> Seq<ObjV> {
    s.map_values(|o: Object| o@)
}

impl View for Frame {
    type V = FrameV;

    closed spec fn view(&self) -> FrameV {
        FrameV {
            stack: self.stack@.map_values(|v: NativeType| v@),
            locals: self.locals@.map_values(|v: NativeType| v@),
            ret: self.return_address as int,
            raise: self.raise,
            in_try: self.in_try,
            name: self.name@,
        }
    }
}

impl Frame {
    /// A fresh frame: empty stack, the given locals, not raising, not in a
    /// try region.
    pub fn new(name: String, locals: Vec<NativeType>, return_address: usize) -> (r: Frame)
        ensures
            r@ == (FrameV {
                stack: Seq::empty(),
                locals: locals@.map_values(|v: NativeType| v@),
                ret: return_address as int,
                raise: false,
                in_try: false,
                name: name@,
            }),
    {
        let r = Frame { stack: Vec::new(), locals, return_address, raise: false, in_try: false, name };
        proof {
            assert(r@.stack =~= Seq::<ValV>::empty());
        }
        r
    }

    /// Pushes a value on the operand stack.
    pub fn push(&mut self, obj: NativeType)
        ensures
            final(self)@ == (FrameV { stack: old(self)@.stack.push(obj@), ..old(self)@ }),
    {
        self.stack.push(obj);
        proof {
            assert(final(self)@.stack =~= old(self)@.stack.push(obj@));
        }
    }

    /// Pops the top of the operand stack.
    pub fn pop(&mut self) -> (r: NativeType)
        requires
            old(self)@.stack.len() > 0,
        ensures
            r@ == old(self)@.stack.last(),
            final(self)@ == (FrameV { stack: old(self)@.stack.drop_last(), ..old(self)@ }),
    {
        let r = match self.stack.pop() {
            Some(x) => x,
            None => {
                proof {
                    assert(false);
                }
                NativeType::NoneType
            },
        };
        proof {
            assert(final(self)@.stack =~= old(self)@.stack.drop_last());
        }
        r
    }

    /// How many values the operand stack holds.
    pub fn depth(&self) -> (r: usize)
        ensures
            r == self@.stack.len(),
    {
        self.stack.len()
    }

    /// A copy of the top of the operand stack, if any.
    pub fn peek_value(&self) -> (r: Option<NativeType>)
        ensures
            r is Some <==> self@.stack.len() > 0,
            r is Some ==> r->0@ == self@.stack.last(),
    {
        if self.stack.len() > 0 {
            Some(self.stack[self.stack.len() - 1].duplicate())
        } else {
            None
        }
    }

    /// Duplicates the top of the operand stack.
    pub fn dup(&mut self)
        requires
            old(self)@.stack.len() > 0,
        ensures
            final(self)@ == (FrameV {
                stack: old(self)@.stack.push(old(self)@.stack.last()),
                ..old(self)@
            }),
    {
        let tos = self.stack[self.stack.len() - 1].duplicate();
        self.push(tos);
    }

    /// Pushes a copy of local slot `index`.
    pub fn load_local(&mut self, index: usize)
        requires
            (index as int) < old(self)@.locals.len(),
        ensures
            final(self)@ == (FrameV {
                stack: old(self)@.stack.push(old(self)@.locals[index as int]),
                ..old(self)@
            }),
    {
        let value = self.locals[index].duplicate();
        self.push(value);
    }

    /// Pops a value into local slot `index`: an overwrite below the slot
    /// count, an append exactly at it.
    pub fn store_local(&mut self, index: usize)
        requires
            old(self)@.stack.len() > 0,
            index as int <= old(self)@.locals.len(),
        ensures
            final(self)@ == (FrameV {
                stack: old(self)@.stack.drop_last(),
                locals: if (index as int) < old(self)@.locals.len() {
                    old(self)@.locals.update(index as int, old(self)@.stack.last())
                } else {
                    old(self)@.locals.push(old(self)@.stack.last())
                },
                ..old(self)@
            }),
    {
        let value = self.pop();
        let len = self.locals.len();
        if index < len {
            self.locals.set(index, value);
            proof {
                assert(final(self)@.locals =~= old(self)@.locals.update(
                    index as int,
                    old(self)@.stack.last(),
                ));
            }
        } else {
            self.locals.push(value);
            proof {
                assert(final(self)@.locals =~= old(self)@.locals.push(old(self)@.stack.last()));
            }
        }
    }

    /// Raises: pushes the exception sentinel pair and sets the raise flag.
    pub fn raise(&mut self, msg: &str)
        ensures
            final(self)@ == raise_frame(old(self)@, msg@),
    {
        self.push(NativeType::ObjectRef(EXCEPTION_PTR));
        self.push(NativeType::Str(msg.to_owned()));
        self.raise = true;
    }

    /// Whether this frame has a raise pending.
    pub fn raised(&self) -> (r: bool)
        ensures
            r == self@.raise,
    {
        self.raise
    }

    /// Pops both operands and pushes their sum, raising `TypeError` on a
    /// type mismatch.
    pub fn add(&mut self)
        requires
            old(self)@.stack.len() >= 2,
        ensures
            final(self)@ == binop_frame(
                old(self)@,
                add_of(
                    old(self)@.stack[old(self)@.stack.len() - 2],
                    old(self)@.stack.last(),
                ),
            ),
    {
        let rhs = self.pop();
        let lhs = self.pop();
        match add_values(&lhs, &rhs) {
            Some(v) => self.push(v),
            None => self.raise("TypeError"),
        }
    }

    /// Pops both operands and pushes their difference, raising `TypeError`
    /// on a type mismatch.
    pub fn sub(&mut self)
        requires
            old(self)@.stack.len() >= 2,
        ensures
            final(self)@ == binop_frame(
                old(self)@,
                sub_of(
                    old(self)@.stack[old(self)@.stack.len() - 2],
                    old(self)@.stack.last(),
                ),
            ),
    {
        let rhs = self.pop();
        let lhs = self.pop();
        match sub_values(&lhs, &rhs) {
            Some(v) => self.push(v),
            None => self.raise("TypeError"),
        }
    }

    /// Pops both operands and pushes the boolean outcome of the
    /// comparison, raising `TypeError` on a type mismatch.
    pub fn compare(&mut self, op: CmpOp)
        requires
            old(self)@.stack.len() >= 2,
        ensures
            final(self)@ == binop_frame(
                old(self)@,
                cmp_of(
                    op,
                    old(self)@.stack[old(self)@.stack.len() - 2],
                    old(self)@.stack.last(),
                ),
            ),
    {
        let rhs = self.pop();
        let lhs = self.pop();
        match cmp_values(&op, &lhs, &rhs) {
            Some(v) => self.push(v),
            None => self.raise("TypeError"),
        }
    }

    /// Pops both operands and pushes whether the lower is less than or
    /// equal to the upper.
    pub fn lteq(&mut self)
        requires
            old(self)@.stack.len() >= 2,
        ensures
            final(self)@ == binop_frame(
                old(self)@,
                cmp_of(
                    CmpOp::Lteq,
                    old(self)@.stack[old(self)@.stack.len() - 2],
                    old(self)@.stack.last(),
                ),
            ),
    {
        self.compare(CmpOp::Lteq);
    }

    /// Pops both operands and pushes whether the lower is less than the
    /// upper.
    pub fn lt(&mut self)
        requires
            old(self)@.stack.len() >= 2,
        ensures
            final(self)@ == binop_frame(
                old(self)@,
                cmp_of(
                    CmpOp::Lt,
                    old(self)@.stack[old(self)@.stack.len() - 2],
                    old(self)@.stack.last(),
                ),
            ),
    {
        self.compare(CmpOp::Lt);
    }

    /// Pops both operands and pushes whether the lower is greater than the
    /// upper.
    pub fn gt(&mut self)
        requires
            old(self)@.stack.len() >= 2,
        ensures
            final(self)@ == binop_frame(
                old(self)@,
                cmp_of(
                    CmpOp::Gt,
                    old(self)@.stack[old(self)@.stack.len() - 2],
                    old(self)@.stack.last(),
                ),
            ),
    {
        self.compare(CmpOp::Gt);
    }

    /// Pops both operands and pushes whether the lower is greater than or
    /// equal to the upper.
    pub fn gteq(&mut self)
        requires
            old(self)@.stack.len() >= 2,
        ensures
            final(self)@ == binop_frame(
                old(self)@,
                cmp_of(
                    CmpOp::Gteq,
                    old(self)@.stack[old(self)@.stack.len() - 2],
                    old(self)@.stack.last(),
                ),
            ),
    {
        self.compare(CmpOp::Gteq);
    }

    /// Pops both operands and pushes whether they are equal, with the
    /// numeric coercion.
    pub fn eq(&mut self)
        requires
            old(self)@.stack.len() >= 2,
        ensures
            final(self)@ == binop_frame(
                old(self)@,
                cmp_of(
                    CmpOp::Eqeq,
                    old(self)@.stack[old(self)@.stack.len() - 2],
                    old(self)@.stack.last(),
                ),
            ),
    {
        self.compare(CmpOp::Eqeq);
    }
}

/// What one executable tick reports.
enum TickRes {
    Continue,
    Done(Option<NativeType>),
    Fail,
}

/// The virtual machine: the immutable program, the heap, the frame stack
/// and the program counter. After an unhandled raise, `backtrace` holds
/// the function names that were unwound, newest first, for the caller to
/// report.
pub struct VM {
    heap: Vec<Object>,
    bytecode: Bytecode,
    frames: Vec<Frame>,
    pc: usize,
    pub backtrace: Vec<String>,
}

/// A tick's report `r` against the step semantics: `step` from the state
/// the tick began in yields exactly what it reported.
spec fn tick_ok(p: ProgV, m0: MachV, vm: VM, r: TickRes) -> bool {
    &&& vm.prog() == p
    &&& match r {
        TickRes::Continue => step(p, m0) matches StepRes::Next(s2) && vm.machv() == s2,
        TickRes::Done(v) => step(p, m0) == StepRes::Halted(opt_val_view(v)),
        TickRes::Fail => step(p, m0) == StepRes::Fault,
    }
}

/// A machine state in which an instruction is about to be dispatched.
spec fn mid_run(vm: VM) -> bool {
    &&& vm.machv().frames.len() > 0
    &&& 0 <= vm.machv().pc < vm.prog().code.len()
    &&& vm.prog().code.len() <= usize::MAX
}

impl VM {
    /// The model of the program this machine runs.
    pub closed spec fn prog(&self) -> ProgV {
        self.bytecode@
    }

    /// The model of the machine state.
    pub closed spec fn machv(&self) -> MachV {
        MachV {
            pc: self.pc as int,
            frames: frames_view(self.frames@),
            heap: heap_view(self.heap@),
        }
    }

    /// A machine around a program image, not yet started.
    pub fn new(bytecode: Bytecode) -> (r: VM)
        ensures
            r.prog() == bytecode@,
            r.machv().pc == 0,
            r.machv().frames =~= Seq::<FrameV>::empty(),
            r.machv().heap =~= Seq::<ObjV>::empty(),
    {
        VM { heap: Vec::new(), bytecode, frames: Vec::new(), pc: 0, backtrace: Vec::new() }
    }

    /// Points the machine at `(global, main)` and pushes the root frame,
    /// whose return address is the end of the code. False when the entry
    /// point is not defined.
    fn enter_main(&mut self) -> (r: bool)
        requires
            old(self).machv().frames.len() == 0,
            old(self).machv().heap.len() == 0,
        ensures
            final(self).prog() == old(self).prog(),
            r == old(self).prog().labels.contains_key(main_key()),
            r ==> final(self).machv() == init_state(old(self).prog()),
    {
        let g = "global".to_owned();
        let m = "main".to_owned();
        let entry = match self.bytecode.labels.get(&g, &m) {
            Some(e) => *e,
            None => {
                return false;
            },
        };
        self.pc = entry;
        let root = Frame::new("main".to_owned(), Vec::new(), self.bytecode.bytecode.len());
        proof {
            assert(root@.locals =~= Seq::<ValV>::empty());
        }
        self.frames.push(root);
        proof {
            assert(frames_view(self.frames@) =~= frames_view(old(self).frames@).push(root@));
            assert(frames_view(old(self).frames@) =~= Seq::<FrameV>::empty());
            assert(self.machv() =~~= init_state(old(self).prog()));
        }
        true
    }

    /// Removes the newest frame.
    fn take_top(&mut self) -> (fr: Frame)
        requires
            old(self).machv().frames.len() > 0,
        ensures
            final(self).prog() == old(self).prog(),
            fr@ == old(self).machv().frames.last(),
            final(self).machv() == (MachV {
                frames: old(self).machv().frames.drop_last(),
                ..old(self).machv()
            }),
    {
        let fr = match self.frames.pop() {
            Some(f) => f,
            None => {
                proof {
                    assert(false);
                }
                Frame::new(String::new(), Vec::new(), 0)
            },
        };
        proof {
            assert(frames_view(self.frames@) =~= frames_view(old(self).frames@).drop_last());
            assert(self.machv() =~~= (MachV {
                frames: old(self).machv().frames.drop_last(),
                ..old(self).machv()
            }));
        }
        fr
    }

    /// Puts a frame back on top.
    fn put_top(&mut self, fr: Frame)
        ensures
            final(self).prog() == old(self).prog(),
            final(self).machv() == (MachV {
                frames: old(self).machv().frames.push(fr@),
                ..old(self).machv()
            }),
    {
        self.frames.push(fr);
        proof {
            assert(frames_view(self.frames@) =~= frames_view(old(self).frames@).push(fr@));
            assert(self.machv() =~~= (MachV {
                frames: old(self).machv().frames.push(fr@),
                ..old(self).machv()
            }));
        }
    }

    /// The post-instruction unwind check: does nothing without a pending
    /// raise; with one, collects the backtrace, discards frames down to
    /// the newest try region (none existing, all of them), and moves the
    /// program counter — to the resumption address, or past the end.
    /// False when no frame exists to check, which the step semantics
    /// counts as a fault.
    fn unwind_stack_on_raise(&mut self) -> (ok: bool)
        ensures
            final(self).prog() == old(self).prog(),
            ok == !(unwound(old(self).machv()) is Fault),
            unwound(old(self).machv()) matches StepRes::Next(s2) ==> final(self).machv() == s2,
            ({
                let m = old(self).machv();
                if m.frames.len() > 0 && m.frames.last().raise {
                    final(self).backtrace@.map_values(|s: String| s@) =~= unwind_trace(m.frames)
                } else {
                    final(self).backtrace == old(self).backtrace
                }
            }),
    {
        let ghost fv = frames_view(self.frames@);
        let n = self.frames.len();
        if n == 0 {
            return false;
        }
        if !self.frames[n - 1].raised() {
            return true;
        }
        // scan newest to oldest for a try region, collecting the
        // backtrace of the frames above it
        let mut trace: Vec<String> = Vec::new();
        let mut keep: usize = 0;
        let mut found = false;
        let mut j: usize = n;
        proof {
            assert(fv.subrange(0, n as int) =~= fv);
        }
        while j > 0 && !found
            invariant
                0 <= j <= n,
                n == self.frames@.len(),
                self.frames@ == old(self).frames@,
                self.pc == old(self).pc,
                self.heap@ == old(self).heap@,
                self.bytecode == old(self).bytecode,
                fv == frames_view(self.frames@),
                self.backtrace@ == old(self).backtrace@,
                !found ==> keep == 0 && keep_len(fv) == keep_len(fv.subrange(0, j as int)),
                found ==> keep == keep_len(fv) && keep < n,
                !found ==> unwind_trace(fv) =~= trace@.map_values(|s: String| s@)
                    + unwind_trace(fv.subrange(0, j as int)),
                found ==> trace@.map_values(|s: String| s@) =~= unwind_trace(fv),
            decreases j + (if found { 0int } else { 1int }),
        {
            if self.frames[j - 1].in_try {
                keep = j - 1;
                found = true;
                proof {
                    assert(fv.subrange(0, j as int).last() == fv[j - 1]);
                    assert(fv[j - 1] == self.frames@[j - 1]@);
                    assert(keep_len(fv.subrange(0, j as int)) == j - 1);
                    assert(unwind_trace(fv.subrange(0, j as int)) =~= Seq::<Seq<char>>::empty());
                    assert(trace@.map_values(|s: String| s@) =~= unwind_trace(fv));
                }
            } else {
                let ghost t0 = trace@;
                trace.push(self.frames[j - 1].name.clone());
                proof {
                    assert(fv.subrange(0, j as int).drop_last() =~= fv.subrange(0, j - 1));
                    assert(fv.subrange(0, j as int).last() == fv[j - 1]);
                    assert(fv[j - 1] == self.frames@[j - 1]@);
                    assert(trace@.map_values(|s: String| s@) =~= t0.map_values(|s: String| s@)
                        + seq![fv[j - 1].name]);
                    assert(unwind_trace(fv.subrange(0, j as int)) =~= seq![fv[j - 1].name]
                        + unwind_trace(fv.subrange(0, j - 1)));
                    assert(unwind_trace(fv) =~= trace@.map_values(|s: String| s@)
                        + unwind_trace(fv.subrange(0, j - 1)));
                }
                j = j - 1;
            }
        }
        proof {
            if !found {
                assert(fv.subrange(0, 0) =~= Seq::<FrameV>::empty());
                assert(keep == keep_len(fv));
                assert(unwind_trace(fv.subrange(0, 0)) =~= Seq::<Seq<char>>::empty());
                assert(trace@.map_values(|s: String| s@) =~= unwind_trace(fv));
            }
        }
        self.backtrace = trace;
        self.frames.truncate(keep);
        proof {
            assert(frames_view(self.frames@) =~= fv.subrange(0, keep as int));
        }
        if keep > 0 {
            self.pc = self.frames[keep - 1].return_address;
            proof {
                assert(frames_view(self.frames@)[keep - 1] == fv[keep - 1]);
                assert(unwound(old(self).machv()) matches StepRes::Next(s2) ==> self.machv()
                    =~~= s2);
            }
        } else {
            self.pc = usize::MAX;
            proof {
                assert(frames_view(self.frames@) =~= Seq::<FrameV>::empty());
                assert(unwound(old(self).machv()) matches StepRes::Next(s2) ==> self.machv()
                    =~~= s2);
            }
        }
        true
    }

    /// Runs the unwind check and folds its verdict into the tick's: the
    /// dispatch has taken the machine to `s2`, which `step` passes through
    /// the unwind check.
    fn finish_tick(&mut self, Ghost(p): Ghost<ProgV>, Ghost(m0): Ghost<MachV>) -> (r: TickRes)
        requires
            old(self).prog() == p,
            step(p, m0) == unwound(old(self).machv()),
        ensures
            tick_ok(p, m0, *final(self), r),
    {
        if self.unwind_stack_on_raise() {
            TickRes::Continue
        } else {
            TickRes::Fail
        }
    }

    /// An instruction that pushes one value and advances.
    fn do_push(&mut self, value: NativeType) -> (r: TickRes)
        requires
            mid_run(*old(self)),
            ({
                let m0 = old(self).machv();
                let f = m0.frames.last();
                step(old(self).prog(), m0) == unwound(
                    MachV {
                        pc: m0.pc + 1,
                        frames: set_top(m0, FrameV { stack: f.stack.push(value@), ..f }),
                        ..m0
                    },
                )
            }),
        ensures
            tick_ok(old(self).prog(), old(self).machv(), *final(self), r),
    {
        let ghost p = self.prog();
        let ghost m0 = self.machv();
        let ghost f = m0.frames.last();
        let mut frame = self.take_top();
        frame.push(value);
        self.put_top(frame);
        self.pc = self.pc + 1;
        proof {
            assert(m0.frames.drop_last().push(frame@) =~= set_top(
                m0,
                FrameV { stack: f.stack.push(value@), ..f },
            ));
            assert(self.machv() =~~= (MachV {
                pc: m0.pc + 1,
                frames: set_top(m0, FrameV { stack: f.stack.push(value@), ..f }),
                ..m0
            }));
        }
        self.finish_tick(Ghost(p), Ghost(m0))
    }

    /// `Pop`: discard the top of the stack.
    fn do_pop(&mut self) -> (r: TickRes)
        requires
            mid_run(*old(self)),
            old(self).prog().code[old(self).machv().pc] is Pop,
        ensures
            tick_ok(old(self).prog(), old(self).machv(), *final(self), r),
    {
        let ghost p = self.prog();
        let ghost m0 = self.machv();
        let ghost f = m0.frames.last();
        let mut frame = self.take_top();
        if frame.depth() == 0 {
            self.put_top(frame);
            return TickRes::Fail;
        }
        frame.pop();
        self.put_top(frame);
        self.pc = self.pc + 1;
        proof {
            assert(m0.frames.drop_last().push(frame@) =~= set_top(
                m0,
                FrameV { stack: f.stack.drop_last(), ..f },
            ));
            assert(self.machv() =~~= (MachV {
                pc: m0.pc + 1,
                frames: set_top(m0, FrameV { stack: f.stack.drop_last(), ..f }),
                ..m0
            }));
        }
        self.finish_tick(Ghost(p), Ghost(m0))
    }

    /// `Dup`: duplicate the top of the stack.
    fn do_dup(&mut self) -> (r: TickRes)
        requires
            mid_run(*old(self)),
            old(self).prog().code[old(self).machv().pc] is Dup,
        ensures
            tick_ok(old(self).prog(), old(self).machv(), *final(self), r),
    {
        let ghost p = self.prog();
        let ghost m0 = self.machv();
        let ghost f = m0.frames.last();
        let mut frame = self.take_top();
        if frame.depth() == 0 {
            self.put_top(frame);
            return TickRes::Fail;
        }
        frame.dup();
        self.put_top(frame);
        self.pc = self.pc + 1;
        proof {
            assert(m0.frames.drop_last().push(frame@) =~= set_top(
                m0,
                FrameV { stack: f.stack.push(f.stack.last()), ..f },
            ));
            assert(self.machv() =~~= (MachV {
                pc: m0.pc + 1,
                frames: set_top(m0, FrameV { stack: f.stack.push(f.stack.last()), ..f }),
                ..m0
            }));
        }
        self.finish_tick(Ghost(p), Ghost(m0))
    }

    /// `Add`: pop both operands, push the coerced sum or raise.
    fn do_add(&mut self) -> (r: TickRes)
        requires
            mid_run(*old(self)),
            old(self).prog().code[old(self).machv().pc] is Add,
        ensures
            tick_ok(old(self).prog(), old(self).machv(), *final(self), r),
    {
        let ghost p = self.prog();
        let ghost m0 = self.machv();
        let ghost f = m0.frames.last();
        let mut frame = self.take_top();
        if frame.depth() < 2 {
            self.put_top(frame);
            return TickRes::Fail;
        }
        frame.add();
        self.put_top(frame);
        self.pc = self.pc + 1;
        proof {
            assert(m0.frames.drop_last().push(frame@) =~= set_top(
                m0,
                binop_frame(f, add_of(f.stack[f.stack.len() - 2], f.stack.last())),
            ));
            assert(self.machv() =~~= (MachV {
                pc: m0.pc + 1,
                frames: set_top(
                    m0,
                    binop_frame(f, add_of(f.stack[f.stack.len() - 2], f.stack.last())),
                ),
                ..m0
            }));
        }
        self.finish_tick(Ghost(p), Ghost(m0))
    }

    /// `Sub`: pop both operands, push the coerced difference or raise.
    fn do_sub(&mut self) -> (r: TickRes)
        requires
            mid_run(*old(self)),
            old(self).prog().code[old(self).machv().pc] is Sub,
        ensures
            tick_ok(old(self).prog(), old(self).machv(), *final(self), r),
    {
        let ghost p = self.prog();
        let ghost m0 = self.machv();
        let ghost f = m0.frames.last();
        let mut frame = self.take_top();
        if frame.depth() < 2 {
            self.put_top(frame);
            return TickRes::Fail;
        }
        frame.sub();
        self.put_top(frame);
        self.pc = self.pc + 1;
        proof {
            assert(m0.frames.drop_last().push(frame@) =~= set_top(
                m0,
                binop_frame(f, sub_of(f.stack[f.stack.len() - 2], f.stack.last())),
            ));
            assert(self.machv() =~~= (MachV {
                pc: m0.pc + 1,
                frames: set_top(
                    m0,
                    binop_frame(f, sub_of(f.stack[f.stack.len() - 2], f.stack.last())),
                ),
                ..m0
            }));
        }
        self.finish_tick(Ghost(p), Ghost(m0))
    }

    /// A comparison opcode: pop both operands, push the boolean or raise.
    fn do_cmp(&mut self, op: CmpOp) -> (r: TickRes)
        requires
            mid_run(*old(self)),
            step(old(self).prog(), old(self).machv()) == crate::sem::cmp_step(
                old(self).prog(),
                old(self).machv(),
                op,
            ),
        ensures
            tick_ok(old(self).prog(), old(self).machv(), *final(self), r),
    {
        let ghost p = self.prog();
        let ghost m0 = self.machv();
        let ghost f = m0.frames.last();
        let mut frame = self.take_top();
        if frame.depth() < 2 {
            self.put_top(frame);
            return TickRes::Fail;
        }
        frame.compare(op);
        self.put_top(frame);
        self.pc = self.pc + 1;
        proof {
            assert(m0.frames.drop_last().push(frame@) =~= set_top(
                m0,
                binop_frame(f, cmp_of(op, f.stack[f.stack.len() - 2], f.stack.last())),
            ));
            assert(self.machv() =~~= (MachV {
                pc: m0.pc + 1,
                frames: set_top(
                    m0,
                    binop_frame(f, cmp_of(op, f.stack[f.stack.len() - 2], f.stack.last())),
                ),
                ..m0
            }));
        }
        self.finish_tick(Ghost(p), Ghost(m0))
    }

    /// `Raise`: set the raise flag and push the sentinels; the program
    /// counter stays, the unwind moves it.
    fn do_raise(&mut self) -> (r: TickRes)
        requires
            mid_run(*old(self)),
            old(self).prog().code[old(self).machv().pc] is Raise,
        ensures
            tick_ok(old(self).prog(), old(self).machv(), *final(self), r),
    {
        let ghost p = self.prog();
        let ghost m0 = self.machv();
        let ghost f = m0.frames.last();
        let mut frame = self.take_top();
        frame.raise("Exception");
        self.put_top(frame);
        proof {
            assert(m0.frames.drop_last().push(frame@) =~= set_top(
                m0,
                raise_frame(f, "Exception"@),
            ));
            assert(self.machv() =~~= (MachV {
                frames: set_top(m0, raise_frame(f, "Exception"@)),
                ..m0
            }));
        }
        self.finish_tick(Ghost(p), Ghost(m0))
    }

    /// `LoadVar`: push a copy of a local slot.
    fn do_load_var(&mut self, index: usize) -> (r: TickRes)
        requires
            mid_run(*old(self)),
            old(self).prog().code[old(self).machv().pc] == InstrV::LoadVar(index as int),
        ensures
            tick_ok(old(self).prog(), old(self).machv(), *final(self), r),
    {
        let ghost p = self.prog();
        let ghost m0 = self.machv();
        let ghost f = m0.frames.last();
        let mut frame = self.take_top();
        if index >= frame.locals.len() {
            self.put_top(frame);
            return TickRes::Fail;
        }
        frame.load_local(index);
        self.put_top(frame);
        self.pc = self.pc + 1;
        proof {
            assert(m0.frames.drop_last().push(frame@) =~= set_top(
                m0,
                FrameV { stack: f.stack.push(f.locals[index as int]), ..f },
            ));
            assert(self.machv() =~~= (MachV {
                pc: m0.pc + 1,
                frames: set_top(m0, FrameV { stack: f.stack.push(f.locals[index as int]), ..f }),
                ..m0
            }));
        }
        self.finish_tick(Ghost(p), Ghost(m0))
    }

    /// `StoreVar`: pop into a local slot — an overwrite below the slot
    /// count, an append exactly at it, a fault above it.
    fn do_store_var(&mut self, index: usize) -> (r: TickRes)
        requires
            mid_run(*old(self)),
            old(self).prog().code[old(self).machv().pc] == InstrV::StoreVar(index as int),
        ensures
            tick_ok(old(self).prog(), old(self).machv(), *final(self), r),
    {
        let ghost p = self.prog();
        let ghost m0 = self.machv();
        let ghost f = m0.frames.last();
        let mut frame = self.take_top();
        if frame.depth() == 0 || index > frame.locals.len() {
            self.put_top(frame);
            return TickRes::Fail;
        }
        frame.store_local(index);
        self.put_top(frame);
        self.pc = self.pc + 1;
        proof {
            let locals2 = if (index as int) < f.locals.len() {
                f.locals.update(index as int, f.stack.last())
            } else {
                f.locals.push(f.stack.last())
            };
            assert(m0.frames.drop_last().push(frame@) =~= set_top(
                m0,
                FrameV { stack: f.stack.drop_last(), locals: locals2, ..f },
            ));
            assert(self.machv() =~~= (MachV {
                pc: m0.pc + 1,
                frames: set_top(m0, FrameV { stack: f.stack.drop_last(), locals: locals2, ..f }),
                ..m0
            }));
        }
        self.finish_tick(Ghost(p), Ghost(m0))
    }

    /// `NewObject`: allocate an empty object, push its reference.
    fn do_new_object(&mut self) -> (r: TickRes)
        requires
            mid_run(*old(self)),
            old(self).prog().code[old(self).machv().pc] is NewObject,
        ensures
            tick_ok(old(self).prog(), old(self).machv(), *final(self), r),
    {
        let ghost p = self.prog();
        let ghost m0 = self.machv();
        let ghost f = m0.frames.last();
        let obj = Object::new();
        self.heap.push(obj);
        proof {
            assert(heap_view(self.heap@) =~= m0.heap.push(Map::empty()));
        }
        let obj_ref = self.heap.len() - 1;
        let mut frame = self.take_top();
        frame.push(NativeType::ObjectRef(obj_ref));
        self.put_top(frame);
        self.pc = self.pc + 1;
        proof {
            assert(m0.frames.drop_last().push(frame@) =~= set_top(
                m0,
                FrameV { stack: f.stack.push(ValV::ObjectRef(m0.heap.len() as nat)), ..f },
            ));
            assert(self.machv() =~~= (MachV {
                pc: m0.pc + 1,
                frames: set_top(
                    m0,
                    FrameV { stack: f.stack.push(ValV::ObjectRef(m0.heap.len() as nat)), ..f },
                ),
                heap: m0.heap.push(Map::empty()),
            }));
        }
        self.finish_tick(Ghost(p), Ghost(m0))
    }

    /// `LoadField`: pop an object reference, push a copy of the field.
    fn do_load_field(&mut self, field_name: String) -> (r: TickRes)
        requires
            mid_run(*old(self)),
            old(self).prog().code[old(self).machv().pc] == InstrV::LoadField(field_name@),
        ensures
            tick_ok(old(self).prog(), old(self).machv(), *final(self), r),
    {
        let ghost p = self.prog();
        let ghost m0 = self.machv();
        let ghost f = m0.frames.last();
        let mut frame = self.take_top();
        if frame.depth() == 0 {
            self.put_top(frame);
            return TickRes::Fail;
        }
        let obj_ref = frame.pop();
        let x = match obj_ref {
            NativeType::ObjectRef(x) => x,
            _ => {
                self.put_top(frame);
                return TickRes::Fail;
            },
        };
        if x >= self.heap.len() {
            self.put_top(frame);
            return TickRes::Fail;
        }
        proof {
            assert(heap_view(self.heap@)[x as int] == self.heap@[x as int]@);
        }
        let field = match self.heap[x].fields.get(&field_name) {
            Some(v) => v.duplicate(),
            None => {
                self.put_top(frame);
                return TickRes::Fail;
            },
        };
        frame.push(field);
        self.put_top(frame);
        self.pc = self.pc + 1;
        proof {
            assert(m0.frames.drop_last().push(frame@) =~= set_top(
                m0,
                FrameV {
                    stack: f.stack.drop_last().push(m0.heap[x as int][field_name@]),
                    ..f
                },
            ));
            assert(self.machv() =~~= (MachV {
                pc: m0.pc + 1,
                frames: set_top(
                    m0,
                    FrameV {
                        stack: f.stack.drop_last().push(m0.heap[x as int][field_name@]),
                        ..f
                    },
                ),
                ..m0
            }));
        }
        self.finish_tick(Ghost(p), Ghost(m0))
    }

    /// `StoreField`: pop an object reference and a value, set the field.
    fn do_store_field(&mut self, field_name: String) -> (r: TickRes)
        requires
            mid_run(*old(self)),
            old(self).prog().code[old(self).machv().pc] == InstrV::StoreField(field_name@),
        ensures
            tick_ok(old(self).prog(), old(self).machv(), *final(self), r),
    {
        let ghost p = self.prog();
        let ghost m0 = self.machv();
        let ghost f = m0.frames.last();
        let mut frame = self.take_top();
        if frame.depth() < 2 {
            self.put_top(frame);
            return TickRes::Fail;
        }
        let obj_ref = frame.pop();
        let value = frame.pop();
        let x = match obj_ref {
            NativeType::ObjectRef(x) => x,
            _ => {
                self.put_top(frame);
                return TickRes::Fail;
            },
        };
        if x >= self.heap.len() {
            self.put_top(frame);
            return TickRes::Fail;
        }
        let mut obj = Object::new();
        self.heap.set_and_swap(x, &mut obj);
        obj.fields.insert(field_name, value);
        self.heap.set_and_swap(x, &mut obj);
        self.put_top(frame);
        self.pc = self.pc + 1;
        proof {
            assert(heap_view(self.heap@) =~= m0.heap.update(
                x as int,
                m0.heap[x as int].insert(field_name@, f.stack[f.stack.len() - 2]),
            ));
            assert(m0.frames.drop_last().push(frame@) =~= set_top(
                m0,
                FrameV { stack: f.stack.drop_last().drop_last(), ..f },
            ));
            assert(self.machv() =~~= (MachV {
                pc: m0.pc + 1,
                frames: set_top(m0, FrameV { stack: f.stack.drop_last().drop_last(), ..f }),
                heap: m0.heap.update(
                    x as int,
                    m0.heap[x as int].insert(field_name@, f.stack[f.stack.len() - 2]),
                ),
            }));
        }
        self.finish_tick(Ghost(p), Ghost(m0))
    }

    /// A conditional jump: pop; on the given boolean, jump, else fall
    /// through. Anything but that exact boolean falls through.
    fn do_cond_jump(&mut self, pos: usize, on_true: bool) -> (r: TickRes)
        requires
            mid_run(*old(self)),
            on_true ==> old(self).prog().code[old(self).machv().pc] == InstrV::JumpIfTrue(
                pos as int,
            ),
            !on_true ==> old(self).prog().code[old(self).machv().pc] == InstrV::JumpIfFalse(
                pos as int,
            ),
        ensures
            tick_ok(old(self).prog(), old(self).machv(), *final(self), r),
    {
        let ghost p = self.prog();
        let ghost m0 = self.machv();
        let ghost f = m0.frames.last();
        let mut frame = self.take_top();
        if frame.depth() == 0 {
            self.put_top(frame);
            return TickRes::Fail;
        }
        let v = frame.pop();
        let taken = match v {
            NativeType::Bool(b) => b == on_true,
            _ => false,
        };
        self.put_top(frame);
        if taken {
            self.pc = pos;
        } else {
            self.pc = self.pc + 1;
        }
        proof {
            let ghost pc2: int = if f.stack.last() == ValV::Bool(on_true) {
                pos as int
            } else {
                m0.pc + 1
            };
            assert(taken == (f.stack.last() == ValV::Bool(on_true)));
            assert(m0.frames.drop_last().push(frame@) =~= set_top(
                m0,
                FrameV { stack: f.stack.drop_last(), ..f },
            ));
            assert(self.machv() =~~= (MachV {
                pc: pc2,
                frames: set_top(m0, FrameV { stack: f.stack.drop_last(), ..f }),
                ..m0
            }));
        }
        self.finish_tick(Ghost(p), Ghost(m0))
    }

    /// `Jump`: set the program counter.
    fn do_jump(&mut self, pos: usize) -> (r: TickRes)
        requires
            mid_run(*old(self)),
            old(self).prog().code[old(self).machv().pc] == InstrV::Jump(pos as int),
        ensures
            tick_ok(old(self).prog(), old(self).machv(), *final(self), r),
    {
        let ghost p = self.prog();
        let ghost m0 = self.machv();
        self.pc = pos;
        proof {
            assert(self.machv() =~~= (MachV { pc: pos as int, ..m0 }));
        }
        self.finish_tick(Ghost(p), Ghost(m0))
    }

    /// `Call`: pop the arguments into the slots of a fresh frame — first
    /// declared parameter in slot zero — push it, and enter the callee.
    fn do_call(&mut self, class_name: String, fn_name: String) -> (r: TickRes)
        requires
            mid_run(*old(self)),
            old(self).prog().code[old(self).machv().pc] == InstrV::Call(class_name@, fn_name@),
        ensures
            tick_ok(old(self).prog(), old(self).machv(), *final(self), r),
    {
        let ghost p = self.prog();
        let ghost m0 = self.machv();
        let ghost f = m0.frames.last();
        let num_params = match self.bytecode.symbols.get(&class_name, &fn_name) {
            Some(fn_metadata) => fn_metadata.params_len(),
            None => {
                return TickRes::Fail;
            },
        };
        let entry = match self.bytecode.labels.get(&class_name, &fn_name) {
            Some(e) => *e,
            None => {
                return TickRes::Fail;
            },
        };
        let mut frame = self.take_top();
        if frame.depth() < num_params {
            self.put_top(frame);
            return TickRes::Fail;
        }
        // pop the arguments, newest first, then reverse them into the
        // callee's locals
        let mut rev: Vec<NativeType> = Vec::new();
        let mut t: usize = 0;
        while t < num_params
            invariant
                0 <= t <= num_params,
                num_params <= f.stack.len(),
                frame@ == (FrameV {
                    stack: f.stack.subrange(0, f.stack.len() - t),
                    ..f
                }),
                rev@.len() == t,
                forall|q: int|
                    0 <= q < t ==> (#[trigger] rev@[q])@ == f.stack[f.stack.len() - 1 - q],
            decreases num_params - t,
        {
            let v = frame.pop();
            rev.push(v);
            proof {
                assert(f.stack.subrange(0, f.stack.len() - t).drop_last() =~= f.stack.subrange(
                    0,
                    f.stack.len() - (t + 1),
                ));
                assert(f.stack.subrange(0, f.stack.len() - t).last() == f.stack[f.stack.len() - 1
                    - t]);
                assert(frame@ =~~= (FrameV {
                    stack: f.stack.subrange(0, f.stack.len() - (t + 1)),
                    ..f
                }));
            }
            t = t + 1;
        }
        let mut locals: Vec<NativeType> = Vec::new();
        let mut u: usize = num_params;
        while u > 0
            invariant
                0 <= u <= num_params == rev@.len(),
                num_params <= f.stack.len(),
                forall|q: int|
                    0 <= q < num_params ==> (#[trigger] rev@[q])@ == f.stack[f.stack.len() - 1
                        - q],
                locals@.len() == num_params - u,
                forall|q: int|
                    0 <= q < num_params - u ==> (#[trigger] locals@[q])@ == f.stack[f.stack.len()
                        - num_params + q],
            decreases u,
        {
            let v = rev[u - 1].duplicate();
            locals.push(v);
            u = u - 1;
        }
        proof {
            assert(locals@.map_values(|v: NativeType| v@) =~= f.stack.subrange(
                f.stack.len() - num_params,
                f.stack.len() as int,
            ));
        }
        let new_frame = Frame::new(fn_name.clone(), locals, self.pc + 1);
        self.put_top(frame);
        self.put_top(new_frame);
        self.pc = entry;
        proof {
            let k = p.symbols[(class_name@, fn_name@)].num_params as int;
            let caller = FrameV { stack: f.stack.subrange(0, f.stack.len() - k), ..f };
            let callee = FrameV {
                stack: Seq::empty(),
                locals: f.stack.subrange(f.stack.len() - k, f.stack.len() as int),
                ret: m0.pc + 1,
                raise: false,
                in_try: false,
                name: fn_name@,
            };
            assert(new_frame@.stack =~= Seq::<ValV>::empty());
            assert(frame@ =~~= caller);
            assert(new_frame@ =~~= callee);
            assert(m0.frames.drop_last().push(caller).push(callee) =~= set_top(
                m0,
                caller,
            ).push(callee));
            assert(self.machv() =~~= (MachV {
                pc: p.labels[(class_name@, fn_name@)] as int,
                frames: set_top(m0, caller).push(callee),
                ..m0
            }));
        }
        self.finish_tick(Ghost(p), Ghost(m0))
    }

    /// `Ret`: take the return value (or none), discard the frame, hand the
    /// value to the caller, resume at the return address.
    fn do_ret(&mut self) -> (r: TickRes)
        requires
            mid_run(*old(self)),
            old(self).prog().code[old(self).machv().pc] is Ret,
        ensures
            tick_ok(old(self).prog(), old(self).machv(), *final(self), r),
    {
        let ghost p = self.prog();
        let ghost m0 = self.machv();
        let ghost f = m0.frames.last();
        if self.frames.len() < 2 {
            return TickRes::Fail;
        }
        let mut frame = self.take_top();
        let return_value = if frame.depth() > 0 {
            frame.pop()
        } else {
            NativeType::NoneType
        };
        let return_address = frame.return_address;
        let mut caller = self.take_top();
        caller.push(return_value);
        self.put_top(caller);
        self.pc = return_address;
        proof {
            let rv = if f.stack.len() > 0 {
                f.stack.last()
            } else {
                ValV::NoneType
            };
            let below = m0.frames[m0.frames.len() - 2];
            assert(return_value@ == rv);
            assert(caller@ =~~= (FrameV { stack: below.stack.push(rv), ..below }));
            assert(m0.frames.drop_last().drop_last().push(caller@) =~= m0.frames.drop_last().update(
                m0.frames.len() - 2,
                FrameV { stack: below.stack.push(rv), ..below },
            ));
            assert(self.machv() =~~= (MachV {
                pc: f.ret,
                frames: m0.frames.drop_last().update(
                    m0.frames.len() - 2,
                    FrameV { stack: below.stack.push(rv), ..below },
                ),
                ..m0
            }));
        }
        self.finish_tick(Ghost(p), Ghost(m0))
    }

    /// One tick: the fall-off-the-end check, one instruction dispatched,
    /// and the unwind check. Follows `step` exactly.
    fn tick(&mut self) -> (r: TickRes)
        ensures
            tick_ok(old(self).prog(), old(self).machv(), *final(self), r),
    {
        let ghost p = self.prog();
        let ghost m0 = self.machv();
        let bytecode_size = self.bytecode.bytecode.len();
        if self.pc >= bytecode_size {
            let n = self.frames.len();
            if n == 0 {
                return TickRes::Done(None);
            }
            let res = self.frames[n - 1].peek_value();
            proof {
                assert(frames_view(self.frames@)[n - 1] == self.frames@[n - 1]@);
                assert(opt_val_view(res) == peeked(m0));
            }
            return TickRes::Done(res);
        }
        let n = self.frames.len();
        if n == 0 {
            return TickRes::Fail;
        }
        // a copy of the fetched instruction, so that the borrow of the
        // program ends before the machine changes
        let instr = self.bytecode.bytecode[self.pc].duplicate();
        proof {
            assert(p.code.len() == bytecode_size as nat);
            assert(crate::bytecode::code_view(self.bytecode.bytecode@)[m0.pc] ==
                self.bytecode.bytecode@[m0.pc]@);
            assert(instr@ == p.code[m0.pc]);
        }
        match instr {
            Instr::PushInt(x) => self.do_push(NativeType::Int(x)),
            Instr::PushStr(x) => self.do_push(NativeType::Str(x)),
            Instr::Pop => self.do_pop(),
            Instr::Dup => self.do_dup(),
            Instr::Add => self.do_add(),
            Instr::Sub => self.do_sub(),
            Instr::Lteq => self.do_cmp(CmpOp::Lteq),
            Instr::Gteq => self.do_cmp(CmpOp::Gteq),
            Instr::Lt => self.do_cmp(CmpOp::Lt),
            Instr::Gt => self.do_cmp(CmpOp::Gt),
            Instr::Eqeq => self.do_cmp(CmpOp::Eqeq),
            Instr::Raise => self.do_raise(),
            Instr::LoadVar(index) => self.do_load_var(index),
            Instr::StoreVar(index) => self.do_store_var(index),
            Instr::LoadGlobal(_) => TickRes::Fail,
            Instr::StoreGlobal(_) => TickRes::Fail,
            Instr::Swap => TickRes::Fail,
            Instr::NewObject => self.do_new_object(),
            Instr::LoadField(field_name) => self.do_load_field(field_name),
            Instr::StoreField(field_name) => self.do_store_field(field_name),
            Instr::JumpIfTrue(pos) => self.do_cond_jump(pos, true),
            Instr::JumpIfFalse(pos) => self.do_cond_jump(pos, false),
            Instr::Jump(pos) => self.do_jump(pos),
            Instr::Call(class_name, fn_name) => self.do_call(class_name, fn_name),
            Instr::Ret => self.do_ret(),
            Instr::Exit => {
                let res = self.frames[n - 1].peek_value();
                proof {
                    assert(frames_view(self.frames@)[n - 1] == self.frames@[n - 1]@);
                    assert(opt_val_view(res) == peeked(m0));
                }
                TickRes::Done(res)
            },
        }
    }

    /// Runs the program to completion: from the entry point, one tick at a
    /// time, until the machine halts — or faults, which yields no result.
    /// The result is what some number of ticks of the step semantics
    /// reaches from the initial state. The loop carries a step budget of
    /// two to the sixty-fourth ticks; a program still running after that
    /// many — centuries of machine time — publishes nothing.
    pub fn run(&mut self) -> (result: Option<NativeType>)
        requires
            old(self).machv().frames.len() == 0,
            old(self).machv().heap.len() == 0,
        ensures
            final(self).prog() == old(self).prog(),
            old(self).prog().labels.contains_key(main_key()) ==> {
                ||| reaches(old(self).prog(), StepRes::Halted(opt_val_view(result)))
                ||| reaches(old(self).prog(), StepRes::Fault) && result is None
                ||| run_n(old(self).prog(), init_state(old(self).prog()), u64::MAX as nat)
                    is Next && result is None
            },
            !old(self).prog().labels.contains_key(main_key()) ==> result is None,
    {
        let ghost p = self.prog();
        if !self.enter_main() {
            return None;
        }
        let mut steps: u64 = 0;
        proof {
            assert(run_n(p, init_state(p), 0nat) == StepRes::Next(self.machv()));
        }
        while steps < u64::MAX
            invariant
                self.prog() == p,
                p == old(self).prog(),
                p.labels.contains_key(main_key()),
                run_n(p, init_state(p), steps as nat) == StepRes::Next(self.machv()),
            decreases u64::MAX - steps,
        {
            let ghost before = self.machv();
            let r = self.tick();
            proof {
                assert(run_n(p, init_state(p), (steps + 1) as nat) == step(p, before));
            }
            match r {
                TickRes::Continue => {
                    steps = steps + 1;
                },
                TickRes::Done(v) => {
                    proof {
                        assert(run_n(p, init_state(p), (steps + 1) as nat) == StepRes::Halted(
                            opt_val_view(v),
                        ));
                        assert(reaches(p, StepRes::Halted(opt_val_view(v))));
                    }
                    return v;
                },
                TickRes::Fail => {
                    proof {
                        assert(run_n(p, init_state(p), (steps + 1) as nat) == StepRes::Fault);
                        assert(reaches(p, StepRes::Fault));
                    }
                    return None;
                },
            }
        }
        None
    }
}

/// What running a program publishes: the textual form of the halting
/// value, or the empty string — after an unhandled raise, a fault, a
/// missing entry point, or an exhausted step budget.
pub open spec fn runs_to(p: ProgV, out: Seq<char>) -> bool {
    if p.labels.contains_key(main_key()) {
        ||| exists|v: ValV| reaches(p, StepRes::Halted(Some(v))) && out == pretty_of(v)
        ||| (reaches(p, StepRes::Halted(None)) || reaches(p, StepRes::Fault) || run_n(
            p,
            init_state(p),
            u64::MAX as nat,
        ) is Next) && out =~= Seq::<char>::empty()
    } else {
        out =~= Seq::<char>::empty()
    }
}

/// Runs a compiled program and publishes its result as text.
pub fn run(bytecode: Bytecode) -> (r: String)
    ensures
        runs_to(bytecode@, r@),
{
    let ghost p = bytecode@;
    let mut vm = VM::new(bytecode);
    let res = vm.run();
    match res {
        Some(x) => {
            let out = x.pretty();
            proof {
                assert(reaches(p, StepRes::Halted(Some(x@))));
                assert(opt_val_view(Some(x)) == Some(x@));
            }
            out
        },
        None => {
            let out = "".to_owned();
            proof {
                reveal_strlit("");
                assert(out@ =~= Seq::<char>::empty());
            }
            out
        },
    }
}

} // verus!
