//! The instruction set and the compiled program image: a dense instruction
//! vector, a symbol table of function descriptors, and a label table of
//! function entry points.
use vstd::prelude::*;

use crate::table::Table;

verus! {

/// One bytecode instruction.
#[derive(Debug, Clone)]
pub enum Instr {
    PushInt(i32),
    PushStr(String),
    Pop,
    Add,
    Sub,
    Lteq,
    Gteq,
    Lt,
    Gt,
    Eqeq,
    Raise,
    LoadVar(usize),
    StoreVar(usize),
    LoadGlobal(String),
    StoreGlobal(String),
    NewObject,
    LoadField(String),
    StoreField(String),
    Swap,
    Dup,
    Call(String, String),
    JumpIfTrue(usize),
    JumpIfFalse(usize),
    Jump(usize),
    Ret,
    Exit,
}

/// The mathematical model of an instruction.
pub enum InstrV {
    PushInt(i32),
    PushStr(Seq<char>),
    Pop,
    Add,
    Sub,
    Lteq,
    Gteq,
    Lt,
    Gt,
    Eqeq,
    Raise,
    LoadVar(int),
    StoreVar(int),
    LoadGlobal(Seq<char>),
    StoreGlobal(Seq<char>),
    NewObject,
    LoadField(Seq<char>),
    StoreField(Seq<char>),
    Swap,
    Dup,
    Call(Seq<char>, Seq<char>),
    JumpIfTrue(int),
    JumpIfFalse(int),
    Jump(int),
    Ret,
    Exit,
}

impl View for Instr {
    type V = InstrV;

    open spec fn view(&self) -> InstrV {
        match self {
            Instr::PushInt(x) => InstrV::PushInt(*x),
            Instr::PushStr(s) => InstrV::PushStr(s@),
            Instr::Pop => InstrV::Pop,
            Instr::Add => InstrV::Add,
            Instr::Sub => InstrV::Sub,
            Instr::Lteq => InstrV::Lteq,
            Instr::Gteq => InstrV::Gteq,
            Instr::Lt => InstrV::Lt,
            Instr::Gt => InstrV::Gt,
            Instr::Eqeq => InstrV::Eqeq,
            Instr::Raise => InstrV::Raise,
            Instr::LoadVar(i) => InstrV::LoadVar(*i as int),
            Instr::StoreVar(i) => InstrV::StoreVar(*i as int),
            Instr::LoadGlobal(s) => InstrV::LoadGlobal(s@),
            Instr::StoreGlobal(s) => InstrV::StoreGlobal(s@),
            Instr::NewObject => InstrV::NewObject,
            Instr::LoadField(s) => InstrV::LoadField(s@),
            Instr::StoreField(s) => InstrV::StoreField(s@),
            Instr::Swap => InstrV::Swap,
            Instr::Dup => InstrV::Dup,
            Instr::Call(c, f) => InstrV::Call(c@, f@),
            Instr::JumpIfTrue(p) => InstrV::JumpIfTrue(*p as int),
            Instr::JumpIfFalse(p) => InstrV::JumpIfFalse(*p as int),
            Instr::Jump(p) => InstrV::Jump(*p as int),
            Instr::Ret => InstrV::Ret,
            Instr::Exit => InstrV::Exit,
        }
    }
}

impl Instr {
    /// A copy of this instruction with the same model.
    pub fn duplicate(&self) -> (r: Instr)
        ensures
            r@ == self@,
    {
        match self {
            Instr::PushInt(x) => Instr::PushInt(*x),
            Instr::PushStr(s) => Instr::PushStr(s.clone()),
            Instr::Pop => Instr::Pop,
            Instr::Add => Instr::Add,
            Instr::Sub => Instr::Sub,
            Instr::Lteq => Instr::Lteq,
            Instr::Gteq => Instr::Gteq,
            Instr::Lt => Instr::Lt,
            Instr::Gt => Instr::Gt,
            Instr::Eqeq => Instr::Eqeq,
            Instr::Raise => Instr::Raise,
            Instr::LoadVar(i) => Instr::LoadVar(*i),
            Instr::StoreVar(i) => Instr::StoreVar(*i),
            Instr::LoadGlobal(s) => Instr::LoadGlobal(s.clone()),
            Instr::StoreGlobal(s) => Instr::StoreGlobal(s.clone()),
            Instr::NewObject => Instr::NewObject,
            Instr::LoadField(s) => Instr::LoadField(s.clone()),
            Instr::StoreField(s) => Instr::StoreField(s.clone()),
            Instr::Swap => Instr::Swap,
            Instr::Dup => Instr::Dup,
            Instr::Call(c, f) => Instr::Call(c.clone(), f.clone()),
            Instr::JumpIfTrue(p) => Instr::JumpIfTrue(*p),
            Instr::JumpIfFalse(p) => Instr::JumpIfFalse(*p),
            Instr::Jump(p) => Instr::Jump(*p),
            Instr::Ret => Instr::Ret,
            Instr::Exit => Instr::Exit,
        }
    }
}

/// The branch target of an instruction, if it has one.
pub open spec fn jump_target(i: InstrV) -> Option<int> {
    match i {
        InstrV::JumpIfTrue(p) => Some(p),
        InstrV::JumpIfFalse(p) => Some(p),
        InstrV::Jump(p) => Some(p),
        _ => None,
    }
}

/// A branch target is resolved: inside the program (its end included) and
/// not the emission placeholder.
pub open spec fn target_ok(t: int, n: int) -> bool {
    0 <= t <= n && t != usize::MAX as int
}

/// An instruction's branch target, if any, is resolved against a program
/// of length `n`.
pub open spec fn instr_ok(i: InstrV, n: int) -> bool {
    match jump_target(i) {
        Some(t) => target_ok(t, n),
        None => true,
    }
}

/// Every branch in the code is resolved against length `n`.
pub open spec fn code_ok(code: Seq<InstrV>, n: int) -> bool {
    forall|k: int| 0 <= k < code.len() ==> instr_ok(#[trigger] code[k], n)
}

/// The view of an instruction vector.
pub open spec fn code_view(code: Seq<Instr>) -> Seq<InstrV> {
    code.map_values(|i: Instr| i@)
}

/// A function descriptor: the ordered local-slot names, of which the first
/// `num_params` are the declared parameters.
#[derive(Debug)]
pub struct Fn {
    locals: Vec<String>,
    num_params: usize,
}

/// The mathematical model of a function descriptor.
pub struct FnV {
    pub locals: Seq<Seq<char>>,
    pub num_params: nat,
}

impl View for Fn {
    type V = FnV;

    closed spec fn view(&self) -> FnV {
        FnV { locals: self.locals@.map_values(|s: String| s@), num_params: self.num_params as nat }
    }
}

/// A descriptor never declares more parameters than local slots.
pub open spec fn fn_wf(f: FnV) -> bool {
    f.num_params <= f.locals.len()
}

impl Fn {
    /// An empty descriptor: no parameters, no locals.
    pub fn new() -> (r: Fn)
        ensures
            r@.locals =~= Seq::<Seq<char>>::empty(),
            r@.num_params == 0,
    {
        Fn { num_params: 0, locals: Vec::new() }
    }

    /// How many parameters the function declares.
    pub fn params_len(&self) -> (r: usize)
        ensures
            r as nat == self@.num_params,
    {
        self.num_params
    }

    /// How many local slots the function uses, parameters included.
    pub fn locals_len(&self) -> (r: usize)
        ensures
            r as nat == self@.locals.len(),
    {
        self.locals.len()
    }

    /// The first slot holding `name`, if any.
    pub(crate) fn position(&self, name: &String) -> (r: Option<usize>)
        ensures
            r is Some <==> exists|j: int| 0 <= j < self@.locals.len() && self@.locals[j] == name@,
            r is Some ==> {
                let i = r->0 as int;
                &&& 0 <= i < self@.locals.len()
                &&& self@.locals[i] == name@
                &&& forall|j: int| 0 <= j < i ==> self@.locals[j] != name@
            },
    {
        let n = self.locals.len();
        let mut i: usize = 0;
        while i < n
            invariant
                0 <= i <= n == self@.locals.len(),
                forall|j: int| 0 <= j < i ==> self@.locals[j] != name@,
            decreases n - i,
        {
            if self.locals[i] == *name {
                proof {
                    assert(self@.locals[i as int] == self.locals@[i as int]@);
                }
                return Some(i);
            }
            proof {
                assert(self@.locals[i as int] == self.locals@[i as int]@);
            }
            i = i + 1;
        }
        None
    }

    /// Appends a local slot named `name`.
    pub(crate) fn push_local(&mut self, name: String)
        ensures
            final(self)@.locals =~= old(self)@.locals.push(name@),
            final(self)@.num_params == old(self)@.num_params,
    {
        self.locals.push(name);
    }

    /// Appends a parameter named `name`: one more local slot, one more
    /// declared parameter.
    pub(crate) fn push_param(&mut self, name: String)
        requires
            fn_wf(old(self)@),
        ensures
            final(self)@.locals =~= old(self)@.locals.push(name@),
            final(self)@.num_params == old(self)@.num_params + 1,
            fn_wf(final(self)@),
    {
        self.locals.push(name);
        let n = self.locals.len();
        proof {
            assert(old(self).num_params + 1 <= n);
        }
        self.num_params = self.num_params + 1;
    }

    /// A copy of this descriptor.
    pub(crate) fn duplicate(&self) -> (r: Fn)
        ensures
            r@.locals =~= self@.locals,
            r@.num_params == self@.num_params,
    {
        let n = self.locals.len();
        let mut ls: Vec<String> = Vec::new();
        let mut i: usize = 0;
        while i < n
            invariant
                0 <= i <= n == self@.locals.len(),
                ls@.len() == i,
                forall|j: int| 0 <= j < i ==> ls@.map_values(|s: String| s@)[j] == self@.locals[j],
            decreases n - i,
        {
            ls.push(self.locals[i].clone());
            i = i + 1;
        }
        proof {
            assert(ls@.map_values(|s: String| s@) =~= self@.locals);
        }
        Fn { locals: ls, num_params: self.num_params }
    }
}

/// The compiled program image.
#[derive(Debug)]
pub struct Bytecode {
    pub bytecode: Vec<Instr>,
    pub symbols: Table<Fn>,
    pub labels: Table<usize>,
}

/// The model of a program image.
pub struct ProgV {
    pub code: Seq<InstrV>,
    pub symbols: Map<(Seq<char>, Seq<char>), FnV>,
    pub labels: Map<(Seq<char>, Seq<char>), usize>,
}

impl View for Bytecode {
    type V = ProgV;

    open spec fn view(&self) -> ProgV {
        ProgV { code: code_view(self.bytecode@), symbols: self.symbols@, labels: self.labels@ }
    }
}

/// A well-formed program: every branch is resolved (no placeholder
/// survives emission) and every label points into the program.
pub open spec fn program_wf(p: ProgV) -> bool {
    &&& code_ok(p.code, p.code.len() as int)
    &&& forall|k: (Seq<char>, Seq<char>)|
        p.labels.contains_key(k) ==> 0 <= #[trigger] p.labels[k] <= p.code.len()
    &&& forall|k: (Seq<char>, Seq<char>)| p.symbols.contains_key(k) ==> fn_wf(#[trigger] p.symbols[k])
}

/// Every `Call(c, f)` in the code has both a descriptor and a label.
pub open spec fn calls_covered(p: ProgV) -> bool {
    forall|k: int|
        0 <= k < p.code.len() ==> match #[trigger] p.code[k] {
            InstrV::Call(c, f) => p.symbols.contains_key((c, f)) && p.labels.contains_key((c, f)),
            _ => true,
        }
}

impl Bytecode {
    /// Whether every call site in this program is resolved: each
    /// `Call(c, f)` has a symbol entry and a label entry.
    pub fn calls_resolved(&self) -> (r: bool)
        ensures
            r == calls_covered(self@),
    {
        let n = self.bytecode.len();
        let mut i: usize = 0;
        while i < n
            invariant
                0 <= i <= n == self@.code.len(),
                forall|k: int|
                    0 <= k < i ==> match #[trigger] self@.code[k] {
                        InstrV::Call(c, f) => self@.symbols.contains_key((c, f))
                            && self@.labels.contains_key((c, f)),
                        _ => true,
                    },
            decreases n - i,
        {
            if let Instr::Call(c, f) = &self.bytecode[i] {
                if !(self.symbols.contains(c, f) && self.labels.contains(c, f)) {
                    proof {
                        assert(self@.code[i as int] == InstrV::Call(c@, f@));
                    }
                    return false;
                }
            }
            proof {
                assert(code_view(self.bytecode@)[i as int] == self.bytecode@[i as int]@);
            }
            i = i + 1;
        }
        true
    }
}

} // verus!
