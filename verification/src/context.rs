//! The compiler's mutable state during emission: the instruction vector,
//! the label and symbol tables, the current class and function names, and
//! the forward-jump patch helper.
use vstd::prelude::*;

use crate::bytecode::{code_view, fn_wf, Bytecode, FnV, Instr, InstrV, Fn};
use crate::table::Table;
use crate::tree::{term_value, PNode};
use vstd::pervasive::VecAdditionalExecFns;

verus! {

/// The sentinel branch target of a forward jump that has not been patched
/// yet.
pub const PLACEHOLDER: usize = usize::MAX;

/// Every descriptor in a symbol table is well formed.
pub open spec fn symbols_wf(m: Map<(Seq<char>, Seq<char>), FnV>) -> bool {
    forall|k: (Seq<char>, Seq<char>)| m.contains_key(k) ==> fn_wf(#[trigger] m[k])
}

/// The state that the tree-walk emitter threads through the walk.
pub struct CompilerContext {
    pub symbols: Table<Fn>,
    pub bytecode: Vec<Instr>,
    pub labels: Table<usize>,
    pub cur_cls: String,
    pub cur_fn: String,
}

/// The patched form of a jump instruction: the same variant, its target
/// rewritten to `n`.
pub open spec fn patch_of(i: InstrV, n: int) -> InstrV {
    match i {
        InstrV::JumpIfTrue(_) => InstrV::JumpIfTrue(n),
        InstrV::JumpIfFalse(_) => InstrV::JumpIfFalse(n),
        InstrV::Jump(_) => InstrV::Jump(n),
        _ => i,
    }
}

impl CompilerContext {
    /// The model of the emitted code.
    pub open spec fn codev(&self) -> Seq<InstrV> {
        code_view(self.bytecode@)
    }

    /// A fresh context: nothing emitted, both current names `global`.
    pub fn new() -> (r: CompilerContext)
        ensures
            r.codev() =~= Seq::<InstrV>::empty(),
            r.symbols@ == Map::<(Seq<char>, Seq<char>), FnV>::empty(),
            r.labels@ == Map::<(Seq<char>, Seq<char>), usize>::empty(),
            r.cur_cls@ == "global"@,
            r.cur_fn@ == "global"@,
    {
        CompilerContext {
            symbols: Table::new(),
            bytecode: Vec::new(),
            labels: Table::new(),
            cur_cls: "global".to_owned(),
            cur_fn: "global".to_owned(),
        }
    }

    /// How many instructions have been emitted.
    pub fn len(&self) -> (r: usize)
        ensures
            r == self.codev().len(),
    {
        self.bytecode.len()
    }

    /// Appends an instruction; returns its index, for later patching.
    pub fn gen_bc(&mut self, instr: Instr) -> (pos: usize)
        ensures
            final(self).codev() =~= old(self).codev().push(instr@),
            pos == old(self).codev().len(),
            final(self).symbols@ == old(self).symbols@,
            final(self).labels@ == old(self).labels@,
            final(self).cur_cls == old(self).cur_cls,
            final(self).cur_fn == old(self).cur_fn,
    {
        let pos = self.bytecode.len();
        self.bytecode.push(instr);
        proof {
            assert(final(self).codev() =~= old(self).codev().push(instr@));
        }
        pos
    }

    /// Rewrites the branch target at `pos` to the current emission offset.
    /// Only valid on a jump opcode awaiting its destination.
    pub fn patch(&mut self, pos: usize)
        requires
            pos < old(self).codev().len(),
            old(self).codev()[pos as int] is JumpIfTrue || old(self).codev()[pos as int]
                is JumpIfFalse || old(self).codev()[pos as int] is Jump,
        ensures
            final(self).codev() =~= old(self).codev().update(
                pos as int,
                patch_of(old(self).codev()[pos as int], old(self).codev().len() as int),
            ),
            final(self).symbols@ == old(self).symbols@,
            final(self).labels@ == old(self).labels@,
            final(self).cur_cls == old(self).cur_cls,
            final(self).cur_fn == old(self).cur_fn,
    {
        let patch_value = self.bytecode.len();
        let patched = match &self.bytecode[pos] {
            Instr::JumpIfTrue(_) => Instr::JumpIfTrue(patch_value),
            Instr::JumpIfFalse(_) => Instr::JumpIfFalse(patch_value),
            Instr::Jump(_) => Instr::Jump(patch_value),
            _ => {
                proof {
                    assert(false);
                }
                Instr::JumpIfFalse(patch_value)
            },
        };
        self.bytecode.set(pos, patched);
        proof {
            assert(final(self).codev() =~= old(self).codev().update(
                pos as int,
                patch_of(old(self).codev()[pos as int], old(self).codev().len() as int),
            ));
        }
    }

    /// Notes the current class: the identifier's lexeme becomes the class
    /// component of every key registered while it is current.
    pub fn register_class(&mut self, class: &PNode)
        requires
            class is Term,
        ensures
            final(self).cur_cls@ == term_value(class),
            final(self).cur_fn == old(self).cur_fn,
            final(self).codev() == old(self).codev(),
            final(self).symbols@ == old(self).symbols@,
            final(self).labels@ == old(self).labels@,
    {
        self.cur_cls = class.term_text();
    }

    /// Registers a function: notes its name as current, records the entry
    /// label at the current emission offset, and starts an empty
    /// descriptor. Returns the `(class, function)` key.
    pub fn register_function(&mut self, func: &PNode) -> (r: (String, String))
        requires
            func is Term,
        ensures
            r.0@ == old(self).cur_cls@,
            r.1@ == term_value(func),
            final(self).cur_cls == old(self).cur_cls,
            final(self).cur_fn@ == term_value(func),
            final(self).codev() == old(self).codev(),
            final(self).labels@ == old(self).labels@.insert(
                (r.0@, r.1@),
                old(self).codev().len() as usize,
            ),
            final(self).symbols@ == old(self).symbols@.insert(
                (r.0@, r.1@),
                (FnV { locals: Seq::empty(), num_params: 0 }),
            ),
            old(self).codev().len() <= usize::MAX,
    {
        let func_name = func.term_text();
        self.cur_fn = func_name.clone();
        let fn_entry_point = self.bytecode.len();
        let cls = self.cur_cls.clone();
        self.labels.insert(&cls, &func_name, fn_entry_point);
        self.symbols.insert(&cls, &func_name, Fn::new());
        (cls, func_name)
    }

    /// Appends the parameter's name to the current descriptor's locals and
    /// bumps its parameter count; returns the parameter's slot.
    pub fn register_parameter(&mut self, param: &PNode) -> (r: usize)
        requires
            param is Term,
            old(self).symbols@.contains_key((old(self).cur_cls@, old(self).cur_fn@)),
            symbols_wf(old(self).symbols@),
        ensures
            ({
                let key = (old(self).cur_cls@, old(self).cur_fn@);
                let f = old(self).symbols@[key];
                &&& final(self).symbols@ == old(self).symbols@.insert(
                    key,
                    FnV { locals: f.locals.push(term_value(param)), num_params: f.num_params + 1 },
                )
                &&& r == f.locals.len()
                &&& symbols_wf(final(self).symbols@)
            }),
            final(self).codev() == old(self).codev(),
            final(self).labels@ == old(self).labels@,
            final(self).cur_cls == old(self).cur_cls,
            final(self).cur_fn == old(self).cur_fn,
    {
        let param_name = param.term_text();
        let cur = match self.symbols.get(&self.cur_cls, &self.cur_fn) {
            Some(f) => f,
            None => {
                proof {
                    assert(false);
                }
                return 0;
            },
        };
        let slot = cur.locals_len();
        let mut f = cur.duplicate();
        f.push_param(param_name);
        let cls = self.cur_cls.clone();
        let fname = self.cur_fn.clone();
        self.symbols.insert(&cls, &fname, f);
        slot
    }

    /// The slot of an existing local in the current function, if any.
    pub fn get_var_offset(&self, var: &PNode) -> (r: Option<usize>)
        requires
            var is Term,
        ensures
            ({
                let key = (self.cur_cls@, self.cur_fn@);
                match r {
                    Some(i) => {
                        &&& self.symbols@.contains_key(key)
                        &&& 0 <= i as int
                        &&& (i as int) < self.symbols@[key].locals.len()
                        &&& self.symbols@[key].locals[i as int] == term_value(var)
                        &&& forall|j: int|
                            0 <= j < i as int ==> self.symbols@[key].locals[j] != term_value(var)
                    },
                    None => !self.symbols@.contains_key(key) || (forall|j: int|
                        0 <= j < self.symbols@[key].locals.len()
                            ==> self.symbols@[key].locals[j] != term_value(var)),
                }
            }),
    {
        let var_name = var.term_text();
        match self.symbols.get(&self.cur_cls, &self.cur_fn) {
            Some(f) => f.position(&var_name),
            None => None,
        }
    }

    /// The slot of a local in the current function, appending it first if
    /// it is new. Re-registering a name returns the existing slot, which
    /// is what makes `let` shadowing overwrite rather than grow the frame.
    pub fn register_local(&mut self, var: &PNode) -> (r: usize)
        requires
            var is Term,
            old(self).symbols@.contains_key((old(self).cur_cls@, old(self).cur_fn@)),
            symbols_wf(old(self).symbols@),
        ensures
            ({
                let key = (old(self).cur_cls@, old(self).cur_fn@);
                let f = old(self).symbols@[key];
                let v = term_value(var);
                &&& if exists|j: int| 0 <= j < f.locals.len() && f.locals[j] == v {
                    &&& final(self).symbols@ == old(self).symbols@
                    &&& 0 <= r as int
                    &&& (r as int) < f.locals.len()
                    &&& f.locals[r as int] == v
                    &&& forall|j: int| 0 <= j < r as int ==> f.locals[j] != v
                } else {
                    &&& final(self).symbols@ == old(self).symbols@.insert(
                        key,
                        FnV { locals: f.locals.push(v), num_params: f.num_params },
                    )
                    &&& r == f.locals.len()
                }
                &&& symbols_wf(final(self).symbols@)
            }),
            final(self).codev() == old(self).codev(),
            final(self).labels@ == old(self).labels@,
            final(self).cur_cls == old(self).cur_cls,
            final(self).cur_fn == old(self).cur_fn,
    {
        let var_name = var.term_text();
        let cur = match self.symbols.get(&self.cur_cls, &self.cur_fn) {
            Some(f) => f,
            None => {
                proof {
                    assert(false);
                }
                return 0;
            },
        };
        match cur.position(&var_name) {
            Some(i) => i,
            None => {
                let slot = cur.locals_len();
                let mut f = cur.duplicate();
                f.push_local(var_name);
                let cls = self.cur_cls.clone();
                let fname = self.cur_fn.clone();
                self.symbols.insert(&cls, &fname, f);
                slot
            },
        }
    }
}

impl Bytecode {
    /// The program image of a finished emission: the context's code and
    /// tables, with the emission-only fields dropped.
    pub fn new(ctx: CompilerContext) -> (r: Bytecode)
        ensures
            r@.code == ctx.codev(),
            r@.symbols == ctx.symbols@,
            r@.labels == ctx.labels@,
    {
        Bytecode { bytecode: ctx.bytecode, symbols: ctx.symbols, labels: ctx.labels }
    }
}

} // verus!
