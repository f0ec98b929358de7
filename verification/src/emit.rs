//! The tree-walk emitter: descends the parse tree by grammar-rule name and
//! emits instructions for classes, function definitions, statements,
//! expressions, arguments and literals, patching forward jumps once their
//! destinations are known.
//!
//! Every emitter function guarantees `emits_ok`: it only appends to the
//! code (patching only positions it created itself), every branch it
//! leaves behind is resolved — inside the final code, never the
//! placeholder — and the label and symbol tables only grow. On top of
//! that, per-construct clauses pin what each construct emits: the exact
//! instruction of a literal, a `raise` and a `let`, the operator after a
//! binary expression's operands, the patched exit jump of an `if` and a
//! `for`, and a function definition's entry label and implicit
//! terminator.
use vstd::prelude::*;

use crate::bytecode::{instr_ok, Bytecode, Instr, InstrV};
use crate::context::{symbols_wf, CompilerContext, PLACEHOLDER};
use crate::numfmt::parse_dec_i32;
use crate::parse::ParseError;
use crate::tree::{node_name, node_name_v, term_value_v, PNode};

verus! {

/// Every label points at or before offset `n`.
pub open spec fn labels_ok(m: Map<(Seq<char>, Seq<char>), usize>, n: int) -> bool {
    forall|k: (Seq<char>, Seq<char>)| m.contains_key(k) ==> #[trigger] m[k] <= n
}

/// What one emitter step does to the context: code grows, what was
/// emitted before is untouched, every new branch is resolved against the
/// new length, and the tables keep their keys.
pub open spec fn emits_ok(a: CompilerContext, b: CompilerContext) -> bool {
    let n0 = a.codev().len() as int;
    let n1 = b.codev().len() as int;
    &&& n0 <= n1
    &&& forall|k: int| 0 <= k < n0 ==> b.codev()[k] == a.codev()[k]
    &&& forall|k: int| n0 <= k < n1 ==> instr_ok(#[trigger] b.codev()[k], n1)
    &&& forall|key: (Seq<char>, Seq<char>)|
        a.labels@.contains_key(key) ==> b.labels@.contains_key(key)
    &&& forall|key: (Seq<char>, Seq<char>)|
        a.symbols@.contains_key(key) ==> b.symbols@.contains_key(key)
}

/// `emits_ok` composes.
proof fn lemma_emits_trans(a: CompilerContext, b: CompilerContext, c: CompilerContext)
    requires
        emits_ok(a, b),
        emits_ok(b, c),
    ensures
        emits_ok(a, c),
{
    let n0 = a.codev().len() as int;
    let n1 = b.codev().len() as int;
    let n2 = c.codev().len() as int;
    assert forall|k: int| n0 <= k < n2 implies instr_ok(#[trigger] c.codev()[k], n2) by {
        if k < n1 {
            assert(instr_ok(b.codev()[k], n1));
        }
    }
}

/// The well-formedness that the emitter threads through the whole walk.
pub open spec fn ctx_inv(c: CompilerContext) -> bool {
    &&& symbols_wf(c.symbols@)
    &&& labels_ok(c.labels@, c.codev().len() as int)
}

/// The error for a parse tree the emitter does not understand, or a
/// reference it cannot resolve.
fn gen_err(msg: &str) -> (r: ParseError)
    ensures
        r is GeneratorError,
{
    ParseError::GeneratorError(msg.to_owned())
}

/// Emits a class definition: registers the class named by the identifier
/// child and emits the class body; a parent name, when present, is
/// deliberately ignored. A `prog` node has its children emitted in order.
pub(crate) fn gen_class(node: &PNode, ctx: &mut CompilerContext) -> (r: Result<(), ParseError>)
    requires
        ctx_inv(*old(ctx)),
    ensures
        r is Ok ==> emits_ok(*old(ctx), *final(ctx)),
        r is Ok ==> ctx_inv(*final(ctx)),
        r matches Err(e) ==> e is GeneratorError,
        (r is Ok && node_name(node) == "class_def"@ && node is Nonterm
            && node->Nonterm_children@.len() == 7 && single_raise_block(
            node->Nonterm_children@[5],
        )) ==> final(ctx).codev() =~= old(ctx).codev().push(InstrV::Raise),
    decreases *node,
{
    let nodes = match node {
        PNode::Nonterm { children, .. } => children,
        PNode::Term { .. } => {
            return Ok(());
        },
    };
    if str_is(node.name_str(), "class_def") {
        if nodes.len() < 7 {
            return Err(gen_err("malformed class definition"));
        }
        let ident = &nodes[1];
        if !ident.is_term() {
            return Err(gen_err("can only register a class on a terminal node"));
        }
        ctx.register_class(ident);
        let body: usize = if nodes.len() >= 8 {
            6
        } else {
            5
        };
        proof {
            assert(decreases_to!(*node => nodes@[body as int]));
        }
        gen_block(&nodes[body], ctx)
    } else if str_is(node.name_str(), "prog") {
        let ghost c0 = *ctx;
        let n = nodes.len();
        let mut i: usize = 0;
        while i < n
            invariant
                0 <= i <= n == nodes@.len(),
                node is Nonterm,
                nodes == node->Nonterm_children,
                emits_ok(c0, *ctx),
                ctx_inv(*ctx),
            decreases n - i,
        {
            let ghost c1 = *ctx;
            proof {
                assert(decreases_to!(*node => node->Nonterm_children@[i as int]));
                assert(nodes@[i as int] == node->Nonterm_children@[i as int]);
                assert(decreases_to!(*node => nodes@[i as int]));
            }
            gen_class(&nodes[i], ctx)?;
            proof {
                lemma_emits_trans(c0, c1, *ctx);
            }
            i = i + 1;
        }
        Ok(())
    } else {
        Err(gen_err("unknown class def"))
    }
}

/// Emits a block: statements in order; separators produce no code.
pub(crate) fn gen_block(node: &PNode, ctx: &mut CompilerContext) -> (r: Result<(), ParseError>)
    requires
        ctx_inv(*old(ctx)),
    ensures
        r is Ok ==> emits_ok(*old(ctx), *final(ctx)),
        r is Ok ==> ctx_inv(*final(ctx)),
        r matches Err(e) ==> e is GeneratorError,
        (r is Ok && single_raise_block(*node)) ==> final(ctx).codev() =~= old(
            ctx,
        ).codev().push(InstrV::Raise),
    decreases *node,
{
    let nodes = match node {
        PNode::Nonterm { children, .. } => children,
        PNode::Term { .. } => {
            return Ok(());
        },
    };
    let ghost c0 = *ctx;
    let n = nodes.len();
    let mut i: usize = 0;
    while i < n
        invariant
            0 <= i <= n == nodes@.len(),
            node is Nonterm,
            nodes == node->Nonterm_children,
            emits_ok(c0, *ctx),
            ctx_inv(*ctx),
            single_raise_block(*node) && i == 0 ==> ctx.codev() =~= c0.codev(),
            single_raise_block(*node) && i >= 1 ==> ctx.codev() =~= c0.codev().push(
                InstrV::Raise,
            ),
        decreases n - i,
    {
        let ghost c1 = *ctx;
        let child = &nodes[i];
        proof {
            assert(decreases_to!(*node => node->Nonterm_children@[i as int]));
            assert(nodes@[i as int] == node->Nonterm_children@[i as int]);
            assert(decreases_to!(*node => nodes@[i as int]));
        }
        if str_is(child.name_str(), "statement") {
            gen_stmt(child, ctx)?;
            proof {
                if single_raise_block(*node) {
                    assert(stmt_kind(child) == Some("raise"@));
                }
            }
        } else {
            gen_block(child, ctx)?;
        }
        proof {
            lemma_emits_trans(c0, c1, *ctx);
        }
        i = i + 1;
    }
    Ok(())
}

/// The kind of a statement: the rule name of its first child.
pub open spec fn stmt_kind(node: &PNode) -> Option<Seq<char>> {
    match node {
        PNode::Nonterm { children, .. } => if children@.len() >= 1 {
            Some(node_name_v(children@[0]))
        } else {
            None
        },
        PNode::Term { .. } => None,
    }
}

/// No other statement kind's rule name is `raise`.
proof fn lemma_stmt_names_distinct()
    ensures
        "expression"@ != "raise"@,
        "if_statement"@ != "raise"@,
        "let_statement"@ != "raise"@,
        "func_def"@ != "raise"@,
        "for_statement"@ != "raise"@,
{
    reveal_strlit("raise");
    reveal_strlit("expression");
    reveal_strlit("if_statement");
    reveal_strlit("let_statement");
    reveal_strlit("func_def");
    reveal_strlit("for_statement");
    assert("raise"@.len() == 5 && "expression"@.len() == 10 && "if_statement"@.len() == 12
        && "let_statement"@.len() == 13 && "func_def"@.len() == 8 && "for_statement"@.len()
        == 13);
}

/// A block holding exactly one statement, a `raise`.
pub open spec fn single_raise_block(b: PNode) -> bool {
    match b {
        PNode::Nonterm { children, .. } => children@.len() == 1 && match children@[0] {
            PNode::Nonterm { name, children: sc } => name@ == "statement"@ && sc@.len() >= 1
                && match sc@[0] {
                PNode::Nonterm { name: k, .. } => k@ == "raise"@,
                PNode::Term { .. } => false,
            },
            PNode::Term { .. } => false,
        },
        PNode::Term { .. } => false,
    }
}

/// Emits one statement, dispatching on the kind of its first child.
pub(crate) fn gen_stmt(node: &PNode, ctx: &mut CompilerContext) -> (r: Result<(), ParseError>)
    requires
        ctx_inv(*old(ctx)),
    ensures
        r is Ok ==> emits_ok(*old(ctx), *final(ctx)),
        r is Ok ==> ctx_inv(*final(ctx)),
        r matches Err(e) ==> e is GeneratorError,
        (r is Ok && stmt_kind(node) == Some("raise"@) && node->Nonterm_children@[0] is Nonterm)
            ==> final(ctx).codev() =~= old(ctx).codev().push(InstrV::Raise),
    decreases *node,
{
    proof {
        lemma_stmt_names_distinct();
    }
    let nodes = match node {
        PNode::Nonterm { children, .. } => children,
        PNode::Term { .. } => {
            return Ok(());
        },
    };
    if nodes.len() < 1 {
        return Err(gen_err("empty statement"));
    }
    let child = &nodes[0];
    proof {
        assert(decreases_to!(*node => nodes@[0]));
    }
    if str_is(child.name_str(), "expression") {
        gen_exp(child, ctx)
    } else if str_is(child.name_str(), "if_statement") {
        gen_if(child, ctx)
    } else if str_is(child.name_str(), "let_statement") {
        gen_let(child, ctx)
    } else if str_is(child.name_str(), "func_def") {
        gen_func_def(child, ctx)
    } else if str_is(child.name_str(), "for_statement") {
        gen_for(child, ctx)
    } else if str_is(child.name_str(), "raise") {
        gen_raise(child, ctx)
    } else {
        Err(gen_err("unknown nonterminal node"))
    }
}

/// The text of an integer literal expression: the node is an expression
/// whose first child is a `literal` holding an `INT_LITERAL` token.
pub open spec fn int_literal_text(node: &PNode) -> Option<Seq<char>> {
    match node {
        PNode::Nonterm { children, .. } => if children@.len() >= 1 {
            match children@[0] {
                PNode::Nonterm { name, children: inner } => if name@ == "literal"@
                    && inner@.len() >= 1 {
                    match inner@[0] {
                        PNode::Term { name: tok, value } => if tok@ == "INT_LITERAL"@ {
                            Some(value@)
                        } else {
                            None
                        },
                        PNode::Nonterm { .. } => None,
                    }
                } else {
                    None
                },
                PNode::Term { .. } => None,
            }
        } else {
            None
        },
        PNode::Term { .. } => None,
    }
}

/// The operator token's name of a binary expression: the node is an
/// expression whose first child is a `binary_expression` whose middle
/// child wraps the operator token.
pub open spec fn binary_op_name(node: &PNode) -> Option<Seq<char>> {
    match node {
        PNode::Nonterm { children, .. } => if children@.len() >= 1 {
            match children@[0] {
                PNode::Nonterm { name, children: inner } => if name@ == "binary_expression"@
                    && inner@.len() >= 3 {
                    match inner@[1] {
                        PNode::Nonterm { children: ops, .. } => if ops@.len() >= 1 {
                            match ops@[0] {
                                PNode::Term { name: op, .. } => Some(op@),
                                PNode::Nonterm { name: op, .. } => Some(op@),
                            }
                        } else {
                            None
                        },
                        PNode::Term { .. } => None,
                    }
                } else {
                    None
                },
                PNode::Term { .. } => None,
            }
        } else {
            None
        },
        PNode::Term { .. } => None,
    }
}

/// The opcode of a binary operator token.
pub open spec fn bin_opcode(name: Seq<char>) -> Option<InstrV> {
    if name == "PLUS"@ {
        Some(InstrV::Add)
    } else if name == "MINUS"@ {
        Some(InstrV::Sub)
    } else if name == "LTEQ"@ {
        Some(InstrV::Lteq)
    } else if name == "GTEQ"@ {
        Some(InstrV::Gteq)
    } else if name == "LT"@ {
        Some(InstrV::Lt)
    } else if name == "GT"@ {
        Some(InstrV::Gt)
    } else if name == "EQEQ"@ {
        Some(InstrV::Eqeq)
    } else {
        None
    }
}

/// The seven operator token names are pairwise distinct.
proof fn lemma_op_names_distinct()
    ensures
        "PLUS"@ != "MINUS"@ && "PLUS"@ != "LTEQ"@ && "PLUS"@ != "GTEQ"@ && "PLUS"@ != "LT"@
            && "PLUS"@ != "GT"@ && "PLUS"@ != "EQEQ"@,
        "MINUS"@ != "LTEQ"@ && "MINUS"@ != "GTEQ"@ && "MINUS"@ != "LT"@ && "MINUS"@ != "GT"@
            && "MINUS"@ != "EQEQ"@,
        "LTEQ"@ != "GTEQ"@ && "LTEQ"@ != "LT"@ && "LTEQ"@ != "GT"@ && "LTEQ"@ != "EQEQ"@,
        "GTEQ"@ != "LT"@ && "GTEQ"@ != "GT"@ && "GTEQ"@ != "EQEQ"@,
        "LT"@ != "GT"@ && "LT"@ != "EQEQ"@,
        "GT"@ != "EQEQ"@,
{
    reveal_strlit("PLUS");
    reveal_strlit("MINUS");
    reveal_strlit("LTEQ");
    reveal_strlit("GTEQ");
    reveal_strlit("LT");
    reveal_strlit("GT");
    reveal_strlit("EQEQ");
    assert("PLUS"@.len() == 4 && "MINUS"@.len() == 5 && "LTEQ"@.len() == 4 && "GTEQ"@.len() == 4
        && "LT"@.len() == 2 && "GT"@.len() == 2 && "EQEQ"@.len() == 4);
    assert("PLUS"@[0] == 'P' && "LTEQ"@[0] == 'L' && "GTEQ"@[0] == 'G' && "EQEQ"@[0] == 'E');
    assert("LT"@[0] == 'L' && "GT"@[0] == 'G');
}

/// No other expression kind's rule name is `literal`.
proof fn lemma_exp_names_distinct()
    ensures
        "variable"@ != "literal"@,
        "binary_expression"@ != "literal"@,
        "method_invocation"@ != "literal"@,
        "method_invocation_same_class"@ != "literal"@,
        "field_access"@ != "literal"@,
        "field_set"@ != "literal"@,
        "class_instance_creation"@ != "literal"@,
        "variable"@ != "binary_expression"@,
        "method_invocation"@ != "binary_expression"@,
        "method_invocation_same_class"@ != "binary_expression"@,
        "field_access"@ != "binary_expression"@,
        "field_set"@ != "binary_expression"@,
        "class_instance_creation"@ != "binary_expression"@,
{
    reveal_strlit("literal");
    reveal_strlit("variable");
    reveal_strlit("binary_expression");
    reveal_strlit("method_invocation");
    reveal_strlit("method_invocation_same_class");
    reveal_strlit("field_access");
    reveal_strlit("field_set");
    reveal_strlit("class_instance_creation");
    assert("literal"@.len() == 7);
    assert("variable"@.len() == 8);
    assert("binary_expression"@.len() == 17);
    assert("method_invocation"@.len() == 17);
    assert("method_invocation_same_class"@.len() == 28);
    assert("field_access"@.len() == 12);
    assert("field_set"@.len() == 9);
    assert("class_instance_creation"@.len() == 23);
    assert("binary_expression"@[0] == 'b' && "method_invocation"@[0] == 'm');
}

/// Emits one expression, dispatching on the kind of its first child.
pub(crate) fn gen_exp(node: &PNode, ctx: &mut CompilerContext) -> (r: Result<(), ParseError>)
    requires
        ctx_inv(*old(ctx)),
    ensures
        r is Ok ==> emits_ok(*old(ctx), *final(ctx)),
        r is Ok ==> ctx_inv(*final(ctx)),
        r matches Err(e) ==> e is GeneratorError,
        r is Ok ==> final(ctx).symbols@ == old(ctx).symbols@,
        r is Ok ==> final(ctx).cur_cls == old(ctx).cur_cls && final(ctx).cur_fn == old(
            ctx,
        ).cur_fn,
        (r is Ok && int_literal_text(node) is Some) ==> final(ctx).codev() =~= old(
            ctx,
        ).codev().push(
            InstrV::PushInt(crate::numfmt::digits_val(int_literal_text(node)->0) as i32),
        ),
        int_literal_text(node) matches Some(t) ==> (r is Ok <==> (t.len() > 0
            && crate::numfmt::is_digit_seq(t) && crate::numfmt::digits_val(t) <= i32::MAX)),
        (r is Ok && binary_op_name(node) is Some && bin_opcode(binary_op_name(node)->0) is Some)
            ==> final(ctx).codev().len() > old(ctx).codev().len() && final(ctx).codev().last()
            == bin_opcode(binary_op_name(node)->0)->0,
    decreases *node,
{
    proof {
        lemma_exp_names_distinct();
    }
    let nodes = match node {
        PNode::Nonterm { children, .. } => children,
        PNode::Term { .. } => {
            return Ok(());
        },
    };
    if nodes.len() < 1 {
        return Err(gen_err("empty expression"));
    }
    let exp_type = &nodes[0];
    let inner = match exp_type {
        PNode::Nonterm { children, .. } => children,
        PNode::Term { .. } => {
            return Ok(());
        },
    };
    proof {
        assert(decreases_to!(*node => nodes@[0]));
    }
    if str_is(exp_type.name_str(), "variable") {
        if inner.len() < 1 || !inner[0].is_term() {
            return Err(gen_err("malformed variable"));
        }
        match ctx.get_var_offset(&inner[0]) {
            Some(var_offset) => {
                ctx.gen_bc(Instr::LoadVar(var_offset));
                Ok(())
            },
            None => Err(gen_err("reference to undeclared local")),
        }
    } else if str_is(exp_type.name_str(), "binary_expression") {
        proof {
            lemma_op_names_distinct();
        }
        if inner.len() < 3 {
            return Err(gen_err("malformed binary expression"));
        }
        let ghost c0 = *ctx;
        proof {
            assert(decreases_to!(*node => nodes@[0]->Nonterm_children@[0]));
            assert(decreases_to!(*node => nodes@[0]->Nonterm_children@[2]));
        }
        gen_exp(&inner[0], ctx)?;
        let ghost c1 = *ctx;
        gen_exp(&inner[2], ctx)?;
        proof {
            lemma_emits_trans(c0, c1, *ctx);
        }
        let ghost c2 = *ctx;
        let bin_op = &inner[1];
        if let PNode::Nonterm { children: op_nodes, .. } = bin_op {
            if op_nodes.len() < 1 {
                return Err(gen_err("malformed operator"));
            }
            let operator = &op_nodes[0];
            if str_is(operator.name_str(), "PLUS") {
                ctx.gen_bc(Instr::Add);
            } else if str_is(operator.name_str(), "MINUS") {
                ctx.gen_bc(Instr::Sub);
            } else if str_is(operator.name_str(), "LTEQ") {
                ctx.gen_bc(Instr::Lteq);
            } else if str_is(operator.name_str(), "GTEQ") {
                ctx.gen_bc(Instr::Gteq);
            } else if str_is(operator.name_str(), "LT") {
                ctx.gen_bc(Instr::Lt);
            } else if str_is(operator.name_str(), "GT") {
                ctx.gen_bc(Instr::Gt);
            } else if str_is(operator.name_str(), "EQEQ") {
                ctx.gen_bc(Instr::Eqeq);
            } else {
                return Err(gen_err("unknown operator"));
            }
            proof {
                lemma_emits_trans(c0, c2, *ctx);
            }
        }
        Ok(())
    } else if str_is(exp_type.name_str(), "method_invocation") {
        if inner.len() < 5 || !inner[0].is_term() || !inner[2].is_term() {
            return Err(gen_err("malformed method invocation"));
        }
        let ghost c0 = *ctx;
        proof {
            assert(decreases_to!(*node => nodes@[0]->Nonterm_children@[4]));
        }
        gen_args(&inner[4], ctx)?;
        let obj_name = inner[0].term_text();
        let method_name = inner[2].term_text();
        let ghost c1 = *ctx;
        ctx.gen_bc(Instr::Call(obj_name, method_name));
        proof {
            lemma_emits_trans(c0, c1, *ctx);
        }
        Ok(())
    } else if str_is(exp_type.name_str(), "method_invocation_same_class") {
        if inner.len() < 3 || !inner[0].is_term() {
            return Err(gen_err("malformed method invocation"));
        }
        let ghost c0 = *ctx;
        proof {
            assert(decreases_to!(*node => nodes@[0]->Nonterm_children@[2]));
        }
        gen_args(&inner[2], ctx)?;
        let obj_name = ctx.cur_cls.clone();
        let method_name = inner[0].term_text();
        let ghost c1 = *ctx;
        ctx.gen_bc(Instr::Call(obj_name, method_name));
        proof {
            lemma_emits_trans(c0, c1, *ctx);
        }
        Ok(())
    } else if str_is(exp_type.name_str(), "field_access") {
        if inner.len() < 3 || !inner[0].is_term() || !inner[2].is_term() {
            return Err(gen_err("malformed field access"));
        }
        let obj_alias = match ctx.get_var_offset(&inner[0]) {
            Some(i) => i,
            None => {
                return Err(gen_err("reference to undeclared local"));
            },
        };
        let field_name = inner[2].term_text();
        let ghost c0 = *ctx;
        ctx.gen_bc(Instr::LoadVar(obj_alias));
        let ghost c1 = *ctx;
        ctx.gen_bc(Instr::LoadField(field_name));
        proof {
            lemma_emits_trans(c0, c1, *ctx);
        }
        Ok(())
    } else if str_is(exp_type.name_str(), "field_set") {
        if inner.len() < 5 || !inner[0].is_term() || !inner[2].is_term() {
            return Err(gen_err("malformed field assignment"));
        }
        let ghost c0 = *ctx;
        proof {
            assert(decreases_to!(*node => nodes@[0]->Nonterm_children@[4]));
        }
        gen_exp(&inner[4], ctx)?;
        let obj_alias = match ctx.get_var_offset(&inner[0]) {
            Some(i) => i,
            None => {
                return Err(gen_err("reference to undeclared local"));
            },
        };
        let field_name = inner[2].term_text();
        let ghost c1 = *ctx;
        ctx.gen_bc(Instr::LoadVar(obj_alias));
        ctx.gen_bc(Instr::StoreField(field_name));
        proof {
            lemma_emits_trans(c0, c1, *ctx);
        }
        Ok(())
    } else if str_is(exp_type.name_str(), "class_instance_creation") {
        if inner.len() < 4 || !inner[1].is_term() {
            return Err(gen_err("malformed instance creation"));
        }
        let cls_name = inner[1].term_text();
        let ghost c0 = *ctx;
        ctx.gen_bc(Instr::NewObject);
        ctx.gen_bc(Instr::Dup);
        let ghost c1 = *ctx;
        proof {
            lemma_emits_trans(c0, c1, *ctx);
            assert(decreases_to!(*node => nodes@[0]->Nonterm_children@[3]));
        }
        let ghost c2 = *ctx;
        gen_args(&inner[3], ctx)?;
        proof {
            lemma_emits_trans(c0, c2, *ctx);
        }
        let ghost c3 = *ctx;
        ctx.gen_bc(Instr::Call(cls_name, "construct".to_owned()));
        // The constructor returns `None`; discard it, leaving the object.
        ctx.gen_bc(Instr::Pop);
        proof {
            lemma_emits_trans(c0, c3, *ctx);
        }
        Ok(())
    } else if str_is(exp_type.name_str(), "literal") {
        if inner.len() < 1 || !inner[0].is_term() {
            return Err(gen_err("malformed literal"));
        }
        let lit_value = inner[0].term_text();
        if str_is(inner[0].name_str(), "INT_LITERAL") {
            match parse_dec_i32(lit_value.as_str()) {
                Some(int_val) => {
                    proof {
                        assert(int_literal_text(node) is Some);
                        assert(int_literal_text(node)->0 == lit_value@);
                        assert(crate::numfmt::digits_val(lit_value@) as i32 == int_val);
                    }
                    ctx.gen_bc(Instr::PushInt(int_val));
                    Ok(())
                },
                None => Err(gen_err("integer literal out of range")),
            }
        } else if str_is(inner[0].name_str(), "STR_LITERAL") {
            ctx.gen_bc(Instr::PushStr(lit_value));
            Ok(())
        } else {
            Err(gen_err("unknown literal"))
        }
    } else {
        Err(gen_err("unknown expression"))
    }
}

/// A one-argument list whose argument is an integer literal: its text.
pub open spec fn arg_single_literal(node: PNode) -> Option<Seq<char>> {
    match node {
        PNode::Nonterm { children, .. } => if children@.len() == 1 && node_name_v(children@[0])
            == "expression"@ {
            match children@[0] {
                PNode::Nonterm { children: ec, .. } => if ec@.len() >= 1 {
                    match ec@[0] {
                        PNode::Nonterm { name, children: inner } => if name@ == "literal"@
                            && inner@.len() >= 1 {
                            match inner@[0] {
                                PNode::Term { name: tok, value } => if tok@ == "INT_LITERAL"@ {
                                    Some(value@)
                                } else {
                                    None
                                },
                                PNode::Nonterm { .. } => None,
                            }
                        } else {
                            None
                        },
                        PNode::Term { .. } => None,
                    }
                } else {
                    None
                },
                PNode::Term { .. } => None,
            }
        } else {
            None
        },
        PNode::Term { .. } => None,
    }
}

/// The names an argument list dispatches on are distinct.
proof fn lemma_arg_names_distinct()
    ensures
        "expression"@ != "arg_list"@,
        "expression"@ != "COMMA"@,
{
    reveal_strlit("expression");
    reveal_strlit("arg_list");
    reveal_strlit("COMMA");
    assert("expression"@.len() == 10 && "arg_list"@.len() == 8 && "COMMA"@.len() == 5);
}

/// Emits call arguments, left to right.
pub(crate) fn gen_args(node: &PNode, ctx: &mut CompilerContext) -> (r: Result<(), ParseError>)
    requires
        ctx_inv(*old(ctx)),
    ensures
        r is Ok ==> emits_ok(*old(ctx), *final(ctx)),
        r is Ok ==> ctx_inv(*final(ctx)),
        r matches Err(e) ==> e is GeneratorError,
        r is Ok ==> final(ctx).symbols@ == old(ctx).symbols@,
        r is Ok ==> final(ctx).cur_cls == old(ctx).cur_cls && final(ctx).cur_fn == old(
            ctx,
        ).cur_fn,
        (r is Ok && arg_single_literal(*node) is Some) ==> final(ctx).codev() =~= old(
            ctx,
        ).codev().push(
            InstrV::PushInt(crate::numfmt::digits_val(arg_single_literal(*node)->0) as i32),
        ),
    decreases *node,
{
    proof {
        lemma_arg_names_distinct();
    }
    let nodes = match node {
        PNode::Nonterm { children, .. } => children,
        PNode::Term { .. } => {
            return Ok(());
        },
    };
    let ghost c0 = *ctx;
    let n = nodes.len();
    let mut i: usize = 0;
    while i < n
        invariant
            0 <= i <= n == nodes@.len(),
            node is Nonterm,
            nodes == node->Nonterm_children,
            emits_ok(c0, *ctx),
            ctx_inv(*ctx),
            ctx.symbols@ == c0.symbols@,
            ctx.cur_cls == c0.cur_cls,
            ctx.cur_fn == c0.cur_fn,
            arg_single_literal(*node) is Some && i == 0 ==> ctx.codev() =~= c0.codev(),
            arg_single_literal(*node) is Some && i >= 1 ==> ctx.codev() =~= c0.codev().push(
                InstrV::PushInt(
                    crate::numfmt::digits_val(arg_single_literal(*node)->0) as i32,
                ),
            ),
        decreases n - i,
    {
        let ghost c1 = *ctx;
        let child = &nodes[i];
        proof {
            lemma_arg_names_distinct();
            assert(decreases_to!(*node => node->Nonterm_children@[i as int]));
            assert(nodes@[i as int] == node->Nonterm_children@[i as int]);
            assert(decreases_to!(*node => nodes@[i as int]));
        }
        if str_is(child.name_str(), "arg_list") {
            gen_args(child, ctx)?;
        } else if str_is(child.name_str(), "expression") {
            gen_exp(child, ctx)?;
            proof {
                if arg_single_literal(*node) is Some {
                    assert(int_literal_text(child) == arg_single_literal(*node));
                }
            }
        } else if str_is(child.name_str(), "COMMA") {
            // separators produce no code
        } else {
            return Err(gen_err("illegal node found in arg list"));
        }
        proof {
            lemma_emits_trans(c0, c1, *ctx);
        }
        i = i + 1;
    }
    Ok(())
}

/// Emits a `let`: the expression, then a store to the slot of the name,
/// registering the name if it is new (shadowing reuses the slot).
pub(crate) fn gen_let(node: &PNode, ctx: &mut CompilerContext) -> (r: Result<(), ParseError>)
    requires
        ctx_inv(*old(ctx)),
    ensures
        r is Ok ==> emits_ok(*old(ctx), *final(ctx)),
        r is Ok ==> ctx_inv(*final(ctx)),
        r matches Err(e) ==> e is GeneratorError,
        (r is Ok && node is Nonterm && node->Nonterm_children@.len() >= 4
            && node->Nonterm_children@[1] is Term && old(ctx).symbols@.contains_key(
            (old(ctx).cur_cls@, old(ctx).cur_fn@),
        )) ==> ({
            let locals = old(ctx).symbols@[(old(ctx).cur_cls@, old(ctx).cur_fn@)].locals;
            let v = term_value_v(node->Nonterm_children@[1]);
            &&& final(ctx).codev().len() > old(ctx).codev().len()
            &&& final(ctx).codev().last() matches InstrV::StoreVar(i) && 0 <= i <= locals.len()
                && (i < locals.len() ==> locals[i] == v && (forall|j: int|
                0 <= j < i ==> locals[j] != v)) && (i == locals.len() ==> (forall|j: int|
                0 <= j < locals.len() ==> locals[j] != v))
        }),
    decreases *node,
{
    let nodes = match node {
        PNode::Nonterm { children, .. } => children,
        PNode::Term { .. } => {
            return Ok(());
        },
    };
    if nodes.len() < 4 || !nodes[1].is_term() {
        return Err(gen_err("malformed let statement"));
    }
    let ghost c0 = *ctx;
    proof {
        assert(decreases_to!(*node => nodes@[3]));
    }
    gen_exp(&nodes[3], ctx)?;
    if !ctx.symbols.contains(&ctx.cur_cls, &ctx.cur_fn) {
        return Err(gen_err("let outside a function"));
    }
    let var_index = ctx.register_local(&nodes[1]);
    let ghost c1 = *ctx;
    ctx.gen_bc(Instr::StoreVar(var_index));
    proof {
        lemma_emits_trans(c0, c1, *ctx);
    }
    Ok(())
}

/// Emits a `raise`.
pub(crate) fn gen_raise(node: &PNode, ctx: &mut CompilerContext) -> (r: Result<(), ParseError>)
    requires
        ctx_inv(*old(ctx)),
    ensures
        r is Ok ==> emits_ok(*old(ctx), *final(ctx)),
        r is Ok ==> ctx_inv(*final(ctx)),
        r matches Err(e) ==> e is GeneratorError,
        node is Nonterm ==> final(ctx).codev() =~= old(ctx).codev().push(InstrV::Raise),
        node is Term ==> final(ctx).codev() == old(ctx).codev(),
{
    if let PNode::Nonterm { .. } = node {
        ctx.gen_bc(Instr::Raise);
    }
    Ok(())
}

/// Emits an `if`: the condition, a conditional forward jump past the
/// block, the block, then the patch of the jump to land here.
pub(crate) fn gen_if(node: &PNode, ctx: &mut CompilerContext) -> (r: Result<(), ParseError>)
    requires
        ctx_inv(*old(ctx)),
    ensures
        r is Ok ==> emits_ok(*old(ctx), *final(ctx)),
        r is Ok ==> ctx_inv(*final(ctx)),
        r matches Err(e) ==> e is GeneratorError,
        (r is Ok && node is Nonterm && node->Nonterm_children@.len() >= 3) ==> ({
            let n1 = final(ctx).codev().len() as int;
            &&& n1 > old(ctx).codev().len()
            &&& exists|j: int|
                old(ctx).codev().len() <= j < n1 && #[trigger] final(ctx).codev()[j]
                    == InstrV::JumpIfFalse(n1)
        }),
    decreases *node,
{
    let nodes = match node {
        PNode::Nonterm { children, .. } => children,
        PNode::Term { .. } => {
            return Ok(());
        },
    };
    if nodes.len() < 3 {
        return Err(gen_err("malformed if statement"));
    }
    let ghost c0 = *ctx;
    proof {
        assert(decreases_to!(*node => nodes@[1]));
        assert(decreases_to!(*node => nodes@[2]));
    }
    gen_exp(&nodes[1], ctx)?;
    let ghost c1 = *ctx;
    let pos = ctx.gen_bc(Instr::JumpIfFalse(PLACEHOLDER));
    let ghost c2 = *ctx;
    gen_block(&nodes[2], ctx)?;
    let ghost c3 = *ctx;
    if ctx.len() == usize::MAX {
        // the program image is full; a patched target could not be told
        // from the placeholder
        return Err(gen_err("program too large"));
    }
    ctx.patch(pos);
    proof {
        let n0 = c0.codev().len() as int;
        let n4 = ctx.codev().len() as int;
        assert forall|k: int| n0 <= k < n4 implies instr_ok(#[trigger] ctx.codev()[k], n4) by {
            let n1 = c1.codev().len() as int;
            let n3 = c3.codev().len() as int;
            if k == n1 {
                assert(ctx.codev()[k] == InstrV::JumpIfFalse(n3));
            } else if k < n1 {
                assert(ctx.codev()[k] == c1.codev()[k]);
                assert(instr_ok(c1.codev()[k], n1));
            } else {
                assert(ctx.codev()[k] == c3.codev()[k]);
                assert(instr_ok(c3.codev()[k], n3));
            }
        }
        assert(ctx.codev()[pos as int] == InstrV::JumpIfFalse(n4));
    }
    Ok(())
}

/// Emits a `for`: the initialiser, the condition at the loop entry, a
/// conditional forward jump out, the body, the step, a backward jump to
/// the entry, then the patch of the exit jump to land here.
pub(crate) fn gen_for(node: &PNode, ctx: &mut CompilerContext) -> (r: Result<(), ParseError>)
    requires
        ctx_inv(*old(ctx)),
    ensures
        r is Ok ==> emits_ok(*old(ctx), *final(ctx)),
        r is Ok ==> ctx_inv(*final(ctx)),
        r matches Err(e) ==> e is GeneratorError,
        (r is Ok && node is Nonterm && node->Nonterm_children@.len() >= 9) ==> ({
            let n1 = final(ctx).codev().len() as int;
            &&& n1 > old(ctx).codev().len()
            &&& final(ctx).codev().last() matches InstrV::Jump(t) && old(ctx).codev().len() <= t
                < n1
            &&& exists|j: int|
                old(ctx).codev().len() <= j < n1 && #[trigger] final(ctx).codev()[j]
                    == InstrV::JumpIfFalse(n1)
        }),
    decreases *node,
{
    let nodes = match node {
        PNode::Nonterm { children, .. } => children,
        PNode::Term { .. } => {
            return Ok(());
        },
    };
    if nodes.len() < 9 {
        return Err(gen_err("malformed for statement"));
    }
    let ghost c0 = *ctx;
    proof {
        assert(decreases_to!(*node => nodes@[2]));
        assert(decreases_to!(*node => nodes@[4]));
        assert(decreases_to!(*node => nodes@[6]));
        assert(decreases_to!(*node => nodes@[8]));
    }
    gen_stmt(&nodes[2], ctx)?;
    let loop_entry = ctx.len();
    if loop_entry == usize::MAX {
        return Err(gen_err("program too large"));
    }
    let ghost c1 = *ctx;
    gen_exp(&nodes[4], ctx)?;
    proof {
        lemma_emits_trans(c0, c1, *ctx);
    }
    let ghost c2 = *ctx;
    let exit_call = ctx.gen_bc(Instr::JumpIfFalse(PLACEHOLDER));
    let ghost c3 = *ctx;
    gen_block(&nodes[8], ctx)?;
    let ghost c4 = *ctx;
    gen_stmt(&nodes[6], ctx)?;
    proof {
        lemma_emits_trans(c3, c4, *ctx);
    }
    let ghost c5 = *ctx;
    ctx.gen_bc(Instr::Jump(loop_entry));
    let ghost c6 = *ctx;
    if ctx.len() == usize::MAX {
        return Err(gen_err("program too large"));
    }
    ctx.patch(exit_call);
    proof {
        let n0 = c0.codev().len() as int;
        let n2 = c2.codev().len() as int;
        let n5 = c5.codev().len() as int;
        let n6 = ctx.codev().len() as int;
        assert forall|k: int| n0 <= k < n6 implies instr_ok(#[trigger] ctx.codev()[k], n6) by {
            if k == n2 {
                assert(ctx.codev()[k] == InstrV::JumpIfFalse(n6));
            } else if k == n5 {
                assert(ctx.codev()[k] == InstrV::Jump(loop_entry as int));
            } else if k < n2 {
                assert(ctx.codev()[k] == c2.codev()[k]);
                assert(instr_ok(c2.codev()[k], n2));
            } else {
                assert(ctx.codev()[k] == c5.codev()[k]);
                assert(instr_ok(c5.codev()[k], n5));
            }
        }
        assert(ctx.codev()[exit_call as int] == InstrV::JumpIfFalse(n6));
        assert(ctx.codev().last() == InstrV::Jump(loop_entry as int));
    }
    Ok(())
}

/// Emits a function definition: registers the function (recording its
/// entry label at the current offset), registers the parameters, emits
/// the body, then the implicit terminator — `Exit` for `(global, main)`,
/// `Ret` for every other function.
pub(crate) fn gen_func_def(node: &PNode, ctx: &mut CompilerContext) -> (r: Result<(), ParseError>)
    requires
        ctx_inv(*old(ctx)),
    ensures
        r is Ok ==> emits_ok(*old(ctx), *final(ctx)),
        r is Ok ==> ctx_inv(*final(ctx)),
        r matches Err(e) ==> e is GeneratorError,
        (r is Ok && node is Nonterm && node->Nonterm_children@.len() >= 6
            && node->Nonterm_children@[1] is Term) ==> ({
            let fname = term_value_v(node->Nonterm_children@[1]);
            &&& final(ctx).codev().len() > old(ctx).codev().len()
            &&& final(ctx).codev().last() == (if old(ctx).cur_cls@ == "global"@ && fname
                == "main"@ {
                InstrV::Exit
            } else {
                InstrV::Ret
            })
            &&& final(ctx).labels@.contains_key((old(ctx).cur_cls@, fname))
        }),
    decreases *node,
{
    let nodes = match node {
        PNode::Nonterm { children, .. } => children,
        PNode::Term { .. } => {
            return Ok(());
        },
    };
    if nodes.len() < 6 || !nodes[1].is_term() {
        return Err(gen_err("malformed function definition"));
    }
    let ghost c0 = *ctx;
    proof {
        assert(decreases_to!(*node => nodes@[3]));
        assert(decreases_to!(*node => nodes@[5]));
    }
    let (cls_name, fn_name) = ctx.register_function(&nodes[1]);
    let ghost c1 = *ctx;
    gen_params(&nodes[3], ctx)?;
    proof {
        lemma_emits_trans(c0, c1, *ctx);
    }
    let ghost c2 = *ctx;
    gen_block(&nodes[5], ctx)?;
    proof {
        lemma_emits_trans(c0, c2, *ctx);
    }
    let ghost c3 = *ctx;
    if str_is(&cls_name, "global") && str_is(&fn_name, "main") {
        ctx.gen_bc(Instr::Exit);
    } else {
        ctx.gen_bc(Instr::Ret);
    }
    proof {
        lemma_emits_trans(c0, c3, *ctx);
    }
    Ok(())
}

/// Registers the parameters of a function definition; emits no code.
pub(crate) fn gen_params(node: &PNode, ctx: &mut CompilerContext) -> (r: Result<(), ParseError>)
    requires
        ctx_inv(*old(ctx)),
    ensures
        r is Ok ==> emits_ok(*old(ctx), *final(ctx)),
        r is Ok ==> ctx_inv(*final(ctx)),
        r matches Err(e) ==> e is GeneratorError,
    decreases *node,
{
    match node {
        PNode::Nonterm { children, .. } => {
            let nodes = children;
            let ghost c0 = *ctx;
            let n = nodes.len();
            let mut i: usize = 0;
            while i < n
                invariant
                    0 <= i <= n == nodes@.len(),
                    node is Nonterm,
                    nodes == node->Nonterm_children,
                    emits_ok(c0, *ctx),
                    ctx_inv(*ctx),
                decreases n - i,
            {
                let ghost c1 = *ctx;
                proof {
                    assert(decreases_to!(*node => node->Nonterm_children@[i as int]));
                assert(nodes@[i as int] == node->Nonterm_children@[i as int]);
                assert(decreases_to!(*node => nodes@[i as int]));
                }
                gen_params(&nodes[i], ctx)?;
                proof {
                    lemma_emits_trans(c0, c1, *ctx);
                }
                i = i + 1;
            }
            Ok(())
        },
        PNode::Term { .. } => {
            if str_is(node.name_str(), "IDENTIFIER") {
                if !ctx.symbols.contains(&ctx.cur_cls, &ctx.cur_fn) {
                    return Err(gen_err("parameter outside a function"));
                }
                ctx.register_parameter(node);
            }
            Ok(())
        },
    }
}

/// A class definition without a parent whose body is a single `raise`.
pub open spec fn raise_class(c: PNode) -> bool {
    match c {
        PNode::Nonterm { name, children } => name@ == "class_def"@ && children@.len() == 7
            && single_raise_block(children@[5]),
        PNode::Term { .. } => false,
    }
}

/// Compiles a parse tree to a program image. On success the image is well
/// formed: no branch target is a surviving placeholder or out of range,
/// every label points into the code, and every descriptor is sound.
pub fn gen_bytecode(parse_tree: &PNode) -> (r: Result<Bytecode, ParseError>)
    ensures
        r matches Ok(b) ==> crate::bytecode::program_wf(b@),
        r matches Err(e) ==> e is GeneratorError,
        parse_tree matches PNode::Nonterm { children, .. } && children@.len() == 0 ==> (
        r matches Ok(b) && b@.code =~= Seq::<InstrV>::empty() && b@.labels =~= Map::<
            (Seq<char>, Seq<char>),
            usize,
        >::empty() && b@.symbols =~= Map::<
            (Seq<char>, Seq<char>),
            crate::bytecode::FnV,
        >::empty()),
        r matches Ok(b) ==> ((parse_tree is Nonterm && parse_tree->Nonterm_children@.len() == 1
            && raise_class(parse_tree->Nonterm_children@[0])) ==> b@.code =~= seq![
            InstrV::Raise,
        ]),
{
    let mut ctx = CompilerContext::new();
    let nodes = match parse_tree {
        PNode::Nonterm { children, .. } => children,
        PNode::Term { .. } => {
            return Err(gen_err("program expected"));
        },
    };
    let ghost c0 = ctx;
    let n = nodes.len();
    let mut i: usize = 0;
    while i < n
        invariant
            0 <= i <= n == nodes@.len(),
            parse_tree is Nonterm,
            nodes == parse_tree->Nonterm_children,
            emits_ok(c0, ctx),
            ctx_inv(ctx),
            c0.codev().len() == 0,
            n == 0 ==> ctx.codev() =~= Seq::<InstrV>::empty(),
            n == 0 ==> ctx.labels@ =~= Map::<(Seq<char>, Seq<char>), usize>::empty(),
            n == 0 ==> ctx.symbols@ =~= Map::<
                (Seq<char>, Seq<char>),
                crate::bytecode::FnV,
            >::empty(),
            n == 1 && raise_class(parse_tree->Nonterm_children@[0]) && i == 0 ==> ctx.codev()
                =~= Seq::<InstrV>::empty(),
            n == 1 && raise_class(parse_tree->Nonterm_children@[0]) && i >= 1 ==> ctx.codev()
                =~= seq![InstrV::Raise],
        decreases n - i,
    {
        let ghost c1 = ctx;
        proof {
            assert(decreases_to!(*parse_tree => parse_tree->Nonterm_children@[i as int]));
            assert(nodes@[i as int] == parse_tree->Nonterm_children@[i as int]);
            assert(decreases_to!(*parse_tree => nodes@[i as int]));
        }
        gen_class(&nodes[i], &mut ctx)?;
        proof {
            lemma_emits_trans(c0, c1, ctx);
        }
        i = i + 1;
    }
    let bc = Bytecode::new(ctx);
    Ok(bc)
}

/// Whether a name string equals a literal.
fn str_is(name: &String, lit: &str) -> (r: bool)
    ensures
        r == (name@ == lit@),
{
    *name == lit.to_owned()
}

} // verus!
