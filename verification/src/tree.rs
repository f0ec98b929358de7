//! Parse trees. `RawNode` is the shape the parser hands back: token and
//! rule identities as numbers, lexemes as byte spans. `PNode` is the tree
//! the compiler walks: grammar-rule and token names resolved to strings,
//! lexemes to their text.
use vstd::prelude::*;

verus! {

/// A parse-tree node fresh from the parser.
pub enum RawNode {
    Term { tok_id: u32, start: usize, end: usize },
    Nonterm { ridx: u32, children: Vec<RawNode> },
}

/// The mathematical model of a raw parse tree.
pub enum RawV {
    Term { tok_id: u32, start: int, end: int },
    Nonterm { ridx: u32, children: Seq<RawV> },
}

/// The model of a raw node.
pub open spec fn raw_view(n: RawNode) -> RawV
    decreases n,
{
    match n {
        RawNode::Term { tok_id, start, end } => RawV::Term {
            tok_id,
            start: start as int,
            end: end as int,
        },
        RawNode::Nonterm { ridx, children } => RawV::Nonterm {
            ridx,
            children: raw_views(children@),
        },
    }
}

/// The models of a sequence of raw nodes, in order.
pub open spec fn raw_views(s: Seq<RawNode>) -> Seq<RawV>
    decreases s,
{
    if s.len() == 0 {
        Seq::empty()
    } else {
        seq![raw_view(s[0])] + raw_views(s.subrange(1, s.len() as int))
    }
}

/// A raw terminal node.
pub fn raw_term(tok_id: u32, start: usize, end: usize) -> (r: RawNode)
    ensures
        r == (RawNode::Term { tok_id, start, end }),
{
    RawNode::Term { tok_id, start, end }
}

/// A raw nonterminal node.
pub fn raw_nonterm(ridx: u32, children: Vec<RawNode>) -> (r: RawNode)
    ensures
        r == (RawNode::Nonterm { ridx, children }),
{
    RawNode::Nonterm { ridx, children }
}

/// A parse-tree node with names and lexeme text resolved.
pub enum PNode {
    Term { name: String, value: String },
    Nonterm { name: String, children: Vec<PNode> },
}

/// The grammar-rule or token name of a node.
pub open spec fn node_name(n: &PNode) -> Seq<char> {
    match n {
        PNode::Term { name, .. } => name@,
        PNode::Nonterm { name, .. } => name@,
    }
}

/// The lexeme text of a terminal node; empty for a nonterminal.
pub open spec fn term_value(n: &PNode) -> Seq<char> {
    match n {
        PNode::Term { value, .. } => value@,
        PNode::Nonterm { .. } => Seq::empty(),
    }
}

/// `node_name`, taking the node by value.
pub open spec fn node_name_v(n: PNode) -> Seq<char> {
    match n {
        PNode::Term { name, .. } => name@,
        PNode::Nonterm { name, .. } => name@,
    }
}

/// `term_value`, taking the node by value.
pub open spec fn term_value_v(n: PNode) -> Seq<char> {
    match n {
        PNode::Term { value, .. } => value@,
        PNode::Nonterm { .. } => Seq::empty(),
    }
}

impl PNode {
    /// Whether this node is a terminal.
    pub fn is_term(&self) -> (r: bool)
        ensures
            r == (self is Term),
    {
        match self {
            PNode::Term { .. } => true,
            PNode::Nonterm { .. } => false,
        }
    }

    /// The grammar-rule or token name of this node.
    pub fn name_str(&self) -> (r: &String)
        ensures
            r@ == node_name(self),
    {
        match self {
            PNode::Term { name, .. } => name,
            PNode::Nonterm { name, .. } => name,
        }
    }

    /// The lexeme text of a terminal node.
    pub fn term_text(&self) -> (r: String)
        requires
            self is Term,
        ensures
            r@ == term_value(self),
    {
        match self {
            PNode::Term { value, .. } => value.clone(),
            PNode::Nonterm { .. } => {
                proof {
                    assert(false);
                }
                String::new()
            },
        }
    }
}

} // verus!
