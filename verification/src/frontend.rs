//! The bridge to the grmtools LR toolchain: the lexer is built from a
//! `.l` definition, the grammar and its LR tables from a `.y` definition,
//! and the parse produces a raw tree of token and rule numbers, which is
//! then resolved — in verified code — to the named tree the compiler
//! walks.
use vstd::prelude::*;

use crate::parse::ParseError;
use crate::parse::ParseError::{BrokenLexer, BrokenParser, LexicalError, SyntaxError};
use crate::parse::ParseErrV;
use crate::tree::{raw_nonterm, raw_term, raw_view, PNode, RawNode, RawV};

use cfgrammar::yacc::YaccGrammar;
use cfgrammar::yacc::YaccKind::Original;
use cfgrammar::yacc::YaccOriginalActionKind::GenericParseTree;
use cfgrammar::{RIdx, TIdx};
use lrlex::{DefaultLexeme, DefaultLexerTypes, LRNonStreamingLexerDef, LexerDef};
use lrpar::LexParseError::LexError;
use lrpar::{Lexeme, RTParserBuilder};
use lrtable::from_yacc;
use lrtable::Minimiser::Pager;

verus! {

#[verifier::external_type_specification]
#[verifier::external_body]
#[verifier::reject_recursive_types(StorageT)]
pub struct ExYaccGrammar<StorageT>(YaccGrammar<StorageT>);

#[verifier::external_type_specification]
#[verifier::external_body]
#[verifier::reject_recursive_types(StorageT)]
pub struct ExDefaultLexeme<StorageT: core::fmt::Debug>(DefaultLexeme<StorageT>);

#[verifier::external_type_specification]
#[verifier::external_body]
#[verifier::reject_recursive_types(T)]
pub struct ExRIdx<T>(RIdx<T>);

/// Relies on lrlex's `DefaultLexeme`: the parse callback for a terminal.
/// Its token number and byte span become a raw node.
#[verifier::external_body]
fn raw_of(l: DefaultLexeme<u32>) -> RawNode {
    raw_term(l.tok_id(), l.span().start(), l.span().end())
}

/// Relies on cfgrammar's `RIdx`: the parse callback for a production.
/// The rule number and the child nodes become a raw node.
#[verifier::external_body]
fn raw_nt(r: RIdx<u32>, ns: Vec<RawNode>) -> RawNode {
    raw_nonterm(r.0, ns)
}

/// What the LR toolchain makes of the three texts: lexing and parsing a
/// source against fixed lexer and grammar definitions is a function of
/// those strings alone, so its outcome — the raw parse tree, or which
/// error ends the attempt — has a name.
pub uninterp spec fn parsed_of(lexs: Seq<char>, grms: Seq<char>, source: Seq<char>) -> Result<
    RawV,
    ParseErrV,
>;

/// Whether cfgrammar accepts a grammar definition: a function of its
/// text alone.
pub uninterp spec fn grammar_ok(grms: Seq<char>) -> bool;

/// The model of a parse attempt's outcome.
pub open spec fn parse_res_view(r: Result<RawNode, ParseError>) -> Result<RawV, ParseErrV> {
    match r {
        Ok(t) => Ok(raw_view(t)),
        Err(e) => Err(e@),
    }
}

/// Relies on cfgrammar's `YaccGrammar::new`: compiles a grammar definition
/// in the original Yacc dialect, for a generic parse tree. Success is a
/// function of the text alone, named `grammar_ok`.
#[verifier::external_body]
pub(crate) fn build_grammar(grms: &str) -> (r: Result<YaccGrammar<u32>, ParseError>)
    ensures
        r is Ok <==> grammar_ok(grms@),
        r is Err ==> r->Err_0 is BrokenParser,
{
    YaccGrammar::new(Original(GenericParseTree), grms).map_err(|_| BrokenParser)
}

/// Relies on the whole runtime pipeline of the LR toolchain: cfgrammar
/// compiles the grammar, lrtable builds its LR tables with Pager's
/// minimiser, lrlex builds the lexer from its definition and
/// synchronises its token numbers with the grammar's, lexes the source,
/// and lrpar parses the lexemes. Every step is deterministic in the
/// three texts, so the outcome equals `parsed_of` of their views. The
/// tree handed back holds token and rule numbers and lexeme byte spans
/// only; naming them is verified code's work. The callbacks handed to the
/// parse only read the lexeme's fields and call the library's raw-node
/// constructors.
#[verifier::external_body]
pub(crate) fn parse_source(lexs: &str, grms: &str, source: &str) -> (r: Result<
    RawNode,
    ParseError,
>)
    ensures
        parse_res_view(r) == parsed_of(lexs@, grms@, source@),
        r is Ok ==> grammar_ok(grms@),
        r matches Err(e) ==> (e is BrokenLexer || e is BrokenParser || e is LexicalError
            || e is SyntaxError),
{
    let grm = YaccGrammar::new(Original(GenericParseTree), grms).map_err(|_| BrokenParser)?;
    let (_, st) = from_yacc(&grm, Pager).map_err(|_| BrokenParser)?;
    let mut ld = LRNonStreamingLexerDef::<DefaultLexerTypes>::from_str(lexs).map_err(|_| BrokenLexer)?;
    ld.set_rule_ids(&grm.tokens_map().into_iter().map(|(n, i)| (n, i.0)).collect());
    let (tree, errs) = RTParserBuilder::new(&grm, &st).parse_map(&ld.lexer(source), &raw_of, &raw_nt);
    match errs.first() {
        None => tree.ok_or(SyntaxError),
        Some(LexError(_)) => Err(LexicalError),
        _ => Err(SyntaxError),
    }
}

/// Relies on cfgrammar's `rule_name_str`: the name of a grammar rule.
/// The bounds guard keeps the call off indices the grammar does not have,
/// where it would abort.
#[verifier::external_body]
pub(crate) fn rule_name_of(grm: &YaccGrammar<u32>, ridx: u32) -> (r: Option<String>) {
    if (ridx as usize) < usize::from(grm.rules_len()) {
        Some(grm.rule_name_str(RIdx(ridx)).to_string())
    } else {
        None
    }
}

/// Relies on cfgrammar's `token_name`: the name of a token, `None` for an
/// unnamed or out-of-range one.
#[verifier::external_body]
pub(crate) fn token_name_of(grm: &YaccGrammar<u32>, tidx: u32) -> (r: Option<String>) {
    if (tidx as usize) < usize::from(grm.tokens_len()) {
        grm.token_name(TIdx(tidx)).map(|s| s.to_string())
    } else {
        None
    }
}

/// Relies on str's range indexing: the text of a byte span, `None` off a
/// character boundary or out of range. On ASCII text the bytes are the
/// characters.
#[verifier::external_body]
pub(crate) fn slice_of(s: &str, start: usize, end: usize) -> (r: Option<String>)
    ensures
        vstd::string::is_ascii(s) && r is Some && start <= end <= s@.len() ==> r->0@
            == s@.subrange(start as int, end as int),
{
    s.get(start..end).map(|t| t.to_string())
}

/// Resolves a raw parse tree: token and rule numbers become their names,
/// lexeme spans their text. A number the grammar cannot name, or a span
/// that is no character range of the source, is a generator error.
pub(crate) fn resolve(raw: &RawNode, grm: &YaccGrammar<u32>, input: &str) -> (r: Result<
    PNode,
    ParseError,
>)
    ensures
        r is Err ==> r->Err_0 is GeneratorError,
    decreases *raw,
{
    match raw {
        RawNode::Term { tok_id, start, end } => {
            let name = match token_name_of(grm, *tok_id) {
                Some(n) => n,
                None => {
                    return Err(ParseError::GeneratorError("unnamed token".to_owned()));
                },
            };
            let value = match slice_of(input, *start, *end) {
                Some(v) => v,
                None => {
                    return Err(ParseError::GeneratorError("lexeme out of range".to_owned()));
                },
            };
            Ok(PNode::Term { name, value })
        },
        RawNode::Nonterm { ridx, children } => {
            let name = match rule_name_of(grm, *ridx) {
                Some(n) => n,
                None => {
                    return Err(ParseError::GeneratorError("unnamed rule".to_owned()));
                },
            };
            let mut resolved: Vec<PNode> = Vec::new();
            let n = children.len();
            let mut i: usize = 0;
            while i < n
                invariant
                    0 <= i <= n == children@.len(),
                    raw is Nonterm,
                    children == raw->Nonterm_children,
                decreases n - i,
            {
                proof {
                    assert(decreases_to!(*raw => raw->Nonterm_children@[i as int]));
                    assert(children@[i as int] == raw->Nonterm_children@[i as int]);
                }
                let child = resolve(&children[i], grm, input)?;
                resolved.push(child);
                i = i + 1;
            }
            Ok(PNode::Nonterm { name, children: resolved })
        },
    }
}

} // verus!
