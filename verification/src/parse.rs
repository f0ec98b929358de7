//! The front door of the compiler: the error type and the function that
//! takes source text (with the lexer and grammar definitions) to a
//! compiled program image.
use vstd::prelude::*;

pub use crate::bytecode::{Bytecode, Instr, Fn};
pub use crate::emit::gen_bytecode;

use crate::frontend::{build_grammar, parse_source, parsed_of, resolve};

verus! {

/// Everything that can go wrong between source text and a program image.
#[derive(Debug)]
pub enum ParseError {
    IO(String),
    FileNotFound(String),
    BrokenLexer,
    BrokenParser,
    LexicalError,
    SyntaxError,
    GeneratorError(String),
}

/// The mathematical model of a `ParseError`.
pub enum ParseErrV {
    IO(Seq<char>),
    FileNotFound(Seq<char>),
    BrokenLexer,
    BrokenParser,
    LexicalError,
    SyntaxError,
    GeneratorError(Seq<char>),
}

impl View for ParseError {
    type V = ParseErrV;

    open spec fn view(&self) -> ParseErrV {
        match self {
            ParseError::IO(s) => ParseErrV::IO(s@),
            ParseError::FileNotFound(s) => ParseErrV::FileNotFound(s@),
            ParseError::BrokenLexer => ParseErrV::BrokenLexer,
            ParseError::BrokenParser => ParseErrV::BrokenParser,
            ParseError::LexicalError => ParseErrV::LexicalError,
            ParseError::SyntaxError => ParseErrV::SyntaxError,
            ParseError::GeneratorError(s) => ParseErrV::GeneratorError(s@),
        }
    }
}

/// Compiles source text to a program image: the lexer and parser are
/// built from the given lexer (`.l`) and grammar (`.y`) definitions, the
/// source is parsed, and the tree is lowered to bytecode.
///
/// A program image handed back is well formed: no branch target is a
/// surviving placeholder or out of range, every label points into the
/// code, and every function descriptor is sound. When the toolchain
/// refuses the texts, its error comes back unchanged; when it yields a
/// tree, the result is the image or a generator error, never a lexing or
/// parsing error.
pub fn parse_input(source: String, lexs: &str, grms: &str) -> (r: Result<Bytecode, ParseError>)
    ensures
        r matches Ok(b) ==> crate::bytecode::program_wf(b@),
        r matches Err(e) ==> (e is BrokenLexer || e is BrokenParser || e is LexicalError
            || e is SyntaxError || e is GeneratorError),
        parsed_of(lexs@, grms@, source@) matches Err(ev) ==> (r matches Err(e) && e@ == ev),
        parsed_of(lexs@, grms@, source@) is Ok ==> ((r matches Ok(b)
            && crate::bytecode::program_wf(b@)) || (r matches Err(e) && e is GeneratorError)),
{
    let raw = parse_source(lexs, grms, source.as_str())?;
    let grm = build_grammar(grms)?;
    let tree = resolve(&raw, &grm, source.as_str())?;
    gen_bytecode(&tree)
}

} // verus!
