//! A compiler for a small register-description language (RDL) together with
//! the bit-field arithmetic of the access layer it feeds.
//!
//! The pipeline is single-pass: source text is lexed and parsed into a
//! syntax tree ([`ast`]), bit ranges and permissions are resolved into a
//! concrete layout model ([`resolve`]), the model is checked for structural
//! soundness ([`validate`]), and the validated model is mapped onto the
//! mask/shift/permission data the runtime access layer consumes ([`synth`]).
//! [`field`] holds the verified bit-field arithmetic of that access layer.

pub mod ast;
pub mod error;
pub mod field;
pub mod lex;
pub mod parse;
pub mod perms;
pub mod register;
pub mod resolve;
mod sealed;
pub mod synth;
pub mod validate;

use vstd::prelude::*;

use crate::ast::Input;
use crate::error::{CompileError, SyntaxError, SyntaxErrorKind};
use crate::lex::Token;
use crate::resolve::{block_resolvable, block_resolves_to, resolve_block, ResolvedBlock};
use crate::synth::{block_synth, synthesize, BlockArtifact};
use crate::validate::{block_valid, validate_block};

verus! {

/// Compiles one unit from its token stream: parse, resolve, validate,
/// synthesize, in one pass. Any failure of an earlier stage aborts the
/// later ones; no partial artifact is ever produced.
///
/// A syntax error comes exactly when the tokens do not spell one whole
/// compilation unit, and is then the parser's own error (or points at
/// the first trailing token); a semantic error comes only when they do
/// but a range does not resolve; a layout error only when the resolved
/// model is structurally unsound; and the artifact otherwise
/// synthesizes the parsed, resolved and validated model.
pub fn compile_tokens(toks: &Vec<Token>) -> (r: Result<BlockArtifact, CompileError>)
    ensures
        r matches Ok(a) ==> a.wf() && exists|inp: Input, rb: ResolvedBlock|
            {
                &&& #[trigger] crate::parse::input_rel(toks@, 0, inp, toks@.len() as int)
                &&& #[trigger] block_resolves_to(inp.item, rb)
                &&& block_valid(rb)
                &&& block_synth(rb, a)
            },
        r is Ok ==> crate::parse::input_end(toks@, 0) == Some(toks@.len() as int),
        (r matches Err(e) && e is Syntax) <==> crate::parse::input_end(toks@, 0) != Some(
            toks@.len() as int,
        ),
        r matches Err(e) ==> (e matches CompileError::Syntax(se) ==> se == (
        match crate::parse::input_end(toks@, 0) {
            None => crate::parse::input_err(toks@, 0),
            Some(j) => crate::error::SyntaxError {
                pos: j as usize,
                kind: SyntaxErrorKind::TrailingTokens,
            },
        })),
        r matches Err(e) && e is Semantic ==> exists|inp: Input|
            #[trigger] crate::parse::input_rel(toks@, 0, inp, toks@.len() as int)
                && !block_resolvable(inp.item),
        r matches Err(e) && e is Layout ==> exists|inp: Input, rb: ResolvedBlock|
            {
                &&& #[trigger] crate::parse::input_rel(toks@, 0, inp, toks@.len() as int)
                &&& #[trigger] block_resolves_to(inp.item, rb)
                &&& !block_valid(rb)
            },
{
    let (inp, j) = match Input::parse(toks, 0) {
        Ok(p) => p,
        Err(e) => {
            return Err(CompileError::Syntax(e));
        },
    };
    if j != toks.len() {
        return Err(
            CompileError::Syntax(SyntaxError { pos: j, kind: SyntaxErrorKind::TrailingTokens }),
        );
    }
    let ghost ginp = inp;
    let Input { krate: _, item } = inp;
    let rb = match resolve_block(item) {
        Ok(rb) => rb,
        Err(e) => {
            return Err(CompileError::Semantic(e));
        },
    };
    let ghost grb = rb;
    match validate_block(&rb) {
        Ok(()) => {},
        Err(e) => {
            return Err(CompileError::Layout(e));
        },
    }
    let a = synthesize(rb);
    proof {
        assert(crate::parse::input_rel(toks@, 0, ginp, toks@.len() as int) && block_resolves_to(
            ginp.item,
            grb,
        ) && block_valid(grb) && block_synth(grb, a));
    }
    Ok(a)
}

/// Compiles one register-description unit from source text: lexes the
/// bytes and runs the single-pass pipeline on the tokens.
///
/// An artifact comes only from source that lexes into a token stream
/// spelling one whole compilation unit whose ranges resolve and whose
/// layout is sound, and it synthesizes exactly that unit's validated
/// model; each error class certifies the corresponding fault in the
/// source. Source that does not lex is always a syntax error.
pub fn compile(src: &[u8]) -> (r: Result<BlockArtifact, CompileError>)
    ensures
        r matches Ok(a) ==> a.wf() && exists|toks: Seq<Token>, inp: Input, rb: ResolvedBlock|
            {
                &&& #[trigger] crate::lex::lex_rel(src@, 0, toks)
                &&& #[trigger] crate::parse::input_rel(toks, 0, inp, toks.len() as int)
                &&& #[trigger] block_resolves_to(inp.item, rb)
                &&& block_valid(rb)
                &&& block_synth(rb, a)
            },
        !crate::lex::lexable(src@, 0) ==> (r matches Err(e) && e is Syntax),
        r matches Err(e) ==> match e {
            CompileError::Syntax(_) => !crate::lex::lexable(src@, 0) || exists|toks: Seq<Token>|
                #[trigger] crate::lex::lex_rel(src@, 0, toks) && crate::parse::input_end(toks, 0)
                    != Some(toks.len() as int),
            CompileError::Semantic(_) => exists|toks: Seq<Token>, inp: Input|
                {
                    &&& #[trigger] crate::lex::lex_rel(src@, 0, toks)
                    &&& #[trigger] crate::parse::input_rel(toks, 0, inp, toks.len() as int)
                    &&& !block_resolvable(inp.item)
                },
            CompileError::Layout(_) => exists|toks: Seq<Token>, inp: Input, rb: ResolvedBlock|
                {
                    &&& #[trigger] crate::lex::lex_rel(src@, 0, toks)
                    &&& #[trigger] crate::parse::input_rel(toks, 0, inp, toks.len() as int)
                    &&& #[trigger] block_resolves_to(inp.item, rb)
                    &&& !block_valid(rb)
                },
        },
{
    let toks = match crate::lex::lex(src) {
        Ok(t) => t,
        Err(e) => {
            return Err(CompileError::Syntax(e));
        },
    };
    let r = compile_tokens(&toks);
    proof {
        match &r {
            Ok(a) => {
                let (inp, rb) = choose|inp: Input, rb: ResolvedBlock|
                    #[trigger] crate::parse::input_rel(toks@, 0, inp, toks@.len() as int)
                        && #[trigger] block_resolves_to(inp.item, rb) && block_valid(rb)
                        && block_synth(rb, *a);
                assert(crate::lex::lex_rel(src@, 0, toks@) && crate::parse::input_rel(
                    toks@,
                    0,
                    inp,
                    toks@.len() as int,
                ) && block_resolves_to(inp.item, rb) && block_valid(rb) && block_synth(rb, *a));
            },
            Err(e) => match e {
                CompileError::Syntax(_) => {
                    assert(crate::lex::lex_rel(src@, 0, toks@) && crate::parse::input_end(toks@, 0)
                        != Some(toks@.len() as int));
                },
                CompileError::Semantic(_) => {
                    let inp = choose|inp: Input|
                        #[trigger] crate::parse::input_rel(toks@, 0, inp, toks@.len() as int)
                            && !block_resolvable(inp.item);
                    assert(crate::lex::lex_rel(src@, 0, toks@) && crate::parse::input_rel(
                        toks@,
                        0,
                        inp,
                        toks@.len() as int,
                    ) && !block_resolvable(inp.item));
                },
                CompileError::Layout(_) => {
                    let (inp, rb) = choose|inp: Input, rb: ResolvedBlock|
                        #[trigger] crate::parse::input_rel(toks@, 0, inp, toks@.len() as int)
                            && #[trigger] block_resolves_to(inp.item, rb) && !block_valid(rb);
                    assert(crate::lex::lex_rel(src@, 0, toks@) && crate::parse::input_rel(
                        toks@,
                        0,
                        inp,
                        toks@.len() as int,
                    ) && block_resolves_to(inp.item, rb) && !block_valid(rb));
                },
            },
        }
    }
    r
}

} // verus!
