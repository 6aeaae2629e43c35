//! A compiler for a small plain-text markup language for mathematical
//! statements. Source text is tokenized against a closed vocabulary of
//! lexical categories, assembled into a program of statements, and rendered
//! as a typesettable document with a fixed preamble and postamble.

pub mod lexer;
pub mod program;
pub mod relations;
pub mod render;
pub mod token;
pub mod vocab;

use vstd::prelude::*;
use crate::lexer::{CompileError, LexOut, err_text, spec_lex, tokenize};
use crate::program::{
    Expr, Instruction, InstructionView, Program, build, instr_of_token, instr_stream, spec_build,
};
use crate::token::{Category, token_views, token_wf};

verus! {

/// The program denoted by a source text: the statements built from its
/// tokens, or nothing if some input matches no lexical category.
pub open spec fn spec_compile(s: Seq<char>) -> Option<Seq<Seq<InstructionView>>> {
    match spec_lex(s) {
        LexOut::Toks(ts) => Some(spec_build(ts)),
        LexOut::Fail(_) => None,
    }
}

/// Compiles a whole source text into a program.
///
/// Succeeds exactly when the text lexes, and then returns the program its
/// token sequence builds, with no empty statement in it. Fails exactly on
/// the first unrecognized input, reporting the offending substring and its
/// character position; no partial program is exposed.
pub fn compile(code: String) -> (r: Result<Program, CompileError>)
    ensures
        (match r {
            Ok(p) => spec_compile(code@) == Some(p@) && forall|j: int|
                0 <= j < p@.len() ==> #[trigger] p@[j].len() > 0,
            Err(e) => spec_compile(code@) is None && spec_lex(code@) == LexOut::Fail(e.pos as int)
                && e.pos < code@.len() && e.text@ == err_text(code@, e.pos as int),
        }),
{
    let toks = match tokenize(code.as_str()) {
        Ok(toks) => toks,
        Err(e) => {
            return Err(e);
        },
    };
    let p = build(&toks);
    proof {
        crate::program::lemma_build_no_empty_statement(token_views(toks@));
    }
    Ok(p)
}

/// Compiles a source fragment into one flat expression: the instruction
/// stream of its tokens, with comments and statement terminators dropped.
/// Succeeds and fails exactly as `compile` does on the same text.
pub fn compile_expr(code: String) -> (r: Result<Expr, CompileError>)
    ensures
        (match r {
            Ok(e) => spec_lex(code@) matches LexOut::Toks(ts) && e@ == instr_stream(ts),
            Err(e) => spec_compile(code@) is None && spec_lex(code@) == LexOut::Fail(e.pos as int)
                && e.pos < code@.len() && e.text@ == err_text(code@, e.pos as int),
        }),
{
    let toks = match tokenize(code.as_str()) {
        Ok(toks) => toks,
        Err(e) => {
            return Err(e);
        },
    };
    let ghost views = token_views(toks@);
    let mut ins: Vec<Instruction> = Vec::new();
    let mut i: usize = 0;
    proof {
        assert(views.take(0) =~= Seq::<crate::token::TokenView>::empty());
        assert(ins@.map_values(|x: Instruction| x@) =~= instr_stream(views.take(0)));
    }
    while i < toks.len()
        invariant
            0 <= i <= toks@.len(),
            views == token_views(toks@),
            forall|k: int| 0 <= k < toks@.len() ==> token_wf(#[trigger] toks@[k]@),
            ins@.map_values(|x: Instruction| x@) == instr_stream(views.take(i as int)),
        decreases toks@.len() - i,
    {
        let t = &toks[i];
        proof {
            assert(views.take(i + 1 as int).drop_last() =~= views.take(i as int));
            assert(views.take(i + 1 as int).last() == toks@[i as int]@);
        }
        match t.category {
            Category::Comment => {},
            Category::Terminator => {},
            _ => {
                let instr = instr_of_token(t);
                ins.push(instr);
                proof {
                    assert(ins@.map_values(|x: Instruction| x@) =~= instr_stream(
                        views.take(i + 1 as int),
                    ));
                }
            },
        }
        i = i + 1;
    }
    proof {
        assert(views.take(toks@.len() as int) =~= views);
    }
    let e = Expr { instructions: ins };
    proof {
        assert(e@ =~= ins@.map_values(|x: Instruction| x@));
    }
    Ok(e)
}

} // verus!
