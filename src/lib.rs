//! A small C-like language: a parser, a static checker that builds the
//! global name environment, a scoped symbol table with per-variable
//! assignment history, a tree-walking evaluator proved against a big-step
//! semantics, and the decision logic of a line-stepping debugger.

pub mod ast;
pub mod value;
pub mod float;
pub mod text;
pub mod error;
pub mod env;
pub mod checker;
pub mod ops;
pub mod semantics;
pub mod engine;
pub mod util;
pub mod repl;
pub mod lexer;
pub mod parser;

use vstd::prelude::*;

verus! {

/// Checks a program: see `checker::analyze_prog`.
pub fn check_prog<'a>(ast: &'a ast::CProg) -> (r: Result<(env::FuncTab<'a>, env::SymTab), error::CError>)
    ensures
        match r {
            Ok((ft, st)) => checker::checker_errors(ast@).len() == 0 && ft@ == checker::check_all(ast@).funcs
                && st@ == seq![checker::check_all(ast@).globals],
            Err(e) => checker::checker_errors(ast@).len() > 0 && (e matches error::CError::CheckerError(v)
                && checker::errors_view(v@) == checker::checker_errors(ast@)),
        },
{
    checker::analyze_prog(ast)
}

} // verus!
