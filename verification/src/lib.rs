//! A minimal expression-oriented language: a recursive-descent parser that
//! turns source text into an abstract syntax tree, and a tree-walking
//! evaluator that runs the tree against a lexically scoped environment.
use vstd::prelude::*;

pub mod ast;
pub mod binding_def;
pub mod env;
pub mod expr;
pub mod func_def;
pub mod grammar;
pub mod laws;
pub mod render;
pub mod semantics;
pub mod stmt;
pub mod utils;
pub mod val;

pub use env::Env;
pub use val::Val;

use crate::ast::{NamedInfoV, StmtV};
use crate::grammar::parse_program;
use crate::semantics::eval_stmt;
use crate::stmt::Stmt;

verus! {

/// A successfully parsed statement, ready to evaluate.
#[derive(Debug)]
pub struct Parse(Stmt);

impl View for Parse {
    type V = StmtV;

    closed spec fn view(&self) -> StmtV {
        self.0@
    }
}

impl Parse {
    /// Evaluates the parsed statement against `env`, as `eval_stmt`
    /// states it, possibly storing new top-level bindings or functions
    /// into it. A failure leaves `env` unchanged.
    pub fn eval(&self, env: &mut Env) -> (r: Result<Val, String>)
        ensures
            match r {
                Ok(v) => eval_stmt(self@, old(env)@) == Ok::<
                    (Seq<Map<Seq<char>, NamedInfoV>>, Val),
                    Seq<char>,
                >((final(env)@, v)),
                Err(m) => eval_stmt(self@, old(env)@) matches Err(t) && m@ == t && final(env)@
                    == old(env)@,
            },
    {
        self.0.eval(env)
    }
}

/// Parses exactly one statement and requires the input to be consumed in
/// its entirety, as `parse_program` states it; unconsumed trailing text is
/// the failure `input was not consumed fully by parser`.
pub fn parse(s: &str) -> (r: Result<Parse, String>)
    ensures
        match r {
            Ok(p) => parse_program(s@) == Ok::<StmtV, Seq<char>>(p@),
            Err(m) => parse_program(s@) matches Err(t) && m@ == t,
        },
{
    let (rem, stmt) = match Stmt::new(s) {
        Ok(t) => t,
        Err(m) => {
            return Err(m);
        },
    };
    if rem.is_empty() {
        Ok(Parse(stmt))
    } else {
        Err(String::from_str("input was not consumed fully by parser"))
    }
}

} // verus!
