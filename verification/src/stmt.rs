//! The statement grammar: a binding definition, a function definition, or
//! a bare expression, tried in that order.
use vstd::prelude::*;

use crate::ast::{NamedInfoV, StmtV};
use crate::binding_def::BindingDef;
use crate::env::Env;
use crate::expr::Expr;
use crate::func_def::FuncDef;
use crate::grammar::parse_stmt;
use crate::semantics::eval_stmt;
use crate::val::Val;

verus! {

/// A statement: the unit parsed at program and block-item granularity.
#[derive(Debug, PartialEq)]
pub enum Stmt {
    BindingDef(BindingDef),
    FuncDef(FuncDef),
    Expr(Expr),
}

impl Clone for Stmt {
    /// A copy with the same abstract shape.
    fn clone(&self) -> (r: Self)
        ensures
            r@ == self@,
        decreases self,
    {
        match self {
            Stmt::BindingDef(bd) => Stmt::BindingDef(bd.clone()),
            Stmt::FuncDef(fd) => Stmt::FuncDef(fd.clone()),
            Stmt::Expr(e) => Stmt::Expr(e.clone()),
        }
    }
}

impl Stmt {
    /// Reads a statement from the front of `s`: a binding definition, else
    /// a function definition, else an expression, as `parse_stmt` states
    /// it.
    pub fn new(s: &str) -> (r: Result<(&str, Self), String>)
        ensures
            match r {
                Ok(t) => parse_stmt(s@) == Ok::<(Seq<char>, StmtV), Seq<char>>((t.0@, t.1@)),
                Err(m) => parse_stmt(s@) == Err::<(Seq<char>, StmtV), Seq<char>>(m@),
            },
        decreases s@.len(), 4int,
    {
        match BindingDef::new(s) {
            Ok((rem, binding_def)) => Ok((rem, Stmt::BindingDef(binding_def))),
            Err(_) => match FuncDef::new(s) {
                Ok((rem, func_def)) => Ok((rem, Stmt::FuncDef(func_def))),
                Err(_) => match Expr::new(s) {
                    Ok((rem, expr)) => Ok((rem, Stmt::Expr(expr))),
                    Err(m) => Err(m),
                },
            },
        }
    }

    /// The value of this statement in `env`, as `eval_stmt` states it: a
    /// definition stores into `env` and yields `Unit`, an expression
    /// statement yields its value and leaves `env` unchanged. A failure
    /// leaves `env` unchanged.
    pub fn eval(&self, env: &mut Env) -> (r: Result<Val, String>)
        ensures
            match r {
                Ok(v) => eval_stmt(self@, old(env)@) == Ok::<
                    (Seq<Map<Seq<char>, NamedInfoV>>, Val),
                    Seq<char>,
                >((final(env)@, v)),
                Err(m) => eval_stmt(self@, old(env)@) matches Err(t) && m@ == t && final(env)@
                    == old(env)@,
            },
        decreases *self,
    {
        match self {
            Stmt::BindingDef(binding_def) => {
                match binding_def.eval(env) {
                    Ok(_) => Ok(Val::Unit),
                    Err(m) => Err(m),
                }
            },
            Stmt::FuncDef(func_def) => {
                match func_def.eval(env) {
                    Ok(_) => Ok(Val::Unit),
                    Err(m) => Err(m),
                }
            },
            Stmt::Expr(expr) => expr.eval(env),
        }
    }
}

} // verus!
