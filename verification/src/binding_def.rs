//! The binding definition form: `let <identifier> = <expression>`.
use vstd::prelude::*;

use crate::ast::{BindingDefV, NamedInfoV};
use crate::expr::Expr;
use crate::semantics::eval_binding_def;
use crate::grammar::{
    lemma_extract_ws_consumes,
    lemma_ident_consumes,
    lemma_literals,
    lemma_skip_ws_len,
    parse_binding_def,
};

verus! {

/// A binding definition: evaluating it stores the value of `val` under
/// `name` in the current scope.
#[derive(Debug, PartialEq)]
pub struct BindingDef {
    pub name: String,
    pub val: Expr,
}

impl Clone for BindingDef {
    /// A copy with the same abstract shape.
    fn clone(&self) -> (r: Self)
        ensures
            r@ == self@,
        decreases self,
    {
        BindingDef { name: self.name.clone(), val: self.val.clone() }
    }
}

impl BindingDef {
    /// Reads a binding definition from the front of `s`: `let`, a
    /// mandatory space, an identifier, `=`, and an expression, as
    /// `parse_binding_def` states it.
    pub fn new(s: &str) -> (r: Result<(&str, Self), String>)
        ensures
            match r {
                Ok(t) => parse_binding_def(s@) == Ok::<(Seq<char>, BindingDefV), Seq<char>>(
                    (t.0@, t.1@),
                ),
                Err(m) => parse_binding_def(s@) == Err::<(Seq<char>, BindingDefV), Seq<char>>(m@),
            },
        decreases s@.len(), 3int,
    {
        let s1 = match crate::utils::tag("let", s) {
            Ok(t) => t,
            Err(m) => {
                return Err(m);
            },
        };
        let (s2, _) = match crate::utils::extract_whitespace(s1) {
            Ok(t) => t,
            Err(m) => {
                return Err(m);
            },
        };
        let (s3, name) = match crate::utils::extract_ident(s2) {
            Ok(t) => t,
            Err(m) => {
                return Err(m);
            },
        };
        let (s4, _) = crate::utils::skip_whitespace(s3);
        let s5 = match crate::utils::tag("=", s4) {
            Ok(t) => t,
            Err(m) => {
                return Err(m);
            },
        };
        let (s6, _) = crate::utils::skip_whitespace(s5);
        proof {
            lemma_literals();
            lemma_extract_ws_consumes(s1@);
            lemma_ident_consumes(s2@);
            lemma_skip_ws_len(s3@);
            lemma_skip_ws_len(s5@);
            assert(s6@.len() < s@.len());
        }
        match Expr::new(s6) {
            Err(m) => Err(m),
            Ok((s7, val)) => Ok((s7, BindingDef { name: String::from_str(name), val })),
        }
    }

    /// Evaluates the right-hand side against `env` and stores the value
    /// under this definition's name in the current scope, as
    /// `eval_binding_def` states it. A failure leaves `env` unchanged.
    pub fn eval(&self, env: &mut crate::env::Env) -> (r: Result<(), String>)
        ensures
            match r {
                Ok(_) => eval_binding_def(self@, old(env)@) == Ok::<
                    Seq<Map<Seq<char>, NamedInfoV>>,
                    Seq<char>,
                >(final(env)@),
                Err(m) => eval_binding_def(self@, old(env)@) matches Err(t) && m@ == t
                    && final(env)@ == old(env)@,
            },
        decreases *self,
    {
        let v = match self.val.eval(env) {
            Ok(v) => v,
            Err(m) => {
                return Err(m);
            },
        };
        env.store_binding(self.name.clone(), v);
        Ok(())
    }
}

} // verus!
