//! The function definition form:
//! `fn <identifier> <identifier>* => <statement>`.
use vstd::prelude::*;

use crate::ast::{lemma_names_view_push, names_view, FuncDefV};
use crate::semantics::eval_func_def;
use crate::grammar::{
    lemma_extract_ws_consumes,
    lemma_ident_consumes,
    lemma_literals,
    lemma_skip_ws_len,
    lemma_stmt_consumes,
    parse_func_def,
    parse_ident_list,
};
use crate::stmt::Stmt;

verus! {

/// A function definition: a name, ordered parameter names, and a body
/// statement. Defining a function stores it; the grammar has no call form.
#[derive(Debug, PartialEq)]
pub struct FuncDef {
    pub name: String,
    pub params: Vec<String>,
    pub body: Box<Stmt>,
}

impl Clone for FuncDef {
    /// A copy with the same abstract shape.
    fn clone(&self) -> (r: Self)
        ensures
            r@ == self@,
        decreases self,
    {
        let params = self.params.clone();
        proof {
            assert forall|i: int| 0 <= i < self.params@.len() implies params@[i]@
                == self.params@[i]@ by {
                assert(vstd::pervasive::cloned::<String>(self.params@[i], params@[i]));
            }
            assert(names_view(params@) =~= names_view(self.params@));
        }
        FuncDef { name: self.name.clone(), params, body: Box::new((*self.body).clone()) }
    }
}

impl FuncDef {
    /// Reads a function definition from the front of `s`: `fn`, a
    /// mandatory space, an identifier, a run of parameter identifiers,
    /// `=>`, and a body statement, as `parse_func_def` states it.
    pub fn new(s: &str) -> (r: Result<(&str, Self), String>)
        ensures
            match r {
                Ok(t) => parse_func_def(s@) == Ok::<(Seq<char>, FuncDefV), Seq<char>>(
                    (t.0@, t.1@),
                ),
                Err(m) => parse_func_def(s@) == Err::<(Seq<char>, FuncDefV), Seq<char>>(m@),
            },
        decreases s@.len(), 3int,
    {
        let s1 = match crate::utils::tag("fn", s) {
            Ok(t) => t,
            Err(m) => {
                return Err(m);
            },
        };
        let (s2, _) = match crate::utils::extract_whitespace(s1) {
            Ok(t) => t,
            Err(m) => {
                return Err(m);
            },
        };
        let (s3, name) = match crate::utils::extract_ident(s2) {
            Ok(t) => t,
            Err(m) => {
                return Err(m);
            },
        };
        let (s4, _) = crate::utils::skip_whitespace(s3);
        proof {
            lemma_literals();
            lemma_extract_ws_consumes(s1@);
            lemma_ident_consumes(s2@);
            lemma_skip_ws_len(s3@);
            assert(s4@.len() < s@.len());
        }
        let mut cur: &str = s4;
        let mut params: Vec<String> = Vec::new();
        let mut done = false;
        proof {
            assert(names_view(params@) + parse_ident_list(cur@).1 =~= parse_ident_list(cur@).1);
        }
        while !done
            invariant
                parse_ident_list(s4@).0 == parse_ident_list(cur@).0,
                parse_ident_list(s4@).1 == names_view(params@) + parse_ident_list(cur@).1,
                cur@.len() <= s4@.len(),
                done ==> crate::utils::spec_extract_ident(cur@) is Err,
            decreases cur@.len() + (if done { 0int } else { 1int }),
        {
            match crate::utils::extract_ident(cur) {
                Err(_) => {
                    done = true;
                },
                Ok((rem, param)) => {
                    proof {
                        lemma_ident_consumes(cur@);
                        lemma_skip_ws_len(rem@);
                    }
                    let (c2, _) = crate::utils::skip_whitespace(rem);
                    let p = String::from_str(param);
                    proof {
                        lemma_names_view_push(params@, p);
                        assert((names_view(params@) + seq![p@]) + parse_ident_list(c2@).1
                            =~= names_view(params@).push(p@) + parse_ident_list(c2@).1);
                        assert(names_view(params@) + (seq![p@] + parse_ident_list(c2@).1) =~= (
                        names_view(params@) + seq![p@]) + parse_ident_list(c2@).1);
                    }
                    params.push(p);
                    cur = c2;
                },
            }
        }
        proof {
            assert(names_view(params@) + Seq::<Seq<char>>::empty() =~= names_view(params@));
        }
        let s5 = match crate::utils::tag("=>", cur) {
            Ok(t) => t,
            Err(m) => {
                return Err(m);
            },
        };
        let (s6, _) = crate::utils::skip_whitespace(s5);
        proof {
            lemma_skip_ws_len(s5@);
            assert(s6@.len() < s@.len());
        }
        match Stmt::new(s6) {
            Err(m) => Err(m),
            Ok((s7, body)) => Ok(
                (s7, FuncDef { name: String::from_str(name), params, body: Box::new(body) }),
            ),
        }
    }

    /// Stores this definition's parameters and body under its name in the
    /// current scope, as `eval_func_def` states it; nothing is evaluated
    /// and nothing can fail.
    pub fn eval(&self, env: &mut crate::env::Env) -> (r: Result<(), String>)
        ensures
            r is Ok,
            final(env)@ == eval_func_def(self@, old(env)@),
    {
        let params = self.params.clone();
        proof {
            assert forall|i: int| 0 <= i < self.params@.len() implies params@[i]@
                == self.params@[i]@ by {
                assert(vstd::pervasive::cloned::<String>(self.params@[i], params@[i]));
            }
            assert(names_view(params@) =~= names_view(self.params@));
        }
        env.store_func(self.name.clone(), params, (*self.body).clone());
        Ok(())
    }
}

} // verus!
