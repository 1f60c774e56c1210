//! A block: a statement sequence evaluated in a fresh child scope, whose
//! value is its last statement's value.
use vstd::prelude::*;

use crate::ast::{stmts_view, lemma_stmts_view_push, ExprV};
use crate::semantics::{eval_block, eval_stmts_run};
use crate::grammar::{
    lemma_literals,
    lemma_skip_ws_len,
    lemma_stmt_consumes,
    parse_block,
    parse_stmt,
    parse_stmts,
};
use crate::stmt::Stmt;

verus! {

/// A brace-delimited sequence of statements.
#[derive(Debug, PartialEq)]
pub struct Block {
    pub stmts: Vec<Stmt>,
}

impl Clone for Block {
    /// A copy with the same abstract shape.
    fn clone(&self) -> (r: Self)
        ensures
            r@ == self@,
        decreases self,
    {
        let mut stmts: Vec<Stmt> = Vec::new();
        let n: usize = self.stmts.len();
        let mut i: usize = 0;
        while i < n
            invariant
                0 <= i <= n,
                n == self.stmts@.len(),
                stmts@.len() == i,
                forall|j: int|
                    0 <= j < i ==> crate::ast::stmt_view(#[trigger] stmts@[j])
                        == crate::ast::stmt_view(self.stmts@[j]),
            decreases n - i,
        {
            let st = self.stmts[i].clone();
            stmts.push(st);
            i += 1;
        }
        proof {
            crate::ast::lemma_stmts_view(stmts@);
            crate::ast::lemma_stmts_view(self.stmts@);
            assert(stmts_view(stmts@) =~= stmts_view(self.stmts@));
        }
        Block { stmts }
    }
}

impl Block {
    /// The value of this block in `env`: `Unit` for an empty block, and
    /// otherwise the last statement's value, every statement running in a
    /// fresh child scope that is discarded afterwards. `env` itself is
    /// never changed, which is the language's only scoping mechanism.
    pub fn eval(&self, env: &crate::env::Env) -> (r: Result<crate::val::Val, String>)
        ensures
            match r {
                Ok(v) => eval_block(self@, env@) == Ok::<crate::val::Val, Seq<char>>(v),
                Err(m) => eval_block(self@, env@) matches Err(t) && m@ == t,
            },
        decreases *self,
    {
        let n: usize = self.stmts.len();
        if n == 0 {
            return Ok(crate::val::Val::Unit);
        }
        let mut child_env = env.create_child();
        let ghost whole = stmts_view(self.stmts@);
        let ghost base = child_env@;
        proof {
            crate::ast::lemma_stmts_view(self.stmts@);
            assert(whole.skip(0) =~= whole);
        }
        let mut i: usize = 0;
        while i < n - 1
            invariant
                0 <= i < n,
                n == self.stmts@.len(),
                whole == stmts_view(self.stmts@),
                whole.len() == n,
                base == env@.push(Map::<Seq<char>, crate::ast::NamedInfoV>::empty()),
                eval_stmts_run(whole.skip(i as int), child_env@) == eval_stmts_run(whole, base),
            decreases n - 1 - i,
        {
            proof {
                crate::ast::lemma_stmts_view(self.stmts@);
            }
            match self.stmts[i].eval(&mut child_env) {
                Ok(_) => {},
                Err(m) => {
                    return Err(m);
                },
            }
            proof {
                assert(whole.skip(i as int).skip(1) =~= whole.skip(i as int + 1));
            }
            i += 1;
        }
        proof {
            crate::ast::lemma_stmts_view(self.stmts@);
            assert(whole.skip(n - 1).len() == 1);
        }
        self.stmts[n - 1].eval(&mut child_env)
    }

    /// Reads a block from the front of `s`: `{`, optional whitespace, a
    /// run of statements, optional whitespace, `}`, as `parse_block`
    /// states it.
    pub fn new(s: &str) -> (r: Result<(&str, Self), String>)
        ensures
            match r {
                Ok(t) => parse_block(s@) == Ok::<(Seq<char>, ExprV), Seq<char>>(
                    (t.0@, ExprV::Block(t.1@)),
                ),
                Err(m) => parse_block(s@) == Err::<(Seq<char>, ExprV), Seq<char>>(m@),
            },
        decreases s@.len(), 0int,
    {
        let s1 = match crate::utils::tag("{", s) {
            Ok(t) => t,
            Err(m) => {
                return Err(m);
            },
        };
        let (s2, _) = crate::utils::skip_whitespace(s1);
        proof {
            lemma_literals();
            lemma_skip_ws_len(s1@);
            assert(s2@.len() < s@.len());
        }
        let mut cur: &str = s2;
        let mut stmts: Vec<Stmt> = Vec::new();
        let mut done = false;
        proof {
            assert(stmts_view(stmts@) + parse_stmts(cur@).1 =~= parse_stmts(cur@).1);
        }
        while !done
            invariant
                parse_stmts(s2@).0 == parse_stmts(cur@).0,
                parse_stmts(s2@).1 == stmts_view(stmts@) + parse_stmts(cur@).1,
                cur@.len() <= s2@.len(),
                cur@.len() < s@.len(),
                done ==> parse_stmt(cur@) is Err,
            decreases cur@.len() + (if done { 0int } else { 1int }),
        {
            match Stmt::new(cur) {
                Err(_) => {
                    done = true;
                },
                Ok((rem, st)) => {
                    proof {
                        lemma_stmt_consumes(cur@);
                        lemma_skip_ws_len(rem@);
                    }
                    let (c2, _) = crate::utils::skip_whitespace(rem);
                    proof {
                        lemma_stmts_view_push(stmts@, st);
                        assert((stmts_view(stmts@) + seq![st@]) + parse_stmts(c2@).1
                            =~= stmts_view(stmts@).push(st@) + parse_stmts(c2@).1);
                        assert(stmts_view(stmts@) + (seq![st@] + parse_stmts(c2@).1)
                            =~= (stmts_view(stmts@) + seq![st@]) + parse_stmts(c2@).1);
                    }
                    stmts.push(st);
                    cur = c2;
                },
            }
        }
        proof {
            assert(stmts_view(stmts@) + Seq::<crate::ast::StmtV>::empty() =~= stmts_view(stmts@));
        }
        let (s4, _) = crate::utils::skip_whitespace(cur);
        match crate::utils::tag("}", s4) {
            Err(m) => Err(m),
            Ok(s5) => Ok((s5, Block { stmts })),
        }
    }
}

} // verus!
