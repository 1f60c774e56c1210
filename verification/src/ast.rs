//! The abstract shape of parsed programs: ghost mirrors of the syntax-tree
//! types, with names as character sequences, and the view functions that
//! relate the executable trees to them.
use vstd::prelude::*;

use crate::binding_def::BindingDef;
use crate::expr::{Expr, Number, Op};
use crate::expr::binding_usage::BindingUsage;
use crate::expr::blocks::Block;
use crate::func_def::FuncDef;
use crate::stmt::Stmt;
use crate::val::Val;

verus! {

/// The abstract shape of an expression.
pub enum ExprV {
    Number(i32),
    Operation { lhs: Box<ExprV>, rhs: Box<ExprV>, op: Op },
    BindingUsage(Seq<char>),
    Block(Seq<StmtV>),
}

/// The abstract shape of a binding definition: `let <name> = <val>`.
pub struct BindingDefV {
    pub name: Seq<char>,
    pub val: ExprV,
}

/// The abstract shape of a function definition:
/// `fn <name> <params>* => <body>`.
pub struct FuncDefV {
    pub name: Seq<char>,
    pub params: Seq<Seq<char>>,
    pub body: Box<StmtV>,
}

/// The abstract shape of a statement.
pub enum StmtV {
    BindingDef(BindingDefV),
    FuncDef(FuncDefV),
    Expr(ExprV),
}

/// The abstract content of an environment entry: a stored value, or a
/// stored function definition.
pub enum NamedInfoV {
    Binding(Val),
    Func { params: Seq<Seq<char>>, body: StmtV },
}

/// The names held by a sequence of strings.
pub open spec fn names_view(names: Seq<String>) -> Seq<Seq<char>> {
    names.map_values(|n: String| n@)
}

/// The abstract shape of an executable expression.
pub open spec fn expr_view(e: Expr) -> ExprV
    decreases e,
{
    match e {
        Expr::Number(n) => ExprV::Number(n.0),
        Expr::Operation { lhs, rhs, op } => ExprV::Operation {
            lhs: Box::new(expr_view(*lhs)),
            rhs: Box::new(expr_view(*rhs)),
            op,
        },
        Expr::BindingUsage(b) => ExprV::BindingUsage(b.name@),
        Expr::Block(b) => ExprV::Block(stmts_view(b.stmts@)),
    }
}

/// The abstract shapes of a sequence of executable statements.
pub open spec fn stmts_view(ss: Seq<Stmt>) -> Seq<StmtV>
    decreases ss,
{
    if ss.len() == 0 {
        Seq::empty()
    } else {
        seq![stmt_view(ss[0])] + stmts_view(ss.skip(1))
    }
}

/// The abstract shape of an executable statement.
pub open spec fn stmt_view(st: Stmt) -> StmtV
    decreases st,
{
    match st {
        Stmt::BindingDef(bd) => StmtV::BindingDef(
            BindingDefV { name: bd.name@, val: expr_view(bd.val) },
        ),
        Stmt::FuncDef(fd) => StmtV::FuncDef(
            FuncDefV {
                name: fd.name@,
                params: names_view(fd.params@),
                body: Box::new(stmt_view(*fd.body)),
            },
        ),
        Stmt::Expr(e) => StmtV::Expr(expr_view(e)),
    }
}

/// `stmts_view` maps the sequence elementwise.
pub proof fn lemma_stmts_view(ss: Seq<Stmt>)
    ensures
        stmts_view(ss).len() == ss.len(),
        forall|i: int| 0 <= i < ss.len() ==> stmts_view(ss)[i] == stmt_view(ss[i]),
    decreases ss,
{
    if ss.len() > 0 {
        lemma_stmts_view(ss.skip(1));
        assert forall|i: int| 0 <= i < ss.len() implies stmts_view(ss)[i] == stmt_view(ss[i]) by {
            if i > 0 {
                assert(stmts_view(ss.skip(1))[i - 1] == stmt_view(ss.skip(1)[i - 1]));
            }
        }
    }
}

/// `stmts_view` distributes over appending one statement.
pub proof fn lemma_stmts_view_push(ss: Seq<Stmt>, st: Stmt)
    ensures
        stmts_view(ss.push(st)) == stmts_view(ss).push(stmt_view(st)),
{
    lemma_stmts_view(ss.push(st));
    lemma_stmts_view(ss);
    assert(stmts_view(ss.push(st)) =~= stmts_view(ss).push(stmt_view(st)));
}

/// `names_view` maps the sequence elementwise over appending one name.
pub proof fn lemma_names_view_push(ns: Seq<String>, n: String)
    ensures
        names_view(ns.push(n)) == names_view(ns).push(n@),
{
    assert(names_view(ns.push(n)) =~= names_view(ns).push(n@));
}

impl View for Expr {
    type V = ExprV;

    open spec fn view(&self) -> ExprV {
        expr_view(*self)
    }
}

impl View for Stmt {
    type V = StmtV;

    open spec fn view(&self) -> StmtV {
        stmt_view(*self)
    }
}

impl View for BindingDef {
    type V = BindingDefV;

    open spec fn view(&self) -> BindingDefV {
        BindingDefV { name: self.name@, val: expr_view(self.val) }
    }
}

impl View for FuncDef {
    type V = FuncDefV;

    open spec fn view(&self) -> FuncDefV {
        FuncDefV {
            name: self.name@,
            params: names_view(self.params@),
            body: Box::new(stmt_view(*self.body)),
        }
    }
}

impl View for BindingUsage {
    type V = Seq<char>;

    open spec fn view(&self) -> Seq<char> {
        self.name@
    }
}

impl View for Block {
    type V = Seq<StmtV>;

    open spec fn view(&self) -> Seq<StmtV> {
        stmts_view(self.stmts@)
    }
}

} // verus!
