//! Evaluation, as mathematics: the scope chain as a sequence of maps, name
//! lookup through it, and one specification function per syntactic form.
//! The executable evaluators promise to return exactly what these functions
//! describe.
//!
//! Number arithmetic is 32-bit two's-complement: addition, subtraction and
//! multiplication wrap, division truncates and wraps on the one overflowing
//! quotient, and a zero divisor is reported as an evaluation error.
use vstd::prelude::*;

use crate::ast::{ExprV, NamedInfoV, StmtV};
use crate::expr::Op;
use crate::val::Val;
use vstd::wrapping::i32_specs;

verus! {

/// Looks `name` up through the scope chain, innermost scope last; a miss
/// recurses outward and ends at the root with `None`.
pub open spec fn chain_lookup(
    scopes: Seq<Map<Seq<char>, NamedInfoV>>,
    name: Seq<char>,
) -> Option<NamedInfoV>
    decreases scopes.len(),
{
    if scopes.len() == 0 {
        None
    } else if scopes.last().contains_key(name) {
        Some(scopes.last()[name])
    } else {
        chain_lookup(scopes.drop_last(), name)
    }
}

/// Stores `info` under `name` in the innermost scope, leaving every outer
/// scope untouched.
pub open spec fn store_in_top(
    scopes: Seq<Map<Seq<char>, NamedInfoV>>,
    name: Seq<char>,
    info: NamedInfoV,
) -> Seq<Map<Seq<char>, NamedInfoV>> {
    scopes.update(scopes.len() - 1, scopes.last().insert(name, info))
}

/// The failure text for a name that no scope binds to a value.
pub open spec fn binding_missing_text(name: Seq<char>) -> Seq<char> {
    "binding with name '"@ + name + "' does not exist"@
}

/// The failure text for a name that no scope binds to a function.
pub open spec fn func_missing_text(name: Seq<char>) -> Seq<char> {
    "function with name '"@ + name + "' does not exist"@
}

/// The failure text for an operation whose operands are not both numbers.
pub open spec fn not_numbers_text() -> Seq<char> {
    "cannot evaluate operation whose left-hand side and right-hand side are not both numbers"@
}

/// The failure text for a division by zero.
pub open spec fn div_zero_text() -> Seq<char> {
    "division by zero"@
}

/// Truncating 32-bit signed division for a nonzero divisor; the one
/// overflowing quotient wraps.
pub open spec fn trunc_div(a: i32, b: i32) -> i32 {
    let x = a as int;
    let d = b as int;
    let q = if x >= 0 && d > 0 {
        x / d
    } else if x < 0 && d < 0 {
        (-x) / (-d)
    } else if x < 0 {
        -((-x) / d)
    } else {
        -(x / (-d))
    };
    if q > i32::MAX {
        i32::MIN
    } else {
        q as i32
    }
}

/// The quotient of nonnegative `n` by positive `d` lies between zero and
/// `n`.
proof fn lemma_div_bounds(n: int, d: int)
    requires
        0 <= n,
        1 <= d,
    ensures
        0 <= n / d <= n,
{
    vstd::arithmetic::div_mod::lemma_div_pos_is_pos(n, d);
    vstd::arithmetic::div_mod::lemma_div_nonincreasing(n, d);
}

/// Away from the one overflowing quotient, `checked_div` succeeds.
pub proof fn lemma_checked_div_in_range(a: i32, b: i32)
    requires
        b != 0,
        !(a == i32::MIN && b == -1),
    ensures
        a.checked_div(b) is Some,
{
    let x = a as int;
    let d = b as int;
    if x > 0 && d > 0 {
        lemma_div_bounds(x, d);
    } else if x < 0 && d < 0 {
        lemma_div_bounds(-x, -d);
        if -d == 1 {
            assert((-x) / 1 == -x) by (nonlinear_arith);
        } else {
            assert((-x) / (-d) < -x) by {
                vstd::arithmetic::div_mod::lemma_div_decreases(-x, -d);
            }
        }
    } else if x < 0 {
        lemma_div_bounds(-x, d);
    } else if x > 0 {
        lemma_div_bounds(x, -d);
    }
}

/// Where `checked_div` succeeds it computes `trunc_div`.
pub proof fn lemma_checked_div_is_trunc_div(a: i32, b: i32)
    requires
        b != 0,
    ensures
        a.checked_div(b) matches Some(q) ==> q == trunc_div(a, b),
{
    let x = a as int;
    let d = b as int;
    if x == 0 {
        if d > 0 {
            lemma_div_bounds(0, d);
        } else {
            lemma_div_bounds(0, -d);
        }
    } else if x > 0 && d > 0 {
        lemma_div_bounds(x, d);
    } else if x < 0 && d < 0 {
        lemma_div_bounds(-x, -d);
    } else if x < 0 {
        lemma_div_bounds(-x, d);
    } else {
        lemma_div_bounds(x, -d);
    }
}

/// Applies an operator to two numbers.
pub open spec fn apply_op(op: Op, a: i32, b: i32) -> Result<Val, Seq<char>> {
    match op {
        Op::Add => Ok(Val::Number(i32_specs::wrapping_add(a, b))),
        Op::Sub => Ok(Val::Number(i32_specs::wrapping_sub(a, b))),
        Op::Mul => Ok(Val::Number(i32_specs::wrapping_mul(a, b))),
        Op::Div => if b == 0 {
            Err(div_zero_text())
        } else {
            Ok(Val::Number(trunc_div(a, b)))
        },
    }
}

/// The value of an expression in a scope chain. Expressions never change
/// the chain they are evaluated in: a block works on a child scope of its
/// own.
pub open spec fn eval_expr(e: ExprV, scopes: Seq<Map<Seq<char>, NamedInfoV>>) -> Result<
    Val,
    Seq<char>,
>
    decreases e, 2int,
{
    match e {
        ExprV::Number(n) => Ok(Val::Number(n)),
        ExprV::Operation { lhs, rhs, op } => match eval_expr(*lhs, scopes) {
            Err(e1) => Err(e1),
            Ok(lv) => match eval_expr(*rhs, scopes) {
                Err(e2) => Err(e2),
                Ok(rv) => match (lv, rv) {
                    (Val::Number(a), Val::Number(b)) => apply_op(op, a, b),
                    _ => Err(not_numbers_text()),
                },
            },
        },
        ExprV::BindingUsage(name) => match chain_lookup(scopes, name) {
            Some(NamedInfoV::Binding(v)) => Ok(v),
            _ => Err(binding_missing_text(name)),
        },
        ExprV::Block(stmts) => eval_block(stmts, scopes),
    }
}

/// The value of a block: an empty block is `Unit` and touches no scope; a
/// non-empty block runs its statements in a fresh child scope and yields
/// the last statement's value, discarding the child scope.
pub open spec fn eval_block(stmts: Seq<StmtV>, scopes: Seq<Map<Seq<char>, NamedInfoV>>) -> Result<
    Val,
    Seq<char>,
>
    decreases stmts, 1int,
{
    if stmts.len() == 0 {
        Ok(Val::Unit)
    } else {
        match eval_stmts_run(stmts, scopes.push(Map::empty())) {
            Err(e) => Err(e),
            Ok((_, v)) => Ok(v),
        }
    }
}

/// Runs a non-empty statement sequence in order, threading the scope
/// chain, and yields the last statement's value beside the final chain;
/// the first failure aborts the run.
pub open spec fn eval_stmts_run(
    stmts: Seq<StmtV>,
    scopes: Seq<Map<Seq<char>, NamedInfoV>>,
) -> Result<(Seq<Map<Seq<char>, NamedInfoV>>, Val), Seq<char>>
    decreases stmts, 0int,
{
    if stmts.len() == 0 {
        Err(Seq::empty())
    } else {
        match eval_stmt(stmts[0], scopes) {
            Err(e) => Err(e),
            Ok((sc2, v)) => if stmts.len() == 1 {
                Ok((sc2, v))
            } else {
                eval_stmts_run(stmts.skip(1), sc2)
            },
        }
    }
}

/// Evaluating a binding definition stores the value of its expression
/// under its name in the innermost scope.
pub open spec fn eval_binding_def(
    bd: crate::ast::BindingDefV,
    scopes: Seq<Map<Seq<char>, NamedInfoV>>,
) -> Result<Seq<Map<Seq<char>, NamedInfoV>>, Seq<char>>
    decreases bd, 0int,
{
    match eval_expr(bd.val, scopes) {
        Err(e) => Err(e),
        Ok(v) => Ok(store_in_top(scopes, bd.name, NamedInfoV::Binding(v))),
    }
}

/// Evaluating a function definition stores its parameters and body under
/// its name in the innermost scope; nothing is evaluated.
pub open spec fn eval_func_def(
    fd: crate::ast::FuncDefV,
    scopes: Seq<Map<Seq<char>, NamedInfoV>>,
) -> Seq<Map<Seq<char>, NamedInfoV>> {
    store_in_top(scopes, fd.name, NamedInfoV::Func { params: fd.params, body: *fd.body })
}

/// The value of a statement, beside the scope chain it leaves behind:
/// definitions store into the innermost scope and yield `Unit`, an
/// expression statement yields its value and leaves the chain unchanged.
pub open spec fn eval_stmt(st: StmtV, scopes: Seq<Map<Seq<char>, NamedInfoV>>) -> Result<
    (Seq<Map<Seq<char>, NamedInfoV>>, Val),
    Seq<char>,
>
    decreases st, 3int,
{
    match st {
        StmtV::BindingDef(bd) => match eval_binding_def(bd, scopes) {
            Err(e) => Err(e),
            Ok(sc2) => Ok((sc2, Val::Unit)),
        },
        StmtV::FuncDef(fd) => Ok((eval_func_def(fd, scopes), Val::Unit)),
        StmtV::Expr(e) => match eval_expr(e, scopes) {
            Err(er) => Err(er),
            Ok(v) => Ok((scopes, v)),
        },
    }
}

} // verus!
