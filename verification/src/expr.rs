//! The expression grammar: number literals, a single binary operation,
//! binding usages, and blocks.
use vstd::prelude::*;

pub mod binding_usage;
pub mod blocks;

pub use binding_usage::BindingUsage;
pub use blocks::Block;

use crate::ast::ExprV;
use crate::env::Env;
use crate::semantics::{
    apply_op,
    eval_expr,
    lemma_checked_div_in_range,
    lemma_checked_div_is_trunc_div,
    trunc_div,
};
use crate::val::Val;
use crate::grammar::{
    all_digits,
    digits_val,
    lemma_digits_val_nonneg,
    lemma_digits_val_prefix_le,
    lemma_digits_val_step,
    parse_expr,
    parse_non_operation,
    parse_number,
    parse_op,
    parse_operation,
};

verus! {

/// A number literal.
#[derive(Debug, Clone, Copy, PartialEq, Eq, Structural)]
pub struct Number(pub i32);

/// A binary operator, parsed from a single character.
#[derive(Debug, Clone, Copy, PartialEq, Eq, Structural)]
pub enum Op {
    Add,
    Sub,
    Mul,
    Div,
}

/// An expression: a literal, one binary operation between two
/// non-operation operands, a binding usage, or a block.
#[derive(Debug, PartialEq)]
pub enum Expr {
    Number(Number),
    Operation { lhs: Box<Expr>, rhs: Box<Expr>, op: Op },
    BindingUsage(BindingUsage),
    Block(Block),
}

impl Clone for Expr {
    /// A copy with the same abstract shape.
    fn clone(&self) -> (r: Self)
        ensures
            r@ == self@,
        decreases self,
    {
        match self {
            Expr::Number(n) => Expr::Number(*n),
            Expr::Operation { lhs, rhs, op } => Expr::Operation {
                lhs: Box::new((**lhs).clone()),
                rhs: Box::new((**rhs).clone()),
                op: *op,
            },
            Expr::BindingUsage(b) => Expr::BindingUsage(b.clone()),
            Expr::Block(b) => Expr::Block(b.clone()),
        }
    }
}

/// Reads the value of a digit run, or reports that it does not fit a
/// 32-bit signed integer.
fn digits_to_i32(digits: &str) -> (r: Option<i32>)
    requires
        all_digits(digits@),
        digits@.len() >= 1,
    ensures
        digits_val(digits@) <= i32::MAX ==> r == Some(digits_val(digits@) as i32),
        digits_val(digits@) > i32::MAX ==> r is None,
{
    let len: usize = digits.unicode_len();
    let mut acc: i32 = 0;
    let mut i: usize = 0;
    proof {
        assert(digits@.take(0) =~= Seq::<char>::empty());
    }
    while i < len
        invariant
            0 <= i <= len,
            len == digits@.len(),
            all_digits(digits@),
            acc == digits_val(digits@.take(i as int)),
        decreases len - i,
    {
        let c = digits.get_char(i);
        proof {
            lemma_digits_val_step(digits@, i as int);
            assert(all_digits(digits@.take(i as int + 1)));
            lemma_digits_val_nonneg(digits@.take(i as int + 1));
        }
        let d: u32 = c as u32 - '0' as u32;
        let step = match acc.checked_mul(10) {
            Some(t) => t.checked_add(d as i32),
            None => None,
        };
        match step {
            Some(next) => {
                acc = next;
            },
            None => {
                proof {
                    lemma_digits_val_prefix_le(digits@, i as int + 1);
                }
                return None;
            },
        }
        i += 1;
    }
    proof {
        assert(digits@.take(len as int) =~= digits@);
    }
    Some(acc)
}

impl Number {
    /// Reads a number literal from the front of `s`, as `parse_number`
    /// states it.
    pub fn new(s: &str) -> (r: Result<(&str, Self), String>)
        ensures
            match r {
                Ok(t) => parse_number(s@) == Ok::<(Seq<char>, ExprV), Seq<char>>(
                    (t.0@, ExprV::Number(t.1.0)),
                ),
                Err(m) => parse_number(s@) == Err::<(Seq<char>, ExprV), Seq<char>>(m@),
            },
    {
        match crate::utils::extract_digits(s) {
            Err(m) => Err(m),
            Ok((rem, digits)) => {
                proof {
                    crate::utils::lemma_prefix_len(|c: char| crate::utils::digit_char(c), s@);
                }
                match digits_to_i32(digits) {
                    Some(n) => Ok((rem, Number(n))),
                    None => Err(String::from_str("number literal is too large")),
                }
            },
        }
    }
}

impl Expr {
    /// Reads an expression from the front of `s`: an operation, else a
    /// non-operation expression, as `parse_expr` states it.
    pub fn new(s: &str) -> (r: Result<(&str, Self), String>)
        ensures
            match r {
                Ok(t) => parse_expr(s@) == Ok::<(Seq<char>, ExprV), Seq<char>>((t.0@, t.1@)),
                Err(m) => parse_expr(s@) == Err::<(Seq<char>, ExprV), Seq<char>>(m@),
            },
        decreases s@.len(), 3int,
    {
        match Self::new_operation(s) {
            Ok(t) => Ok(t),
            Err(_) => Self::new_non_operation(s),
        }
    }

    /// Reads a number literal as an expression.
    pub fn new_number(s: &str) -> (r: Result<(&str, Self), String>)
        ensures
            match r {
                Ok(t) => parse_number(s@) == Ok::<(Seq<char>, ExprV), Seq<char>>((t.0@, t.1@)),
                Err(m) => parse_number(s@) == Err::<(Seq<char>, ExprV), Seq<char>>(m@),
            },
    {
        match Number::new(s) {
            Ok((rem, number)) => Ok((rem, Expr::Number(number))),
            Err(m) => Err(m),
        }
    }

    /// Reads a non-operation expression: a number literal, else a binding
    /// usage, else a block, as `parse_non_operation` states it.
    pub fn new_non_operation(s: &str) -> (r: Result<(&str, Self), String>)
        ensures
            match r {
                Ok(t) => parse_non_operation(s@) == Ok::<(Seq<char>, ExprV), Seq<char>>(
                    (t.0@, t.1@),
                ),
                Err(m) => parse_non_operation(s@) == Err::<(Seq<char>, ExprV), Seq<char>>(m@),
            },
        decreases s@.len(), 1int,
    {
        match Self::new_number(s) {
            Ok(t) => Ok(t),
            Err(_) => match BindingUsage::new(s) {
                Ok((rem, binding_usage)) => Ok((rem, Expr::BindingUsage(binding_usage))),
                Err(_) => match Block::new(s) {
                    Ok((rem, block)) => Ok((rem, Expr::Block(block))),
                    Err(m) => Err(m),
                },
            },
        }
    }

    /// Reads an operation: a non-operation operand, an operator, and a
    /// second non-operation operand, as `parse_operation` states it.
    pub fn new_operation(s: &str) -> (r: Result<(&str, Self), String>)
        ensures
            match r {
                Ok(t) => parse_operation(s@) == Ok::<(Seq<char>, ExprV), Seq<char>>((t.0@, t.1@)),
                Err(m) => parse_operation(s@) == Err::<(Seq<char>, ExprV), Seq<char>>(m@),
            },
        decreases s@.len(), 2int,
    {
        let (s1, lhs) = match Self::new_non_operation(s) {
            Ok(t) => t,
            Err(m) => {
                return Err(m);
            },
        };
        let (s2, _) = crate::utils::skip_whitespace(s1);
        let (s3, op) = match Op::new(s2) {
            Ok(t) => t,
            Err(m) => {
                return Err(m);
            },
        };
        let (s4, _) = crate::utils::skip_whitespace(s3);
        proof {
            crate::grammar::lemma_non_operation_consumes(s@);
            crate::grammar::lemma_skip_ws_len(s1@);
            crate::grammar::lemma_op_consumes(s2@);
            crate::grammar::lemma_skip_ws_len(s3@);
        }
        let (s5, rhs) = match Self::new_non_operation(s4) {
            Ok(t) => t,
            Err(m) => {
                return Err(m);
            },
        };
        Ok((s5, Expr::Operation { lhs: Box::new(lhs), rhs: Box::new(rhs), op }))
    }
}

/// Applies an operator to two numbers: wrapping 32-bit arithmetic, with a
/// zero divisor reported as `division by zero`.
fn run_op(op: Op, a: i32, b: i32) -> (r: Result<Val, String>)
    ensures
        match r {
            Ok(v) => apply_op(op, a, b) == Ok::<Val, Seq<char>>(v),
            Err(m) => apply_op(op, a, b) matches Err(t) && m@ == t,
        },
{
    match op {
        Op::Add => Ok(Val::Number(a.wrapping_add(b))),
        Op::Sub => Ok(Val::Number(a.wrapping_sub(b))),
        Op::Mul => Ok(Val::Number(a.wrapping_mul(b))),
        Op::Div => {
            if b == 0 {
                Err(String::from_str("division by zero"))
            } else if a == i32::MIN && b == -1 {
                proof {
                    assert(trunc_div(a, b) == i32::MIN) by (nonlinear_arith)
                        requires a == i32::MIN && b == -1;
                }
                Ok(Val::Number(i32::MIN))
            } else {
                let q = match a.checked_div(b) {
                    Some(q) => q,
                    None => {
                        proof {
                            lemma_checked_div_in_range(a, b);
                        }
                        unreached()
                    },
                };
                proof {
                    lemma_checked_div_is_trunc_div(a, b);
                }
                Ok(Val::Number(q))
            }
        },
    }
}

impl Expr {
    /// The value of this expression in `env`, as `eval_expr` states it:
    /// a number yields itself, a binding usage the value its name is
    /// bound to, an operation applies its operator to two number
    /// operands, and a block runs in a child scope. The environment is
    /// never changed.
    pub fn eval(&self, env: &Env) -> (r: Result<Val, String>)
        ensures
            match r {
                Ok(v) => eval_expr(self@, env@) == Ok::<Val, Seq<char>>(v),
                Err(m) => eval_expr(self@, env@) matches Err(t) && m@ == t,
            },
        decreases *self,
    {
        match self {
            Expr::Operation { lhs, rhs, op } => {
                let lv = match lhs.eval(env) {
                    Ok(v) => v,
                    Err(m) => {
                        return Err(m);
                    },
                };
                let rv = match rhs.eval(env) {
                    Ok(v) => v,
                    Err(m) => {
                        return Err(m);
                    },
                };
                match (lv, rv) {
                    (Val::Number(a), Val::Number(b)) => run_op(*op, a, b),
                    _ => Err(
                        String::from_str(
                            "cannot evaluate operation whose left-hand side and right-hand side are not both numbers",
                        ),
                    ),
                }
            },
            Expr::Number(n) => Ok(Val::Number(n.0)),
            Expr::BindingUsage(binding_usage) => binding_usage.eval(env),
            Expr::Block(block) => block.eval(env),
        }
    }
}

impl Op {
    /// Reads an operator from the front of `s`, as `parse_op` states it.
    pub fn new(s: &str) -> (r: Result<(&str, Self), String>)
        ensures
            match r {
                Ok(t) => parse_op(s@) == Ok::<(Seq<char>, Op), Seq<char>>((t.0@, t.1)),
                Err(m) => parse_op(s@) == Err::<(Seq<char>, Op), Seq<char>>(m@),
            },
    {
        match crate::utils::tag("+", s) {
            Ok(rem) => Ok((rem, Op::Add)),
            Err(_) => match crate::utils::tag("-", s) {
                Ok(rem) => Ok((rem, Op::Sub)),
                Err(_) => match crate::utils::tag("*", s) {
                    Ok(rem) => Ok((rem, Op::Mul)),
                    Err(_) => match crate::utils::tag("/", s) {
                        Ok(rem) => Ok((rem, Op::Div)),
                        Err(m) => Err(m),
                    },
                },
            },
        }
    }
}

} // verus!
