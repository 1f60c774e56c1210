//! The grammar, as mathematics: one specification function per grammar
//! rule, each mapping the remaining input to `(remainder, parsed shape)` or
//! to the text of the failure. The executable parsers promise to return
//! exactly what these functions describe.
//!
//! Each rule consumes input before it recurses, so the definitions decrease
//! lexicographically on the input length and on a rank that orders the
//! rules called at the same position. The few length tests below only make
//! that decrease evident; `lemma_*_consumes` shows they always pass.
use vstd::prelude::*;

use crate::ast::{BindingDefV, ExprV, FuncDefV, StmtV};
use crate::expr::Op;
use crate::utils::{
    spec_extract_digits,
    spec_extract_ident,
    spec_extract_whitespace,
    spec_skip_whitespace,
    spec_tag,
    lemma_prefix_len,
};

verus! {

/// The numeric value of one decimal digit character.
pub open spec fn digit_val(c: char) -> int {
    c as int - '0' as int
}

/// The numeric value of a run of decimal digit characters.
pub open spec fn digits_val(ds: Seq<char>) -> int
    decreases ds.len(),
{
    if ds.len() == 0 {
        0
    } else {
        digits_val(ds.drop_last()) * 10 + digit_val(ds.last())
    }
}

/// A number literal: a run of digits whose value fits a 32-bit signed
/// integer; a run too large for it is reported rather than accepted.
pub open spec fn parse_number(s: Seq<char>) -> Result<(Seq<char>, ExprV), Seq<char>> {
    match spec_extract_digits(s) {
        Err(e) => Err(e),
        Ok((rem, digits)) => if digits_val(digits) <= i32::MAX {
            Ok((rem, ExprV::Number(digits_val(digits) as i32)))
        } else {
            Err("number literal is too large"@)
        },
    }
}

/// An operator: one of `+`, `-`, `*`, `/`, tried in that order.
pub open spec fn parse_op(s: Seq<char>) -> Result<(Seq<char>, Op), Seq<char>> {
    match spec_tag("+"@, s) {
        Ok(rem) => Ok((rem, Op::Add)),
        Err(_) => match spec_tag("-"@, s) {
            Ok(rem) => Ok((rem, Op::Sub)),
            Err(_) => match spec_tag("*"@, s) {
                Ok(rem) => Ok((rem, Op::Mul)),
                Err(_) => match spec_tag("/"@, s) {
                    Ok(rem) => Ok((rem, Op::Div)),
                    Err(e) => Err(e),
                },
            },
        },
    }
}

/// A non-operation expression: a number literal, else a binding usage,
/// else a block, tried in that order on the same input.
pub open spec fn parse_non_operation(s: Seq<char>) -> Result<(Seq<char>, ExprV), Seq<char>>
    decreases s.len(), 1int,
{
    match parse_number(s) {
        Ok(r) => Ok(r),
        Err(_) => match spec_extract_ident(s) {
            Ok((rem, name)) => Ok((rem, ExprV::BindingUsage(name))),
            Err(_) => parse_block(s),
        },
    }
}

/// An operation: a non-operation operand, an operator, and a second
/// non-operation operand, with optional whitespace between.
pub open spec fn parse_operation(s: Seq<char>) -> Result<(Seq<char>, ExprV), Seq<char>>
    decreases s.len(), 2int,
{
    match parse_non_operation(s) {
        Err(e) => Err(e),
        Ok((s1, lhs)) => {
            let s2 = spec_skip_whitespace(s1).0;
            match parse_op(s2) {
                Err(e) => Err(e),
                Ok((s3, op)) => {
                    let s4 = spec_skip_whitespace(s3).0;
                    if s4.len() <= s.len() {
                        match parse_non_operation(s4) {
                            Err(e) => Err(e),
                            Ok((s5, rhs)) => Ok(
                                (
                                    s5,
                                    ExprV::Operation {
                                        lhs: Box::new(lhs),
                                        rhs: Box::new(rhs),
                                        op,
                                    },
                                ),
                            ),
                        }
                    } else {
                        Err(Seq::empty())
                    }
                },
            }
        },
    }
}

/// An expression: an operation, else a non-operation expression.
pub open spec fn parse_expr(s: Seq<char>) -> Result<(Seq<char>, ExprV), Seq<char>>
    decreases s.len(), 3int,
{
    match parse_operation(s) {
        Ok(r) => Ok(r),
        Err(_) => parse_non_operation(s),
    }
}

/// A block: `{`, optional whitespace, any run of statements, optional
/// whitespace, `}`.
pub open spec fn parse_block(s: Seq<char>) -> Result<(Seq<char>, ExprV), Seq<char>>
    decreases s.len(), 0int,
{
    match spec_tag("{"@, s) {
        Err(e) => Err(e),
        Ok(s1) => {
            let s2 = spec_skip_whitespace(s1).0;
            if s2.len() < s.len() {
                let (s3, stmts) = parse_stmts(s2);
                let s4 = spec_skip_whitespace(s3).0;
                match spec_tag("}"@, s4) {
                    Err(e) => Err(e),
                    Ok(s5) => Ok((s5, ExprV::Block(stmts))),
                }
            } else {
                Err(Seq::empty())
            }
        },
    }
}

/// A run of statements: statements collected in order, whitespace skipped
/// after each, ended without failing by the first input that is no
/// statement.
pub open spec fn parse_stmts(s: Seq<char>) -> (Seq<char>, Seq<StmtV>)
    decreases s.len(), 5int,
{
    match parse_stmt(s) {
        Err(_) => (s, Seq::empty()),
        Ok((rem, st)) => {
            let rem2 = spec_skip_whitespace(rem).0;
            if rem2.len() < s.len() {
                let (rem3, rest) = parse_stmts(rem2);
                (rem3, seq![st] + rest)
            } else {
                (rem, seq![st])
            }
        },
    }
}

/// A run of identifiers, whitespace skipped after each, ended without
/// failing by the first input that is no identifier.
pub open spec fn parse_ident_list(s: Seq<char>) -> (Seq<char>, Seq<Seq<char>>)
    decreases s.len(), 0int,
{
    match spec_extract_ident(s) {
        Err(_) => (s, Seq::empty()),
        Ok((rem, id)) => {
            let rem2 = spec_skip_whitespace(rem).0;
            if rem2.len() < s.len() {
                let (rem3, rest) = parse_ident_list(rem2);
                (rem3, seq![id] + rest)
            } else {
                (rem, seq![id])
            }
        },
    }
}

/// A binding definition: `let`, a mandatory space run, an identifier,
/// optional whitespace, `=`, optional whitespace, an expression.
pub open spec fn parse_binding_def(s: Seq<char>) -> Result<(Seq<char>, BindingDefV), Seq<char>>
    decreases s.len(), 3int,
{
    match spec_tag("let"@, s) {
        Err(e) => Err(e),
        Ok(s1) => match spec_extract_whitespace(s1) {
            Err(e) => Err(e),
            Ok((s2, _)) => match spec_extract_ident(s2) {
                Err(e) => Err(e),
                Ok((s3, name)) => {
                    let s4 = spec_skip_whitespace(s3).0;
                    match spec_tag("="@, s4) {
                        Err(e) => Err(e),
                        Ok(s5) => {
                            let s6 = spec_skip_whitespace(s5).0;
                            if s6.len() < s.len() {
                                match parse_expr(s6) {
                                    Err(e) => Err(e),
                                    Ok((s7, val)) => Ok((s7, BindingDefV { name, val })),
                                }
                            } else {
                                Err(Seq::empty())
                            }
                        },
                    }
                },
            },
        },
    }
}

/// A function definition: `fn`, a mandatory space run, an identifier,
/// optional whitespace, a run of parameter identifiers, `=>`, optional
/// whitespace, a body statement.
pub open spec fn parse_func_def(s: Seq<char>) -> Result<(Seq<char>, FuncDefV), Seq<char>>
    decreases s.len(), 3int,
{
    match spec_tag("fn"@, s) {
        Err(e) => Err(e),
        Ok(s1) => match spec_extract_whitespace(s1) {
            Err(e) => Err(e),
            Ok((s2, _)) => match spec_extract_ident(s2) {
                Err(e) => Err(e),
                Ok((s3, name)) => {
                    let s4 = spec_skip_whitespace(s3).0;
                    if s4.len() < s.len() {
                        let (s5, params) = parse_ident_list(s4);
                        match spec_tag("=>"@, s5) {
                            Err(e) => Err(e),
                            Ok(s6) => {
                                let s7 = spec_skip_whitespace(s6).0;
                                if s7.len() < s.len() {
                                    match parse_stmt(s7) {
                                        Err(e) => Err(e),
                                        Ok((s8, body)) => Ok(
                                            (
                                                s8,
                                                FuncDefV {
                                                    name,
                                                    params,
                                                    body: Box::new(body),
                                                },
                                            ),
                                        ),
                                    }
                                } else {
                                    Err(Seq::empty())
                                }
                            },
                        }
                    } else {
                        Err(Seq::empty())
                    }
                },
            },
        },
    }
}

/// A statement: a binding definition, else a function definition, else an
/// expression, tried in that order on the same input; only the last
/// attempted alternative's failure is surfaced.
pub open spec fn parse_stmt(s: Seq<char>) -> Result<(Seq<char>, StmtV), Seq<char>>
    decreases s.len(), 4int,
{
    match parse_binding_def(s) {
        Ok((rem, bd)) => Ok((rem, StmtV::BindingDef(bd))),
        Err(_) => match parse_func_def(s) {
            Ok((rem, fd)) => Ok((rem, StmtV::FuncDef(fd))),
            Err(_) => match parse_expr(s) {
                Ok((rem, e)) => Ok((rem, StmtV::Expr(e))),
                Err(e) => Err(e),
            },
        },
    }
}

/// One whole statement, with nothing left over; unconsumed trailing text
/// is the failure `input was not consumed fully by parser`.
pub open spec fn parse_program(s: Seq<char>) -> Result<StmtV, Seq<char>> {
    match parse_stmt(s) {
        Err(e) => Err(e),
        Ok((rem, st)) => if rem.len() == 0 {
            Ok(st)
        } else {
            Err("input was not consumed fully by parser"@)
        },
    }
}

/// Whether every character of `ds` is an ASCII decimal digit.
pub open spec fn all_digits(ds: Seq<char>) -> bool {
    forall|i: int| 0 <= i < ds.len() ==> crate::utils::digit_char(#[trigger] ds[i])
}

/// The value of a run of digits is never negative.
pub proof fn lemma_digits_val_nonneg(ds: Seq<char>)
    requires
        all_digits(ds),
    ensures
        digits_val(ds) >= 0,
    decreases ds.len(),
{
    if ds.len() > 0 {
        assert(all_digits(ds.drop_last()));
        lemma_digits_val_nonneg(ds.drop_last());
    }
}

/// One more digit multiplies the prefix value by ten and adds the digit.
pub proof fn lemma_digits_val_step(ds: Seq<char>, i: int)
    requires
        0 <= i < ds.len(),
    ensures
        digits_val(ds.take(i + 1)) == digits_val(ds.take(i)) * 10 + digit_val(ds[i]),
{
    assert(ds.take(i + 1).drop_last() =~= ds.take(i));
    assert(ds.take(i + 1).last() == ds[i]);
}

/// The value of a digit run bounds the value of each of its prefixes.
pub proof fn lemma_digits_val_prefix_le(ds: Seq<char>, i: int)
    requires
        all_digits(ds),
        0 <= i <= ds.len(),
    ensures
        digits_val(ds.take(i)) <= digits_val(ds),
    decreases ds.len() - i,
{
    if i == ds.len() {
        assert(ds.take(i) =~= ds);
    } else {
        lemma_digits_val_step(ds, i);
        assert(all_digits(ds.take(i)));
        lemma_digits_val_nonneg(ds.take(i));
        lemma_digits_val_prefix_le(ds, i + 1);
    }
}

/// The characters of each literal token of the grammar.
pub proof fn lemma_literals()
    ensures
        "+"@ == seq!['+'],
        "-"@ == seq!['-'],
        "*"@ == seq!['*'],
        "/"@ == seq!['/'],
        "{"@ == seq!['{'],
        "}"@ == seq!['}'],
        "="@ == seq!['='],
        "=>"@ == seq!['=', '>'],
        "let"@ == seq!['l', 'e', 't'],
        "fn"@ == seq!['f', 'n'],
{
    reveal_strlit("+");
    reveal_strlit("-");
    reveal_strlit("*");
    reveal_strlit("/");
    reveal_strlit("{");
    reveal_strlit("}");
    reveal_strlit("=");
    reveal_strlit("=>");
    reveal_strlit("let");
    reveal_strlit("fn");
    assert("+"@ =~= seq!['+']);
    assert("-"@ =~= seq!['-']);
    assert("*"@ =~= seq!['*']);
    assert("/"@ =~= seq!['/']);
    assert("{"@ =~= seq!['{']);
    assert("}"@ =~= seq!['}']);
    assert("="@ =~= seq!['=']);
    assert("=>"@ =~= seq!['=', '>']);
    assert("let"@ =~= seq!['l', 'e', 't']);
    assert("fn"@ =~= seq!['f', 'n']);
}

/// Whitespace skipping never lengthens the input.
pub proof fn lemma_skip_ws_len(s: Seq<char>)
    ensures
        spec_skip_whitespace(s).0.len() <= s.len(),
        spec_skip_whitespace(s).0.len() + spec_skip_whitespace(s).1.len() == s.len(),
{
    lemma_prefix_len(|c: char| crate::utils::white_char(c), s);
}

/// A successful space run consumes at least one character.
pub proof fn lemma_extract_ws_consumes(s: Seq<char>)
    ensures
        spec_extract_whitespace(s) matches Ok(t) ==> t.0.len() < s.len(),
{
    lemma_prefix_len(|c: char| c == ' ', s);
}

/// A successful number literal consumes at least one character.
pub proof fn lemma_number_consumes(s: Seq<char>)
    ensures
        parse_number(s) matches Ok(t) ==> t.0.len() < s.len(),
{
    lemma_prefix_len(|c: char| crate::utils::digit_char(c), s);
}

/// A successful identifier consumes at least one character.
pub proof fn lemma_ident_consumes(s: Seq<char>)
    ensures
        spec_extract_ident(s) matches Ok(t) ==> t.0.len() < s.len() && 1 <= t.1.len() && t.0.len()
            + t.1.len() == s.len(),
{
    lemma_prefix_len(|c: char| crate::utils::word_char(c), s);
}

/// A successful operator consumes exactly one character.
pub proof fn lemma_op_consumes(s: Seq<char>)
    ensures
        parse_op(s) matches Ok(t) ==> t.0.len() + 1 == s.len(),
{
    lemma_literals();
}

/// A successful non-operation expression consumes at least one character.
pub proof fn lemma_non_operation_consumes(s: Seq<char>)
    ensures
        parse_non_operation(s) matches Ok(t) ==> t.0.len() < s.len(),
    decreases s.len(), 1int,
{
    lemma_number_consumes(s);
    lemma_ident_consumes(s);
    lemma_block_consumes(s);
}

/// A successful block consumes at least one character.
pub proof fn lemma_block_consumes(s: Seq<char>)
    ensures
        parse_block(s) matches Ok(t) ==> t.0.len() < s.len(),
    decreases s.len(), 0int,
{
    lemma_literals();
    match spec_tag("{"@, s) {
        Err(_) => {},
        Ok(s1) => {
            lemma_skip_ws_len(s1);
            let s2 = spec_skip_whitespace(s1).0;
            assert(s2.len() < s.len());
            lemma_stmts_consumes(s2);
            let s3 = parse_stmts(s2).0;
            lemma_skip_ws_len(s3);
        },
    }
}

/// A statement run never lengthens the input.
pub proof fn lemma_stmts_consumes(s: Seq<char>)
    ensures
        parse_stmts(s).0.len() <= s.len(),
    decreases s.len(), 5int,
{
    match parse_stmt(s) {
        Err(_) => {},
        Ok((rem, _)) => {
            lemma_stmt_consumes(s);
            lemma_skip_ws_len(rem);
            let rem2 = spec_skip_whitespace(rem).0;
            assert(rem2.len() < s.len());
            lemma_stmts_consumes(rem2);
        },
    }
}

/// An identifier run never lengthens the input.
pub proof fn lemma_ident_list_consumes(s: Seq<char>)
    ensures
        parse_ident_list(s).0.len() <= s.len(),
    decreases s.len(), 0int,
{
    match spec_extract_ident(s) {
        Err(_) => {},
        Ok((rem, _)) => {
            lemma_ident_consumes(s);
            lemma_skip_ws_len(rem);
            let rem2 = spec_skip_whitespace(rem).0;
            assert(rem2.len() < s.len());
            lemma_ident_list_consumes(rem2);
        },
    }
}

/// A successful operation consumes at least one character.
pub proof fn lemma_operation_consumes(s: Seq<char>)
    ensures
        parse_operation(s) matches Ok(t) ==> t.0.len() < s.len(),
    decreases s.len(), 2int,
{
    lemma_non_operation_consumes(s);
    match parse_non_operation(s) {
        Err(_) => {},
        Ok((s1, _)) => {
            lemma_skip_ws_len(s1);
            let s2 = spec_skip_whitespace(s1).0;
            lemma_op_consumes(s2);
            match parse_op(s2) {
                Err(_) => {},
                Ok((s3, _)) => {
                    lemma_skip_ws_len(s3);
                    let s4 = spec_skip_whitespace(s3).0;
                    assert(s4.len() <= s.len());
                    lemma_non_operation_consumes(s4);
                },
            }
        },
    }
}

/// A successful expression consumes at least one character.
pub proof fn lemma_expr_consumes(s: Seq<char>)
    ensures
        parse_expr(s) matches Ok(t) ==> t.0.len() < s.len(),
    decreases s.len(), 3int,
{
    lemma_operation_consumes(s);
    lemma_non_operation_consumes(s);
}

/// A successful binding definition consumes at least one character.
pub proof fn lemma_binding_def_consumes(s: Seq<char>)
    ensures
        parse_binding_def(s) matches Ok(t) ==> t.0.len() < s.len(),
    decreases s.len(), 3int,
{
    lemma_literals();
    match spec_tag("let"@, s) {
        Err(_) => {},
        Ok(s1) => {
            lemma_extract_ws_consumes(s1);
            match spec_extract_whitespace(s1) {
                Err(_) => {},
                Ok((s2, _)) => {
                    lemma_ident_consumes(s2);
                    match spec_extract_ident(s2) {
                        Err(_) => {},
                        Ok((s3, _)) => {
                            lemma_skip_ws_len(s3);
                            let s4 = spec_skip_whitespace(s3).0;
                            match spec_tag("="@, s4) {
                                Err(_) => {},
                                Ok(s5) => {
                                    lemma_skip_ws_len(s5);
                                    let s6 = spec_skip_whitespace(s5).0;
                                    assert(s6.len() < s.len());
                                    lemma_expr_consumes(s6);
                                },
                            }
                        },
                    }
                },
            }
        },
    }
}

/// A successful function definition consumes at least one character.
pub proof fn lemma_func_def_consumes(s: Seq<char>)
    ensures
        parse_func_def(s) matches Ok(t) ==> t.0.len() < s.len(),
    decreases s.len(), 3int,
{
    lemma_literals();
    match spec_tag("fn"@, s) {
        Err(_) => {},
        Ok(s1) => {
            lemma_extract_ws_consumes(s1);
            match spec_extract_whitespace(s1) {
                Err(_) => {},
                Ok((s2, _)) => {
                    lemma_ident_consumes(s2);
                    match spec_extract_ident(s2) {
                        Err(_) => {},
                        Ok((s3, _)) => {
                            lemma_skip_ws_len(s3);
                            let s4 = spec_skip_whitespace(s3).0;
                            assert(s4.len() < s.len());
                            lemma_ident_list_consumes(s4);
                            let s5 = parse_ident_list(s4).0;
                            match spec_tag("=>"@, s5) {
                                Err(_) => {},
                                Ok(s6) => {
                                    lemma_skip_ws_len(s6);
                                    let s7 = spec_skip_whitespace(s6).0;
                                    assert(s7.len() < s.len());
                                    lemma_stmt_consumes(s7);
                                },
                            }
                        },
                    }
                },
            }
        },
    }
}

/// A successful statement consumes at least one character.
pub proof fn lemma_stmt_consumes(s: Seq<char>)
    ensures
        parse_stmt(s) matches Ok(t) ==> t.0.len() < s.len(),
    decreases s.len(), 4int,
{
    lemma_binding_def_consumes(s);
    lemma_func_def_consumes(s);
    lemma_expr_consumes(s);
}

} // verus!

