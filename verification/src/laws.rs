//! The library's laws: statements that relate parsing, rendering and
//! evaluation across several functions, proved once and for all inputs.
use vstd::prelude::*;

use crate::ast::{BindingDefV, ExprV, NamedInfoV, StmtV};
use crate::expr::Op;
use crate::grammar::{parse_binding_def, parse_program, parse_stmt};
use crate::render::{
    grammatical_expr,
    grammatical_stmt,
    ident_chars,
    lemma_extract_ident_of,
    lemma_extract_one_space,
    lemma_parse_expr_of,
    lemma_parse_stmt_of,
    lemma_skip_nothing,
    lemma_skip_one_space,
    lemma_tag_of,
    render_expr,
    render_stmt,
};
use crate::semantics::{
    apply_op,
    eval_binding_def,
    eval_expr,
    eval_stmt,
    store_in_top,
    trunc_div,
};
use crate::utils::spec_skip_whitespace;
use crate::val::{nat_text, Val};

verus! {

/// Parsing the canonical rendering of any statement the grammar can
/// produce yields that statement back with nothing left over — so
/// re-rendering the result reproduces the original text exactly, and
/// canonical rendering loses nothing.
pub proof fn lemma_parse_render_round_trip(st: StmtV)
    requires
        grammatical_stmt(st),
    ensures
        parse_program(render_stmt(st)) == Ok::<StmtV, Seq<char>>(st),
{
    let empty = Seq::<char>::empty();
    assert(spec_skip_whitespace(empty).0 =~= empty) by {
        lemma_skip_nothing(empty);
    }
    lemma_parse_stmt_of(st, empty);
    assert(render_stmt(st) + empty =~= render_stmt(st));
}

/// For every valid identifier `n`, the text `let n = 10 / 2` parses to a
/// binding definition named `n` holding the operation `10 / 2`, and
/// evaluating that statement in any scope chain yields `Unit` and stores
/// `Number(5)` under `n` in the innermost scope.
pub proof fn lemma_let_binding_of_ten_over_two(n: Seq<char>, scopes: Seq<Map<Seq<char>, NamedInfoV>>)
    requires
        ident_chars(n),
        scopes.len() >= 1,
    ensures
        ({
            let text = seq!['l', 'e', 't', ' '] + n + seq![' ', '=', ' ', '1', '0', ' ', '/', ' ', '2'];
            let val = ExprV::Operation {
                lhs: Box::new(ExprV::Number(10)),
                rhs: Box::new(ExprV::Number(2)),
                op: Op::Div,
            };
            let st = StmtV::BindingDef(BindingDefV { name: n, val });
            parse_program(text) == Ok::<StmtV, Seq<char>>(st) && eval_stmt(st, scopes) == Ok::<
                (Seq<Map<Seq<char>, NamedInfoV>>, Val),
                Seq<char>,
            >((store_in_top(scopes, n, NamedInfoV::Binding(Val::Number(5))), Val::Unit))
        }),
{
    crate::grammar::lemma_literals();
    let empty = Seq::<char>::empty();
    let text = seq!['l', 'e', 't', ' '] + n + seq![' ', '=', ' ', '1', '0', ' ', '/', ' ', '2'];
    let val = ExprV::Operation {
        lhs: Box::new(ExprV::Number(10)),
        rhs: Box::new(ExprV::Number(2)),
        op: Op::Div,
    };
    let st = StmtV::BindingDef(BindingDefV { name: n, val });

    // The rendered right-hand side is exactly the text's tail.
    reveal_with_fuel(nat_text, 3);
    assert(nat_text(10) =~= seq!['1', '0']);
    assert(nat_text(2) =~= seq!['2']);
    assert(render_expr(ExprV::Number(10)) == nat_text(10));
    assert(render_expr(ExprV::Number(2)) == nat_text(2));
    assert(grammatical_expr(ExprV::Number(10)));
    assert(grammatical_expr(ExprV::Number(2)));
    assert(grammatical_expr(val));
    let rhs_text = render_expr(val);
    assert(rhs_text =~= seq!['1', '0', ' ', '/', ' ', '2']);

    // Walk the binding-definition rule over the text.
    let t1 = seq![' '] + n + seq![' ', '=', ' '] + rhs_text + empty;
    assert(text =~= "let"@ + t1);
    lemma_tag_of("let"@, t1);
    let t2 = n + seq![' ', '=', ' '] + rhs_text + empty;
    assert(t1 =~= seq![' '] + t2);
    assert(t2[0] == n[0]);
    lemma_extract_one_space(t2);
    let t3 = seq![' ', '=', ' '] + rhs_text + empty;
    assert(t2 =~= n + t3);
    lemma_extract_ident_of(n, t3);
    let t4 = seq!['=', ' '] + rhs_text + empty;
    assert(t3 =~= seq![' '] + t4);
    lemma_skip_one_space(t4);
    let t5 = seq![' '] + rhs_text + empty;
    assert(t4 =~= "="@ + t5);
    lemma_tag_of("="@, t5);
    let t6 = rhs_text + empty;
    assert(t5 =~= seq![' '] + t6);
    lemma_skip_one_space(t6);
    assert(spec_skip_whitespace(empty).0 =~= empty) by {
        lemma_skip_nothing(empty);
    }
    lemma_parse_expr_of(val, empty);
    assert(parse_binding_def(text) == Ok::<(Seq<char>, BindingDefV), Seq<char>>(
        (empty, BindingDefV { name: n, val }),
    ));
    assert(parse_stmt(text) == Ok::<(Seq<char>, StmtV), Seq<char>>((empty, st)));
    assert(parse_program(text) == Ok::<StmtV, Seq<char>>(st));

    // Evaluating the definition stores half of ten under the name.
    assert(eval_expr(ExprV::Number(10), scopes) == Ok::<Val, Seq<char>>(Val::Number(10)));
    assert(eval_expr(ExprV::Number(2), scopes) == Ok::<Val, Seq<char>>(Val::Number(2)));
    assert(trunc_div(10, 2) == 5);
    assert(apply_op(Op::Div, 10, 2) == Ok::<Val, Seq<char>>(Val::Number(5)));
    assert(eval_expr(val, scopes) == Ok::<Val, Seq<char>>(Val::Number(5)));
    assert(eval_binding_def(BindingDefV { name: n, val }, scopes) == Ok::<
        Seq<Map<Seq<char>, NamedInfoV>>,
        Seq<char>,
    >(store_in_top(scopes, n, NamedInfoV::Binding(Val::Number(5)))));
}

} // verus!

