//! The canonical rendering of syntax trees, and the law that parsing a
//! rendering yields the tree back unchanged — so re-rendering it
//! reproduces the same text, and nothing the grammar can express is lost
//! by printing and re-parsing it.
//!
//! The law quantifies over the trees the grammar itself can produce:
//! number literals are non-negative, operation operands are not
//! themselves operations, and names are identifiers that avoid the
//! reserved words `let` and `fn`.
use vstd::prelude::*;

use crate::ast::{BindingDefV, ExprV, FuncDefV, StmtV};
use crate::expr::Op;
use crate::grammar::{
    all_digits,
    digit_val,
    digits_val,
    parse_binding_def,
    parse_block,
    parse_expr,
    parse_func_def,
    parse_ident_list,
    parse_non_operation,
    parse_number,
    parse_op,
    parse_operation,
    parse_program,
    parse_stmt,
    parse_stmts,
    lemma_literals,
};
use crate::utils::{
    ascii_alpha_char,
    digit_char,
    lemma_prefix_len_is,
    spec_extract_digits,
    spec_extract_ident,
    spec_extract_whitespace,
    spec_skip_whitespace,
    spec_tag,
    white_char,
    word_char,
};
use crate::val::{digit_char_of, nat_text};

verus! {

/// A run of identifier characters: one ASCII letter, then alphanumerics.
pub open spec fn ident_chars(name: Seq<char>) -> bool {
    1 <= name.len() && ascii_alpha_char(name[0]) && (forall|i: int|
        0 <= i < name.len() ==> word_char(#[trigger] name[i]))
}

/// An identifier the grammar can use as a name without colliding with the
/// reserved words `let` and `fn`.
pub open spec fn ident_ok(name: Seq<char>) -> bool {
    ident_chars(name) && name != seq!['l', 'e', 't'] && name != seq!['f', 'n']
}

/// The character of an operator.
pub open spec fn op_text(op: Op) -> char {
    match op {
        Op::Add => '+',
        Op::Sub => '-',
        Op::Mul => '*',
        Op::Div => '/',
    }
}

/// The canonical text of an expression: single spaces around an operator
/// and inside a non-empty block, and nothing else.
pub open spec fn render_expr(e: ExprV) -> Seq<char>
    decreases e, 1int,
{
    match e {
        ExprV::Number(n) => nat_text(n as nat),
        ExprV::Operation { lhs, rhs, op } => render_expr(*lhs) + seq![' ', op_text(op), ' ']
            + render_expr(*rhs),
        ExprV::BindingUsage(name) => name,
        ExprV::Block(stmts) => if stmts.len() == 0 {
            seq!['{', '}']
        } else {
            seq!['{', ' '] + render_stmts(stmts) + seq![' ', '}']
        },
    }
}

/// The canonical text of a statement run: statements joined by single
/// spaces.
pub open spec fn render_stmts(stmts: Seq<StmtV>) -> Seq<char>
    decreases stmts, 0int,
{
    if stmts.len() == 0 {
        Seq::empty()
    } else if stmts.len() == 1 {
        render_stmt(stmts[0])
    } else {
        render_stmt(stmts[0]) + seq![' '] + render_stmts(stmts.skip(1))
    }
}

/// The canonical text of a parameter list: each name followed by one
/// space.
pub open spec fn params_text(params: Seq<Seq<char>>) -> Seq<char>
    decreases params,
{
    if params.len() == 0 {
        Seq::empty()
    } else {
        params[0] + seq![' '] + params_text(params.skip(1))
    }
}

/// The canonical text of a statement.
pub open spec fn render_stmt(st: StmtV) -> Seq<char>
    decreases st, 2int,
{
    match st {
        StmtV::BindingDef(bd) => seq!['l', 'e', 't', ' '] + bd.name + seq![' ', '=', ' ']
            + render_expr(bd.val),
        StmtV::FuncDef(fd) => seq!['f', 'n', ' '] + fd.name + seq![' '] + params_text(fd.params)
            + seq!['=', '>', ' '] + render_stmt(*fd.body),
        StmtV::Expr(e) => render_expr(e),
    }
}

/// The trees the expression grammar itself can produce.
pub open spec fn grammatical_expr(e: ExprV) -> bool
    decreases e,
{
    match e {
        ExprV::Number(n) => n >= 0,
        ExprV::Operation { lhs, rhs, op } => !(*lhs is Operation) && !(*rhs is Operation)
            && grammatical_expr(*lhs) && grammatical_expr(*rhs),
        ExprV::BindingUsage(name) => ident_ok(name),
        ExprV::Block(stmts) => forall|i: int|
            0 <= i < stmts.len() ==> grammatical_stmt(#[trigger] stmts[i]),
    }
}

/// The trees the statement grammar itself can produce.
pub open spec fn grammatical_stmt(st: StmtV) -> bool
    decreases st,
{
    match st {
        StmtV::BindingDef(bd) => ident_ok(bd.name) && grammatical_expr(bd.val),
        StmtV::FuncDef(fd) => ident_ok(fd.name) && (forall|i: int|
            0 <= i < fd.params.len() ==> ident_ok(#[trigger] fd.params[i])) && grammatical_stmt(
            *fd.body,
        ),
        StmtV::Expr(e) => grammatical_expr(e),
    }
}

/// What may follow a rendered fragment: nothing, or a space.
pub open spec fn boundary(rest: Seq<char>) -> bool {
    rest.len() == 0 || rest[0] == ' '
}

/// A character that can begin a rendered expression.
pub open spec fn expr_head(c: char) -> bool {
    digit_char(c) || ascii_alpha_char(c) || c == '{'
}

/// A character that can begin a rendered statement.
pub open spec fn stmt_head(c: char) -> bool {
    expr_head(c) || c == 'l' || c == 'f'
}

/// After skipping whitespace, the rest does not begin with an operator.
pub open spec fn after_ws_no_op(rest: Seq<char>) -> bool {
    let r2 = spec_skip_whitespace(rest).0;
    r2.len() == 0 || (r2[0] != '+' && r2[0] != '-' && r2[0] != '*' && r2[0] != '/')
}

/// The decimal rendering of a number is a non-empty digit run carrying
/// the number's value.
pub proof fn lemma_nat_text(n: nat)
    ensures
        all_digits(nat_text(n)),
        nat_text(n).len() >= 1,
        digits_val(nat_text(n)) == n,
    decreases n,
{
    if n < 10 {
        assert(digit_char(digit_char_of(n as int)));
        assert(digit_val(digit_char_of(n as int)) == n);
        assert(all_digits(nat_text(n)));
        assert(nat_text(n).drop_last() =~= Seq::<char>::empty());
        assert(digits_val(Seq::<char>::empty()) == 0);
        assert(nat_text(n).last() == digit_char_of(n as int));
    } else {
        lemma_nat_text(n / 10);
        let prev = nat_text(n / 10);
        let d = digit_char_of((n % 10) as int);
        assert(digit_char(d));
        assert(digit_val(d) == n % 10);
        assert(nat_text(n) == prev.push(d));
        assert(nat_text(n).drop_last() =~= prev);
        assert forall|i: int| 0 <= i < nat_text(n).len() implies digit_char(
            #[trigger] nat_text(n)[i],
        ) by {
            if i < prev.len() {
                assert(prev[i] == nat_text(n)[i]);
            }
        }
    }
}

/// Identifier characters are never the space, a delimiter, an operator,
/// `=` or `>`.
pub proof fn lemma_word_char_facts(c: char)
    requires
        word_char(c),
    ensures
        c != ' ' && c != '=' && c != '>' && c != '{' && c != '}' && c != '+' && c != '-' && c != '*'
            && c != '/',
{
}

/// An identifier run extracts itself exactly when what follows cannot
/// continue it.
pub proof fn lemma_extract_ident_of(name: Seq<char>, rest: Seq<char>)
    requires
        ident_chars(name),
        rest.len() == 0 || !word_char(rest[0]),
    ensures
        spec_extract_ident(name + rest) == Ok::<(Seq<char>, Seq<char>), Seq<char>>((rest, name)),
{
    let s = name + rest;
    assert(s[0] == name[0]);
    assert forall|i: int| 0 <= i < name.len() implies word_char(#[trigger] s[i]) by {
        assert(s[i] == name[i]);
    }
    if name.len() < s.len() {
        assert(s[name.len() as int] == rest[0]);
    }
    lemma_prefix_len_is(|c: char| word_char(c), s, name.len() as int);
    assert(s.skip(name.len() as int) =~= rest);
    assert(s.take(name.len() as int) =~= name);
}

/// A digit run extracts itself exactly when what follows is no digit.
pub proof fn lemma_extract_digits_of(ds: Seq<char>, rest: Seq<char>)
    requires
        all_digits(ds),
        ds.len() >= 1,
        rest.len() == 0 || !digit_char(rest[0]),
    ensures
        spec_extract_digits(ds + rest) == Ok::<(Seq<char>, Seq<char>), Seq<char>>((rest, ds)),
{
    let s = ds + rest;
    assert(s[0] == ds[0]);
    assert forall|i: int| 0 <= i < ds.len() implies digit_char(#[trigger] s[i]) by {
        assert(s[i] == ds[i]);
    }
    if ds.len() < s.len() {
        assert(s[ds.len() as int] == rest[0]);
    }
    lemma_prefix_len_is(|c: char| digit_char(c), s, ds.len() as int);
    assert(s.skip(ds.len() as int) =~= rest);
    assert(s.take(ds.len() as int) =~= ds);
}

/// A literal strips itself from the front of what it prefixes.
pub proof fn lemma_tag_of(t: Seq<char>, rest: Seq<char>)
    ensures
        spec_tag(t, t + rest) == Ok::<Seq<char>, Seq<char>>(rest),
{
    let s = t + rest;
    assert(s.take(t.len() as int) =~= t);
    assert(s.skip(t.len() as int) =~= rest);
}

/// A literal fails against text that differs within its length.
pub proof fn lemma_tag_differs(t: Seq<char>, s: Seq<char>, i: int)
    requires
        0 <= i < t.len(),
        i < s.len() ==> s[i] != t[i],
    ensures
        spec_tag(t, s) is Err,
{
    if t.len() <= s.len() {
        assert(s.take(t.len() as int)[i] == s[i]);
    }
}

/// Exactly one leading space is skipped when what follows is not
/// whitespace.
pub proof fn lemma_skip_one_space(rest: Seq<char>)
    requires
        rest.len() == 0 || !white_char(rest[0]),
    ensures
        spec_skip_whitespace(seq![' '] + rest).0 == rest,
        spec_skip_whitespace(seq![' '] + rest).1 == seq![' '],
{
    let s = seq![' '] + rest;
    assert(s[0] == ' ');
    assert(white_char(' '));
    if 1 < s.len() {
        assert(s[1] == rest[0]);
    }
    lemma_prefix_len_is(|c: char| white_char(c), s, 1);
    assert(s.skip(1) =~= rest);
    assert(s.take(1) =~= seq![' ']);
}

/// Nothing is skipped when the text does not begin with whitespace.
pub proof fn lemma_skip_nothing(s: Seq<char>)
    requires
        s.len() == 0 || !white_char(s[0]),
    ensures
        spec_skip_whitespace(s).0 == s,
{
    lemma_prefix_len_is(|c: char| white_char(c), s, 0);
    assert(s.skip(0) =~= s);
}

/// Exactly one leading space is extracted when what follows is no space.
pub proof fn lemma_extract_one_space(rest: Seq<char>)
    requires
        rest.len() == 0 || rest[0] != ' ',
    ensures
        spec_extract_whitespace(seq![' '] + rest) == Ok::<(Seq<char>, Seq<char>), Seq<char>>(
            (rest, seq![' ']),
        ),
{
    let s = seq![' '] + rest;
    assert(s[0] == ' ');
    if 1 < s.len() {
        assert(s[1] == rest[0]);
    }
    lemma_prefix_len_is(|c: char| c == ' ', s, 1);
    assert(s.skip(1) =~= rest);
    assert(s.take(1) =~= seq![' ']);
}

/// A rendered expression is non-empty and begins with an expression head
/// character.
pub proof fn lemma_render_expr_shape(e: ExprV)
    requires
        grammatical_expr(e),
    ensures
        render_expr(e).len() >= 1,
        expr_head(render_expr(e)[0]),
    decreases e,
{
    match e {
        ExprV::Number(n) => {
            lemma_nat_text(n as nat);
        },
        ExprV::Operation { lhs, rhs, op } => {
            lemma_render_expr_shape(*lhs);
            assert(render_expr(e)[0] == render_expr(*lhs)[0]);
        },
        ExprV::BindingUsage(name) => {
            assert(render_expr(e)[0] == name[0]);
        },
        ExprV::Block(stmts) => {
            assert(render_expr(e)[0] == '{');
        },
    }
}

/// A rendered statement run is non-empty, begins with a statement head
/// character, and contains `=` only inside `let` and `=>` forms.
pub proof fn lemma_render_stmts_shape(stmts: Seq<StmtV>)
    requires
        stmts.len() >= 1,
        forall|i: int| 0 <= i < stmts.len() ==> grammatical_stmt(#[trigger] stmts[i]),
    ensures
        render_stmts(stmts).len() >= 1,
        stmt_head(render_stmts(stmts)[0]),
    decreases stmts,
{
    lemma_render_stmt_shape(stmts[0]);
    if stmts.len() > 1 {
        assert(render_stmts(stmts)[0] == render_stmt(stmts[0])[0]);
        lemma_render_stmts_shape(stmts.skip(1));
    }
}

/// A rendered statement is non-empty and begins with a statement head
/// character.
pub proof fn lemma_render_stmt_shape(st: StmtV)
    requires
        grammatical_stmt(st),
    ensures
        render_stmt(st).len() >= 1,
        stmt_head(render_stmt(st)[0]),
    decreases st,
{
    match st {
        StmtV::BindingDef(bd) => {
            assert(render_stmt(st)[0] == 'l');
        },
        StmtV::FuncDef(fd) => {
            assert(render_stmt(st)[0] == 'f');
        },
        StmtV::Expr(e) => {
            lemma_render_expr_shape(e);
        },
    }
}

/// Head characters are not whitespace and not operators.
pub proof fn lemma_stmt_head_facts(c: char)
    requires
        stmt_head(c),
    ensures
        !white_char(c),
        c != '+' && c != '-' && c != '*' && c != '/',
        c != '}' && c != '=' && c != '>',
{
}

/// No statement can be read from an empty input or one that begins with
/// a closing brace, an `=` or a `>`.
pub proof fn lemma_parse_stmt_fails_at_close(s: Seq<char>)
    requires
        s.len() == 0 || s[0] == '}' || s[0] == '=' || s[0] == '>',
    ensures
        parse_stmt(s) is Err,
{
    lemma_literals();
    if s.len() > 0 {
        lemma_tag_differs("let"@, s, 0);
        lemma_tag_differs("fn"@, s, 0);
        lemma_tag_differs("{"@, s, 0);
    }
    assert(parse_binding_def(s) is Err);
    assert(parse_func_def(s) is Err);
    assert(parse_number(s) is Err);
    assert(spec_extract_ident(s) is Err);
    assert(parse_block(s) is Err);
    assert(parse_non_operation(s) is Err);
    assert(parse_operation(s) is Err);
    assert(parse_expr(s) is Err);
}

/// No operator can be read from an empty input or one that begins with
/// anything but an operator character.
pub proof fn lemma_parse_op_fails(s: Seq<char>)
    requires
        s.len() == 0 || (s[0] != '+' && s[0] != '-' && s[0] != '*' && s[0] != '/'),
    ensures
        parse_op(s) is Err,
{
    lemma_literals();
    if s.len() > 0 {
        lemma_tag_differs("+"@, s, 0);
        lemma_tag_differs("-"@, s, 0);
        lemma_tag_differs("*"@, s, 0);
        lemma_tag_differs("/"@, s, 0);
    }
}

/// A binding definition cannot be read from a rendered expression: what
/// begins like `let` is an identifier that continues or ends differently.
pub proof fn lemma_binding_def_fails_on_expr(e: ExprV, rest: Seq<char>)
    requires
        grammatical_expr(e),
        boundary(rest),
    ensures
        parse_binding_def(render_expr(e) + rest) is Err,
    decreases e,
{
    lemma_literals();
    let s = render_expr(e) + rest;
    match e {
        ExprV::Number(n) => {
            lemma_nat_text(n as nat);
            assert(s[0] == nat_text(n as nat)[0]);
            assert(digit_char(s[0]));
            lemma_tag_differs("let"@, s, 0);
        },
        ExprV::Block(stmts) => {
            assert(s[0] == '{');
            lemma_tag_differs("let"@, s, 0);
        },
        ExprV::BindingUsage(name) => {
            if "let"@.len() <= s.len() && s.take(3) == "let"@ {
                assert forall|i: int| 0 <= i < name.len() implies word_char(#[trigger] s[i]) by {
                    assert(s[i] == name[i]);
                }
                if name.len() < 3 {
                    assert(s[name.len() as int] == rest[0]);
                    assert(s.take(3)[name.len() as int] == "let"@[name.len() as int]);
                    assert(false);
                } else if name.len() == 3 {
                    assert(name =~= seq!['l', 'e', 't']);
                    assert(false);
                } else {
                    let rem = s.skip(3);
                    assert(rem[0] == s[3] == name[3]);
                    lemma_word_char_facts(name[3]);
                    lemma_prefix_len_is(|c: char| c == ' ', rem, 0);
                }
            }
        },
        ExprV::Operation { lhs, rhs, op } => {
            let tail = seq![' ', op_text(op), ' '] + render_expr(*rhs) + rest;
            assert(render_expr(e) + rest =~= render_expr(*lhs) + tail);
            assert(tail[0] == ' ');
            lemma_binding_def_fails_on_expr(*lhs, tail);
        },
    }
}

/// A function definition cannot be read from a rendered expression: what
/// begins like `fn` is an identifier that continues or ends differently.
pub proof fn lemma_func_def_fails_on_expr(e: ExprV, rest: Seq<char>)
    requires
        grammatical_expr(e),
        boundary(rest),
    ensures
        parse_func_def(render_expr(e) + rest) is Err,
    decreases e,
{
    lemma_literals();
    let s = render_expr(e) + rest;
    match e {
        ExprV::Number(n) => {
            lemma_nat_text(n as nat);
            assert(s[0] == nat_text(n as nat)[0]);
            assert(digit_char(s[0]));
            lemma_tag_differs("fn"@, s, 0);
        },
        ExprV::Block(stmts) => {
            assert(s[0] == '{');
            lemma_tag_differs("fn"@, s, 0);
        },
        ExprV::BindingUsage(name) => {
            if "fn"@.len() <= s.len() && s.take(2) == "fn"@ {
                assert forall|i: int| 0 <= i < name.len() implies word_char(#[trigger] s[i]) by {
                    assert(s[i] == name[i]);
                }
                if name.len() < 2 {
                    assert(s[name.len() as int] == rest[0]);
                    assert(s.take(2)[name.len() as int] == "fn"@[name.len() as int]);
                    assert(false);
                } else if name.len() == 2 {
                    assert(name =~= seq!['f', 'n']);
                    assert(false);
                } else {
                    let rem = s.skip(2);
                    assert(rem[0] == s[2] == name[2]);
                    lemma_word_char_facts(name[2]);
                    lemma_prefix_len_is(|c: char| c == ' ', rem, 0);
                }
            }
        },
        ExprV::Operation { lhs, rhs, op } => {
            let tail = seq![' ', op_text(op), ' '] + render_expr(*rhs) + rest;
            assert(render_expr(e) + rest =~= render_expr(*lhs) + tail);
            assert(tail[0] == ' ');
            lemma_func_def_fails_on_expr(*lhs, tail);
        },
    }
}

/// A rendered identifier run reads back as itself, leaving the arrow.
pub proof fn lemma_parse_ident_list_of(params: Seq<Seq<char>>, after: Seq<char>)
    requires
        forall|i: int| 0 <= i < params.len() ==> ident_chars(#[trigger] params[i]),
    ensures
        parse_ident_list(params_text(params) + seq!['=', '>'] + after) == (
            (seq!['=', '>'] + after),
            params,
        ),
    decreases params,
{
    let s = params_text(params) + seq!['=', '>'] + after;
    if params.len() == 0 {
        assert(s =~= seq!['=', '>'] + after);
        assert(s[0] == '=');
        assert(spec_extract_ident(s) is Err);
        assert(parse_ident_list(s).0 == s);
        assert(parse_ident_list(s).1 =~= params);
    } else {
        let p0 = params[0];
        let next = params_text(params.skip(1)) + seq!['=', '>'] + after;
        let tail = seq![' '] + next;
        assert(s =~= p0 + tail);
        lemma_extract_ident_of(p0, tail);
        if params.len() > 1 {
            assert(params.skip(1)[0] == params[1]);
            assert(next[0] == params[1][0]);
            assert(ascii_alpha_char(next[0]));
        } else {
            assert(params_text(params.skip(1)) =~= Seq::<char>::empty());
            assert(next =~= seq!['=', '>'] + after);
            assert(next[0] == '=');
        }
        lemma_skip_one_space(next);
        lemma_parse_ident_list_of(params.skip(1), after);
        assert(seq![p0] + params.skip(1) =~= params);
        assert(parse_ident_list(s) == ((seq!['=', '>'] + after), params));
    }
}

/// A rendered non-operation expression reads back as itself.
pub proof fn lemma_parse_non_operation_of(e: ExprV, rest: Seq<char>)
    requires
        grammatical_expr(e),
        !(e is Operation),
        boundary(rest),
    ensures
        parse_non_operation(render_expr(e) + rest) == Ok::<(Seq<char>, ExprV), Seq<char>>(
            (rest, e),
        ),
    decreases e, 0int,
{
    let s = render_expr(e) + rest;
    match e {
        ExprV::Number(n) => {
            lemma_nat_text(n as nat);
            lemma_extract_digits_of(nat_text(n as nat), rest);
            assert(parse_number(s) == Ok::<(Seq<char>, ExprV), Seq<char>>((rest, e)));
        },
        ExprV::BindingUsage(name) => {
            assert(s[0] == name[0]);
            lemma_prefix_len_is(|c: char| digit_char(c), s, 0);
            assert(parse_number(s) is Err);
            lemma_extract_ident_of(name, rest);
        },
        ExprV::Block(stmts) => {
            assert(s[0] == '{');
            lemma_prefix_len_is(|c: char| digit_char(c), s, 0);
            assert(parse_number(s) is Err);
            assert(spec_extract_ident(s) is Err);
            lemma_parse_block_of(stmts, rest);
        },
        ExprV::Operation { .. } => {},
    }
}

/// A rendered block reads back as itself.
pub proof fn lemma_parse_block_of(stmts: Seq<StmtV>, rest: Seq<char>)
    requires
        forall|i: int| 0 <= i < stmts.len() ==> grammatical_stmt(#[trigger] stmts[i]),
        boundary(rest),
    ensures
        parse_block(render_expr(ExprV::Block(stmts)) + rest) == Ok::<(Seq<char>, ExprV), Seq<char>>(
            (rest, ExprV::Block(stmts)),
        ),
    decreases stmts, 2int,
{
    lemma_literals();
    let s = render_expr(ExprV::Block(stmts)) + rest;
    if stmts.len() == 0 {
        let t1 = seq!['}'] + rest;
        assert(s =~= "{"@ + t1);
        lemma_tag_of("{"@, t1);
        lemma_skip_nothing(t1);
        lemma_parse_stmt_fails_at_close(t1);
        assert(parse_stmts(t1) == (t1, Seq::<StmtV>::empty()));
        assert(t1 =~= "}"@ + rest);
        lemma_tag_of("}"@, rest);
        assert(stmts =~= Seq::<StmtV>::empty());
        assert(parse_block(s) == Ok::<(Seq<char>, ExprV), Seq<char>>((rest, ExprV::Block(stmts))));
    } else {
        let next = render_stmts(stmts) + seq![' ', '}'] + rest;
        let t1 = seq![' '] + next;
        assert(s =~= "{"@ + t1);
        lemma_tag_of("{"@, t1);
        lemma_render_stmts_shape(stmts);
        lemma_stmt_head_facts(render_stmts(stmts)[0]);
        assert(next[0] == render_stmts(stmts)[0]);
        lemma_skip_one_space(next);
        lemma_parse_stmts_of(stmts, rest);
        let t3 = seq!['}'] + rest;
        lemma_skip_nothing(t3);
        assert(t3 =~= "}"@ + rest);
        lemma_tag_of("}"@, rest);
        assert(parse_block(s) == Ok::<(Seq<char>, ExprV), Seq<char>>((rest, ExprV::Block(stmts))));
    }
}

/// A rendered statement run reads back as itself, stopping at the
/// closing brace.
pub proof fn lemma_parse_stmts_of(stmts: Seq<StmtV>, rest: Seq<char>)
    requires
        stmts.len() >= 1,
        forall|i: int| 0 <= i < stmts.len() ==> grammatical_stmt(#[trigger] stmts[i]),
    ensures
        parse_stmts(render_stmts(stmts) + seq![' ', '}'] + rest) == (
            (seq!['}'] + rest),
            stmts,
        ),
    decreases stmts, 1int,
{
    let s = render_stmts(stmts) + seq![' ', '}'] + rest;
    let close = seq!['}'] + rest;
    if stmts.len() == 1 {
        let tail = seq![' ', '}'] + rest;
        assert(s =~= render_stmt(stmts[0]) + tail);
        assert(tail[0] == ' ');
        assert(tail =~= seq![' '] + close);
        lemma_skip_one_space(close);
        assert(after_ws_no_op(tail)) by {
            assert(spec_skip_whitespace(tail).0 == close);
        }
        lemma_parse_stmt_of(stmts[0], tail);
        lemma_parse_stmt_fails_at_close(close);
        assert(parse_stmts(close) == (close, Seq::<StmtV>::empty()));
        assert(seq![stmts[0]] + Seq::<StmtV>::empty() =~= stmts);
        assert(parse_stmts(s) == (close, stmts));
    } else {
        let next = render_stmts(stmts.skip(1)) + seq![' ', '}'] + rest;
        let tail = seq![' '] + next;
        assert(render_stmts(stmts) =~= render_stmt(stmts[0]) + seq![' '] + render_stmts(
            stmts.skip(1),
        ));
        assert(s =~= render_stmt(stmts[0]) + tail);
        assert(forall|i: int|
            0 <= i < stmts.skip(1).len() ==> grammatical_stmt(#[trigger] stmts.skip(1)[i]));
        lemma_render_stmts_shape(stmts.skip(1));
        lemma_stmt_head_facts(render_stmts(stmts.skip(1))[0]);
        assert(next[0] == render_stmts(stmts.skip(1))[0]);
        lemma_skip_one_space(next);
        assert(after_ws_no_op(tail)) by {
            assert(spec_skip_whitespace(tail).0 == next);
        }
        lemma_parse_stmt_of(stmts[0], tail);
        lemma_parse_stmts_of(stmts.skip(1), rest);
        assert(seq![stmts[0]] + stmts.skip(1) =~= stmts);
        assert(parse_stmts(s) == (close, stmts));
    }
}

/// A rendered statement reads back as itself, when what follows keeps
/// the statement boundary: it is empty or starts with a space, and after
/// any whitespace no operator follows.
pub proof fn lemma_parse_stmt_of(st: StmtV, rest: Seq<char>)
    requires
        grammatical_stmt(st),
        boundary(rest),
        after_ws_no_op(rest),
    ensures
        parse_stmt(render_stmt(st) + rest) == Ok::<(Seq<char>, StmtV), Seq<char>>((rest, st)),
    decreases st, 1int,
{
    lemma_literals();
    let s = render_stmt(st) + rest;
    match st {
        StmtV::BindingDef(bd) => {
            let t1 = seq![' '] + bd.name + seq![' ', '=', ' '] + render_expr(bd.val) + rest;
            assert(s =~= "let"@ + t1);
            lemma_tag_of("let"@, t1);
            let t2 = bd.name + seq![' ', '=', ' '] + render_expr(bd.val) + rest;
            assert(t1 =~= seq![' '] + t2);
            assert(t2[0] == bd.name[0]);
            lemma_extract_one_space(t2);
            let t3 = seq![' ', '=', ' '] + render_expr(bd.val) + rest;
            assert(t2 =~= bd.name + t3);
            lemma_extract_ident_of(bd.name, t3);
            let t4 = seq!['=', ' '] + render_expr(bd.val) + rest;
            assert(t3 =~= seq![' '] + t4);
            lemma_skip_one_space(t4);
            let t5 = seq![' '] + render_expr(bd.val) + rest;
            assert(t4 =~= "="@ + t5);
            lemma_tag_of("="@, t5);
            let t6 = render_expr(bd.val) + rest;
            lemma_render_expr_shape(bd.val);
            assert(t5 =~= seq![' '] + t6);
            lemma_skip_one_space(t6);
            lemma_parse_expr_of(bd.val, rest);
            assert(parse_binding_def(s) == Ok::<(Seq<char>, BindingDefV), Seq<char>>(
                (rest, BindingDefV { name: bd.name, val: bd.val }),
            ));
            assert(BindingDefV { name: bd.name, val: bd.val } == bd);
        },
        StmtV::FuncDef(fd) => {
            assert(s[0] == 'f');
            lemma_tag_differs("let"@, s, 0);
            assert(parse_binding_def(s) is Err);
            let after = seq![' '] + render_stmt(*fd.body) + rest;
            let t4 = params_text(fd.params) + seq!['=', '>'] + after;
            let t3 = seq![' '] + t4;
            let t2 = fd.name + t3;
            let t1 = seq![' '] + t2;
            assert(s =~= "fn"@ + t1);
            lemma_tag_of("fn"@, t1);
            assert(t2[0] == fd.name[0]);
            lemma_extract_one_space(t2);
            lemma_extract_ident_of(fd.name, t3);
            if fd.params.len() > 0 {
                assert(t4[0] == fd.params[0][0]);
                assert(ascii_alpha_char(t4[0]));
            } else {
                assert(params_text(fd.params) =~= Seq::<char>::empty());
                assert(t4 =~= seq!['=', '>'] + after);
                assert(t4[0] == '=');
            }
            lemma_skip_one_space(t4);
            lemma_parse_ident_list_of(fd.params, after);
            assert(seq!['=', '>'] + after =~= "=>"@ + after);
            lemma_tag_of("=>"@, after);
            let t6 = render_stmt(*fd.body) + rest;
            lemma_render_stmt_shape(*fd.body);
            lemma_stmt_head_facts(render_stmt(*fd.body)[0]);
            assert(after =~= seq![' '] + t6);
            lemma_skip_one_space(t6);
            lemma_parse_stmt_of(*fd.body, rest);
            assert(parse_func_def(s) == Ok::<(Seq<char>, FuncDefV), Seq<char>>(
                (rest, FuncDefV { name: fd.name, params: fd.params, body: Box::new(*fd.body) }),
            ));
            assert(FuncDefV { name: fd.name, params: fd.params, body: Box::new(*fd.body) } == fd);
        },
        StmtV::Expr(e) => {
            lemma_binding_def_fails_on_expr(e, rest);
            lemma_func_def_fails_on_expr(e, rest);
            lemma_parse_expr_of(e, rest);
        },
    }
}

/// A rendered expression reads back as itself, when after any following
/// whitespace no operator could extend it.
pub proof fn lemma_parse_expr_of(e: ExprV, rest: Seq<char>)
    requires
        grammatical_expr(e),
        boundary(rest),
        after_ws_no_op(rest),
    ensures
        parse_expr(render_expr(e) + rest) == Ok::<(Seq<char>, ExprV), Seq<char>>((rest, e)),
    decreases e, 1int,
{
    lemma_literals();
    let s = render_expr(e) + rest;
    match e {
        ExprV::Operation { lhs, rhs, op } => {
            let u = seq![op_text(op), ' '] + render_expr(*rhs) + rest;
            let t1 = seq![' '] + u;
            assert(s =~= render_expr(*lhs) + t1);
            lemma_parse_non_operation_of(*lhs, t1);
            lemma_skip_one_space(u);
            let v = seq![' '] + render_expr(*rhs) + rest;
            match op {
                Op::Add => {
                    assert(u =~= "+"@ + v);
                    lemma_tag_of("+"@, v);
                },
                Op::Sub => {
                    lemma_tag_differs("+"@, u, 0);
                    assert(u =~= "-"@ + v);
                    lemma_tag_of("-"@, v);
                },
                Op::Mul => {
                    lemma_tag_differs("+"@, u, 0);
                    lemma_tag_differs("-"@, u, 0);
                    assert(u =~= "*"@ + v);
                    lemma_tag_of("*"@, v);
                },
                Op::Div => {
                    lemma_tag_differs("+"@, u, 0);
                    lemma_tag_differs("-"@, u, 0);
                    lemma_tag_differs("*"@, u, 0);
                    assert(u =~= "/"@ + v);
                    lemma_tag_of("/"@, v);
                },
            }
            assert(parse_op(u) == Ok::<(Seq<char>, Op), Seq<char>>((v, op)));
            let w = render_expr(*rhs) + rest;
            lemma_render_expr_shape(*rhs);
            assert(v =~= seq![' '] + w);
            lemma_skip_one_space(w);
            lemma_parse_non_operation_of(*rhs, rest);
            assert(parse_operation(s) == Ok::<(Seq<char>, ExprV), Seq<char>>(
                (rest, ExprV::Operation { lhs: Box::new(*lhs), rhs: Box::new(*rhs), op }),
            ));
            assert(ExprV::Operation { lhs: Box::new(*lhs), rhs: Box::new(*rhs), op } == e);
        },
        _ => {
            lemma_parse_non_operation_of(e, rest);
            let r2 = spec_skip_whitespace(rest).0;
            lemma_parse_op_fails(r2);
            assert(parse_operation(s) is Err);
            assert(parse_expr(s) == Ok::<(Seq<char>, ExprV), Seq<char>>((rest, e)));
        },
    }
}

} // verus!
