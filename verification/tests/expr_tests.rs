use raga::binding_def::BindingDef;
use raga::env::Env;
use raga::expr::binding_usage::BindingUsage;
use raga::expr::blocks::Block;
use raga::expr::{Expr, Number, Op};
use raga::stmt::Stmt;
use raga::val::Val;

#[test]
fn parse_numbner() {
    assert_eq!(Number::new("123"), Ok(("", Number(123))));
}

#[test]
fn parse_number_as_expr() {
    assert_eq!(Expr::new("123"), Ok(("", Expr::Number(Number(123)))));
}

#[test]
fn parse_add_op() {
    assert_eq!(Op::new("+"), Ok(("", Op::Add)));
}

#[test]
fn parse_sub_op() {
    assert_eq!(Op::new("-"), Ok(("", Op::Sub)));
}

#[test]
fn parse_mul_op() {
    assert_eq!(Op::new("*"), Ok(("", Op::Mul)));
}

#[test]
fn parse_div_op() {
    assert_eq!(Op::new("/"), Ok(("", Op::Div)));
}

#[test]
fn parse_one_plus_two() {
    assert_eq!(
        Expr::new("1+2"),
        Ok((
            "",
            Expr::Operation {
                lhs: Box::new(Expr::Number(Number(1))),
                rhs: Box::new(Expr::Number(Number(2))),
                op: Op::Add,
            }
        ))
    );
}

#[test]
fn parse_expr_white_whitespace() {
    assert_eq!(
        Expr::new("1 + 2"),
        Ok((
            "",
            Expr::Operation {
                lhs: Box::new(Expr::Number(Number(1))),
                rhs: Box::new(Expr::Number(Number(2))),
                op: Op::Add,
            }
        ))
    );
}

#[test]
fn eval_non_number_operation() {
    assert_eq!(
        Expr::Operation {
            lhs: Box::new(Expr::Number(Number(10))),
            rhs: Box::new(Expr::Block(Block { stmts: vec![] })),
            op: Op::Add
        }
        .eval(&Env::default()),
        Err(
            "cannot evaluate operation whose left-hand side and right-hand side are not both numbers"
                .to_string()
        )
    )
}

#[test]
fn eval_add() {
    let env = Env::default();
    assert_eq!(
        Expr::Operation {
            lhs: Box::new(Expr::Number(Number(1))),
            rhs: Box::new(Expr::Number(Number(2))),
            op: Op::Add,
        }
        .eval(&env),
        Ok(Val::Number(3))
    )
}

#[test]
fn eval_sub() {
    let env = Env::default();
    assert_eq!(
        Expr::Operation {
            lhs: Box::new(Expr::Number(Number(1))),
            rhs: Box::new(Expr::Number(Number(2))),
            op: Op::Sub,
        }
        .eval(&env),
        Ok(Val::Number(-1))
    )
}

#[test]
fn eval_mul() {
    let env = Env::default();
    assert_eq!(
        Expr::Operation {
            lhs: Box::new(Expr::Number(Number(10))),
            rhs: Box::new(Expr::Number(Number(2))),
            op: Op::Mul,
        }
        .eval(&env),
        Ok(Val::Number(20))
    )
}

#[test]
fn eval_div() {
    let env = Env::default();
    assert_eq!(
        Expr::Operation {
            lhs: Box::new(Expr::Number(Number(10))),
            rhs: Box::new(Expr::Number(Number(2))),
            op: Op::Div,
        }
        .eval(&env),
        Ok(Val::Number(5))
    )
}

#[test]
fn expr_parse_binding_usage() {
    assert_eq!(
        Expr::new("bar"),
        Ok((
            "",
            Expr::BindingUsage(BindingUsage {
                name: "bar".to_string()
            })
        ))
    )
}

#[test]
fn binding_usage_parse_binding_usage() {
    assert_eq!(
        BindingUsage::new("abs"),
        Ok((
            "",
            BindingUsage {
                name: "abs".to_string()
            }
        ))
    )
}

#[test]
fn parse_block() {
    assert_eq!(
        Expr::new("{ 200 }"),
        Ok((
            "",
            Expr::Block(Block {
                stmts: vec![Stmt::Expr(Expr::Number(Number(200)))]
            })
        ))
    )
}

#[test]
fn parse_block_with_multiple_statements() {
    assert_eq!(
        Expr::new(
            "{
                    let a = 10
                    let b = a
                    b
                }"
        ),
        Ok((
            "",
            Expr::Block(Block {
                stmts: vec![
                    Stmt::BindingDef(BindingDef {
                        name: "a".to_string(),
                        val: Expr::Number(Number(10)),
                    }),
                    Stmt::BindingDef(BindingDef {
                        name: "b".to_string(),
                        val: Expr::BindingUsage(BindingUsage {
                            name: "a".to_string(),
                        }),
                    }),
                    Stmt::Expr(Expr::BindingUsage(BindingUsage {
                        name: "b".to_string(),
                    })),
                ]
            })
        ))
    )
}

#[test]
fn eval_binding_usage() {
    let mut env = Env::default();
    env.store_binding("ten".to_string(), Val::Number(10));

    assert_eq!(
        Expr::BindingUsage(BindingUsage {
            name: "ten".to_string()
        })
        .eval(&env),
        Ok(Val::Number(10))
    )
}

#[test]
fn eval_division_by_zero() {
    let env = Env::default();
    assert_eq!(
        Expr::Operation {
            lhs: Box::new(Expr::Number(Number(10))),
            rhs: Box::new(Expr::Number(Number(0))),
            op: Op::Div,
        }
        .eval(&env),
        Err("division by zero".to_string())
    )
}

#[test]
fn eval_add_wraps_at_the_top_of_the_range() {
    let env = Env::default();
    assert_eq!(
        Expr::Operation {
            lhs: Box::new(Expr::Number(Number(i32::MAX))),
            rhs: Box::new(Expr::Number(Number(1))),
            op: Op::Add,
        }
        .eval(&env),
        Ok(Val::Number(i32::MIN))
    )
}

#[test]
fn eval_div_wraps_on_the_overflowing_quotient() {
    let env = Env::default();
    assert_eq!(
        Expr::Operation {
            lhs: Box::new(Expr::Number(Number(i32::MIN))),
            rhs: Box::new(Expr::Number(Number(-1))),
            op: Op::Div,
        }
        .eval(&env),
        Ok(Val::Number(i32::MIN))
    )
}

#[test]
fn eval_div_truncates_toward_zero() {
    let env = Env::default();
    assert_eq!(
        Expr::Operation {
            lhs: Box::new(Expr::Number(Number(-7))),
            rhs: Box::new(Expr::Number(Number(2))),
            op: Op::Div,
        }
        .eval(&env),
        Ok(Val::Number(-3))
    )
}

#[test]
fn parse_number_that_does_not_fit() {
    assert_eq!(
        Number::new("2147483648"),
        Err("number literal is too large".to_string())
    );
    assert_eq!(Number::new("2147483647"), Ok(("", Number(2147483647))));
}
