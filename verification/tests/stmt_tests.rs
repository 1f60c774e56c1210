use raga::binding_def::BindingDef;
use raga::env::Env;
use raga::expr::binding_usage::BindingUsage;
use raga::expr::{Expr, Number, Op};
use raga::func_def::FuncDef;
use raga::stmt::Stmt;
use raga::val::Val;

#[test]
fn stmt_parse_binding_def() {
    assert_eq!(
        Stmt::new("let a = 10"),
        Ok((
            "",
            Stmt::BindingDef(BindingDef {
                name: "a".to_string(),
                val: Expr::Number(Number(10)),
            })
        ))
    )
}

#[test]
fn parse_func_def() {
    assert_eq!(
        Stmt::new("fn me id => id"),
        Ok((
            "",
            Stmt::FuncDef(FuncDef {
                name: "me".to_string(),
                params: vec!["id".to_string()],
                body: Box::new(Stmt::Expr(Expr::BindingUsage(BindingUsage {
                    name: "id".to_string()
                }))),
            })
        ))
    )
}

#[test]
fn parse_expr() {
    assert_eq!(
        Stmt::new("1+1"),
        Ok((
            "",
            Stmt::Expr(Expr::Operation {
                lhs: Box::new(Expr::Number(Number(1))),
                rhs: Box::new(Expr::Number(Number(1))),
                op: Op::Add,
            })
        ))
    )
}

#[test]
fn eval_binding_def() {
    assert_eq!(
        Stmt::BindingDef(BindingDef {
            name: "some_def".to_string(),
            val: Expr::Number(Number(10)),
        })
        .eval(&mut Env::default()),
        Ok(Val::Unit)
    )
}

#[test]
fn eval_expr() {
    assert_eq!(
        Stmt::Expr(Expr::Number(Number(5))).eval(&mut Env::default()),
        Ok(Val::Number(5))
    )
}

#[test]
fn eval_binding_def_stores_the_value() {
    let mut env = Env::default();
    assert_eq!(
        Stmt::BindingDef(BindingDef {
            name: "five".to_string(),
            val: Expr::Operation {
                lhs: Box::new(Expr::Number(Number(10))),
                rhs: Box::new(Expr::Number(Number(2))),
                op: Op::Div,
            },
        })
        .eval(&mut env),
        Ok(Val::Unit)
    );
    assert_eq!(env.get_binding("five"), Ok(Val::Number(5)));
}

#[test]
fn eval_binding_def_failure_leaves_the_env_unchanged() {
    let mut env = Env::default();
    assert_eq!(
        Stmt::BindingDef(BindingDef {
            name: "broken".to_string(),
            val: Expr::BindingUsage(BindingUsage {
                name: "missing".to_string()
            }),
        })
        .eval(&mut env),
        Err("binding with name 'missing' does not exist".to_string())
    );
    assert_eq!(
        env.get_binding("broken"),
        Err("binding with name 'broken' does not exist".to_string())
    );
}
