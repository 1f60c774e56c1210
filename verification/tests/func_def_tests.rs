use raga::env::Env;
use raga::expr::binding_usage::BindingUsage;
use raga::expr::blocks::Block;
use raga::expr::{Expr, Number, Op};
use raga::func_def::FuncDef;
use raga::stmt::Stmt;
use raga::val::Val;

#[test]
fn parse_func_def_with_no_params_and_empty_body() {
    assert_eq!(
        FuncDef::new("fn newEmpty => {}"),
        Ok((
            "",
            FuncDef {
                name: "newEmpty".to_string(),
                params: vec![],
                body: Box::new(Stmt::Expr(Expr::Block(Block { stmts: vec![] }))),
            }
        ))
    )
}

#[test]
fn parse_func_def_with_one_params_and_empty_body() {
    assert_eq!(
        FuncDef::new("fn newEmpty x => {}"),
        Ok((
            "",
            FuncDef {
                name: "newEmpty".to_string(),
                params: vec!["x".to_string()],
                body: Box::new(Stmt::Expr(Expr::Block(Block { stmts: vec![] }))),
            }
        ))
    )
}

#[test]
fn parse_func_def_with_multiple_params() {
    assert_eq!(
        FuncDef::new("fn newEmpty x y => x + y"),
        Ok((
            "",
            FuncDef {
                name: "newEmpty".to_string(),
                params: vec!["x".to_string(), "y".to_string()],
                body: Box::new(Stmt::Expr(Expr::Operation {
                    lhs: Box::new(Expr::BindingUsage(BindingUsage {
                        name: "x".to_string()
                    })),
                    rhs: Box::new(Expr::BindingUsage(BindingUsage {
                        name: "y".to_string()
                    })),
                    op: Op::Add
                }))
            }
        ))
    )
}

#[test]
fn eval_func_def() {
    assert_eq!(
        Stmt::FuncDef(FuncDef {
            name: "return_one".to_string(),
            params: vec![],
            body: Box::new(Stmt::Expr(Expr::Number(Number(1))))
        })
        .eval(&mut Env::default()),
        Ok(Val::Unit)
    )
}

#[test]
fn eval_func_def_makes_the_function_resolvable() {
    let mut env = Env::default();
    let body = Stmt::Expr(Expr::Operation {
        lhs: Box::new(Expr::BindingUsage(BindingUsage {
            name: "x".to_string(),
        })),
        rhs: Box::new(Expr::BindingUsage(BindingUsage {
            name: "y".to_string(),
        })),
        op: Op::Add,
    });
    assert_eq!(
        Stmt::FuncDef(FuncDef {
            name: "newEmpty".to_string(),
            params: vec!["x".to_string(), "y".to_string()],
            body: Box::new(body.clone()),
        })
        .eval(&mut env),
        Ok(Val::Unit)
    );
    assert_eq!(
        env.get_func("newEmpty"),
        Ok((vec!["x".to_string(), "y".to_string()], body))
    );
}
