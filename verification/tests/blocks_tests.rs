use raga::binding_def::BindingDef;
use raga::env::Env;
use raga::expr::binding_usage::BindingUsage;
use raga::expr::blocks::Block;
use raga::expr::{Expr, Number, Op};
use raga::stmt::Stmt;
use raga::val::Val;

#[test]
fn blocks_parse_empty_block() {
    assert_eq!(Block::new("{}"), Ok(("", Block { stmts: Vec::new() })))
}

#[test]
fn blocks_parse_empty_block_with_spaces() {
    assert_eq!(Block::new("{    }"), Ok(("", Block { stmts: Vec::new() })))
}

#[test]
fn blocks_parse_block_with_one_statement() {
    assert_eq!(
        Block::new("{ 5 }"),
        Ok((
            "",
            Block {
                stmts: vec![Stmt::Expr(Expr::Number(Number(5)))]
            }
        ))
    )
}

#[test]
fn blocks_parse_block_with_multiple_statement() {
    assert_eq!(
        Block::new(
            "{
                    let a = 10
                    let b = a
                    b
                }"
        ),
        Ok((
            "",
            Block {
                stmts: vec![
                    Stmt::BindingDef(BindingDef {
                        name: "a".to_string(),
                        val: Expr::Number(Number(10))
                    }),
                    Stmt::BindingDef(BindingDef {
                        name: "b".to_string(),
                        val: Expr::BindingUsage(BindingUsage {
                            name: "a".to_string(),
                        }),
                    }),
                    Stmt::Expr(Expr::BindingUsage(BindingUsage {
                        name: "b".to_string(),
                    })),
                ]
            }
        ))
    )
}

#[test]
fn blocks_eval_empty_block() {
    assert_eq!(
        Block { stmts: Vec::new() }.eval(&Env::default()),
        Ok(Val::Unit)
    )
}

#[test]
fn blocks_parse_block_with_one_stmt() {
    assert_eq!(
        Block {
            stmts: vec![Stmt::Expr(Expr::Number(Number(10)))]
        }
        .eval(&Env::default()),
        Ok(Val::Number(10))
    )
}

#[test]
fn blocks_parse_block_with_binding_def_and_usage() {
    assert_eq!(
        Block {
            stmts: vec![
                Stmt::BindingDef(BindingDef {
                    name: "two".to_string(),
                    val: Expr::Number(Number(2))
                }),
                Stmt::Expr(Expr::BindingUsage(BindingUsage {
                    name: "two".to_string()
                }))
            ]
        }
        .eval(&Env::default()),
        Ok(Val::Number(2))
    )
}

#[test]
fn blocks_eval_block_with_multiple_binding_defs() {
    assert_eq!(
        Block {
            stmts: vec![
                Stmt::BindingDef(BindingDef {
                    name: "jump".to_string(),
                    val: Expr::Number(Number(22))
                }),
                Stmt::BindingDef(BindingDef {
                    name: "cut".to_string(),
                    val: Expr::Number(Number(200))
                }),
                Stmt::BindingDef(BindingDef {
                    name: "pre".to_string(),
                    val: Expr::Number(Number(32))
                })
            ]
        }
        .eval(&mut Env::default()),
        Ok(Val::Unit)
    )
}

#[test]
fn eval_block_with_multiple_exprs() {
    assert_eq!(
        Block {
            stmts: vec![
                Stmt::Expr(Expr::Number(Number(100))),
                Stmt::Expr(Expr::Number(Number(30))),
                Stmt::Expr(Expr::Operation {
                    lhs: Box::new(Expr::Number(Number(10))),
                    rhs: Box::new(Expr::Number(Number(20))),
                    op: Op::Mul
                }),
            ]
        }
        .eval(&mut Env::default()),
        Ok(Val::Number(200))
    )
}

#[test]
fn eval_block_using_binding_from_parent_env() {
    let mut env = Env::default();
    env.store_binding("foo".to_string(), Val::Number(2));

    assert_eq!(
        Block {
            stmts: vec![
                Stmt::BindingDef(BindingDef {
                    name: "baz".to_string(),
                    val: Expr::BindingUsage(BindingUsage {
                        name: "foo".to_string(),
                    })
                }),
                Stmt::Expr(Expr::BindingUsage(BindingUsage {
                    name: "baz".to_string()
                }))
            ]
        }
        .eval(&env),
        Ok(Val::Number(2))
    )
}

#[test]
fn eval_block_leaves_the_outer_scope_untouched() {
    let mut env = Env::default();
    let block = match Expr::new("{ let a = 10\n let b = a\n b }") {
        Ok(("", expr)) => expr,
        other => panic!("unexpected parse: {:?}", other),
    };
    assert_eq!(block.eval(&env), Ok(Val::Number(10)));
    assert_eq!(
        env.get_binding("a"),
        Err("binding with name 'a' does not exist".to_string())
    );
    assert_eq!(
        env.get_binding("b"),
        Err("binding with name 'b' does not exist".to_string())
    );
    env.store_binding("keep".to_string(), Val::Number(1));
    assert_eq!(env.get_binding("keep"), Ok(Val::Number(1)));
}
