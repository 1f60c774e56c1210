use raga::env::Env;
use raga::expr::binding_usage::BindingUsage;
use raga::expr::{Expr, Number, Op};
use raga::stmt::Stmt;
use raga::val::Val;

#[test]
fn env_eval_existing_binding_usage() {
    let mut env = Env::default();
    env.store_binding("foo".to_string(), Val::Number(110));

    assert_eq!(
        BindingUsage {
            name: "foo".to_string()
        }
        .eval(&env),
        Ok(Val::Number(110))
    )
}

#[test]
fn env_eval_with_non_existing_binding_usage() {
    let env = Env::default();
    assert_eq!(
        BindingUsage {
            name: "foo".to_string()
        }
        .eval(&env),
        Err("binding with name 'foo' does not exist".to_string())
    )
}

#[test]
fn env_get_binding_value_finds_a_stored_value() {
    let mut env = Env::default();
    env.store_binding("foo".to_string(), Val::Number(7));
    assert_eq!(env.get_binding_value("foo"), Ok(Val::Number(7)));
    assert_eq!(env.get_binding_value_without_err_msg("foo"), Some(Val::Number(7)));
    assert_eq!(env.get_binding_value_without_err_msg("bar"), None);
}

#[test]
fn env_child_lookup_reaches_the_parent() {
    let mut env = Env::default();
    env.store_binding("outer".to_string(), Val::Number(1));
    let child = env.create_child();
    assert_eq!(child.get_binding("outer"), Ok(Val::Number(1)));
}

#[test]
fn env_child_store_shadows_without_overwriting() {
    let mut env = Env::default();
    env.store_binding("x".to_string(), Val::Number(1));
    {
        let mut child = env.create_child();
        child.store_binding("x".to_string(), Val::Number(2));
        assert_eq!(child.get_binding("x"), Ok(Val::Number(2)));
    }
    assert_eq!(env.get_binding("x"), Ok(Val::Number(1)));
}

#[test]
fn env_get_func_finds_a_stored_function() {
    let mut env = Env::default();
    let body = Stmt::Expr(Expr::BindingUsage(BindingUsage {
        name: "x".to_string(),
    }));
    env.store_func("id".to_string(), vec!["x".to_string()], body.clone());
    assert_eq!(env.get_func("id"), Ok((vec!["x".to_string()], body)));
    assert_eq!(
        env.get_func("missing"),
        Err("function with name 'missing' does not exist".to_string())
    );
}

#[test]
fn env_binding_and_function_namespaces_are_one() {
    let mut env = Env::default();
    env.store_func("f".to_string(), vec![], Stmt::Expr(Expr::Number(Number(1))));
    assert_eq!(
        env.get_binding("f"),
        Err("binding with name 'f' does not exist".to_string())
    );
}

#[test]
fn env_get_named_info_prefers_the_latest_store() {
    let mut env = Env::default();
    env.store_binding("n".to_string(), Val::Number(1));
    env.store_binding("n".to_string(), Val::Number(2));
    assert_eq!(env.get_binding("n"), Ok(Val::Number(2)));
}

#[test]
fn val_renders_as_decimal_or_unit() {
    assert_eq!(Val::Number(0).to_text(), "0".to_string());
    assert_eq!(Val::Number(145).to_text(), "145".to_string());
    assert_eq!(Val::Number(-5).to_text(), "-5".to_string());
    assert_eq!(Val::Number(i32::MIN).to_text(), "-2147483648".to_string());
    assert_eq!(Val::Unit.to_text(), "Unit".to_string());
}

#[test]
fn eval_operation_on_binding_values() {
    let mut env = Env::default();
    env.store_binding("a".to_string(), Val::Number(9));
    assert_eq!(
        Expr::Operation {
            lhs: Box::new(Expr::BindingUsage(BindingUsage {
                name: "a".to_string()
            })),
            rhs: Box::new(Expr::Number(Number(3))),
            op: Op::Div,
        }
        .eval(&env),
        Ok(Val::Number(3))
    );
}
