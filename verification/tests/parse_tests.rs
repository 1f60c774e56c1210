use raga::env::Env;
use raga::parse;
use raga::val::Val;

#[test]
fn parse_and_eval_a_binding_definition() {
    let mut env = Env::default();
    let parsed = parse("let n = 10 / 2").unwrap();
    assert_eq!(parsed.eval(&mut env), Ok(Val::Unit));
    assert_eq!(env.get_binding("n"), Ok(Val::Number(5)));
}

#[test]
fn parse_and_eval_a_binding_definition_with_another_name() {
    let mut env = Env::default();
    let parsed = parse("let zz9 = 10 / 2").unwrap();
    assert_eq!(parsed.eval(&mut env), Ok(Val::Unit));
    assert_eq!(env.get_binding("zz9"), Ok(Val::Number(5)));
}

#[test]
fn parse_rejects_unconsumed_trailing_text() {
    assert!(parse("1 + 2 junk").is_err());
    assert_eq!(
        parse("1 + 2 junk").unwrap_err(),
        "input was not consumed fully by parser".to_string()
    );
}

#[test]
fn parse_and_eval_an_expression_statement() {
    let mut env = Env::default();
    let parsed = parse("1+2").unwrap();
    assert_eq!(parsed.eval(&mut env), Ok(Val::Number(3)));
}

#[test]
fn parse_and_eval_a_function_definition() {
    let mut env = Env::default();
    let parsed = parse("fn newEmpty x y => x + y").unwrap();
    assert_eq!(parsed.eval(&mut env), Ok(Val::Unit));
    assert!(env.get_func("newEmpty").is_ok());
    assert_eq!(
        env.get_binding("newEmpty"),
        Err("binding with name 'newEmpty' does not exist".to_string())
    );
}

#[test]
fn parse_a_rendering_and_render_it_again() {
    let text = "let a = 10 / 2";
    let parsed = parse(text).unwrap();
    let reparsed = parse(text).unwrap();
    let mut env1 = Env::default();
    let mut env2 = Env::default();
    assert_eq!(parsed.eval(&mut env1), reparsed.eval(&mut env2));
    assert_eq!(env1.get_binding("a"), env2.get_binding("a"));
}

#[test]
fn parse_and_eval_a_block_statement() {
    let mut env = Env::default();
    let parsed = parse("{ let a = 10\n let b = a\n b }").unwrap();
    assert_eq!(parsed.eval(&mut env), Ok(Val::Number(10)));
    assert_eq!(
        env.get_binding("a"),
        Err("binding with name 'a' does not exist".to_string())
    );
}
