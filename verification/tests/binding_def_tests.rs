use raga::binding_def::BindingDef;
use raga::expr::{Expr, Number, Op};

#[test]
fn binding_def_parse_binding_def() {
    assert_eq!(
        BindingDef::new("let a = 10 / 2"),
        Ok((
            "",
            BindingDef {
                name: "a".to_string(),
                val: Expr::Operation {
                    lhs: Box::new(Expr::Number(Number(10))),
                    rhs: Box::new(Expr::Number(Number(2))),
                    op: Op::Div
                }
            }
        ))
    )
}

#[test]
fn can_not_parse_binding_def_without_space_after_let() {
    assert_eq!(
        BindingDef::new("letaa= 10 / 2"),
        Err("expected a space".to_string())
    )
}

#[test]
fn parse_block_with_no_space() {
    assert_eq!(
        BindingDef::new("let aa=20"),
        Ok((
            "",
            BindingDef {
                name: "aa".to_string(),
                val: Expr::Number(Number(20))
            }
        ))
    )
}
