//! A bare identifier used as an expression: the value of the binding it
//! names.
use vstd::prelude::*;

verus! {

/// A use of a named binding.
#[derive(Debug, PartialEq)]
pub struct BindingUsage {
    pub name: String,
}

impl Clone for BindingUsage {
    /// A copy with the same name.
    fn clone(&self) -> (r: Self)
        ensures
            r@ == self@,
    {
        BindingUsage { name: self.name.clone() }
    }
}

impl BindingUsage {
    /// The value bound to this name in `env`, or the failure
    /// `binding with name '{name}' does not exist`.
    pub fn eval(&self, env: &crate::env::Env) -> (r: Result<crate::val::Val, String>)
        ensures
            match r {
                Ok(v) => crate::semantics::eval_expr(
                    crate::ast::ExprV::BindingUsage(self@),
                    env@,
                ) == Ok::<crate::val::Val, Seq<char>>(v),
                Err(m) => crate::semantics::eval_expr(crate::ast::ExprV::BindingUsage(self@), env@)
                    matches Err(t) && m@ == t,
            },
    {
        env.get_binding(self.name.as_str())
    }

    /// Reads an identifier from the front of `s`, as `spec_extract_ident`
    /// states it.
    pub fn new(s: &str) -> (r: Result<(&str, Self), String>)
        ensures
            match r {
                Ok(t) => crate::utils::spec_extract_ident(s@) == Ok::<
                    (Seq<char>, Seq<char>),
                    Seq<char>,
                >((t.0@, t.1@)),
                Err(m) => crate::utils::spec_extract_ident(s@) == Err::<
                    (Seq<char>, Seq<char>),
                    Seq<char>,
                >(m@),
            },
    {
        match crate::utils::extract_ident(s) {
            Err(m) => Err(m),
            Ok((rem, name)) => Ok((rem, BindingUsage { name: String::from_str(name) })),
        }
    }
}

} // verus!
