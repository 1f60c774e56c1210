//! The environment: a chained mapping from names to stored values or
//! function definitions, with child scopes that borrow their parent.
//! Lookups that miss locally recurse to the parent; stores touch only the
//! local scope, which is what gives the language lexical scoping and
//! shadowing.
use vstd::prelude::*;

use crate::ast::{names_view, stmt_view, NamedInfoV};
use crate::semantics::{binding_missing_text, chain_lookup, func_missing_text, store_in_top};
use crate::stmt::Stmt;
use crate::val::Val;

verus! {

/// What an environment stores under a name: a bound value, or a function
/// definition's parameters and body.
#[derive(Debug, PartialEq)]
pub enum NamedInfo {
    Binding(Val),
    Func { params: Vec<String>, body: Stmt },
}

/// The abstract content of one stored entry.
pub open spec fn named_info_view(info: NamedInfo) -> NamedInfoV {
    match info {
        NamedInfo::Binding(v) => NamedInfoV::Binding(v),
        NamedInfo::Func { params, body } => NamedInfoV::Func {
            params: names_view(params@),
            body: stmt_view(body),
        },
    }
}

impl View for NamedInfo {
    type V = NamedInfoV;

    open spec fn view(&self) -> NamedInfoV {
        named_info_view(*self)
    }
}

impl Clone for NamedInfo {
    /// A copy with the same abstract content.
    fn clone(&self) -> (r: Self)
        ensures
            r@ == self@,
    {
        match self {
            NamedInfo::Binding(v) => NamedInfo::Binding(*v),
            NamedInfo::Func { params, body } => {
                let ps = params.clone();
                proof {
                    assert forall|i: int| 0 <= i < params@.len() implies ps@[i]@
                        == params@[i]@ by {
                        assert(vstd::pervasive::cloned::<String>(params@[i], ps@[i]));
                    }
                    assert(names_view(ps@) =~= names_view(params@));
                }
                NamedInfo::Func { params: ps, body: body.clone() }
            },
        }
    }
}

impl NamedInfo {
    /// The stored value, if this entry is a binding.
    fn into_bindings(self) -> (r: Option<Val>)
        ensures
            match r {
                Some(v) => self@ == NamedInfoV::Binding(v),
                None => !(self@ is Binding),
            },
    {
        if let NamedInfo::Binding(val) = self {
            Some(val)
        } else {
            None
        }
    }

    /// The stored parameters and body, if this entry is a function.
    fn into_func(self) -> (r: Option<(Vec<String>, Stmt)>)
        ensures
            match r {
                Some(t) => self@ == NamedInfoV::Func {
                    params: names_view(t.0@),
                    body: stmt_view(t.1),
                },
                None => !(self@ is Func),
            },
    {
        if let NamedInfo::Func { params, body } = self {
            Some((params, body))
        } else {
            None
        }
    }
}

/// The map described by an ordered entry list; a later entry shadows an
/// earlier one with the same name.
pub open spec fn entries_map(entries: Seq<(String, NamedInfo)>) -> Map<Seq<char>, NamedInfoV>
    decreases entries.len(),
{
    if entries.len() == 0 {
        Map::empty()
    } else {
        entries_map(entries.drop_last()).insert(
            entries.last().0@,
            named_info_view(entries.last().1),
        )
    }
}

/// An entry whose name nothing later shadows is what the map holds.
proof fn lemma_entries_map_found(entries: Seq<(String, NamedInfo)>, name: Seq<char>, k: int)
    requires
        0 <= k < entries.len(),
        entries[k].0@ == name,
        forall|j: int| k < j < entries.len() ==> entries[j].0@ != name,
    ensures
        entries_map(entries).contains_key(name),
        entries_map(entries)[name] == named_info_view(entries[k].1),
    decreases entries.len(),
{
    if k < entries.len() - 1 {
        assert(entries.drop_last()[k] == entries[k]);
        lemma_entries_map_found(entries.drop_last(), name, k);
    }
}

/// A name no entry carries is not in the map.
proof fn lemma_entries_map_absent(entries: Seq<(String, NamedInfo)>, name: Seq<char>)
    requires
        forall|j: int| 0 <= j < entries.len() ==> entries[j].0@ != name,
    ensures
        !entries_map(entries).contains_key(name),
    decreases entries.len(),
{
    if entries.len() > 0 {
        lemma_entries_map_absent(entries.drop_last(), name);
    }
}

/// A lexical scope: its own entries, and an optional borrowed parent
/// scope, which outlives it and which stores never touch.
#[derive(Debug)]
pub struct Env<'parent> {
    named: Vec<(String, NamedInfo)>,
    parent: Option<&'parent Env<'parent>>,
}

impl<'parent> Default for Env<'parent> {
    /// A root scope: no entries, no parent.
    fn default() -> (r: Self)
        ensures
            r@ == seq![Map::<Seq<char>, NamedInfoV>::empty()],
    {
        Env { named: Vec::new(), parent: None }
    }
}

impl<'parent> Env<'parent> {
    /// The scope chain, outermost first; this scope's own entries are
    /// last.
    pub closed spec fn view(&self) -> Seq<Map<Seq<char>, NamedInfoV>>
        decreases self,
    {
        match self.parent {
            None => seq![entries_map(self.named@)],
            Some(p) => p.view().push(entries_map(self.named@)),
        }
    }

    /// A scope chain is never empty.
    pub proof fn lemma_view_nonempty(&self)
        ensures
            self@.len() >= 1,
    {
    }

    /// A fresh innermost scope whose lookups fall back to `self`.
    pub fn create_child(&'parent self) -> (r: Self)
        ensures
            r@ == self@.push(Map::<Seq<char>, NamedInfoV>::empty()),
    {
        Env { named: Vec::new(), parent: Some(self) }
    }

    /// Stores `val` under `name` in this scope, shadowing without
    /// overwriting any entry of the parent chain.
    pub fn store_binding(&mut self, name: String, val: Val)
        ensures
            final(self)@ == store_in_top(old(self)@, name@, NamedInfoV::Binding(val)),
    {
        let ghost old_named = self.named@;
        self.named.push((name, NamedInfo::Binding(val)));
        proof {
            assert(self.named@.drop_last() =~= old_named);
            assert(self@ =~= store_in_top(old(self)@, name@, NamedInfoV::Binding(val)));
        }
    }

    /// Stores a function's parameters and body under `name` in this scope.
    pub fn store_func(&mut self, name: String, params: Vec<String>, body: Stmt)
        ensures
            final(self)@ == store_in_top(
                old(self)@,
                name@,
                NamedInfoV::Func { params: names_view(params@), body: stmt_view(body) },
            ),
    {
        let ghost old_named = self.named@;
        let ghost info = NamedInfoV::Func { params: names_view(params@), body: stmt_view(body) };
        self.named.push((name, NamedInfo::Func { params, body }));
        proof {
            assert(self.named@.drop_last() =~= old_named);
            assert(self@ =~= store_in_top(old(self)@, name@, info));
        }
    }

    /// Looks `name` up through the scope chain and hands back a copy of
    /// what it finds, as `chain_lookup` states it.
    pub fn get_named_info(&self, name: &str) -> (r: Option<NamedInfo>)
        ensures
            match r {
                Some(info) => chain_lookup(self@, name@) == Some(info@),
                None => chain_lookup(self@, name@) is None,
            },
        decreases *self,
    {
        let mut i: usize = self.named.len();
        while i > 0
            invariant
                0 <= i <= self.named@.len(),
                forall|j: int| i <= j < self.named@.len() ==> (#[trigger] self.named@[j]).0@
                    != name@,
            decreases i,
        {
            i -= 1;
            if crate::utils::str_eq(self.named[i].0.as_str(), name) {
                proof {
                    lemma_entries_map_found(self.named@, name@, i as int);
                }
                return Some(self.named[i].1.clone());
            }
        }
        proof {
            lemma_entries_map_absent(self.named@, name@);
        }
        match self.parent {
            Some(parent) => {
                proof {
                    assert(self@.drop_last() =~= parent@);
                }
                parent.get_named_info(name)
            },
            None => None,
        }
    }

    /// The value bound to `name`, or the failure
    /// `binding with name '{name}' does not exist` when the chain holds no
    /// value under it.
    pub fn get_binding(&self, name: &str) -> (r: Result<Val, String>)
        ensures
            match r {
                Ok(v) => chain_lookup(self@, name@) == Some(NamedInfoV::Binding(v)),
                Err(m) => !(chain_lookup(self@, name@) matches Some(NamedInfoV::Binding(_)))
                    && m@ == binding_missing_text(name@),
            },
    {
        let found = match self.get_named_info(name) {
            Some(info) => info.into_bindings(),
            None => None,
        };
        match found {
            Some(v) => Ok(v),
            None => {
                let mut m = String::from_str("binding with name '");
                m.append(name);
                m.append("' does not exist");
                Err(m)
            },
        }
    }

    /// The function stored under `name`, or the failure
    /// `function with name '{name}' does not exist` when the chain holds
    /// no function under it.
    pub fn get_func(&self, name: &str) -> (r: Result<(Vec<String>, Stmt), String>)
        ensures
            match r {
                Ok(t) => chain_lookup(self@, name@) == Some(
                    NamedInfoV::Func { params: names_view(t.0@), body: stmt_view(t.1) },
                ),
                Err(m) => !(chain_lookup(self@, name@) matches Some(NamedInfoV::Func { .. }))
                    && m@ == func_missing_text(name@),
            },
    {
        let found = match self.get_named_info(name) {
            Some(info) => info.into_func(),
            None => None,
        };
        match found {
            Some(t) => Ok(t),
            None => {
                let mut m = String::from_str("function with name '");
                m.append(name);
                m.append("' does not exist");
                Err(m)
            },
        }
    }

    /// The value bound to `name`; `get_binding` under its older name.
    pub fn get_binding_value(&self, name: &str) -> (r: Result<Val, String>)
        ensures
            match r {
                Ok(v) => chain_lookup(self@, name@) == Some(NamedInfoV::Binding(v)),
                Err(m) => !(chain_lookup(self@, name@) matches Some(NamedInfoV::Binding(_)))
                    && m@ == binding_missing_text(name@),
            },
    {
        self.get_binding(name)
    }

    /// The value bound to `name`, with the miss left undescribed.
    pub fn get_binding_value_without_err_msg(&self, name: &str) -> (r: Option<Val>)
        ensures
            match r {
                Some(v) => chain_lookup(self@, name@) == Some(NamedInfoV::Binding(v)),
                None => !(chain_lookup(self@, name@) matches Some(NamedInfoV::Binding(_))),
            },
    {
        match self.get_named_info(name) {
            Some(info) => info.into_bindings(),
            None => None,
        }
    }
}

} // verus!
