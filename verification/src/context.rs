//! The shared parse context: one per parse, passed by mutable reference
//! through every parser call.  It holds the current scope stack and the
//! names of previously declared types, which other parts of the grammar
//! use to tell identifiers from type names.

use vstd::prelude::*;

use crate::name::Identifier;

verus! {

/// Why a lexical scope was entered.
#[derive(Clone, Copy, Debug, PartialEq, Eq, Structural)]
pub enum ScopeKind {
    Function,
    Block,
    DoBlock,
}

/// One entry of the scope stack: an optional owner name and the kind of
/// construct that opened the scope.
pub struct Scope {
    pub name: Option<Identifier>,
    pub kind: ScopeKind,
}

/// The value of a scope entry: the owner name as characters.
pub struct ScopeV {
    pub name: Option<Seq<char>>,
    pub kind: ScopeKind,
}

impl View for Scope {
    type V = ScopeV;

    open spec fn view(&self) -> ScopeV {
        ScopeV { name: crate::token::opt_v(self.name), kind: self.kind }
    }
}

/// The mutable state shared by every parser of one parse.
pub struct Context {
    scopes: Vec<Scope>,
    type_names: Vec<Identifier>,
}

impl Context {
    /// The scope stack, innermost scope last.
    pub closed spec fn scopes_v(&self) -> Seq<ScopeV> {
        self.scopes@.map_values(|s: Scope| s@)
    }

    /// The names registered as declared types, in registration order.
    pub closed spec fn type_names_v(&self) -> Seq<Seq<char>> {
        self.type_names@.map_values(|i: Identifier| i@)
    }

    /// Open a scope: push it onto the scope stack.
    pub fn set_current(&mut self, name: Option<Identifier>, kind: ScopeKind)
        ensures
            final(self).scopes_v() == old(self).scopes_v().push(
                ScopeV { name: crate::token::opt_v(name), kind },
            ),
            final(self).type_names_v() == old(self).type_names_v(),
    {
        let ghost v = ScopeV { name: crate::token::opt_v(name), kind };
        self.scopes.push(Scope { name, kind });
        proof {
            assert(self.scopes@.map_values(|s: Scope| s@) =~= old(self).scopes@.map_values(
                |s: Scope| s@,
            ).push(v));
        }
    }

    /// Close the innermost scope, if any is open.
    pub fn pop(&mut self)
        ensures
            old(self).scopes_v().len() > 0 ==> final(self).scopes_v() == old(
                self,
            ).scopes_v().drop_last(),
            old(self).scopes_v().len() == 0 ==> final(self).scopes_v() == old(self).scopes_v(),
            final(self).type_names_v() == old(self).type_names_v(),
    {
        let _ = self.scopes.pop();
        proof {
            if old(self).scopes@.len() > 0 {
                assert(self.scopes@.map_values(|s: Scope| s@) =~= old(self).scopes@.map_values(
                    |s: Scope| s@,
                ).drop_last());
            }
        }
    }

    /// How many scopes are open.
    pub fn scope_depth(&self) -> (r: usize)
        ensures
            r == self.scopes_v().len(),
    {
        self.scopes.len()
    }

    /// Is `name` known to denote a declared type or entity?
    pub fn knows_type_name(&self, name: &String) -> (r: bool)
        ensures
            r == self.type_names_v().contains(name@),
    {
        let n = self.type_names.len();
        let mut i: usize = 0;
        while i < n
            invariant
                0 <= i <= n,
                n == self.type_names.len(),
                forall|k: int| 0 <= k < i ==> (#[trigger] self.type_names@[k])@ != name@,
            decreases n - i,
        {
            if self.type_names[i].val == *name {
                proof {
                    assert(self.type_names_v()[i as int] == name@);
                }
                return true;
            }
            i = i + 1;
        }
        proof {
            assert forall|k: int| 0 <= k < self.type_names_v().len() implies self.type_names_v()[k]
                != name@ by {
                assert(self.type_names_v()[k] == self.type_names@[k]@);
            }
        }
        false
    }

    /// Record that `name` now denotes a declared type or entity, for later
    /// grammar disambiguation.
    pub fn add_type_name(&mut self, name: Identifier)
        ensures
            final(self).type_names_v() == old(self).type_names_v().push(name@),
            final(self).scopes_v() == old(self).scopes_v(),
    {
        let ghost v = name@;
        self.type_names.push(name);
        proof {
            assert(self.type_names@.map_values(|i: Identifier| i@) =~= old(
                self,
            ).type_names@.map_values(|i: Identifier| i@).push(v));
        }
    }
}

impl Default for Context {
    /// A fresh context: no open scope, no known type names.
    fn default() -> (r: Context)
        ensures
            r.scopes_v() == Seq::<ScopeV>::empty(),
            r.type_names_v() == Seq::<Seq<char>>::empty(),
    {
        let r = Context { scopes: Vec::new(), type_names: Vec::new() };
        proof {
            assert(r.scopes@.map_values(|s: Scope| s@) =~= Seq::<ScopeV>::empty());
            assert(r.type_names@.map_values(|i: Identifier| i@) =~= Seq::<Seq<char>>::empty());
        }
        r
    }
}

} // verus!
