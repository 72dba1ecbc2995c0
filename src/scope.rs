use vstd::prelude::*;

use crate::entity::{EntityId, ScopeRef};

verus! {

/// A table of name bindings with a link to the enclosing scope.
#[derive(Debug)]
pub struct Scope {
    pub names: Vec<String>,
    pub entities: Vec<EntityId>,
    pub parent: Option<ScopeRef>,
}

/// The last index below `n` whose name is `name`, or -1.
pub open spec fn last_index_of(names: Seq<String>, name: Seq<char>, n: int) -> int
    decreases n,
{
    if n <= 0 {
        -1
    } else if names[n - 1]@ == name {
        n - 1
    } else {
        last_index_of(names, name, n - 1)
    }
}

pub proof fn lemma_last_index_of_bounds(names: Seq<String>, name: Seq<char>, n: int)
    requires
        0 <= n <= names.len(),
    ensures
        -1 <= last_index_of(names, name, n) < n,
        last_index_of(names, name, n) >= 0 ==> names[last_index_of(names, name, n)]@ == name,
    decreases n,
{
    if n > 0 && names[n - 1]@ != name {
        lemma_last_index_of_bounds(names, name, n - 1);
    }
}

impl Scope {
    pub open spec fn wf(&self) -> bool {
        self.names@.len() == self.entities@.len()
    }

    /// The binding of `name` in this scope alone: the latest one wins.
    pub open spec fn local(&self, name: Seq<char>) -> Option<EntityId> {
        let j = last_index_of(self.names@, name, self.names@.len() as int);
        if j >= 0 {
            Some(self.entities@[j])
        } else {
            None
        }
    }

    pub fn new(parent: Option<ScopeRef>) -> (r: Scope)
        ensures
            r.wf(),
            r.names@.len() == 0,
            r.parent == parent,
    {
        Scope { names: Vec::new(), entities: Vec::new(), parent }
    }

    pub fn lookup_local(&self, name: &String) -> (r: Option<EntityId>)
        requires
            self.wf(),
        ensures
            r == self.local(name@),
            r is Some ==> exists|j: int| 0 <= j < self.entities@.len() && self.entities@[j] == r->Some_0,
    {
        let mut i = self.names.len();
        while i > 0
            invariant
                i <= self.names@.len(),
                self.wf(),
                last_index_of(self.names@, name@, self.names@.len() as int) == last_index_of(self.names@, name@, i as int),
            decreases i,
        {
            if self.names[i - 1] == *name {
                return Some(self.entities[i - 1]);
            }
            i = i - 1;
        }
        None
    }

    pub fn bind(&mut self, name: String, id: EntityId)
        requires
            old(self).wf(),
        ensures
            final(self).wf(),
            final(self).names@ == old(self).names@.push(name),
            final(self).entities@ == old(self).entities@.push(id),
            final(self).parent == old(self).parent,
    {
        self.names.push(name);
        self.entities.push(id);
    }
}

/// Lexical lookup: the binding in scope `s`, else in its enclosing scopes.
pub open spec fn lookup_spec(scopes: Seq<Scope>, s: int, name: Seq<char>) -> Option<EntityId>
    decreases s,
{
    if !(0 <= s < scopes.len()) {
        None
    } else {
        match scopes[s].local(name) {
            Some(id) => Some(id),
            None => match scopes[s].parent {
                Some(p) => if p < s {
                    lookup_spec(scopes, p as int, name)
                } else {
                    None
                },
                None => None,
            },
        }
    }
}

} // verus!
