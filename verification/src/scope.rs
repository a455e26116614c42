use vstd::prelude::*;

use crate::symbols::SymbolId;
use crate::types::string_eq;

verus! {

/// The names bound in one lexical scope of the type checker.
#[derive(Debug)]
pub struct Scope {
    /// Each name occurs at most once.
    bindings: Vec<(String, SymbolId)>,
}

/// The map that a list of distinct bindings stands for.
pub open spec fn bindings_map(b: Seq<(Seq<char>, SymbolId)>) -> Map<Seq<char>, SymbolId>
    decreases b.len(),
{
    if b.len() == 0 {
        Map::empty()
    } else {
        bindings_map(b.drop_last()).insert(b.last().0, b.last().1)
    }
}

proof fn lemma_bindings_map(b: Seq<(Seq<char>, SymbolId)>)
    requires
        forall|i: int, j: int| 0 <= i < j < b.len() ==> (#[trigger] b[i]).0 != (#[trigger] b[j]).0,
    ensures
        forall|n: Seq<char>| #[trigger] bindings_map(b).contains_key(n) <==> exists|i: int| 0 <= i < b.len() && b[i].0 == n,
        forall|i: int| 0 <= i < b.len() ==> bindings_map(b)[#[trigger] b[i].0] == b[i].1,
    decreases b.len(),
{
    if b.len() > 0 {
        let c = b.drop_last();
        assert forall|i: int, j: int| 0 <= i < j < c.len() implies (#[trigger] c[i]).0 != (#[trigger] c[j]).0 by {
            assert(c[i] == b[i] && c[j] == b[j]);
        }
        lemma_bindings_map(c);
        assert forall|n: Seq<char>| #[trigger] bindings_map(b).contains_key(n) <==> exists|i: int| 0 <= i < b.len() && b[i].0 == n by {
            if bindings_map(b).contains_key(n) {
                if n != b.last().0 {
                    assert(bindings_map(c).contains_key(n));
                    let i = choose|i: int| 0 <= i < c.len() && c[i].0 == n;
                    assert(b[i] == c[i]);
                } else {
                    assert(b[b.len() - 1].0 == n);
                }
            }
            if exists|i: int| 0 <= i < b.len() && b[i].0 == n {
                let i = choose|i: int| 0 <= i < b.len() && b[i].0 == n;
                if i < b.len() - 1 {
                    assert(c[i] == b[i]);
                }
            }
        }
        assert forall|i: int| 0 <= i < b.len() implies bindings_map(b)[#[trigger] b[i].0] == b[i].1 by {
            if i < b.len() - 1 {
                assert(c[i] == b[i]);
                assert(b[i].0 != b[b.len() - 1].0);
            }
        }
    }
}

impl Scope {
    /// The bindings, as (name, symbol) pairs in binding order.
    pub closed spec fn binding_list(self) -> Seq<(Seq<char>, SymbolId)> {
        self.bindings@.map_values(|b: (String, SymbolId)| (b.0@, b.1))
    }

    /// The bindings, as a map from names to symbols.
    pub open spec fn view_map(self) -> Map<Seq<char>, SymbolId> {
        bindings_map(self.binding_list())
    }

    /// The scope's invariant: no name is bound twice.
    pub open spec fn wf(self) -> bool {
        forall|i: int, j: int|
            0 <= i < j < self.binding_list().len() ==> (#[trigger] self.binding_list()[i]).0 != (#[trigger] self.binding_list()[j]).0
    }

    pub fn new() -> (r: Scope)
        ensures
            r.wf(),
            r.view_map() == Map::<Seq<char>, SymbolId>::empty(),
    {
        let r = Scope { bindings: Vec::new() };
        assert(r.binding_list() =~= Seq::empty());
        r
    }

    /// Position of the binding of `name`, if any.
    fn position_of(&self, name: &str) -> (r: Option<usize>)
        requires
            self.wf(),
        ensures
            match r {
                Some(i) => i < self.binding_list().len() && self.binding_list()[i as int].0 == name@,
                None => forall|i: int| 0 <= i < self.binding_list().len() ==> (#[trigger] self.binding_list()[i]).0 != name@,
            },
    {
        let key = String::from_str(name);
        let mut i: usize = 0;
        while i < self.bindings.len()
            invariant
                i <= self.bindings@.len(),
                key@ == name@,
                forall|k: int| 0 <= k < i ==> (#[trigger] self.binding_list()[k]).0 != name@,
            decreases self.bindings@.len() - i,
        {
            assert(self.binding_list()[i as int] == (self.bindings@[i as int].0@, self.bindings@[i as int].1));
            if string_eq(&self.bindings[i].0, &key) {
                return Some(i);
            }
            i = i + 1;
        }
        None
    }

    /// The symbol bound to `name`, if any.
    pub fn lookup(&self, name: &str) -> (r: Option<SymbolId>)
        requires
            self.wf(),
        ensures
            r == (if self.view_map().contains_key(name@) {
                Some(self.view_map()[name@])
            } else {
                None
            }),
    {
        proof {
            lemma_bindings_map(self.binding_list());
        }
        match self.position_of(name) {
            Some(i) => {
                assert(self.binding_list()[i as int].1 == self.bindings@[i as int].1);
                Some(self.bindings[i].1)
            },
            None => None,
        }
    }

    /// Binds `name` to `id`, replacing an earlier binding of `name`.
    pub fn bind(&mut self, name: String, id: SymbolId)
        requires
            old(self).wf(),
        ensures
            final(self).wf(),
            final(self).view_map() == old(self).view_map().insert(name@, id),
    {
        proof {
            lemma_bindings_map(self.binding_list());
        }
        match self.position_of(name.as_str()) {
            Some(i) => {
                let old_binding = self.bindings.remove(i);
                self.bindings.insert(i, (old_binding.0, id));
                proof {
                    let b = old(self).binding_list();
                    let nb = self.binding_list();
                    assert(nb =~= b.update(i as int, (name@, id)));
                    assert forall|a: int, c: int| 0 <= a < c < nb.len() implies (#[trigger] nb[a]).0 != (#[trigger] nb[c]).0 by {
                        assert(nb[a].0 == b[a].0 && nb[c].0 == b[c].0);
                    }
                    lemma_bindings_map(nb);
                    assert(self.view_map() =~= old(self).view_map().insert(name@, id)) by {
                        assert forall|n: Seq<char>| #[trigger] self.view_map().contains_key(n) <==> old(self).view_map().insert(name@, id).contains_key(n) by {
                            if self.view_map().contains_key(n) {
                                let k = choose|k: int| 0 <= k < nb.len() && nb[k].0 == n;
                                assert(b[k].0 == n);
                            }
                            if old(self).view_map().contains_key(n) {
                                let k = choose|k: int| 0 <= k < b.len() && b[k].0 == n;
                                assert(nb[k].0 == n);
                            }
                        }
                        assert forall|n: Seq<char>| #[trigger] self.view_map().contains_key(n) implies self.view_map()[n] == old(self).view_map().insert(name@, id)[n] by {
                            let k = choose|k: int| 0 <= k < nb.len() && nb[k].0 == n;
                            assert(nb[k].0 == n);
                            assert(self.view_map()[nb[k].0] == nb[k].1);
                            if k != i {
                                assert(old(self).view_map()[b[k].0] == b[k].1);
                            }
                        }
                    }
                }
            },
            None => {
                let ghost n = name@;
                self.bindings.push((name, id));
                proof {
                    let b = old(self).binding_list();
                    let nb = self.binding_list();
                    assert(nb =~= b.push((n, id)));
                    assert(nb.drop_last() =~= b);
                    assert forall|a: int, c: int| 0 <= a < c < nb.len() implies (#[trigger] nb[a]).0 != (#[trigger] nb[c]).0 by {
                        if c == nb.len() - 1 {
                            assert(b[a].0 != n);
                        } else {
                            assert(nb[a] == b[a] && nb[c] == b[c]);
                        }
                    }
                }
            },
        }
    }

    /// Whether `name` is bound.
    pub fn has(&self, name: &str) -> (r: bool)
        requires
            self.wf(),
        ensures
            r == self.view_map().contains_key(name@),
    {
        proof {
            lemma_bindings_map(self.binding_list());
        }
        self.position_of(name).is_some()
    }

    /// The bindings, as (name, symbol) pairs with distinct names.
    pub fn as_bindings(self) -> (r: Vec<(String, SymbolId)>)
        requires
            self.wf(),
        ensures
            bindings_map(r@.map_values(|b: (String, SymbolId)| (b.0@, b.1))) == self.view_map(),
            forall|i: int, j: int| 0 <= i < j < r@.len() ==> (#[trigger] r@[i]).0@ != (#[trigger] r@[j]).0@,
    {
        let r = self.bindings;
        proof {
            assert forall|i: int, j: int| 0 <= i < j < r@.len() implies (#[trigger] r@[i]).0@ != (#[trigger] r@[j]).0@ by {
                assert(self.binding_list()[i] == (r@[i].0@, r@[i].1));
                assert(self.binding_list()[j] == (r@[j].0@, r@[j].1));
            }
        }
        r
    }
}

} // verus!
