pub mod symbols;
pub mod variables;

use vstd::prelude::*;

use crate::analysis_context::symbols::{copy_refs, SymbolArena, SymbolData, SymbolHandle, SymbolRef};
use crate::locations::{Location, Span};
use crate::type_store::{TypeStore, ELEMENT};
use crate::types::{TypeId, TypeModel};

verus! {

/// A token of the source that names a symbol.
#[derive(Clone, Copy, Debug)]
pub struct SymbolToken {
    pub span: Span,
    pub symbol: SymbolRef,
}

/// A token of the source that names a member of a type.
#[derive(Clone, Copy, Debug)]
pub struct MemberToken {
    pub span: Span,
    pub ty: TypeId,
}

/// A semantic token of the source.
#[derive(Clone, Copy, Debug)]
pub enum Token {
    Symbol(SymbolToken),
    Member(MemberToken),
}

/// A lexical scope: the symbols it binds and the outer symbols it captures.
#[derive(Clone, Debug)]
pub struct Scope {
    pub bindings: Vec<SymbolRef>,
    /// Symbols captured by the scope.
    captured: Vec<SymbolRef>,
}

/// The first of `bindings` whose symbol is named `name`.
pub open spec fn first_named(bindings: Seq<SymbolRef>, arena: Seq<SymbolData>, name: Seq<char>) -> Option<SymbolRef>
    decreases bindings.len(),
{
    if bindings.len() == 0 {
        None
    } else if arena[bindings[0].0 as int].name@ == name {
        Some(bindings[0])
    } else {
        first_named(bindings.drop_first(), arena, name)
    }
}

/// The symbol `name` resolves to: searched from the innermost scope out.
pub open spec fn lookup_in(scopes: Seq<Scope>, arena: Seq<SymbolData>, name: Seq<char>) -> Option<SymbolRef>
    decreases scopes.len(),
{
    if scopes.len() == 0 {
        None
    } else {
        match first_named(scopes.last().binding_refs(), arena, name) {
            Some(r) => Some(r),
            None => lookup_in(scopes.drop_last(), arena, name),
        }
    }
}

/// The references not in `b`.
pub open spec fn unbound(b: Seq<SymbolRef>) -> spec_fn(SymbolRef) -> bool {
    |d: SymbolRef| !b.contains(d)
}

/// Whether every reference points into an arena of `n` symbols.
pub open spec fn refs_below(refs: Seq<SymbolRef>, n: nat) -> bool {
    forall|i: int| 0 <= i < refs.len() ==> (#[trigger] refs[i]).0 < n
}

proof fn lemma_first_named_at(bindings: Seq<SymbolRef>, arena: Seq<SymbolData>, name: Seq<char>, i: int)
    requires
        0 <= i < bindings.len(),
        arena[bindings[i].0 as int].name@ == name,
        forall|k: int| 0 <= k < i ==> arena[(#[trigger] bindings[k]).0 as int].name@ != name,
    ensures
        first_named(bindings, arena, name) == Some(bindings[i]),
    decreases i,
{
    if i > 0 {
        let t = bindings.drop_first();
        assert(arena[bindings[0].0 as int].name@ != name);
        assert forall|k: int| 0 <= k < i - 1 implies arena[(#[trigger] t[k]).0 as int].name@ != name by {
            assert(t[k] == bindings[k + 1]);
        }
        lemma_first_named_at(t, arena, name, i - 1);
    }
}

proof fn lemma_first_named_none(bindings: Seq<SymbolRef>, arena: Seq<SymbolData>, name: Seq<char>)
    requires
        forall|k: int| 0 <= k < bindings.len() ==> arena[(#[trigger] bindings[k]).0 as int].name@ != name,
    ensures
        first_named(bindings, arena, name) is None,
    decreases bindings.len(),
{
    if bindings.len() > 0 {
        let t = bindings.drop_first();
        assert(arena[bindings[0].0 as int].name@ != name);
        assert forall|k: int| 0 <= k < t.len() implies arena[(#[trigger] t[k]).0 as int].name@ != name by {
            assert(t[k] == bindings[k + 1]);
        }
        lemma_first_named_none(t, arena, name);
    }
}

impl Scope {
    /// The bound symbols, in binding order.
    pub closed spec fn binding_refs(self) -> Seq<SymbolRef> {
        self.bindings@
    }

    /// The captured symbols.
    pub closed spec fn captured_view(self) -> Seq<SymbolRef> {
        self.captured@
    }

    pub fn new() -> (r: Self)
        ensures
            r.binding_refs() == Seq::<SymbolRef>::empty(),
            r.captured_view() == Seq::<SymbolRef>::empty(),
    {
        Scope { bindings: Vec::new(), captured: Vec::new() }
    }

    /// Whether `symbol` is bound in this scope.
    pub fn has(&self, symbol: &SymbolRef) -> (r: bool)
        ensures
            r == self.binding_refs().contains(*symbol),
    {
        let mut i: usize = 0;
        while i < self.bindings.len()
            invariant
                i <= self.binding_refs().len(),
                forall|k: int| 0 <= k < i ==> self.binding_refs()[k] != *symbol,
            decreases self.binding_refs().len() - i,
        {
            if self.bindings[i].is(symbol) {
                return true;
            }
            i = i + 1;
        }
        false
    }

    /// Records that the scope captures `symbol`.
    pub fn capture(&mut self, symbol: SymbolRef)
        ensures
            final(self).binding_refs() == old(self).binding_refs(),
            final(self).captured_view() == old(self).captured_view().push(symbol),
    {
        self.captured.push(symbol);
    }

    /// The symbols captured by the scope.
    pub fn captured(&self) -> (r: Vec<SymbolRef>)
        ensures
            r@ == self.captured_view(),
    {
        copy_refs(&self.captured)
    }

    /// The first binding of this scope whose symbol is named `name`.
    pub fn find(&self, name: &str, arena: &SymbolArena) -> (r: Option<SymbolRef>)
        requires
            refs_below(self.binding_refs(), arena@.len()),
        ensures
            r == first_named(self.binding_refs(), arena@, name@),
    {
        let key = String::from_str(name);
        let mut i: usize = 0;
        while i < self.bindings.len()
            invariant
                i <= self.binding_refs().len(),
                key@ == name@,
                refs_below(self.binding_refs(), arena@.len()),
                forall|k: int| 0 <= k < i ==> arena@[(#[trigger] self.binding_refs()[k]).0 as int].name@ != name@,
            decreases self.binding_refs().len() - i,
        {
            let b = self.bindings[i];
            assert(b.0 < arena@.len());
            let data = b.borrow(arena);
            if crate::types::string_eq(&data.name, &key) {
                proof {
                    lemma_first_named_at(self.binding_refs(), arena@, name@, i as int);
                }
                return Some(b);
            }
            i = i + 1;
        }
        proof {
            lemma_first_named_none(self.binding_refs(), arena@, name@);
        }
        None
    }
}

/// The map that a list of (location, type) entries with distinct locations stands for.
pub open spec fn entries_map(e: Seq<(Location, TypeId)>) -> Map<Location, TypeId> {
    Map::new(
        |l: Location| exists|i: int| 0 <= i < e.len() && e[i].0 == l,
        |l: Location| e[choose|i: int| 0 <= i < e.len() && e[i].0 == l].1,
    )
}

/// The analysis state of one module: its symbols, scopes, types and the
/// types of its expressions.
#[derive(Clone)]
pub struct LocalContext {
    /// Handles of the existing symbols; the `i`-th handle is `SymbolHandle(i)`.
    pub symbols: Vec<SymbolHandle>,
    /// The symbols themselves.
    pub arena: SymbolArena,
    pub scopes: Vec<Scope>,
    pub type_store: TypeStore,
    /// The type of each checked expression, by location (locations are distinct).
    pub expressions: Vec<(Location, TypeId)>,
    pub current_declaration_dependencies: Option<Vec<SymbolRef>>,
    pub other_dependencies: Vec<(Location, Vec<SymbolRef>)>,
}

impl LocalContext {
    /// The context's invariant.
    pub open spec fn wf(self) -> bool {
        &&& self.scopes@.len() >= 1
        &&& forall|i: int| 0 <= i < self.symbols@.len() ==> (#[trigger] self.symbols@[i]).0 < self.arena@.len()
        &&& forall|i: int, j: int| 0 <= i < j < self.symbols@.len() ==> (#[trigger] self.symbols@[i]).0 != (#[trigger] self.symbols@[j]).0
        &&& forall|s: int| 0 <= s < self.scopes@.len() ==> refs_below((#[trigger] self.scopes@[s]).binding_refs(), self.arena@.len())
        &&& forall|i: int, j: int| 0 <= i < j < self.expressions@.len() ==> (#[trigger] self.expressions@[i]).0 != (#[trigger] self.expressions@[j]).0
        &&& self.type_store.wf()
    }

    /// The types of the checked expressions, by location.
    pub open spec fn expression_types(self) -> Map<Location, TypeId> {
        entries_map(self.expressions@)
    }

    /// The innermost scope.
    pub open spec fn current(self) -> Scope {
        self.scopes@.last()
    }

    /// Whether `v` was declared in this context (it has a handle here),
    /// rather than imported from another module.
    pub open spec fn is_local(self, v: SymbolRef) -> bool {
        exists|i: int| 0 <= i < self.symbols@.len() && (#[trigger] self.symbols@[i]).0 == v.0
    }

    /// A context for a module whose symbols join `arena`, the symbols of the
    /// project so far: symbols of other modules in it can be imported.
    pub fn with_arena(arena: SymbolArena) -> (r: Self)
        ensures
            r.wf(),
            r.symbols@ == Seq::<SymbolHandle>::empty(),
            r.arena@ == arena@,
            r.scopes@.len() == 1,
            r.current().binding_refs() == Seq::<SymbolRef>::empty(),
            r.current().captured_view() == Seq::<SymbolRef>::empty(),
            r.expressions@ == Seq::<(Location, TypeId)>::empty(),
            r.expression_types() == Map::<Location, TypeId>::empty(),
            r.current_declaration_dependencies is None,
            r.other_dependencies@ == Seq::<(Location, Vec<SymbolRef>)>::empty(),
            r.type_store.models() =~= seq![
                TypeModel::Unknown,
                TypeModel::Unit,
                TypeModel::Dynamic,
                TypeModel::Boolean,
                TypeModel::String,
                TypeModel::Integer,
                TypeModel::Float,
                TypeModel::Struct(ELEMENT, Seq::empty(), Seq::empty()),
            ],
            r.type_store.interned_ids() =~= seq![0usize, 1, 2, 3, 4, 5, 6, 7],
            r.type_store.alias_list() =~= seq![(ELEMENT, "Element"@)],
            r.type_store.method_table() =~= Map::empty(),
            r.type_store.children_below(),
            r.type_store.len() == 8,
    {
        let mut scopes: Vec<Scope> = Vec::new();
        scopes.push(Scope::new());
        let r = LocalContext {
            symbols: Vec::new(),
            arena,
            scopes,
            type_store: TypeStore::new(),
            expressions: Vec::new(),
            current_declaration_dependencies: None,
            other_dependencies: Vec::new(),
        };
        assert(r.expression_types() =~= Map::<Location, TypeId>::empty());
        r
    }

    /// A context for a first module: no symbols yet.
    pub fn new() -> (r: Self)
        ensures
            r.wf(),
            r.symbols@ == Seq::<SymbolHandle>::empty(),
            r.arena@ == Seq::<SymbolData>::empty(),
            r.scopes@.len() == 1,
            r.current().binding_refs() == Seq::<SymbolRef>::empty(),
            r.current().captured_view() == Seq::<SymbolRef>::empty(),
            r.expressions@ == Seq::<(Location, TypeId)>::empty(),
            r.expression_types() == Map::<Location, TypeId>::empty(),
            r.current_declaration_dependencies is None,
            r.other_dependencies@ == Seq::<(Location, Vec<SymbolRef>)>::empty(),
            r.type_store.models() =~= seq![
                TypeModel::Unknown,
                TypeModel::Unit,
                TypeModel::Dynamic,
                TypeModel::Boolean,
                TypeModel::String,
                TypeModel::Integer,
                TypeModel::Float,
                TypeModel::Struct(ELEMENT, Seq::empty(), Seq::empty()),
            ],
            r.type_store.interned_ids() =~= seq![0usize, 1, 2, 3, 4, 5, 6, 7],
            r.type_store.alias_list() =~= seq![(ELEMENT, "Element"@)],
            r.type_store.method_table() =~= Map::empty(),
            r.type_store.children_below(),
            r.type_store.len() == 8,
    {
        LocalContext::with_arena(SymbolArena::new())
    }

    /// Opens a new innermost scope.
    pub fn enter_scope(&mut self)
        requires
            old(self).wf(),
        ensures
            final(self).wf(),
            final(self).scopes@.len() == old(self).scopes@.len() + 1,
            final(self).scopes@.drop_last() == old(self).scopes@,
            final(self).current().binding_refs() == Seq::<SymbolRef>::empty(),
            final(self).current().captured_view() == Seq::<SymbolRef>::empty(),
            final(self).arena == old(self).arena,
            final(self).symbols == old(self).symbols,
            final(self).expressions == old(self).expressions,
            final(self).type_store == old(self).type_store,
            final(self).current_declaration_dependencies == old(self).current_declaration_dependencies,
            final(self).other_dependencies == old(self).other_dependencies,
    {
        self.scopes.push(Scope::new());
        assert(self.scopes@.drop_last() =~= old(self).scopes@);
    }

    /// Closes the innermost scope and gives it back. The module scope
    /// cannot be closed.
    pub fn pop_scope(&mut self) -> (r: Scope)
        requires
            old(self).wf(),
            old(self).scopes@.len() > 1,
        ensures
            final(self).wf(),
            r == old(self).current(),
            final(self).scopes@ == old(self).scopes@.drop_last(),
            final(self).arena == old(self).arena,
            final(self).symbols == old(self).symbols,
            final(self).expressions == old(self).expressions,
            final(self).type_store == old(self).type_store,
            final(self).current_declaration_dependencies == old(self).current_declaration_dependencies,
            final(self).other_dependencies == old(self).other_dependencies,
    {
        let r = self.scopes.pop().unwrap();
        assert(self.scopes@ =~= old(self).scopes@.drop_last());
        r
    }

    fn current_scope(&self) -> (r: &Scope)
        requires
            self.wf(),
        ensures
            *r == self.current(),
    {
        let n = self.scopes.len();
        &self.scopes[n - 1]
    }

    fn current_scope_mut(&mut self) -> (r: &mut Scope)
        requires
            old(self).scopes@.len() >= 1,
        ensures
            *r == old(self).current(),
            final(self).scopes@ == old(self).scopes@.update(old(self).scopes@.len() - 1, *final(r)),
            final(self).arena == old(self).arena,
            final(self).symbols == old(self).symbols,
            final(self).expressions == old(self).expressions,
            final(self).type_store == old(self).type_store,
            final(self).current_declaration_dependencies == old(self).current_declaration_dependencies,
            final(self).other_dependencies == old(self).other_dependencies,
    {
        let n = self.scopes.len();
        &mut self.scopes[n - 1]
    }

    /// Adds `symbol`, binds it in the innermost scope and gives a reference
    /// to it. Dependencies that the innermost scope does not bind are
    /// recorded as captured by it.
    pub fn register_symbol(&mut self, symbol: SymbolData) -> (r: SymbolRef)
        requires
            old(self).wf(),
        ensures
            final(self).wf(),
            r.0 == old(self).arena@.len(),
            final(self).arena@ == old(self).arena@.push(symbol),
            final(self).symbols@ == old(self).symbols@.push(SymbolHandle(r.0)),
            final(self).scopes@.len() == old(self).scopes@.len(),
            final(self).scopes@.drop_last() == old(self).scopes@.drop_last(),
            final(self).current().binding_refs() == old(self).current().binding_refs().push(r),
            final(self).current().captured_view() == old(self).current().captured_view()
                + symbol.dependencies@.filter(unbound(old(self).current().binding_refs())),
            final(self).expressions == old(self).expressions,
            final(self).type_store == old(self).type_store,
            final(self).current_declaration_dependencies == old(self).current_declaration_dependencies,
            final(self).other_dependencies == old(self).other_dependencies,
    {
        let ghost deps = symbol.dependencies@;
        let ghost pred = unbound(old(self).current().binding_refs());
        let mut i: usize = 0;
        while i < symbol.dependencies.len()
            invariant
                self.wf(),
                i <= deps.len(),
                deps == symbol.dependencies@,
                pred == unbound(old(self).current().binding_refs()),
                self.arena == old(self).arena,
                self.symbols == old(self).symbols,
                self.expressions == old(self).expressions,
                self.type_store == old(self).type_store,
                self.current_declaration_dependencies == old(self).current_declaration_dependencies,
                self.other_dependencies == old(self).other_dependencies,
                self.scopes@.len() == old(self).scopes@.len(),
                self.scopes@.drop_last() == old(self).scopes@.drop_last(),
                self.current().binding_refs() == old(self).current().binding_refs(),
                self.current().captured_view() == old(self).current().captured_view() + deps.take(i as int).filter(pred),
            decreases deps.len() - i,
        {
            let dep = symbol.dependencies[i];
            proof {
                reveal_with_fuel(Seq::filter, 1);
                assert(deps.take(i + 1).drop_last() =~= deps.take(i as int));
            }
            assert(deps.take(i + 1).last() == dep);
            if !self.current_scope().has(&dep) {
                let ghost before = self.scopes@;
                assert(pred(dep));
                assert(deps.take(i + 1).filter(pred) == deps.take(i as int).filter(pred).push(dep));
                self.current_scope_mut().capture(dep);
                proof {
                    assert(self.scopes@.drop_last() =~= before.drop_last());
                    assert(self.current().captured_view() == before.last().captured_view().push(dep));
                    assert(self.current().captured_view() =~= old(self).current().captured_view() + deps.take(i + 1).filter(pred));
                }
            } else {
                assert(!pred(dep));
                assert(deps.take(i + 1).filter(pred) == deps.take(i as int).filter(pred));
            }
            i = i + 1;
        }
        proof {
            assert(deps.take(deps.len() as int) =~= deps);
        }
        let handle = SymbolHandle::new(&mut self.arena, symbol);
        let r = handle.readonly();
        let ghost before = self.scopes@;
        self.current_scope_mut().bindings.push(r);
        self.symbols.push(handle);
        proof {
            assert(self.scopes@.drop_last() =~= before.drop_last());
            assert forall|s: int| 0 <= s < self.scopes@.len() implies refs_below((#[trigger] self.scopes@[s]).binding_refs(), self.arena@.len()) by {
                if s < self.scopes@.len() - 1 {
                    assert(self.scopes@[s] == self.scopes@.drop_last()[s]);
                    assert(old(self).scopes@[s] == old(self).scopes@.drop_last()[s]);
                    assert(refs_below(old(self).scopes@[s].binding_refs(), old(self).arena@.len()));
                } else {
                    let b = self.scopes@[s].binding_refs();
                    assert(refs_below(old(self).current().binding_refs(), old(self).arena@.len()));
                    assert forall|k: int| 0 <= k < b.len() implies (#[trigger] b[k]).0 < self.arena@.len() by {
                        if k < b.len() - 1 {
                            assert(b[k] == old(self).current().binding_refs()[k]);
                        }
                    }
                }
            }
        }
        r
    }

    /// Binds an existing symbol in the innermost scope: one of this module,
    /// or one that another module of the project declared in the shared
    /// arena (see `with_arena`). No handle is created for it here.
    pub fn import(&mut self, symbol: SymbolRef)
        requires
            old(self).wf(),
            symbol.0 < old(self).arena@.len(),
        ensures
            final(self).wf(),
            final(self).scopes@.len() == old(self).scopes@.len(),
            final(self).scopes@.drop_last() == old(self).scopes@.drop_last(),
            final(self).current().binding_refs() == old(self).current().binding_refs().push(symbol),
            final(self).current().captured_view() == old(self).current().captured_view(),
            final(self).arena == old(self).arena,
            final(self).symbols == old(self).symbols,
            final(self).expressions == old(self).expressions,
            final(self).type_store == old(self).type_store,
            final(self).current_declaration_dependencies == old(self).current_declaration_dependencies,
            final(self).other_dependencies == old(self).other_dependencies,
    {
        let ghost before = self.scopes@;
        let current_scope = self.current_scope_mut();
        current_scope.bindings.push(symbol);
        proof {
            assert(self.scopes@.drop_last() =~= before.drop_last());
            assert forall|s: int| 0 <= s < self.scopes@.len() implies refs_below((#[trigger] self.scopes@[s]).binding_refs(), self.arena@.len()) by {
                if s < self.scopes@.len() - 1 {
                    assert(self.scopes@[s] == self.scopes@.drop_last()[s]);
                    assert(old(self).scopes@[s] == old(self).scopes@.drop_last()[s]);
                } else {
                    let b = self.scopes@[s].binding_refs();
                    assert(refs_below(old(self).current().binding_refs(), old(self).arena@.len()));
                    assert forall|k: int| 0 <= k < b.len() implies (#[trigger] b[k]).0 < self.arena@.len() by {
                        if k < b.len() - 1 {
                            assert(b[k] == old(self).current().binding_refs()[k]);
                        }
                    }
                }
            }
        }
    }

    /// Records `ty` as the type of the expression at `loc`, and gives `ty` back.
    pub fn save_expression_type(&mut self, loc: Location, ty: TypeId) -> (r: TypeId)
        requires
            old(self).wf(),
        ensures
            final(self).wf(),
            r == ty,
            final(self).expression_types() == old(self).expression_types().insert(loc, ty),
            final(self).arena == old(self).arena,
            final(self).symbols == old(self).symbols,
            final(self).scopes == old(self).scopes,
            final(self).type_store == old(self).type_store,
            final(self).current_declaration_dependencies == old(self).current_declaration_dependencies,
            final(self).other_dependencies == old(self).other_dependencies,
    {
        let ghost e = self.expressions@;
        proof {
            lemma_entries_map(e);
        }
        let mut i: usize = 0;
        while i < self.expressions.len()
            invariant
                i <= self.expressions@.len(),
                self.expressions@ == e,
                forall|k: int| 0 <= k < i ==> (#[trigger] e[k]).0 != loc,
            ensures
                i <= e.len(),
                forall|k: int| 0 <= k < i ==> (#[trigger] e[k]).0 != loc,
                i < e.len() ==> e[i as int].0 == loc,
            decreases self.expressions@.len() - i,
        {
            if self.expressions[i].0 == loc {
                break;
            }
            i = i + 1;
        }
        assert(i < e.len() ==> e[i as int].0 == loc);
        if i < self.expressions.len() {
            let _ = self.expressions.remove(i);
            self.expressions.insert(i, (loc, ty));
            proof {
                let ne = self.expressions@;
                assert(ne =~= e.update(i as int, (loc, ty)));
                assert forall|a: int, b: int| 0 <= a < b < ne.len() implies (#[trigger] ne[a]).0 != (#[trigger] ne[b]).0 by {
                    assert(ne[a].0 == e[a].0 && ne[b].0 == e[b].0);
                }
                lemma_entries_map(ne);
                let m = old(self).expression_types().insert(loc, ty);
                assert forall|l: Location| #[trigger] self.expression_types().contains_key(l) <==> m.contains_key(l) by {
                    if m.contains_key(l) && l != loc {
                        let k = choose|k: int| 0 <= k < e.len() && e[k].0 == l;
                        assert(ne[k].0 == l);
                    }
                    if self.expression_types().contains_key(l) {
                        let k = choose|k: int| 0 <= k < ne.len() && ne[k].0 == l;
                        if k != i {
                            assert(e[k].0 == l);
                        }
                    }
                    if l == loc {
                        assert(ne[i as int].0 == l);
                    }
                }
                assert forall|l: Location| #[trigger] self.expression_types().contains_key(l) implies self.expression_types()[l] == m[l] by {
                    let k = choose|k: int| 0 <= k < ne.len() && ne[k].0 == l;
                    assert(self.expression_types()[ne[k].0] == ne[k].1);
                    if k != i {
                        assert(e[k].0 == l);
                        assert(old(self).expression_types()[e[k].0] == e[k].1);
                    }
                }
                assert(self.expression_types() =~= m);
            }
        } else {
            self.expressions.push((loc, ty));
            proof {
                let ne = self.expressions@;
                assert(ne =~= e.push((loc, ty)));
                assert forall|a: int, b: int| 0 <= a < b < ne.len() implies (#[trigger] ne[a]).0 != (#[trigger] ne[b]).0 by {
                    if b == ne.len() - 1 {
                        assert(e[a].0 != loc);
                    } else {
                        assert(ne[a] == e[a] && ne[b] == e[b]);
                    }
                }
                lemma_entries_map(ne);
                let m = old(self).expression_types().insert(loc, ty);
                assert forall|l: Location| #[trigger] self.expression_types().contains_key(l) <==> m.contains_key(l) by {
                    if m.contains_key(l) && l != loc {
                        let k = choose|k: int| 0 <= k < e.len() && e[k].0 == l;
                        assert(ne[k].0 == l);
                    }
                    if self.expression_types().contains_key(l) {
                        let k = choose|k: int| 0 <= k < ne.len() && ne[k].0 == l;
                        if k != e.len() {
                            assert(e[k].0 == l);
                        }
                    }
                    if l == loc {
                        assert(ne[e.len() as int].0 == l);
                    }
                }
                assert forall|l: Location| #[trigger] self.expression_types().contains_key(l) implies self.expression_types()[l] == m[l] by {
                    let k = choose|k: int| 0 <= k < ne.len() && ne[k].0 == l;
                    assert(self.expression_types()[ne[k].0] == ne[k].1);
                    if k != e.len() {
                        assert(e[k].0 == l);
                        assert(old(self).expression_types()[e[k].0] == e[k].1);
                    }
                }
                assert(self.expression_types() =~= m);
            }
        }
        ty
    }

    /// The symbol that `name` resolves to, from the innermost scope out.
    pub fn lookup(&self, name: &str) -> (r: Option<SymbolRef>)
        requires
            self.wf(),
        ensures
            r == lookup_in(self.scopes@, self.arena@, name@),
    {
        let mut i: usize = self.scopes.len();
        assert(self.scopes@.take(i as int) =~= self.scopes@);
        while i > 0
            invariant
                self.wf(),
                i <= self.scopes@.len(),
                lookup_in(self.scopes@, self.arena@, name@) == lookup_in(self.scopes@.take(i as int), self.arena@, name@),
            decreases i,
        {
            let scope = &self.scopes[i - 1];
            assert(refs_below(self.scopes@[i - 1].binding_refs(), self.arena@.len()));
            proof {
                let t = self.scopes@.take(i as int);
                assert(t.last() == self.scopes@[i - 1]);
                assert(t.drop_last() =~= self.scopes@.take(i - 1));
            }
            if let Some(var) = scope.find(name, &self.arena) {
                return Some(var);
            }
            i = i - 1;
        }
        proof {
            assert(self.scopes@.take(0) =~= Seq::<Scope>::empty());
        }
        None
    }

    /// The handle of the symbol that `name` resolves to.
    pub fn lookup_mut(&self, name: &str) -> (r: Option<SymbolHandle>)
        requires
            self.wf(),
        ensures
            r == match lookup_in(self.scopes@, self.arena@, name@) {
                Some(v) => if self.is_local(v) { Some(SymbolHandle(v.0)) } else { None::<SymbolHandle> },
                None => None::<SymbolHandle>,
            },
    {
        proof {
            lemma_lookup_below(self.scopes@, self.arena@, name@);
        }
        match self.lookup(name) {
            Some(var) => self.get_handle(&var),
            None => None,
        }
    }

    fn get_handle(&self, var: &SymbolRef) -> (r: Option<SymbolHandle>)
        requires
            self.wf(),
        ensures
            r == (if self.is_local(*var) { Some(SymbolHandle(var.0)) } else { None::<SymbolHandle> }),
    {
        let mut i: usize = 0;
        while i < self.symbols.len()
            invariant
                self.wf(),
                i <= self.symbols@.len(),
                forall|k: int| 0 <= k < i ==> (#[trigger] self.symbols@[k]).0 != var.0,
            decreases self.symbols@.len() - i,
        {
            if self.symbols[i].has_ref(var) {
                return Some(self.symbols[i]);
            }
            i = i + 1;
        }
        None
    }

    /// The first binding of the innermost scope whose symbol is named `name`.
    pub fn find_in_current_scope(&self, name: &str) -> (r: Option<SymbolRef>)
        requires
            self.wf(),
        ensures
            r == first_named(self.current().binding_refs(), self.arena@, name@),
    {
        let scope = self.current_scope();
        assert(refs_below(self.scopes@[self.scopes@.len() - 1].binding_refs(), self.arena@.len()));
        scope.find(name, &self.arena)
    }

    /// Appends `deps` to the dependencies of the declaration being checked, if any.
    pub fn add_dependencies(&mut self, deps: Vec<SymbolRef>)
        ensures
            match old(self).current_declaration_dependencies {
                Some(cur) => final(self).current_declaration_dependencies matches Some(n) && n@ == cur@ + deps@,
                None => final(self).current_declaration_dependencies is None,
            },
            final(self).arena == old(self).arena,
            final(self).symbols == old(self).symbols,
            final(self).scopes == old(self).scopes,
            final(self).expressions == old(self).expressions,
            final(self).type_store == old(self).type_store,
            final(self).other_dependencies == old(self).other_dependencies,
    {
        let mut deps = deps;
        match self.current_declaration_dependencies.take() {
            Some(mut current) => {
                current.append(&mut deps);
                self.current_declaration_dependencies = Some(current);
            },
            None => {},
        }
    }
}

proof fn lemma_entries_map(e: Seq<(Location, TypeId)>)
    requires
        forall|i: int, j: int| 0 <= i < j < e.len() ==> (#[trigger] e[i]).0 != (#[trigger] e[j]).0,
    ensures
        forall|l: Location| #[trigger] entries_map(e).contains_key(l) <==> exists|i: int| 0 <= i < e.len() && e[i].0 == l,
        forall|i: int| 0 <= i < e.len() ==> entries_map(e)[#[trigger] e[i].0] == e[i].1,
{
    assert forall|i: int| 0 <= i < e.len() implies entries_map(e)[#[trigger] e[i].0] == e[i].1 by {
        let l = e[i].0;
        assert(entries_map(e).contains_key(l));
        let k = choose|k: int| 0 <= k < e.len() && e[k].0 == l;
        if k != i {
            if k < i {
                assert(e[k].0 != e[i].0);
            } else {
                assert(e[i].0 != e[k].0);
            }
        }
    }
}

proof fn lemma_lookup_below(scopes: Seq<Scope>, arena: Seq<SymbolData>, name: Seq<char>)
    requires
        forall|s: int| 0 <= s < scopes.len() ==> refs_below((#[trigger] scopes[s]).binding_refs(), arena.len()),
    ensures
        lookup_in(scopes, arena, name) matches Some(v) ==> v.0 < arena.len(),
    decreases scopes.len(),
{
    if scopes.len() > 0 {
        let last = scopes.last().binding_refs();
        assert(refs_below(scopes[scopes.len() - 1].binding_refs(), arena.len()));
        lemma_first_named_below(last, arena, name);
        let rest = scopes.drop_last();
        assert forall|s: int| 0 <= s < rest.len() implies refs_below((#[trigger] rest[s]).binding_refs(), arena.len()) by {
            assert(rest[s] == scopes[s]);
        }
        lemma_lookup_below(rest, arena, name);
    }
}

proof fn lemma_first_named_below(bindings: Seq<SymbolRef>, arena: Seq<SymbolData>, name: Seq<char>)
    requires
        refs_below(bindings, arena.len()),
    ensures
        first_named(bindings, arena, name) matches Some(v) ==> v.0 < arena.len(),
    decreases bindings.len(),
{
    if bindings.len() > 0 {
        let t = bindings.drop_first();
        assert forall|i: int| 0 <= i < t.len() implies (#[trigger] t[i]).0 < arena.len() by {
            assert(t[i] == bindings[i + 1]);
        }
        assert(bindings[0].0 < arena.len());
        lemma_first_named_below(t, arena, name);
    }
}


proof fn lemma_first_named_push(bindings: Seq<SymbolRef>, arena: Seq<SymbolData>, symbol: SymbolData, r: SymbolRef)
    requires
        refs_below(bindings, arena.len()),
        r.0 == arena.len(),
        first_named(bindings, arena, symbol.name@) is None,
    ensures
        first_named(bindings.push(r), arena.push(symbol), symbol.name@) == Some(r),
    decreases bindings.len(),
{
    let b2 = bindings.push(r);
    let a2 = arena.push(symbol);
    if bindings.len() == 0 {
        assert(b2[0] == r);
        assert(a2[r.0 as int] == symbol);
    } else {
        assert(bindings[0].0 < arena.len());
        assert(a2[bindings[0].0 as int] == arena[bindings[0].0 as int]);
        assert(b2.drop_first() =~= bindings.drop_first().push(r));
        assert forall|i: int| 0 <= i < bindings.drop_first().len() implies (#[trigger] bindings.drop_first()[i]).0 < arena.len() by {
            assert(bindings.drop_first()[i] == bindings[i + 1]);
        }
        lemma_first_named_push(bindings.drop_first(), arena, symbol, r);
    }
}

/// A symbol registered in the innermost scope is what its name resolves to
/// afterwards, over any symbol of outer scopes, unless the innermost scope
/// already binds that name.
pub proof fn lemma_register_then_lookup(
    scopes: Seq<Scope>,
    arena: Seq<SymbolData>,
    symbol: SymbolData,
    r: SymbolRef,
    scopes2: Seq<Scope>,
)
    requires
        scopes.len() >= 1,
        refs_below(scopes.last().binding_refs(), arena.len()),
        r.0 == arena.len(),
        scopes2.len() == scopes.len(),
        scopes2.last().binding_refs() == scopes.last().binding_refs().push(r),
        first_named(scopes.last().binding_refs(), arena, symbol.name@) is None,
    ensures
        lookup_in(scopes2, arena.push(symbol), symbol.name@) == Some(r),
{
    lemma_first_named_push(scopes.last().binding_refs(), arena, symbol, r);
}

} // verus!
