use vstd::prelude::*;
use std::collections::HashMap;

use crate::types::{named_equal, named_models, string_eq, TraitType, EnumType, StructField, StructType, TraitMethod, Type, TypeModel, TypeId, TypeParam};

verus! {

/// Id of the `unknown` type.
pub const UNKNOWN: TypeId = 0;
/// Id of the unit type `()`.
pub const UNIT: TypeId = 1;
/// Id of the `dynamic` type.
pub const DYNAMIC: TypeId = 2;
/// Id of `bool`.
pub const BOOLEAN: TypeId = 3;
/// Id of `str`.
pub const STRING: TypeId = 4;
/// Id of `int`.
pub const INTEGER: TypeId = 5;
/// Id of `float`.
pub const FLOAT: TypeId = 6;
/// Id of the DOM `Element` type.
pub const ELEMENT: TypeId = 7;

/// The arena of all the types of a program.
///
/// Types added with `add` are interned: adding a type equal to an already
/// interned one gives back the existing id. Types added with `add_unique`
/// always get a fresh id.
#[derive(Debug, Clone)]
pub struct TypeStore {
    arena: Vec<Type>,
    /// Ids of the types that were interned by `add`, in insertion order.
    interned: Vec<TypeId>,
    aliases: Vec<(TypeId, String)>,
    /// Methods known for each host type.
    methods: HashMap<TypeId, Vec<TraitMethod>>,
}

/// The first alias recorded for `id` in a list of aliases.
pub open spec fn first_alias(aliases: Seq<(TypeId, Seq<char>)>, id: TypeId) -> Option<Seq<char>>
    decreases aliases.len(),
{
    if aliases.len() == 0 {
        None
    } else if aliases[0].0 == id {
        Some(aliases[0].1)
    } else {
        first_alias(aliases.drop_first(), id)
    }
}

/// The model of a type added by `add_unique` at position `id`: the id
/// carried by structs, enums and type parameters is replaced by `id`.
pub open spec fn with_own_id(m: TypeModel, id: TypeId) -> TypeModel {
    match m {
        TypeModel::Struct(_, p, f) => TypeModel::Struct(id, p, f),
        TypeModel::Enum(_, v) => TypeModel::Enum(id, v),
        TypeModel::Param(n, _) => TypeModel::Param(n, id),
        other => other,
    }
}

impl TypeStore {
    /// The models of the types in the arena, by id.
    pub closed spec fn models(self) -> Seq<TypeModel> {
        self.arena@.map_values(|t: Type| t@)
    }

    /// The interned ids, in insertion order.
    pub closed spec fn interned_ids(self) -> Seq<TypeId> {
        self.interned@
    }

    /// The recorded aliases, in insertion order.
    pub closed spec fn alias_list(self) -> Seq<(TypeId, Seq<char>)> {
        self.aliases@.map_values(|a: (TypeId, String)| (a.0, a.1@))
    }

    /// The method lists, by host, in insertion order.
    pub closed spec fn method_table(self) -> Map<TypeId, Seq<(Seq<char>, TypeId)>> {
        self.methods@.map_values(|v: Vec<TraitMethod>| named_models(v@))
    }

    /// Whether `host` has a method list.
    pub open spec fn has_methods_entry(self, host: TypeId) -> bool {
        self.method_table().dom().contains(host)
    }

    /// The methods recorded for `host` (empty when it has none).
    pub open spec fn methods_of(self, host: TypeId) -> Seq<(Seq<char>, TypeId)> {
        if self.has_methods_entry(host) {
            self.method_table()[host]
        } else {
            Seq::empty()
        }
    }

    /// The number of types in the arena.
    pub open spec fn len(self) -> nat {
        self.models().len()
    }

    /// The id that interning a type with model `m` gives back, if any.
    pub open spec fn lookup(self, m: TypeModel) -> Option<TypeId> {
        let ids = self.interned_ids();
        if exists|j: int| 0 <= j < ids.len() && self.models()[ids[j] as int] == m {
            Some(ids[choose|j: int| 0 <= j < ids.len() && self.models()[ids[j] as int] == m])
        } else {
            None
        }
    }

    /// The first alias of `id`, if any.
    pub open spec fn alias_of(self, id: TypeId) -> Option<Seq<char>> {
        first_alias(self.alias_list(), id)
    }

    /// Whether type `test` implements a trait with the given methods.
    pub open spec fn implements_trait(self, test: TypeId, trait_methods: Seq<(Seq<char>, TypeId)>) -> bool {
        if trait_methods.len() == 0 {
            false
        } else if self.models()[test as int] == TypeModel::Trait(trait_methods) {
            true
        } else if !self.has_methods_entry(test) {
            false
        } else {
            forall|j: int| 0 <= j < trait_methods.len() ==> self.methods_of(test).contains(#[trigger] trait_methods[j])
        }
    }

    /// Whether a value of type `actual` can be used where `expected` is required.
    pub open spec fn assignable(self, actual: TypeId, expected: TypeId) -> bool {
        let a = self.models()[actual as int];
        let e = self.models()[expected as int];
        if e is Unknown || a is Unknown {
            true
        } else if e is Trait {
            self.implements_trait(actual, e->Trait_0)
        } else if e is Generic && a is Ref {
            a->Ref_0 == expected
        } else {
            a == e
        }
    }

    /// The store's invariant: id `UNKNOWN` is the unknown type; interned ids
    /// point into the arena and name pairwise different types.
    pub open spec fn wf(self) -> bool {
        let ids = self.interned_ids();
        &&& self.len() > 0
        &&& self.models()[UNKNOWN as int] is Unknown
        &&& forall|j: int| 0 <= j < ids.len() ==> (#[trigger] ids[j]) < self.len()
        &&& forall|j: int, k: int|
            0 <= j < k < ids.len() ==> self.models()[#[trigger] ids[j] as int] != self.models()[#[trigger] ids[k] as int]
    }

    /// Whether `next` is this store after interning a type with model `m`:
    /// unchanged when an equal type is interned, else with `m` appended
    /// and interned at the end.
    pub open spec fn after_add(self, m: TypeModel, next: TypeStore) -> bool {
        match self.lookup(m) {
            Some(_) => next == self,
            None => {
                &&& next.models() == self.models().push(m)
                &&& next.interned_ids() == self.interned_ids().push(self.len() as TypeId)
                &&& next.alias_list() == self.alias_list()
                &&& next.method_table() == self.method_table()
            },
        }
    }

    /// Whether every type with id up to `ty` refers only to types with
    /// smaller ids, so that walking the components of `ty` terminates.
    pub open spec fn children_below_upto(self, ty: int) -> bool {
        forall|i: int| 0 <= i <= ty && i < self.len() ==> #[trigger] model_children_below(self.models()[i], i)
    }

    /// Whether every type refers only to types with smaller ids, so that
    /// walking a type's components always terminates.
    pub open spec fn children_below(self) -> bool {
        forall|i: int| 0 <= i < self.len() ==> #[trigger] model_children_below(self.models()[i], i)
    }

    proof fn lemma_lookup_found(self, j: int)
        requires
            self.wf(),
            0 <= j < self.interned_ids().len(),
        ensures
            self.lookup(self.models()[self.interned_ids()[j] as int]) == Some(self.interned_ids()[j]),
    {
        let ids = self.interned_ids();
        let m = self.models()[ids[j] as int];
        let k = choose|k: int| 0 <= k < ids.len() && self.models()[ids[k] as int] == m;
        if k != j {
            if k < j {
                assert(self.models()[ids[k] as int] != self.models()[ids[j] as int]);
            } else {
                assert(self.models()[ids[j] as int] != self.models()[ids[k] as int]);
            }
        }
    }

    /// A store holding the built-in types, at their fixed ids.
    pub fn new() -> (store: TypeStore)
        ensures
            store.wf(),
            store.children_below(),
            store.models() =~= seq![
                TypeModel::Unknown,
                TypeModel::Unit,
                TypeModel::Dynamic,
                TypeModel::Boolean,
                TypeModel::String,
                TypeModel::Integer,
                TypeModel::Float,
                TypeModel::Struct(ELEMENT, Seq::empty(), Seq::empty()),
            ],
            store.interned_ids() =~= seq![0usize, 1, 2, 3, 4, 5, 6, 7],
            store.alias_list() =~= seq![(ELEMENT, "Element"@)],
            store.method_table() =~= Map::empty(),
    {
        let mut arena: Vec<Type> = Vec::new();
        arena.push(Type::Unknown);
        arena.push(Type::Unit);
        arena.push(Type::Dynamic);
        arena.push(Type::Boolean);
        arena.push(Type::String);
        arena.push(Type::Integer);
        arena.push(Type::Float);
        arena.push(Type::Struct(StructType { id: ELEMENT, params: Vec::new(), fields: Vec::new() }));
        let mut interned: Vec<TypeId> = Vec::new();
        let mut i: usize = 0;
        while i < 8
            invariant
                i <= 8,
                interned@.len() == i,
                forall|k: int| 0 <= k < i ==> interned@[k] == k,
            decreases 8 - i,
        {
            interned.push(i);
            i = i + 1;
        }
        let mut aliases: Vec<(TypeId, String)> = Vec::new();
        proof {
            reveal_strlit("Element");
        }
        aliases.push((ELEMENT, String::from_str("Element")));
        let store = TypeStore { arena, interned, aliases, methods: HashMap::new() };
        proof {
            assert(named_models(Seq::<TypeParam>::empty()) =~= Seq::empty());
            assert(named_models(Seq::<StructField>::empty()) =~= Seq::empty());
            assert(store.models() =~= seq![
                TypeModel::Unknown,
                TypeModel::Unit,
                TypeModel::Dynamic,
                TypeModel::Boolean,
                TypeModel::String,
                TypeModel::Integer,
                TypeModel::Float,
                TypeModel::Struct(ELEMENT, Seq::empty(), Seq::empty()),
            ]);
            assert(store.interned_ids() =~= seq![0usize, 1, 2, 3, 4, 5, 6, 7]);
            assert(store.alias_list() =~= seq![(ELEMENT, "Element"@)]);
            assert(store.method_table() =~= Map::empty());
        }
        store
    }

    /// The id the next added type will get.
    pub fn get_next_id(&self) -> (r: TypeId)
        ensures
            r == self.len(),
    {
        self.arena.len()
    }

    /// Position in `interned` of the interned type equal to `ty`, if any.
    fn find_interned(&self, ty: &Type) -> (r: Option<usize>)
        requires
            self.wf(),
        ensures
            match r {
                Some(j) => j < self.interned_ids().len() && self.models()[self.interned_ids()[j as int] as int] == ty@,
                None => forall|j: int| 0 <= j < self.interned_ids().len() ==> self.models()[#[trigger] self.interned_ids()[j] as int] != ty@,
            },
    {
        let mut j: usize = 0;
        while j < self.interned.len()
            invariant
                self.wf(),
                j <= self.interned@.len(),
                forall|k: int| 0 <= k < j ==> self.models()[#[trigger] self.interned_ids()[k] as int] != ty@,
            decreases self.interned@.len() - j,
        {
            let id = self.interned[j];
            assert(self.interned_ids()[j as int] == id);
            assert(id < self.arena@.len());
            if self.arena[id].same_as(ty) {
                return Some(j);
            }
            j = j + 1;
        }
        None
    }

    /// Interns `ty`: gives back the id of an equal interned type, or
    /// appends `ty` to the arena and gives its new id.
    pub fn add(&mut self, ty: Type) -> (r: TypeId)
        requires
            old(self).wf(),
        ensures
            final(self).wf(),
            old(self).after_add(ty@, *final(self)),
            old(self).lookup(ty@) matches Some(id) ==> r == id && *final(self) == *old(self),
            old(self).lookup(ty@) is None ==> {
                &&& r == old(self).len()
                &&& final(self).models() == old(self).models().push(ty@)
                &&& final(self).interned_ids() == old(self).interned_ids().push(r)
                &&& final(self).alias_list() == old(self).alias_list()
                &&& final(self).method_table() == old(self).method_table()
            },
            final(self).lookup(ty@) == Some(r),
            r < final(self).len(),
            final(self).models()[r as int] == ty@,
            old(self).children_below() && model_children_below(ty@, old(self).len() as int)
                ==> final(self).children_below(),
    {
        match self.find_interned(&ty) {
            Some(j) => {
                let id = self.interned[j];
                proof {
                    self.lemma_lookup_found(j as int);
                }
                id
            },
            None => {
                let id = self.arena.len();
                proof {
                    assert(self.lookup(ty@) is None);
                }
                self.arena.push(ty);
                self.interned.push(id);
                proof {
                    assert(self.models() =~= old(self).models().push(ty@));
                    assert(self.interned_ids() =~= old(self).interned_ids().push(id));
                    assert(self.alias_list() =~= old(self).alias_list());
                    assert(self.method_table() =~= old(self).method_table());
                    let ids = self.interned_ids();
                    assert forall|a: int, b: int|
                        0 <= a < b < ids.len() implies self.models()[#[trigger] ids[a] as int] != self.models()[#[trigger] ids[b] as int] by {
                        if b == ids.len() - 1 {
                            assert(old(self).models()[old(self).interned_ids()[a] as int] != ty@);
                        } else {
                            assert(old(self).models()[old(self).interned_ids()[a] as int] != old(self).models()[old(self).interned_ids()[b] as int]);
                        }
                    }
                    assert forall|j: int| 0 <= j < ids.len() implies (#[trigger] ids[j]) < self.len() by {
                        if j < ids.len() - 1 {
                            assert(ids[j] == old(self).interned_ids()[j]);
                        }
                    }
                    assert(self.wf());
                    self.lemma_lookup_found(ids.len() - 1);
                    if old(self).children_below() && model_children_below(ty@, old(self).len() as int) {
                        assert forall|i: int| 0 <= i < self.len() implies #[trigger] model_children_below(self.models()[i], i) by {
                            if i < old(self).len() {
                                assert(self.models()[i] == old(self).models()[i]);
                                assert(model_children_below(old(self).models()[i], i));
                            } else {
                                assert(self.models()[i] == ty@);
                            }
                        }
                    }
                }
                id
            },
        }
    }

    /// Appends `ty` to the arena without interning it, and gives its new id.
    /// Structs, enums and type parameters get their new id as their own id.
    pub fn add_unique(&mut self, ty: Type) -> (r: TypeId)
        requires
            old(self).wf(),
        ensures
            final(self).wf(),
            r == old(self).len(),
            final(self).models() == old(self).models().push(with_own_id(ty@, r)),
            final(self).interned_ids() == old(self).interned_ids(),
            final(self).alias_list() == old(self).alias_list(),
            final(self).method_table() == old(self).method_table(),
    {
        let id = self.arena.len();
        let ty = match ty {
            Type::Struct(st) => Type::Struct(StructType { id, params: st.params, fields: st.fields }),
            Type::Enum(e) => Type::Enum(EnumType { id, variants: e.variants }),
            Type::Param(p) => Type::Param(TypeParam { name: p.name, id }),
            ty => ty,
        };
        proof {
            assert(ty@ == with_own_id(ty@, id));
        }
        self.arena.push(ty);
        proof {
            assert(self.models() =~= old(self).models().push(ty@));
            assert(self.interned_ids() =~= old(self).interned_ids());
            assert(self.alias_list() =~= old(self).alias_list());
            assert(self.method_table() =~= old(self).method_table());
            let ids = self.interned_ids();
            assert forall|a: int, b: int|
                0 <= a < b < ids.len() implies self.models()[#[trigger] ids[a] as int] != self.models()[#[trigger] ids[b] as int] by {
                assert(old(self).models()[old(self).interned_ids()[a] as int] != old(self).models()[old(self).interned_ids()[b] as int]);
                assert(self.models()[ids[a] as int] == old(self).models()[ids[a] as int]);
                assert(self.models()[ids[b] as int] == old(self).models()[ids[b] as int]);
            }
        }
        id
    }

    /// Records `name` as an alias of type `ty`.
    pub fn add_alias(&mut self, ty: TypeId, name: String)
        requires
            old(self).wf(),
        ensures
            final(self).wf(),
            final(self).models() == old(self).models(),
            final(self).interned_ids() == old(self).interned_ids(),
            final(self).alias_list() == old(self).alias_list().push((ty, name@)),
            final(self).method_table() == old(self).method_table(),
    {
        self.aliases.push((ty, name));
        proof {
            assert(self.models() =~= old(self).models());
            assert(self.alias_list() =~= old(self).alias_list().push((ty, name@)));
            assert(self.interned_ids() =~= old(self).interned_ids());
            assert(self.method_table() =~= old(self).method_table());
        }
    }

    /// The type with id `id`.
    pub fn get(&self, id: TypeId) -> (r: &Type)
        requires
            id < self.len(),
        ensures
            r@ == self.models()[id as int],
    {
        &self.arena[id]
    }

    /// The first alias recorded for `id`, if any.
    pub fn get_alias(&self, id: TypeId) -> (r: Option<&String>)
        ensures
            r is None <==> self.alias_of(id) is None,
            r matches Some(name) ==> self.alias_of(id) == Some(name@),
    {
        let mut i: usize = 0;
        while i < self.aliases.len()
            invariant
                i <= self.aliases@.len(),
                forall|k: int| 0 <= k < i ==> (#[trigger] self.alias_list()[k]).0 != id,
            decreases self.aliases@.len() - i,
        {
            assert(self.alias_list()[i as int] == (self.aliases@[i as int].0, self.aliases@[i as int].1@));
            if self.aliases[i].0 == id {
                proof {
                    lemma_first_alias_at(self.alias_list(), id, i as int);
                }
                return Some(&self.aliases[i].1);
            }
            i = i + 1;
        }
        proof {
            lemma_first_alias_none(self.alias_list(), id);
        }
        None
    }

    /// The id of the interned type equal to `ty`, if any.
    pub fn find_id(&self, ty: &Type) -> (r: Option<TypeId>)
        requires
            self.wf(),
        ensures
            r == self.lookup(ty@),
    {
        match self.find_interned(ty) {
            Some(j) => {
                proof {
                    self.lemma_lookup_found(j as int);
                }
                Some(self.interned[j])
            },
            None => None,
        }
    }

    /// Whether type `host` is a struct with a field named `property_name`.
    pub fn has_property(&self, host: TypeId, property_name: &str) -> (r: bool)
        requires
            host < self.len(),
        ensures
            r == has_field(self.models()[host as int], property_name@),
    {
        match &self.arena[host] {
            Type::Struct(st) => {
                assert(self.models()[host as int] == self.arena@[host as int]@);
                let mut k: usize = 0;
                while k < st.fields.len()
                    invariant
                        host < self.len(),
                        k <= st.fields@.len(),
                        self.models()[host as int] == Type::Struct(*st)@,
                        forall|j: int| 0 <= j < k ==> (#[trigger] st.fields@[j]).name@ != property_name@,
                    decreases st.fields@.len() - k,
                {
                    if str_eq(st.fields[k].name.as_str(), property_name) {
                        let ghost f = named_models(st.fields@);
                        assert(self.models()[host as int] == TypeModel::Struct(st.id, named_models(st.params@), f));
                        assert(f.len() == st.fields@.len());
                        assert(f[k as int].0 == property_name@);
                        let ghost n: Seq<char> = property_name@;
                        let ghost m = TypeModel::Struct(st.id, named_models(st.params@), f);
                        assert(m->Struct_2 == f);
                        assert(m->Struct_2[k as int].0 == n);
                        assert(has_field(m, n));
                        return true;
                    }
                    k = k + 1;
                }
                proof {
                    assert forall|j: int| 0 <= j < named_models(st.fields@).len() implies #[trigger] named_models(st.fields@)[j].0 != property_name@ by {
                        assert(named_models(st.fields@)[j] == st.fields@[j]@);
                    }
                }
                false
            },
            _ => {
                assert(self.models()[host as int] == self.arena@[host as int]@);
                false
            },
        }
    }

    /// Records `method` as a method of `host` (once).
    pub fn add_method(&mut self, host: TypeId, method: TraitMethod)
        requires
            old(self).wf(),
        ensures
            final(self).wf(),
            final(self).models() == old(self).models(),
            final(self).interned_ids() == old(self).interned_ids(),
            final(self).alias_list() == old(self).alias_list(),
            final(self).has_methods_entry(host),
            final(self).methods_of(host) == (if old(self).methods_of(host).contains(method@) {
                old(self).methods_of(host)
            } else {
                old(self).methods_of(host).push(method@)
            }),
            forall|h: TypeId| h != host ==> (#[trigger] final(self).has_methods_entry(h)) == old(self).has_methods_entry(h)
                && final(self).methods_of(h) == old(self).methods_of(h),
    {
        broadcast use vstd::std_specs::hash::group_hash_axioms;
        let ghost m = method@;
        let mut list: Vec<TraitMethod> = match self.methods.remove(&host) {
            Some(l) => l,
            None => Vec::new(),
        };
        proof {
            if !old(self).has_methods_entry(host) {
                assert(named_models(list@) =~= Seq::<(Seq<char>, TypeId)>::empty());
            }
        }
        assert(named_models(list@) == old(self).methods_of(host));
        if !contains_method(&list, &method) {
            list.push(method);
            assert(named_models(list@) =~= old(self).methods_of(host).push(m));
        }
        self.methods.insert(host, list);
        proof {
            assert(self.method_table() =~= old(self).method_table().insert(host, named_models(list@)));
            assert(self.models() =~= old(self).models());
            assert(self.interned_ids() =~= old(self).interned_ids());
            assert(self.alias_list() =~= old(self).alias_list());
        }
    }

    /// Whether `actual` can be used where `expected` is required.
    pub fn can_assign_to(&self, actual_id: TypeId, expected_id: TypeId) -> (r: bool)
        requires
            self.wf(),
            actual_id < self.len(),
            expected_id < self.len(),
        ensures
            r == self.assignable(actual_id, expected_id),
    {
        let actual = self.get(actual_id);
        let expected = self.get(expected_id);
        match (expected, actual) {
            (Type::Unknown, _) => true,
            (_, Type::Unknown) => true,
            (Type::Trait(t), _) => self.implements(actual_id, t),
            (e, Type::Ref(a)) if e.is_generic() => a.inner == expected_id,
            (_, _) => actual.same_as(expected),
        }
    }

    /// Whether type `test` implements the trait `trait_`.
    pub fn implements(&self, test: TypeId, trait_: &TraitType) -> (r: bool)
        requires
            self.wf(),
            test < self.len(),
        ensures
            r == self.implements_trait(test, named_models(trait_.methods@)),
    {
        let ghost tm = named_models(trait_.methods@);
        if trait_.methods.len() == 0 {
            return false;
        }
        if let Type::Trait(t) = self.get(test) {
            if named_equal(&t.methods, &trait_.methods) {
                return true;
            }
        }
        assert(self.models()[test as int] != TypeModel::Trait(tm));
        broadcast use vstd::std_specs::hash::group_hash_axioms;
        let Some(methods) = self.methods.get(&test) else {
            return false;
        };
        let mut k: usize = 0;
        while k < trait_.methods.len()
            invariant
                k <= trait_.methods@.len(),
                tm == named_models(trait_.methods@),
                tm.len() > 0,
                self.wf(),
                test < self.len(),
                self.models()[test as int] != TypeModel::Trait(tm),
                self.has_methods_entry(test),
                named_models(methods@) == self.methods_of(test),
                forall|j: int| 0 <= j < k ==> self.methods_of(test).contains(#[trigger] tm[j]),
            decreases trait_.methods@.len() - k,
        {
            assert(tm[k as int] == trait_.methods@[k as int]@);
            if !contains_method(methods, &trait_.methods[k]) {
                return false;
            }
            k = k + 1;
        }
        assert(tm.len() == trait_.methods@.len());
        true
    }
}

/// Whether `m` is a struct with a field named `name`.
pub open spec fn has_field(m: TypeModel, name: Seq<char>) -> bool {
    &&& m is Struct
    &&& exists|j: int| 0 <= j < m->Struct_2.len() && (#[trigger] m->Struct_2[j]).0 == name
}

/// Whether two strings hold the same characters.
pub fn str_eq(a: &str, b: &str) -> (r: bool)
    ensures
        r == (a@ == b@),
{
    let sa = String::from_str(a);
    let sb = String::from_str(b);
    sa == sb
}

/// Whether `list` holds a method equal to `m`.
pub fn contains_method(list: &Vec<TraitMethod>, m: &TraitMethod) -> (r: bool)
    ensures
        r == named_models(list@).contains(m@),
{
    let mut i: usize = 0;
    while i < list.len()
        invariant
            i <= list@.len(),
            forall|k: int| 0 <= k < i ==> (#[trigger] list@[k])@ != m@,
        decreases list@.len() - i,
    {
        if string_eq(&list[i].name, &m.name) && list[i].def == m.def {
            assert(named_models(list@)[i as int] == m@);
            return true;
        }
        i = i + 1;
    }
    proof {
        assert forall|k: int| 0 <= k < named_models(list@).len() implies #[trigger] named_models(list@)[k] != m@ by {
            assert(named_models(list@)[k] == list@[k]@);
        }
    }
    false
}

proof fn lemma_first_alias_at(s: Seq<(TypeId, Seq<char>)>, id: TypeId, i: int)
    requires
        0 <= i < s.len(),
        s[i].0 == id,
        forall|k: int| 0 <= k < i ==> (#[trigger] s[k]).0 != id,
    ensures
        first_alias(s, id) == Some(s[i].1),
    decreases i,
{
    if i > 0 {
        assert(s[0].0 != id);
        let t = s.drop_first();
        assert forall|k: int| 0 <= k < i - 1 implies (#[trigger] t[k]).0 != id by {
            assert(t[k] == s[k + 1]);
        }
        lemma_first_alias_at(t, id, i - 1);
    }
}

proof fn lemma_first_alias_none(s: Seq<(TypeId, Seq<char>)>, id: TypeId)
    requires
        forall|k: int| 0 <= k < s.len() ==> (#[trigger] s[k]).0 != id,
    ensures
        first_alias(s, id) is None,
    decreases s.len(),
{
    if s.len() > 0 {
        let t = s.drop_first();
        assert forall|k: int| 0 <= k < t.len() implies (#[trigger] t[k]).0 != id by {
            assert(t[k] == s[k + 1]);
        }
        assert(s[0].0 != id);
        lemma_first_alias_none(t, id);
    }
}

/// Whether all ids of a list are smaller than `bound`.
pub open spec fn ids_below(s: Seq<TypeId>, bound: int) -> bool {
    forall|i: int| 0 <= i < s.len() ==> #[trigger] s[i] < bound
}

/// Whether the types of all named entries of a list are smaller than `bound`.
pub open spec fn named_below(s: Seq<(Seq<char>, TypeId)>, bound: int) -> bool {
    forall|i: int| 0 <= i < s.len() ==> (#[trigger] s[i]).1 < bound
}

/// Whether every type id that `m` refers to is smaller than `bound`.
pub open spec fn model_children_below(m: TypeModel, bound: int) -> bool {
    match m {
        TypeModel::Array(e) => e < bound,
        TypeModel::Enum(_, v) => named_below(v, bound),
        TypeModel::Function(_, p, r) => r < bound && ids_below(p, bound),
        TypeModel::Listener(i) => i < bound,
        TypeModel::Mapping(k, v) => k < bound && v < bound,
        TypeModel::Option(s) => s < bound,
        TypeModel::Ref(inner, args) => inner < bound && ids_below(args, bound),
        TypeModel::Result(e, o) => o < bound && (e matches Some(x) ==> x < bound),
        TypeModel::Signal(i) => i < bound,
        TypeModel::Struct(_, _, f) => named_below(f, bound),
        TypeModel::Trait(ms) => named_below(ms, bound),
        TypeModel::Tuple(e, _) => ids_below(e, bound),
        _ => true,
    }
}

/// Recording more aliases never changes the alias of a type that has one:
/// the first alias registered for a type wins.
pub proof fn lemma_first_alias_stays(aliases: Seq<(TypeId, Seq<char>)>, more: (TypeId, Seq<char>), id: TypeId)
    requires
        first_alias(aliases, id) is Some,
    ensures
        first_alias(aliases.push(more), id) == first_alias(aliases, id),
    decreases aliases.len(),
{
    if aliases[0].0 != id {
        assert(aliases.push(more).drop_first() =~= aliases.drop_first().push(more));
        lemma_first_alias_stays(aliases.drop_first(), more, id);
    }
}

/// The first alias recorded for a type that had none becomes its alias.
pub proof fn lemma_alias_of_new(aliases: Seq<(TypeId, Seq<char>)>, id: TypeId, name: Seq<char>)
    requires
        first_alias(aliases, id) is None,
    ensures
        first_alias(aliases.push((id, name)), id) == Some(name),
    decreases aliases.len(),
{
    if aliases.len() > 0 {
        assert(aliases.push((id, name)).drop_first() =~= aliases.drop_first().push((id, name)));
        lemma_alias_of_new(aliases.drop_first(), id, name);
    }
}

/// On every store, the unknown type can be assigned to any type, and any
/// type to the unknown type.
pub proof fn lemma_unknown_assignable(store: TypeStore, ty: TypeId)
    requires
        store.wf(),
        ty < store.len(),
    ensures
        store.assignable(UNKNOWN, ty),
        store.assignable(ty, UNKNOWN),
{
}

/// A type lacking one of a trait's methods does not implement the trait
/// (unless it is that very trait type), and so cannot be assigned to it.
pub proof fn lemma_missing_method_not_implemented(
    store: TypeStore,
    test: TypeId,
    trait_methods: Seq<(Seq<char>, TypeId)>,
    j: int,
)
    requires
        0 <= j < trait_methods.len(),
        !store.methods_of(test).contains(trait_methods[j]),
        store.models()[test as int] != TypeModel::Trait(trait_methods),
    ensures
        !store.implements_trait(test, trait_methods),
{
}

/// A type that has every method of a (non-empty) trait among its methods
/// implements it.
pub proof fn lemma_all_methods_implemented(store: TypeStore, test: TypeId, trait_methods: Seq<(Seq<char>, TypeId)>)
    requires
        trait_methods.len() > 0,
        store.has_methods_entry(test),
        forall|j: int| 0 <= j < trait_methods.len() ==> store.methods_of(test).contains(#[trigger] trait_methods[j]),
    ensures
        store.implements_trait(test, trait_methods),
{
}

/// A known type lacking a method of the trait `expected` cannot be used
/// where that trait is required.
pub proof fn lemma_missing_method_not_assignable(store: TypeStore, actual: TypeId, expected: TypeId, j: int)
    requires
        store.models()[expected as int] is Trait,
        0 <= j < store.models()[expected as int]->Trait_0.len(),
        !store.methods_of(actual).contains(store.models()[expected as int]->Trait_0[j]),
        !(store.models()[actual as int] is Unknown),
        store.models()[actual as int] != store.models()[expected as int],
    ensures
        !store.assignable(actual, expected),
{
}

} // verus!
