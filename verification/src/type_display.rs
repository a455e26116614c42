use vstd::prelude::*;

use crate::type_store::{model_children_below, TypeStore};
use crate::types::{named_models, NamedEntry, Type, TypeId, TypeModel};

verus! {

/// The display text of a type: its first alias if it has one, else its
/// structure.
pub open spec fn display_spec(store: TypeStore, ty: TypeId) -> Seq<char>
    decreases ty, 3nat, 0nat,
{
    match store.alias_of(ty) {
        Some(name) => name,
        None => display_raw_spec(store, ty),
    }
}

/// The display text of a type id that appears inside the type `bound`.
pub open spec fn display_child(store: TypeStore, child: TypeId, bound: TypeId) -> Seq<char>
    decreases bound, 0nat, 0nat,
{
    if child < bound {
        display_spec(store, child)
    } else {
        Seq::empty()
    }
}

/// The display texts of a list of type ids, separated by `", "`.
pub open spec fn join_ids_spec(store: TypeStore, ids: Seq<TypeId>, bound: TypeId) -> Seq<char>
    decreases bound, 1nat, ids.len(),
{
    if ids.len() == 0 {
        Seq::empty()
    } else if ids.len() == 1 {
        display_child(store, ids[0], bound)
    } else {
        join_ids_spec(store, ids.drop_last(), bound) + ", "@ + display_child(store, ids.last(), bound)
    }
}

/// The display text of one named entry: `name(type)` for enum variants,
/// `name type` otherwise.
pub open spec fn named_item_spec(store: TypeStore, item: (Seq<char>, TypeId), bound: TypeId, variant_style: bool) -> Seq<char>
    decreases bound, 0nat, 1nat,
{
    if variant_style {
        item.0 + "("@ + display_child(store, item.1, bound) + ")"@
    } else {
        item.0 + " "@ + display_child(store, item.1, bound)
    }
}

/// The separator between named entries: `" | "` for enum variants, `", "`
/// otherwise.
pub open spec fn named_separator(variant_style: bool) -> Seq<char> {
    if variant_style {
        " | "@
    } else {
        ", "@
    }
}

/// The display texts of a list of named entries, separated.
pub open spec fn join_named_spec(
    store: TypeStore,
    items: Seq<(Seq<char>, TypeId)>,
    bound: TypeId,
    variant_style: bool,
) -> Seq<char>
    decreases bound, 1nat, items.len(),
{
    if items.len() == 0 {
        Seq::empty()
    } else if items.len() == 1 {
        named_item_spec(store, items[0], bound, variant_style)
    } else {
        join_named_spec(store, items.drop_last(), bound, variant_style) + named_separator(
            variant_style,
        ) + named_item_spec(store, items.last(), bound, variant_style)
    }
}

/// The structural display text of a type, ignoring its own aliases.
pub open spec fn display_raw_spec(store: TypeStore, ty: TypeId) -> Seq<char>
    decreases ty, 2nat, 0nat,
{
    if ty >= store.len() {
        Seq::empty()
    } else {
        match store.models()[ty as int] {
            TypeModel::Array(e) => display_child(store, e, ty) + "[]"@,
            TypeModel::Boolean => "bool"@,
            TypeModel::Dynamic => "dynamic"@,
            TypeModel::Enum(_, v) => join_named_spec(store, v, ty, true),
            TypeModel::Float => "float"@,
            TypeModel::Function(_, p, r) => "("@ + join_ids_spec(store, p, ty) + ") => "@
                + display_child(store, r, ty),
            TypeModel::Generic(_, _) => "generic"@,
            TypeModel::Listener(i) => "@"@ + display_child(store, i, ty),
            TypeModel::Mapping(k, v) => display_child(store, k, ty) + "#"@ + display_child(store, v, ty),
            TypeModel::Integer => "int"@,
            TypeModel::Option(s) => "?"@ + display_child(store, s, ty),
            TypeModel::Param(n, _) => n,
            TypeModel::Ref(i, a) => display_child(store, i, ty) + "<"@ + join_ids_spec(store, a, ty)
                + ">"@,
            TypeModel::Result(e, o) => match e {
                Some(e) => display_child(store, e, ty) + "!"@ + display_child(store, o, ty),
                None => "!"@ + display_child(store, o, ty),
            },
            TypeModel::SelfType => "Self"@,
            TypeModel::Signal(i) => "$"@ + display_child(store, i, ty),
            TypeModel::String => "str"@,
            TypeModel::Struct(_, _, f) => "{ "@ + join_named_spec(store, f, ty, false) + " }"@,
            TypeModel::Trait(m) => ".("@ + join_named_spec(store, m, ty, false) + ")"@,
            TypeModel::Tuple(e, _) => "("@ + join_ids_spec(store, e, ty) + ")"@,
            TypeModel::Unit => "()"@,
            TypeModel::Unknown => "unknown"@,
        }
    }
}

proof fn lemma_named_below<T: View<V = (Seq<char>, TypeId)>>(items: Seq<T>, bound: int)
    requires
        forall|i: int| 0 <= i < named_models(items).len() ==> (#[trigger] named_models(items)[i]).1 < bound,
    ensures
        forall|i: int| 0 <= i < items.len() ==> (#[trigger] items[i])@.1 < bound,
{
    assert forall|i: int| 0 <= i < items.len() implies (#[trigger] items[i])@.1 < bound by {
        assert(named_models(items)[i] == items[i]@);
    }
}

/// Appends `b` to `a`.
fn push_str(a: &mut String, b: &str)
    ensures
        final(a)@ == old(a)@ + b@,
{
    a.append(b);
}

/// The display text of type `ty`: its first alias, or its structure.
pub fn display_type(store: &TypeStore, ty: TypeId) -> (r: String)
    requires
        store.children_below_upto(ty as int),
        ty < store.len(),
    ensures
        r@ == display_spec(*store, ty),
    decreases ty, 3nat,
{
    if let Some(name) = store.get_alias(ty) {
        return name.clone();
    }
    display_raw_type(store, ty)
}

/// The display text of a component `child` of the type `bound`.
fn display_component(store: &TypeStore, child: TypeId, bound: TypeId) -> (r: String)
    requires
        store.children_below_upto(bound as int),
        child < bound,
        bound < store.len(),
    ensures
        r@ == display_child(*store, child, bound),
    decreases bound, 0nat,
{
    display_type(store, child)
}

/// The display texts of `ids`, separated by `", "`.
fn display_ids(store: &TypeStore, ids: &Vec<TypeId>, bound: TypeId) -> (r: String)
    requires
        store.children_below_upto(bound as int),
        bound < store.len(),
        forall|i: int| 0 <= i < ids@.len() ==> #[trigger] ids@[i] < bound,
    ensures
        r@ == join_ids_spec(*store, ids@, bound),
    decreases bound, 1nat,
{
    let mut res = String::new();
    let mut i: usize = 0;
    while i < ids.len()
        invariant
            store.children_below_upto(bound as int),
            bound < store.len(),
            forall|k: int| 0 <= k < ids@.len() ==> #[trigger] ids@[k] < bound,
            i <= ids@.len(),
            res@ == join_ids_spec(*store, ids@.take(i as int), bound),
        decreases ids@.len() - i,
    {
        proof {
            assert(ids@.take(i + 1).drop_last() =~= ids@.take(i as int));
            assert(ids@.take(i + 1).last() == ids@[i as int]);
        }
        if i > 0 {
            push_str(&mut res, ", ");
        }
        let item = display_component(store, ids[i], bound);
        push_str(&mut res, item.as_str());
        proof {
            if i == 0 {
                assert(res@ =~= join_ids_spec(*store, ids@.take(1), bound));
            }
        }
        i = i + 1;
    }
    proof {
        assert(ids@.take(ids@.len() as int) =~= ids@);
    }
    res
}

/// The display texts of named entries, separated.
fn display_named<T: NamedEntry>(store: &TypeStore, items: &Vec<T>, bound: TypeId, variant_style: bool) -> (r: String)
    requires
        store.children_below_upto(bound as int),
        bound < store.len(),
        forall|i: int| 0 <= i < items@.len() ==> (#[trigger] items@[i])@.1 < bound,
    ensures
        r@ == join_named_spec(*store, named_models(items@), bound, variant_style),
    decreases bound, 1nat,
{
    let ghost models = named_models(items@);
    let mut res = String::new();
    let mut i: usize = 0;
    while i < items.len()
        invariant
            store.children_below_upto(bound as int),
            bound < store.len(),
            forall|k: int| 0 <= k < items@.len() ==> (#[trigger] items@[k])@.1 < bound,
            models == named_models(items@),
            i <= items@.len(),
            res@ == join_named_spec(*store, models.take(i as int), bound, variant_style),
        decreases items@.len() - i,
    {
        proof {
            assert(models.take(i + 1).drop_last() =~= models.take(i as int));
            assert(models.take(i + 1).last() == items@[i as int]@);
        }
        let ghost prev = res@;
        if i > 0 {
            if variant_style {
                push_str(&mut res, " | ");
            } else {
                push_str(&mut res, ", ");
            }
        }
        let name = items[i].entry_name();
        push_str(&mut res, name.as_str());
        if variant_style {
            push_str(&mut res, "(");
        } else {
            push_str(&mut res, " ");
        }
        let def = display_component(store, items[i].entry_def(), bound);
        push_str(&mut res, def.as_str());
        if variant_style {
            push_str(&mut res, ")");
        }
        proof {
            let m = models.take(i + 1);
            let item = named_item_spec(*store, m.last(), bound, variant_style);
            assert(m.last().0 == name@);
            assert(item =~= if variant_style {
                name@ + "("@ + def@ + ")"@
            } else {
                name@ + " "@ + def@
            });
            if i == 0 {
                assert(prev == Seq::<char>::empty());
                assert(res@ =~= item);
            } else {
                assert(res@ =~= prev + named_separator(variant_style) + item);
            }
        }
        i = i + 1;
    }
    proof {
        assert(models.take(models.len() as int) =~= models);
    }
    res
}

/// The structural display text of type `ty`, ignoring its own aliases.
pub fn display_raw_type(store: &TypeStore, ty: TypeId) -> (r: String)
    requires
        store.children_below_upto(ty as int),
        ty < store.len(),
    ensures
        r@ == display_raw_spec(*store, ty),
    decreases ty, 2nat,
{
    let t = store.get(ty);
    proof {
        assert(model_children_below(store.models()[ty as int], ty as int));
        assert(model_children_below(t@, ty as int));
    }
    let mut res = String::new();
    match t {
        Type::Array(a) => {
            res = display_component(store, a.element, ty);
            push_str(&mut res, "[]");
        },
        Type::Boolean => push_str(&mut res, "bool"),
        Type::Dynamic => push_str(&mut res, "dynamic"),
        Type::Enum(e) => {
            proof {
                lemma_named_below(e.variants@, ty as int);
            }
            res = display_named(store, &e.variants, ty, true);
        },
        Type::Float => push_str(&mut res, "float"),
        Type::Function(f) => {
            push_str(&mut res, "(");
            let params = display_ids(store, &f.params, ty);
            push_str(&mut res, params.as_str());
            push_str(&mut res, ") => ");
            let ret = display_component(store, f.return_type, ty);
            push_str(&mut res, ret.as_str());
        },
        Type::Generic(_) => push_str(&mut res, "generic"),
        Type::Listener(l) => {
            push_str(&mut res, "@");
            let inner = display_component(store, l.inner, ty);
            push_str(&mut res, inner.as_str());
        },
        Type::Mapping(m) => {
            res = display_component(store, m.key, ty);
            push_str(&mut res, "#");
            let value = display_component(store, m.value, ty);
            push_str(&mut res, value.as_str());
        },
        Type::Integer => push_str(&mut res, "int"),
        Type::Option(o) => {
            push_str(&mut res, "?");
            let some = display_component(store, o.some, ty);
            push_str(&mut res, some.as_str());
        },
        Type::Param(p) => {
            res = p.name.clone();
        },
        Type::Ref(r) => {
            res = display_component(store, r.inner, ty);
            push_str(&mut res, "<");
            let args = display_ids(store, &r.args, ty);
            push_str(&mut res, args.as_str());
            push_str(&mut res, ">");
        },
        Type::Result(r) => {
            match r.error {
                Some(e) => {
                    res = display_component(store, e, ty);
                    push_str(&mut res, "!");
                },
                None => push_str(&mut res, "!"),
            }
            let ok = display_component(store, r.ok, ty);
            push_str(&mut res, ok.as_str());
        },
        Type::SelfType => push_str(&mut res, "Self"),
        Type::Signal(s) => {
            push_str(&mut res, "$");
            let inner = display_component(store, s.inner, ty);
            push_str(&mut res, inner.as_str());
        },
        Type::String => push_str(&mut res, "str"),
        Type::Struct(s) => {
            push_str(&mut res, "{ ");
            proof {
                lemma_named_below(s.fields@, ty as int);
            }
            let fields = display_named(store, &s.fields, ty, false);
            push_str(&mut res, fields.as_str());
            push_str(&mut res, " }");
        },
        Type::Trait(t) => {
            push_str(&mut res, ".(");
            proof {
                lemma_named_below(t.methods@, ty as int);
            }
            let methods = display_named(store, &t.methods, ty, false);
            push_str(&mut res, methods.as_str());
            push_str(&mut res, ")");
        },
        Type::Tuple(t) => {
            push_str(&mut res, "(");
            let elements = display_ids(store, &t.elements, ty);
            push_str(&mut res, elements.as_str());
            push_str(&mut res, ")");
        },
        Type::Unit => push_str(&mut res, "()"),
        Type::Unknown => push_str(&mut res, "unknown"),
    }
    res
}

/// The display of a compound type is made of the displays of its parts, in
/// order: a mapping shows its key, `#`, then its value; a result its error,
/// `!`, then its value; an option `?` then its value; an array its element
/// then `[]`; a listener `@` and a signal `$` before their inner type; a
/// function its parameters in parentheses, `=>`, then its result; a tuple
/// its elements in parentheses, separated by commas.
pub proof fn lemma_display_parts(store: TypeStore, ty: TypeId)
    requires
        ty < store.len(),
        model_children_below(store.models()[ty as int], ty as int),
    ensures
        store.models()[ty as int] matches TypeModel::Mapping(k, v) ==>
            display_raw_spec(store, ty) == display_spec(store, k) + "#"@ + display_spec(store, v),
        store.models()[ty as int] matches TypeModel::Result(Some(e), o) ==>
            display_raw_spec(store, ty) == display_spec(store, e) + "!"@ + display_spec(store, o),
        store.models()[ty as int] matches TypeModel::Option(s) ==>
            display_raw_spec(store, ty) == "?"@ + display_spec(store, s),
        store.models()[ty as int] matches TypeModel::Array(e) ==>
            display_raw_spec(store, ty) == display_spec(store, e) + "[]"@,
        store.models()[ty as int] matches TypeModel::Listener(i) ==>
            display_raw_spec(store, ty) == "@"@ + display_spec(store, i),
        store.models()[ty as int] matches TypeModel::Signal(i) ==>
            display_raw_spec(store, ty) == "$"@ + display_spec(store, i),
        store.models()[ty as int] matches TypeModel::Function(_, p, r) ==> (p.len() == 1 ==>
            display_raw_spec(store, ty) == "("@ + display_spec(store, p[0]) + ") => "@ + display_spec(store, r)),
        store.models()[ty as int] matches TypeModel::Tuple(e, _) ==> (e.len() == 2 ==>
            display_raw_spec(store, ty) == "("@ + display_spec(store, e[0]) + ", "@ + display_spec(store, e[1]) + ")"@),
{
    if let TypeModel::Tuple(e, _) = store.models()[ty as int] {
        if e.len() == 2 {
            assert(e.drop_last().len() == 1);
            assert(e.drop_last()[0] == e[0]);
            assert(e.last() == e[1]);
            let j = join_ids_spec(store, e, ty);
            assert(j == join_ids_spec(store, e.drop_last(), ty) + ", "@ + display_child(store, e.last(), ty));
            assert(join_ids_spec(store, e.drop_last(), ty) == display_child(store, e[0], ty));
            assert("("@ + j + ")"@ =~= "("@ + display_spec(store, e[0]) + ", "@ + display_spec(store, e[1]) + ")"@);
        }
    }
}


} // verus!
