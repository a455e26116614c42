use vstd::prelude::*;

use crate::analysis_context::symbols::{SymbolData, SymbolHandle, SymbolKind, SymbolRef};
use crate::analysis_context::{unbound, LocalContext};
use crate::diagnostics::{diagnostics_view, Diagnostic, DiagnosticKind, DiagnosticKindModel, DiagnosticLevel, DiagnosticModel};
use crate::locations::Location;
use crate::operators::error_at;
use crate::type_display::{display_spec, display_type};
use crate::type_store::{TypeStore, UNKNOWN};
use crate::types::{named_models, FunctionType, GenericType, ListenerType, TupleType, Type, TypeId, TypeModel, TypeParam};

verus! {

/// The type a callback parameter gets: its annotation where it has a known
/// one, else the type the callee expects there.
pub open spec fn callback_param_type(annotation: Option<TypeId>, expected: TypeId) -> TypeId {
    match annotation {
        Some(t) => if t == UNKNOWN { expected } else { t },
        None => expected,
    }
}

/// The report of a callback parameter whose annotation differs from the
/// expected type.
pub open spec fn callback_param_reports(
    store: crate::type_store::TypeStore,
    annotation: Option<TypeId>,
    expected: TypeId,
    loc: Location,
) -> Seq<DiagnosticModel> {
    match annotation {
        Some(t) => if t != UNKNOWN && t != expected {
            seq![error_at(loc, DiagnosticKindModel::MismatchedTypes(display_spec(store, expected), display_spec(store, t)))]
        } else {
            Seq::empty()
        },
        None => Seq::empty(),
    }
}

/// Declares the callback parameter `name` (at `name_loc`), annotated with
/// the type `annotation` if it has one, where the callee expects `expected`:
/// registers an immutable symbol of type `callback_param_type`, reports an
/// annotation that differs from `expected`, and gives the symbol.
pub fn check_callback_param(
    ctx: &mut LocalContext,
    diagnostics: &mut Vec<Diagnostic>,
    name: String,
    name_loc: Location,
    annotation: Option<TypeId>,
    expected: TypeId,
) -> (r: SymbolRef)
    requires
        old(ctx).wf(),
        old(ctx).type_store.children_below_upto(expected as int),
        expected < old(ctx).type_store.len(),
        annotation matches Some(t) ==> t < old(ctx).type_store.len() && old(ctx).type_store.children_below_upto(t as int),
    ensures
        final(ctx).wf(),
        r.0 == old(ctx).arena@.len(),
        final(ctx).arena@.len() == old(ctx).arena@.len() + 1,
        final(ctx).arena@.drop_last() == old(ctx).arena@,
        final(ctx).arena@.last().name@ == name@,
        final(ctx).arena@.last().ty == callback_param_type(annotation, expected),
        final(ctx).arena@.last().kind == (SymbolKind::Value { mutable: false }),
        final(ctx).arena@.last().defined_at == name_loc,
        final(ctx).arena@.last().docs is None,
        final(ctx).arena@.last().access.uses_view() == Seq::<Location>::empty(),
        final(ctx).arena@.last().dependencies@ == Seq::<SymbolRef>::empty(),
        final(ctx).symbols@ == old(ctx).symbols@.push(SymbolHandle(r.0)),
        final(ctx).scopes@.len() == old(ctx).scopes@.len(),
        final(ctx).scopes@.drop_last() == old(ctx).scopes@.drop_last(),
        final(ctx).current().binding_refs() == old(ctx).current().binding_refs().push(r),
        final(ctx).current().captured_view() == old(ctx).current().captured_view(),
        final(ctx).expressions == old(ctx).expressions,
        final(ctx).type_store == old(ctx).type_store,
        final(ctx).current_declaration_dependencies == old(ctx).current_declaration_dependencies,
        final(ctx).other_dependencies == old(ctx).other_dependencies,
        diagnostics_view(final(diagnostics)@) == diagnostics_view(old(diagnostics)@) + callback_param_reports(
            old(ctx).type_store,
            annotation,
            expected,
            name_loc,
        ),
{
    let ty = match annotation {
        Some(t) => if t == UNKNOWN { expected } else { t },
        None => expected,
    };
    let mut data = SymbolData::default();
    data.name = name;
    data.ty = ty;
    data.defined_at = name_loc;
    proof {
        assert(data.dependencies@.filter(unbound(ctx.current().binding_refs())) =~= Seq::<SymbolRef>::empty());
    }
    let symbol = ctx.register_symbol(data);
    proof {
        assert(ctx.arena@.drop_last() =~= old(ctx).arena@);
        assert(ctx.current().captured_view() =~= old(ctx).current().captured_view());
    }
    let ghost d0 = diagnostics_view(diagnostics@);
    match annotation {
        Some(t) => {
            if t != UNKNOWN && t != expected {
                let left_name = display_type(&ctx.type_store, expected);
                let right_name = display_type(&ctx.type_store, t);
                diagnostics.push(
                    Diagnostic { level: DiagnosticLevel::Error, loc: name_loc, kind: DiagnosticKind::MismatchedTypes { left_name, right_name } },
                );
            }
        },
        None => {},
    }
    assert(diagnostics_view(diagnostics@) =~= d0 + callback_param_reports(old(ctx).type_store, annotation, expected, name_loc));
    symbol
}


/// The model of the type of a function with parameter types `params`
/// returning `ret`.
pub open spec fn function_model(params: Seq<TypeId>, ret: TypeId) -> TypeModel {
    TypeModel::Function(Seq::empty(), params, ret)
}

/// A copy of a list of strings.
pub fn copy_strings(v: &Vec<String>) -> (r: Vec<String>)
    ensures
        r@.len() == v@.len(),
        forall|k: int| 0 <= k < v@.len() ==> (#[trigger] r@[k])@ == v@[k]@,
{
    let mut r: Vec<String> = Vec::new();
    let mut i: usize = 0;
    while i < v.len()
        invariant
            i <= v@.len(),
            r@.len() == i,
            forall|k: int| 0 <= k < i ==> (#[trigger] r@[k])@ == v@[k]@,
        decreases v@.len() - i,
    {
        r.push(v[i].clone());
        i = i + 1;
    }
    r
}

/// The type of a checked function expression, and its symbol when it is
/// named: interns the function type of its parameters and return type,
/// wrapped in a generic type when it has type parameters, and registers the
/// name (at `name_loc`, with `docs`) as a function of that type.
pub fn check_function_expression(
    ctx: &mut LocalContext,
    type_params: Vec<TypeId>,
    param_types: Vec<TypeId>,
    param_names: &Vec<String>,
    return_type: TypeId,
    name: Option<String>,
    name_loc: Location,
    docs: Option<String>,
) -> (r: (TypeId, Option<SymbolRef>))
    requires
        old(ctx).wf(),
    ensures
        final(ctx).wf(),
        type_params@.len() == 0 ==> {
            &&& old(ctx).type_store.after_add(function_model(param_types@, return_type), final(ctx).type_store)
            &&& final(ctx).type_store.lookup(function_model(param_types@, return_type)) == Some(r.0)
        },
        type_params@.len() > 0 ==> exists|s: TypeStore| {
            &&& #[trigger] old(ctx).type_store.after_add(function_model(param_types@, return_type), s)
            &&& s.lookup(function_model(param_types@, return_type)) is Some
            &&& s.after_add(
                TypeModel::Generic(type_params@, s.lookup(function_model(param_types@, return_type))->Some_0),
                final(ctx).type_store,
            )
            &&& final(ctx).type_store.lookup(
                TypeModel::Generic(type_params@, s.lookup(function_model(param_types@, return_type))->Some_0),
            ) == Some(r.0)
        },
        match name {
            None => {
                &&& r.1 is None
                &&& final(ctx).arena == old(ctx).arena
                &&& final(ctx).symbols == old(ctx).symbols
                &&& final(ctx).scopes == old(ctx).scopes
            },
            Some(n) => r.1 matches Some(sym) && {
                &&& sym.0 == old(ctx).arena@.len()
                &&& final(ctx).arena@.drop_last() == old(ctx).arena@
                &&& final(ctx).arena@.len() == old(ctx).arena@.len() + 1
                &&& final(ctx).arena@.last().name@ == n@
                &&& final(ctx).arena@.last().ty == r.0
                &&& final(ctx).arena@.last().kind matches SymbolKind::Function { param_names: pn }
                    && pn@.len() == param_names@.len()
                    && forall|k: int| 0 <= k < pn@.len() ==> (#[trigger] pn@[k])@ == param_names@[k]@
                &&& final(ctx).arena@.last().defined_at == name_loc
                &&& final(ctx).arena@.last().docs == docs
                &&& final(ctx).arena@.last().access.uses_view() == Seq::<Location>::empty()
                &&& final(ctx).arena@.last().dependencies@ == Seq::<SymbolRef>::empty()
                &&& final(ctx).symbols@ == old(ctx).symbols@.push(SymbolHandle(sym.0))
                &&& final(ctx).scopes@.len() == old(ctx).scopes@.len()
                &&& final(ctx).scopes@.drop_last() == old(ctx).scopes@.drop_last()
                &&& final(ctx).current().binding_refs() == old(ctx).current().binding_refs().push(sym)
                &&& final(ctx).current().captured_view() == old(ctx).current().captured_view()
            },
        },
        final(ctx).expressions == old(ctx).expressions,
        final(ctx).current_declaration_dependencies == old(ctx).current_declaration_dependencies,
        final(ctx).other_dependencies == old(ctx).other_dependencies,
{
    let has_type_params = type_params.len() > 0;
    let function = Type::Function(FunctionType { type_params: Vec::new(), params: param_types, return_type });
    proof {
        assert(function@ == function_model(param_types@, return_type));
    }
    let f = ctx.type_store.add(function);
    let ghost s1 = ctx.type_store;
    let ty = if has_type_params {
        let generic = Type::Generic(GenericType { params: type_params, definition: f });
        let g = ctx.type_store.add(generic);
        proof {
            assert(old(ctx).type_store.after_add(function_model(param_types@, return_type), s1));
        }
        g
    } else {
        f
    };
    match name {
        None => (ty, None),
        Some(n) => {
            let mut data = SymbolData::default();
            data.name = n;
            data.ty = ty;
            data.kind = SymbolKind::Function { param_names: copy_strings(param_names) };
            data.defined_at = name_loc;
            data.docs = docs;
            proof {
                assert(data.dependencies@.filter(unbound(ctx.current().binding_refs())) =~= Seq::<SymbolRef>::empty());
            }
            let symbol = ctx.register_symbol(data);
            proof {
                assert(ctx.arena@.drop_last() =~= old(ctx).arena@);
                assert(ctx.current().captured_view() =~= old(ctx).current().captured_view());
            }
            (ty, Some(symbol))
        },
    }
}


/// The dependencies among `deps` whose types are reactive, in order;
/// `reactive[i]` says whether the type of `deps[i]` is.
pub open spec fn reactive_deps(deps: Seq<SymbolRef>, reactive: Seq<bool>) -> Seq<SymbolRef>
    decreases deps.len(),
{
    if deps.len() == 0 {
        Seq::empty()
    } else if reactive[deps.len() - 1] {
        reactive_deps(deps.drop_last(), reactive).push(deps.last())
    } else {
        reactive_deps(deps.drop_last(), reactive)
    }
}

/// The types of the symbols `refs` in `arena`.
pub open spec fn ref_types(arena: Seq<SymbolData>, refs: Seq<SymbolRef>) -> Seq<TypeId> {
    refs.map_values(|s: SymbolRef| arena[s.0 as int].ty)
}

/// Checks a derived call (at `loc`) with `arg_count` arguments, the first of
/// which is a callback at `callback_loc` if it is one, or else an expression
/// of type `arg_type` that depends on `deps` (`reactive` tells for each
/// whether its type is reactive). It takes exactly one expression: other
/// counts and callbacks are reported and give `None`. Otherwise the
/// dependencies are recorded for the declaration being checked, a result
/// with no reactive dependency is reported, and the reactive dependencies
/// come back with the interned tuple type of their types and the interned
/// listener type of the argument.
pub fn check_derived_call(
    ctx: &mut LocalContext,
    diagnostics: &mut Vec<Diagnostic>,
    loc: Location,
    arg_count: usize,
    callback_loc: Option<Location>,
    arg_type: TypeId,
    deps: Vec<SymbolRef>,
    reactive: &Vec<bool>,
) -> (r: Option<(Vec<SymbolRef>, TypeId, TypeId)>)
    requires
        old(ctx).wf(),
        reactive@.len() == deps@.len(),
        forall|i: int| 0 <= i < deps@.len() ==> (#[trigger] deps@[i]).0 < old(ctx).arena@.len(),
    ensures
        final(ctx).wf(),
        arg_count != 1 ==> {
            &&& r is None
            &&& *final(ctx) == *old(ctx)
            &&& diagnostics_view(final(diagnostics)@) == diagnostics_view(old(diagnostics)@).push(
                error_at(loc, DiagnosticKindModel::ArgumentCountMismatch(1, arg_count)),
            )
        },
        arg_count == 1 && callback_loc is Some ==> {
            &&& r is None
            &&& *final(ctx) == *old(ctx)
            &&& diagnostics_view(final(diagnostics)@) == diagnostics_view(old(diagnostics)@).push(
                error_at(callback_loc->Some_0, DiagnosticKindModel::UnexpectedCallback("expression"@)),
            )
        },
        arg_count == 1 && callback_loc is None ==> (r matches Some(res) && {
            let kept = reactive_deps(deps@, reactive@);
            let tuple = TypeModel::Tuple(ref_types(old(ctx).arena@, kept), Seq::empty());
            &&& res.0@ == kept
            &&& match old(ctx).current_declaration_dependencies {
                Some(cur) => final(ctx).current_declaration_dependencies matches Some(n) && n@ == cur@ + deps@,
                None => final(ctx).current_declaration_dependencies is None,
            }
            &&& exists|s: TypeStore| {
                &&& #[trigger] old(ctx).type_store.after_add(tuple, s)
                &&& s.lookup(tuple) == Some(res.1)
                &&& s.after_add(TypeModel::Listener(arg_type), final(ctx).type_store)
            }
            &&& final(ctx).type_store.models()[res.1 as int] == tuple
            &&& final(ctx).type_store.lookup(TypeModel::Listener(arg_type)) == Some(res.2)
            &&& final(ctx).arena == old(ctx).arena
            &&& final(ctx).symbols == old(ctx).symbols
            &&& final(ctx).scopes == old(ctx).scopes
            &&& final(ctx).expressions == old(ctx).expressions
            &&& final(ctx).other_dependencies == old(ctx).other_dependencies
            &&& diagnostics_view(final(diagnostics)@) == diagnostics_view(old(diagnostics)@) + if kept.len() == 0 {
                seq![error_at(loc, DiagnosticKindModel::NonReactiveExpression)]
            } else {
                Seq::empty()
            }
        }),
{
    let ghost d0 = diagnostics_view(diagnostics@);
    if arg_count != 1 {
        diagnostics.push(Diagnostic {
            level: DiagnosticLevel::Error,
            loc,
            kind: DiagnosticKind::ArgumentCountMismatch { expected: 1, got: arg_count },
        });
        assert(diagnostics_view(diagnostics@) =~= d0.push(error_at(loc, DiagnosticKindModel::ArgumentCountMismatch(1, arg_count))));
        return None;
    }
    if let Some(c) = callback_loc {
        proof {
            reveal_strlit("expression");
        }
        diagnostics.push(Diagnostic {
            level: DiagnosticLevel::Error,
            loc: c,
            kind: DiagnosticKind::UnexpectedCallback { expected: String::from_str("expression") },
        });
        assert(diagnostics_view(diagnostics@) =~= d0.push(error_at(c, DiagnosticKindModel::UnexpectedCallback("expression"@))));
        return None;
    }
    let ghost arena0 = ctx.arena@;
    let mut kept: Vec<SymbolRef> = Vec::new();
    let mut types: Vec<TypeId> = Vec::new();
    let mut i: usize = 0;
    while i < deps.len()
        invariant
            i <= deps@.len(),
            reactive@.len() == deps@.len(),
            arena0 == ctx.arena@,
            forall|k: int| 0 <= k < deps@.len() ==> (#[trigger] deps@[k]).0 < arena0.len(),
            kept@ == reactive_deps(deps@.take(i as int), reactive@),
            types@ == ref_types(arena0, kept@),
        decreases deps@.len() - i,
    {
        assert(deps@.take(i + 1).drop_last() =~= deps@.take(i as int));
        assert(deps@.take(i + 1).last() == deps@[i as int]);
        assert(deps@.take(i + 1).len() - 1 == i);
        if reactive[i] {
            let d = deps[i];
            let ty = d.as_type(&ctx.arena);
            kept.push(d);
            types.push(ty);
            assert(types@ =~= ref_types(arena0, kept@));
        }
        i = i + 1;
    }
    assert(deps@.take(deps@.len() as int) =~= deps@);
    let deps_copy = crate::analysis_context::symbols::copy_refs(&deps);
    ctx.add_dependencies(deps_copy);
    let ghost s0 = ctx.type_store;
    proof {
        assert(named_models(Seq::<TypeParam>::empty()) =~= Seq::<(Seq<char>, TypeId)>::empty());
    }
    let tuple = Type::Tuple(TupleType { elements: types, params: Vec::new() });
    let t = ctx.type_store.add(tuple);
    let ghost s1 = ctx.type_store;
    let listener = ctx.type_store.add(Type::Listener(ListenerType { inner: arg_type }));
    proof {
        let tm = TypeModel::Tuple(ref_types(arena0, kept@), Seq::empty());
        assert(s0.after_add(tm, s1));
    }
    let ghost d1 = diagnostics_view(diagnostics@);
    if kept.len() == 0 {
        diagnostics.push(Diagnostic { level: DiagnosticLevel::Error, loc, kind: DiagnosticKind::NonReactiveExpression });
    }
    assert(diagnostics_view(diagnostics@) =~= d1 + if kept@.len() == 0 {
        seq![error_at(loc, DiagnosticKindModel::NonReactiveExpression)]
    } else {
        Seq::empty()
    });
    proof {
        let tm = TypeModel::Tuple(ref_types(arena0, kept@), Seq::empty());
        assert(kept@ == reactive_deps(deps@, reactive@));
        assert(s1.lookup(tm) == Some(t));
        assert(s1.after_add(TypeModel::Listener(arg_type), ctx.type_store));
        assert(ctx.type_store.models()[t as int] == tm);
        assert(ctx.arena@ == arena0);
    }
    Some((kept, t, listener))
}

} // verus!
