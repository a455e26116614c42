use lib::analysis_context::symbols::{SymbolKind, SymbolRef, TypeSymbolBody as ContextBody};
use lib::analysis_context::LocalContext;
use lib::calls::{check_callback_param, check_derived_call, check_function_expression};
use lib::constructors::{check_constructor_body, BodyCheck, LiteralBody};
use lib::methods::check_method_definition;
use lib::diagnostics::{Diagnostic, DiagnosticKind};
use lib::locations::{Location, Span};
use lib::members::{check_field_access, check_tuple_index, MemberTarget};
use lib::symbols::{
    MemberSymbolId, MethodReceiverKind, MethodSymbol, MethodSymbolId, StructSymbol, StructSymbolId,
    SubstitutionTable, SymbolAccessManager, SymbolTable, TypeSymbolBody, TypeSymbolId,
};
use lib::type_store::{TypeStore, BOOLEAN, INTEGER, STRING, UNKNOWN};
use lib::types::{FunctionType, GenericType, TupleType, Type, TypeParam};

fn loc(start: u32, end: u32) -> Location {
    Location::new(0, Span::new(start, end))
}

fn method(name: &str, receiver: MethodReceiverKind, owner_args: Vec<(usize, usize)>) -> MethodSymbol {
    let mut m = MethodSymbol::default();
    m.name = name.to_string();
    m.receiver = receiver;
    m.owner_args = SubstitutionTable { entries: owner_args };
    m
}

fn structure(body: TypeSymbolBody, methods: Vec<MethodSymbolId>) -> StructSymbol {
    StructSymbol {
        name: "S".to_string(),
        body,
        methods,
        ty: UNKNOWN,
        docs: None,
        defined_at: Location::dummy(),
        access: SymbolAccessManager::new(),
    }
}

fn kinds(d: &[Diagnostic]) -> Vec<DiagnosticKind> {
    d.iter().map(|d| d.kind.clone()).collect()
}

#[test]
fn field_wins_over_method_of_same_name() {
    let mut table = SymbolTable::new();
    let m: MethodSymbolId = table.insert(method("x", MethodReceiverKind::Immutable, vec![]));
    let body = TypeSymbolBody::Struct(vec![("x".to_string(), MemberSymbolId(3))]);
    let s: StructSymbolId = table.insert(structure(body, vec![m]));
    let mut d = Vec::new();
    let subs = SubstitutionTable { entries: vec![] };
    let r = check_field_access(&table, &mut d, Some(s), &subs, Some(true), "x", loc(2, 3));
    assert_eq!(r, Some(MemberTarget::Field(MemberSymbolId(3))));
    assert!(d.is_empty());
}

#[test]
fn most_concrete_method_is_chosen() {
    let mut table = SymbolTable::new();
    let generic: MethodSymbolId = table.insert(method("len", MethodReceiverKind::Immutable, vec![]));
    let specific: MethodSymbolId = table.insert(method("len", MethodReceiverKind::Immutable, vec![(10, INTEGER)]));
    let other: MethodSymbolId = table.insert(method("len", MethodReceiverKind::Immutable, vec![(10, STRING)]));
    let s: StructSymbolId = table.insert(structure(TypeSymbolBody::Struct(vec![]), vec![generic, specific, other]));
    let mut d = Vec::new();
    let subs = SubstitutionTable { entries: vec![(10, INTEGER)] };
    let r = check_field_access(&table, &mut d, Some(s), &subs, None, "len", loc(2, 5));
    assert_eq!(r, Some(MemberTarget::Method(specific)));
    assert!(d.is_empty());
}

#[test]
fn unknown_member_and_missing_root_are_reported() {
    let mut table = SymbolTable::new();
    let s: StructSymbolId = table.insert(structure(TypeSymbolBody::Struct(vec![]), vec![]));
    let subs = SubstitutionTable { entries: vec![] };
    let mut d = Vec::new();
    assert_eq!(check_field_access(&table, &mut d, Some(s), &subs, None, "y", loc(4, 5)), None);
    assert_eq!(check_field_access(&table, &mut d, None, &subs, None, "z", loc(6, 7)), None);
    assert_eq!(
        kinds(&d),
        vec![
            DiagnosticKind::UnknownMember { member: "y".to_string() },
            DiagnosticKind::UnknownMember { member: "z".to_string() },
        ]
    );
    assert_eq!(d[0].loc, loc(4, 5));
}

#[test]
fn mutating_method_is_not_found_on_immutable_object() {
    let mut table = SymbolTable::new();
    let m: MethodSymbolId = table.insert(method("push", MethodReceiverKind::Mutable, vec![]));
    let s: StructSymbolId = table.insert(structure(TypeSymbolBody::Struct(vec![]), vec![m]));
    let subs = SubstitutionTable { entries: vec![] };
    let mut d = Vec::new();
    assert_eq!(check_field_access(&table, &mut d, Some(s), &subs, Some(true), "push", loc(0, 4)), Some(MemberTarget::Method(m)));
    assert!(d.is_empty());
    assert_eq!(check_field_access(&table, &mut d, Some(s), &subs, Some(false), "push", loc(0, 4)), None);
    assert_eq!(kinds(&d), vec![DiagnosticKind::UnknownMember { member: "push".to_string() }]);
}

#[test]
fn tuple_index_checks() {
    let mut table = SymbolTable::new();
    let s: StructSymbolId = table.insert(structure(TypeSymbolBody::Tuple(vec![MemberSymbolId(0), MemberSymbolId(1)]), vec![]));
    let mut store = TypeStore::new();
    let pair = store.add(Type::Tuple(TupleType { elements: vec![INTEGER, STRING], params: vec![] }));
    let mut d = Vec::new();
    assert_eq!(check_tuple_index(&table, &store, &mut d, Some(s), pair, loc(0, 1), 1, loc(2, 3)), Some((MemberSymbolId(1), STRING)));
    assert!(d.is_empty());
    assert_eq!(check_tuple_index(&table, &store, &mut d, Some(s), pair, loc(0, 1), 2, loc(2, 3)), None);
    assert_eq!(check_tuple_index(&table, &store, &mut d, Some(s), pair, loc(0, 1), -1, loc(2, 4)), None);
    assert_eq!(check_tuple_index(&table, &store, &mut d, Some(s), BOOLEAN, loc(0, 1), 0, loc(2, 3)), None);
    assert_eq!(check_tuple_index(&table, &store, &mut d, Some(s), UNKNOWN, loc(0, 1), 0, loc(2, 3)), None);
    assert_eq!(check_tuple_index(&table, &store, &mut d, None, pair, loc(0, 1), 7, loc(2, 3)), None);
    assert_eq!(
        kinds(&d),
        vec![
            DiagnosticKind::UnknownMember { member: "2".to_string() },
            DiagnosticKind::NegativeTupleIndex,
            DiagnosticKind::ExpectedTuple { got: "bool".to_string() },
            DiagnosticKind::UnknownMember { member: "7".to_string() },
        ]
    );
    assert_eq!(d[2].loc, loc(0, 1));
}

#[test]
fn callback_param_takes_annotation_or_expected_type() {
    let mut ctx = LocalContext::new();
    let mut d = Vec::new();
    let a = check_callback_param(&mut ctx, &mut d, "a".to_string(), loc(1, 2), None, INTEGER);
    let b = check_callback_param(&mut ctx, &mut d, "b".to_string(), loc(3, 4), Some(UNKNOWN), STRING);
    let c = check_callback_param(&mut ctx, &mut d, "c".to_string(), loc(5, 6), Some(BOOLEAN), INTEGER);
    assert_eq!(a.as_type(&ctx.arena), INTEGER);
    assert_eq!(b.as_type(&ctx.arena), STRING);
    assert_eq!(c.as_type(&ctx.arena), BOOLEAN);
    assert_eq!(
        kinds(&d),
        vec![DiagnosticKind::MismatchedTypes { left_name: "int".to_string(), right_name: "bool".to_string() }]
    );
    assert_eq!(d[0].loc, loc(5, 6));
    assert_eq!(ctx.lookup("c").map(|r| r.0), Some(c.0));
}

#[test]
fn function_expression_types_are_interned() {
    let mut ctx = LocalContext::new();
    let names = vec!["x".to_string()];
    let (t1, s1) = check_function_expression(&mut ctx, vec![], vec![INTEGER], &names, STRING, Some("f".to_string()), loc(3, 4), None);
    let (t2, s2) = check_function_expression(&mut ctx, vec![], vec![INTEGER], &names, STRING, None, loc(9, 9), None);
    assert_eq!(t1, t2);
    assert!(s2.is_none());
    let f = s1.unwrap();
    assert_eq!(f.as_type(&ctx.arena), t1);
    assert_eq!(f.as_name(&ctx.arena), "f");
    let (t3, _) = check_function_expression(&mut ctx, vec![UNKNOWN], vec![INTEGER], &names, STRING, None, loc(9, 9), None);
    assert_ne!(t3, t1);
    match ctx.type_store.get(t3) {
        Type::Generic(g) => assert_eq!(g.definition, t1),
        other => panic!("expected a generic type, got {:?}", other),
    }
}

#[test]
fn constructor_body_shapes() {
    let mut d = Vec::new();
    let fields = Some(ContextBody::Struct(vec![]));
    let elements = Some(ContextBody::Tuple(vec![]));
    assert_eq!(check_constructor_body(&mut d, &fields, LiteralBody::Struct, loc(1, 2), loc(0, 2)), BodyCheck::Fields);
    assert_eq!(check_constructor_body(&mut d, &elements, LiteralBody::Tuple, loc(1, 2), loc(0, 2)), BodyCheck::Elements);
    assert_eq!(check_constructor_body(&mut d, &None, LiteralBody::Unit, loc(1, 2), loc(0, 2)), BodyCheck::Unit);
    assert!(d.is_empty());
    assert_eq!(check_constructor_body(&mut d, &elements, LiteralBody::Struct, loc(1, 2), loc(0, 2)), BodyCheck::Rejected);
    assert_eq!(check_constructor_body(&mut d, &fields, LiteralBody::Tuple, loc(1, 2), loc(0, 2)), BodyCheck::Rejected);
    assert_eq!(check_constructor_body(&mut d, &fields, LiteralBody::Unit, loc(1, 2), loc(0, 2)), BodyCheck::Rejected);
    assert_eq!(
        kinds(&d),
        vec![DiagnosticKind::ExpectedTupleLikeBody, DiagnosticKind::ExpectedStructLikeBody, DiagnosticKind::ExpectedVariantUnit]
    );
    assert_eq!(d[2].loc, loc(0, 2));
}

#[test]
fn default_method_is_static_and_not_mutating() {
    let m = MethodSymbol::default();
    assert!(m.is_static());
    assert!(!m.is_mutating());
    assert_eq!(m.owner, TypeSymbolId::Struct(StructSymbolId(0)));
    assert_eq!(m.concreteness(), 0);
}

#[test]
fn type_body_of_a_struct_symbol() {
    let mut ctx = LocalContext::new();
    let mut data = lib::analysis_context::symbols::SymbolData::default();
    data.kind = SymbolKind::Struct { body: ContextBody::Tuple(vec![SymbolRef(4)]), methods: vec![] };
    let r = ctx.register_symbol(data);
    match r.as_type_body(&ctx.arena) {
        Some(ContextBody::Tuple(m)) => assert_eq!(m, vec![SymbolRef(4)]),
        other => panic!("expected a tuple body, got {:?}", other),
    }
    let plain = ctx.register_symbol(lib::analysis_context::symbols::SymbolData::default());
    assert!(plain.as_type_body(&ctx.arena).is_none());
}

#[test]
fn derived_call_checks() {
    let mut ctx = LocalContext::new();
    let mut d = Vec::new();
    let mut a_data = lib::analysis_context::symbols::SymbolData::default();
    a_data.name = "a".to_string();
    a_data.ty = INTEGER;
    let a = ctx.register_symbol(a_data);
    let mut b_data = lib::analysis_context::symbols::SymbolData::default();
    b_data.name = "b".to_string();
    b_data.ty = STRING;
    let b = ctx.register_symbol(b_data);
    assert!(check_derived_call(&mut ctx, &mut d, loc(0, 9), 2, None, INTEGER, vec![], &vec![]).is_none());
    assert!(check_derived_call(&mut ctx, &mut d, loc(0, 9), 1, Some(loc(4, 8)), INTEGER, vec![], &vec![]).is_none());
    let (kept, tuple, listener) =
        check_derived_call(&mut ctx, &mut d, loc(0, 9), 1, None, INTEGER, vec![a, b], &vec![false, true]).unwrap();
    assert_eq!(kept.iter().map(|r| r.0).collect::<Vec<_>>(), vec![b.0]);
    match ctx.type_store.get(tuple) {
        Type::Tuple(t) => assert_eq!(t.elements, vec![STRING]),
        other => panic!("expected a tuple type, got {:?}", other),
    }
    match ctx.type_store.get(listener) {
        Type::Listener(l) => assert_eq!(l.inner, INTEGER),
        other => panic!("expected a listener type, got {:?}", other),
    }
    assert!(check_derived_call(&mut ctx, &mut d, loc(1, 2), 1, None, INTEGER, vec![a], &vec![false]).is_some());
    assert_eq!(
        kinds(&d),
        vec![
            DiagnosticKind::ArgumentCountMismatch { expected: 1, got: 2 },
            DiagnosticKind::UnexpectedCallback { expected: "expression".to_string() },
            DiagnosticKind::NonReactiveExpression,
        ]
    );
    assert_eq!(d[1].loc, loc(4, 8));
    assert_eq!(d[2].loc, loc(1, 2));
}

#[test]
fn test_visit_function_expression() {
    let mut ctx = LocalContext::new();
    let names = vec!["x".to_string(), "y".to_string()];
    let (ty, symbol) =
        check_function_expression(&mut ctx, vec![], vec![INTEGER, INTEGER], &names, INTEGER, None, Location::dummy(), None);
    assert!(symbol.is_none());
    assert_eq!(
        ctx.type_store.get(ty),
        &Type::Function(FunctionType { type_params: vec![], params: vec![INTEGER, INTEGER], return_type: INTEGER })
    );
}

#[test]
fn test_visit_generic_function_expression() {
    let mut ctx = LocalContext::new();
    let t = ctx.type_store.add(Type::Param(TypeParam { name: "T".to_string(), id: 0 }));
    let names = vec!["x".to_string()];
    let (ty, _) = check_function_expression(&mut ctx, vec![t], vec![t], &names, lib::type_store::UNIT, None, Location::dummy(), None);
    let Type::Generic(GenericType { params, definition }) = ctx.type_store.get(ty).clone() else {
        panic!("Expected generic type");
    };
    assert_eq!(params.len(), 1);
    assert_eq!(ctx.type_store.get(params[0]), &Type::Param(TypeParam { name: "T".to_string(), id: 0 }));
    assert_eq!(
        ctx.type_store.get(definition),
        &Type::Function(FunctionType { type_params: vec![], params: vec![params[0]], return_type: lib::type_store::UNIT })
    );
}

#[test]
fn method_definitions() {
    let mut table = SymbolTable::new();
    let body = TypeSymbolBody::Struct(vec![("len".to_string(), MemberSymbolId(0))]);
    let s: StructSymbolId = table.insert(structure(body, vec![]));
    let mut store = TypeStore::new();
    let mut d = Vec::new();
    let subs = SubstitutionTable { entries: vec![] };
    let names = vec!["n".to_string()];
    let r = check_method_definition(
        &mut table, &mut store, &mut d, TypeSymbolId::Struct(s), subs.clone(), true, vec![], vec![INTEGER], &names,
        BOOLEAN, "push".to_string(), loc(3, 7), None,
    );
    let id = r.unwrap();
    assert!(d.is_empty());
    let m = table.get(id);
    assert_eq!(m.name, "push");
    assert!(m.is_mutating());
    assert_eq!(
        store.get(m.ty),
        &Type::Function(FunctionType { type_params: vec![], params: vec![INTEGER], return_type: BOOLEAN })
    );
    assert_eq!(table.get(s).methods, vec![id]);
    let r = check_method_definition(
        &mut table, &mut store, &mut d, TypeSymbolId::Struct(s), subs, false, vec![], vec![], &vec![], UNKNOWN,
        "len".to_string(), loc(9, 12), None,
    );
    assert!(r.is_none());
    assert_eq!(kinds(&d), vec![DiagnosticKind::DuplicateFieldName { name: "len".to_string() }]);
    assert_eq!(d[0].loc, loc(9, 12));
    assert_eq!(table.get(s).methods, vec![id]);
}

#[test]
fn symbols_of_an_earlier_module_can_be_imported() {
    let mut first = LocalContext::new();
    let mut data = lib::analysis_context::symbols::SymbolData::default();
    data.name = "exported".to_string();
    data.ty = INTEGER;
    let exported = first.register_symbol(data);
    let mut second = LocalContext::with_arena(first.arena);
    assert!(second.lookup("exported").is_none());
    second.import(exported);
    assert_eq!(second.lookup("exported").map(|r| r.0), Some(exported.0));
    assert!(second.lookup_mut("exported").is_none());
    assert!(second.symbols.is_empty());
}
