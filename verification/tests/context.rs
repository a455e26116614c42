use lib::analysis_context::symbols::{SymbolArena, SymbolData, SymbolKind, SymbolRef};
use lib::analysis_context::LocalContext;
use lib::locations::{Location, Span};
use lib::members::method_concreteness;
use lib::scope::Scope;
use lib::symbols::{Symbol, SymbolMut, SymbolAccessManager, SymbolId, SymbolTable, VariableSymbol, VariableSymbolId};
use lib::type_definitions::TypeBody;
use lib::type_store::{INTEGER, STRING};
use lib::types::{StructType, TupleType, Type, TypeParam};

fn named(name: &str) -> SymbolData {
    let mut data = SymbolData::default();
    data.name = name.to_string();
    data
}

#[test]
fn registered_symbol_is_found() {
    let mut ctx = LocalContext::new();
    let r = ctx.register_symbol(named("x"));
    assert_eq!(ctx.lookup("x").map(|s| s.0), Some(r.0));
    assert!(ctx.lookup("y").is_none());
}

#[test]
fn inner_scope_shadows_and_popping_restores() {
    let mut ctx = LocalContext::new();
    let outer = ctx.register_symbol(named("x"));
    ctx.enter_scope();
    let inner = ctx.register_symbol(named("x"));
    assert_eq!(ctx.lookup("x").map(|s| s.0), Some(inner.0));
    ctx.pop_scope();
    assert_eq!(ctx.lookup("x").map(|s| s.0), Some(outer.0));
}

#[test]
fn scope_bind_and_lookup() {
    let mut scope = Scope::new();
    scope.bind("a".to_string(), SymbolId::dummy());
    assert!(scope.has("a"));
    assert!(!scope.has("b"));
    assert!(scope.lookup("a").is_some());
    assert_eq!(scope.as_bindings().len(), 1);
}

#[test]
fn symbol_table_insert_then_get() {
    let mut table = SymbolTable::new();
    let symbol = VariableSymbol {
        name: "v".to_string(),
        mutable: true,
        ty: INTEGER,
        docs: None,
        defined_at: Location::dummy(),
        access: SymbolAccessManager::new(),
        dependencies: vec![],
    };
    let id: VariableSymbolId = table.insert(symbol);
    assert_eq!(id.0, 0);
    assert_eq!(table.get(id).name, "v");
    assert!(table.is_mutable(SymbolId::Variable(id)));
}

#[test]
fn access_uses_are_reads_and_writes() {
    let mut access = SymbolAccessManager::new();
    let a = Location::new(0, Span::new(1, 2));
    let b = Location::new(0, Span::new(3, 4));
    access.read(a);
    access.write(b);
    assert_eq!(access.uses().len(), 2);
    assert!(!access.has_references());
}

#[test]
fn concreteness_counts_owner_arguments() {
    let mut arena = SymbolArena::new();
    let owner = SymbolRef(0);
    let mut data = named("m");
    data.kind = SymbolKind::Method { owner, owner_args: vec![INTEGER, STRING], has_receiver: true, param_names: vec![] };
    let method = lib::analysis_context::symbols::SymbolHandle::new(&mut arena, data);
    assert_eq!(method_concreteness(&SymbolRef(method.0), &arena), 2);
}

#[test]
fn type_body_params_and_conversion() {
    let mut body: TypeBody = StructType { id: 9, params: vec![], fields: vec![] }.into();
    body.set_params(vec![TypeParam { name: "T".to_string(), id: 10 }]);
    let ty: Type = body.into();
    assert_eq!(ty, Type::Struct(StructType { id: 9, params: vec![TypeParam { name: "T".to_string(), id: 10 }], fields: vec![] }));
    let tuple: TypeBody = TupleType { elements: vec![INTEGER], params: vec![] }.into();
    assert_eq!(Type::from(tuple), Type::Tuple(TupleType { elements: vec![INTEGER], params: vec![] }));
}

#[test]
fn locations_merge_and_step() {
    let a = Location::new(0, Span::new(2, 4));
    let b = Location::new(0, Span::new(6, 9));
    assert_eq!(Location::merge(a, b), Location::new(0, Span::new(2, 9)));
    assert_eq!(a.increment(), Location::new(0, Span::new(4, 5)));
    assert_eq!(a.decrement(), Location::new(0, Span::new(1, 2)));
    assert_eq!(a.nth_char(1), Location::new(0, Span::new(3, 4)));
    assert!(Location::new(0, Span::new(3, 4)).is_within(a));
    assert!(!b.is_within(a));
}

#[test]
fn access_records_uses_in_place() {
    let mut symbol = VariableSymbol {
        name: "v".to_string(),
        mutable: true,
        ty: INTEGER,
        docs: None,
        defined_at: Location::dummy(),
        access: SymbolAccessManager::new(),
        dependencies: vec![],
    };
    let at = Location::new(0, Span::new(3, 4));
    symbol.access().read(at);
    assert_eq!(symbol.uses(), vec![at]);
    assert_eq!(symbol.name(), "v");
}

#[test]
fn only_variables_are_mutable() {
    let table = SymbolTable::new();
    assert!(!table.is_mutable(SymbolId::Function(lib::symbols::FunctionSymbolId(5))));
    assert!(!table.is_mutable(SymbolId::Member(lib::symbols::MemberSymbolId(0))));
}
