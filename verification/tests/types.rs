use lib::type_display::display_type;
use lib::type_store::{TypeStore, BOOLEAN, DYNAMIC, FLOAT, INTEGER, STRING, UNIT, UNKNOWN};
use lib::types::{ArrayType, FunctionType, StructField, StructType, TraitMethod, TraitType, Type};

#[test]
fn test_display_type_primitives() {
    let store = TypeStore::new();
    assert_eq!(display_type(&store, INTEGER), "int");
    assert_eq!(display_type(&store, STRING), "str");
    assert_eq!(display_type(&store, BOOLEAN), "bool");
    assert_eq!(display_type(&store, UNIT), "()");
}

#[test]
fn test_display_type_array() {
    let mut store = TypeStore::new();
    let array_type = Type::Array(ArrayType { element: INTEGER });
    let array_id = store.add(array_type);
    assert_eq!(display_type(&store, array_id), "int[]");
}

#[test]
fn test_display_type_function() {
    let mut store = TypeStore::new();
    let fn_type = Type::Function(FunctionType {
        type_params: vec![],
        params: vec![STRING, INTEGER],
        return_type: BOOLEAN,
    });
    let fn_id = store.add(fn_type);
    assert_eq!(display_type(&store, fn_id), "(str, int) => bool");
}

#[test]
fn test_add_alias() {
    let mut store = TypeStore::new();
    store.add_alias(INTEGER, "MyNumber".to_string());
    assert_eq!(display_type(&store, INTEGER), "MyNumber");
}

#[test]
fn test_typestore_initialization() {
    let store = TypeStore::new();
    assert_eq!(store.get(UNKNOWN), &Type::Unknown);
    assert_eq!(store.get(UNIT), &Type::Unit);
    assert_eq!(store.get(DYNAMIC), &Type::Dynamic);
    assert_eq!(store.get(BOOLEAN), &Type::Boolean);
    assert_eq!(store.get(STRING), &Type::String);
    assert_eq!(store.get(INTEGER), &Type::Integer);
    assert_eq!(store.get(FLOAT), &Type::Float);
}

#[test]
fn test_add_type() {
    let mut store = TypeStore::new();
    let array_type = Type::Array(ArrayType { element: FLOAT });
    let id = store.add(array_type.clone());
    assert_eq!(store.get(id), &array_type);
}

#[test]
fn test_add_duplicate_type() {
    let mut store = TypeStore::new();
    let array_type = Type::Array(ArrayType { element: FLOAT });
    let id1 = store.add(array_type.clone());
    let id2 = store.add(array_type);
    assert_eq!(id1, id2);
}

#[test]
fn test_find_id() {
    let mut store = TypeStore::new();
    let array_type = Type::Array(ArrayType { element: INTEGER });
    let id = store.add(array_type.clone());
    assert_eq!(store.find_id(&array_type), Some(id));
}

#[test]
fn test_has_property_field() {
    let mut store = TypeStore::new();
    let struct_type = Type::Struct(StructType {
        id: store.get_next_id(),
        params: vec![],
        fields: vec![StructField { name: "name".to_string(), def: STRING }],
    });
    let struct_id = store.add(struct_type);

    assert!(store.has_property(struct_id, "name"));
    assert!(!store.has_property(struct_id, "nonexistent"));
}

// ----- further cases -----

#[test]
fn adding_distinct_types_gives_fresh_ids() {
    let mut store = TypeStore::new();
    let a = store.add(Type::Array(ArrayType { element: INTEGER }));
    let b = store.add(Type::Array(ArrayType { element: STRING }));
    assert_eq!(a, 8);
    assert_eq!(b, 9);
    assert_eq!(store.find_id(&Type::Array(ArrayType { element: STRING })), Some(b));
    assert_eq!(store.find_id(&Type::Array(ArrayType { element: BOOLEAN })), None);
}

#[test]
fn builtin_types_are_found() {
    let store = TypeStore::new();
    assert_eq!(store.find_id(&Type::Integer), Some(INTEGER));
    assert_eq!(store.find_id(&Type::Unknown), Some(UNKNOWN));
}

#[test]
fn display_nested_array() {
    let mut store = TypeStore::new();
    let inner = store.add(Type::Array(ArrayType { element: STRING }));
    let outer = store.add(Type::Array(ArrayType { element: inner }));
    assert_eq!(display_type(&store, outer), "str[][]");
}

#[test]
fn first_alias_wins() {
    let mut store = TypeStore::new();
    store.add_alias(INTEGER, "Count".to_string());
    store.add_alias(INTEGER, "Number".to_string());
    assert_eq!(store.get_alias(INTEGER).map(|s| s.as_str()), Some("Count"));
    assert!(store.get_alias(FLOAT).is_none());
}

#[test]
fn unknown_is_assignable_both_ways() {
    let store = TypeStore::new();
    for ty in [UNIT, BOOLEAN, STRING, INTEGER, FLOAT] {
        assert!(store.can_assign_to(UNKNOWN, ty));
        assert!(store.can_assign_to(ty, UNKNOWN));
    }
    assert!(!store.can_assign_to(INTEGER, STRING));
}

#[test]
fn display_ignores_later_types() {
    let mut store = TypeStore::new();
    let later = store.get_next_id() + 5;
    store.add(Type::Struct(StructType {
        id: 0,
        params: vec![],
        fields: vec![StructField { name: "x".to_string(), def: later }],
    }));
    assert_eq!(display_type(&store, INTEGER), "int");
    assert_eq!(display_type(&store, BOOLEAN), "bool");
}

#[test]
fn methods_make_a_type_implement_a_trait() {
    let mut store = TypeStore::new();
    let len = TraitMethod { name: "len".to_string(), def: INTEGER };
    let trait_type = TraitType { methods: vec![TraitMethod { name: "len".to_string(), def: INTEGER }] };
    assert!(!store.implements(STRING, &trait_type));
    store.add_method(STRING, len);
    store.add_method(STRING, TraitMethod { name: "len".to_string(), def: INTEGER });
    assert!(store.implements(STRING, &trait_type));
    assert!(!store.implements(INTEGER, &trait_type));
    let t = store.add(Type::Trait(TraitType { methods: vec![TraitMethod { name: "len".to_string(), def: INTEGER }] }));
    assert!(store.can_assign_to(STRING, t));
    assert!(!store.can_assign_to(BOOLEAN, t));
}
