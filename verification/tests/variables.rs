use lib::analysis_context::variables::{VariableArena, VariableData, VariableHandle};
use lib::locations::Location;
use lib::type_store::{INTEGER, STRING};

#[test]
fn new_variable_is_unused() {
    let d = VariableData::new("x".to_string(), INTEGER, true, Location::dummy(), Vec::new());
    assert_eq!(d.name, "x");
    assert_eq!(d.ty, INTEGER);
    assert!(d.mutable);
    assert_eq!((d.reads, d.writes, d.mut_refs, d.ro_refs), (0, 0, 0, 0));
    assert!(!d.has_ref());
}

#[test]
fn pure_variable_is_immutable_without_dependencies() {
    let d = VariableData::pure("s".to_string(), STRING, Location::dummy());
    assert!(!d.mutable);
    assert!(d.dependencies.is_empty());
    assert_eq!(d.ty, STRING);
}

#[test]
fn reads_are_counted_and_taken_back() {
    let mut arena = VariableArena::new();
    let h = VariableHandle::new(&mut arena, VariableData::pure("x".to_string(), INTEGER, Location::dummy()));
    h.add_read(&mut arena);
    h.add_read(&mut arena);
    assert_eq!(h.borrow(&arena).reads, 2);
    h.remove_read(&mut arena);
    assert_eq!(h.borrow(&arena).reads, 1);
    h.remove_read(&mut arena);
    assert_eq!(h.borrow(&arena).reads, 0);
}

#[test]
fn counts_touch_only_their_variable() {
    let mut arena = VariableArena::new();
    let a = VariableHandle::new(&mut arena, VariableData::new("a".to_string(), INTEGER, true, Location::dummy(), Vec::new()));
    let b = VariableHandle::new(&mut arena, VariableData::pure("b".to_string(), INTEGER, Location::dummy()));
    a.add_write(&mut arena);
    a.add_mutable_ref(&mut arena);
    b.add_readonly_ref(&mut arena);
    let da = a.borrow(&arena);
    assert_eq!((da.reads, da.writes, da.mut_refs, da.ro_refs), (0, 1, 1, 0));
    let db = b.borrow(&arena);
    assert_eq!((db.reads, db.writes, db.mut_refs, db.ro_refs), (0, 0, 0, 1));
    assert!(da.has_ref());
    assert!(db.has_ref());
    assert!(a.is_mutable(&arena));
    assert!(!b.is_mutable(&arena));
}

#[test]
fn handles_recognise_their_own_references() {
    let mut arena = VariableArena::new();
    let a = VariableHandle::new(&mut arena, VariableData::pure("a".to_string(), INTEGER, Location::dummy()));
    let b = VariableHandle::new(&mut arena, VariableData::pure("b".to_string(), INTEGER, Location::dummy()));
    let ra = a.readonly();
    assert!(a.has_ref(&ra));
    assert!(!b.has_ref(&ra));
    assert_eq!(ra.borrow(&arena).name, "a");
    assert_eq!(arena.len(), 2);
}
