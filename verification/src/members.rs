use vstd::prelude::*;

use crate::analysis_context::symbols::{SymbolArena, SymbolKind, SymbolRef};
use crate::diagnostics::{diagnostics_view, Diagnostic, DiagnosticKind, DiagnosticKindModel, DiagnosticLevel, DiagnosticModel};
use crate::locations::Location;
use crate::operators::error_at;
use crate::symbols::{
    MemberSymbolId, MethodSymbol, MethodSymbolId, StructSymbolId, SubstitutionTable, SymbolTable,
    SymbolTableModel, TypeSymbolBody,
};
use crate::text::{decimal_text, int_to_string};
use crate::type_display::{display_spec, display_type};
use crate::type_store::{TypeStore, UNKNOWN};
use crate::types::{string_eq, Type, TypeId, TypeModel};

verus! {

/// The number of type arguments of the type that owns the method `method`.
pub fn method_concreteness(method: &SymbolRef, arena: &SymbolArena) -> (r: usize)
    requires
        method.0 < arena@.len(),
        arena@[method.0 as int].kind is Method,
    ensures
        r == arena@[method.0 as int].kind->Method_owner_args@.len(),
{
    match &method.borrow(arena).kind {
        SymbolKind::Method { owner_args, .. } => owner_args.len(),
        _ => 0,
    }
}


/// What a field access resolves to: a field of the struct or one of its methods.
#[derive(Clone, Copy, Debug, PartialEq, Eq, Structural)]
pub enum MemberTarget {
    Field(MemberSymbolId),
    Method(MethodSymbolId),
}

/// Whether `m` can be what `name` names on an object of the given
/// mutability (`None`: unknown) whose type arguments are `subs`: the names
/// agree, a mutating method is not taken on an immutable object, and a
/// method of a generic implementation fixes exactly the object's arguments.
pub open spec fn method_matches_spec(m: MethodSymbol, name: Seq<char>, mutable: Option<bool>, subs: Seq<(TypeId, TypeId)>) -> bool {
    &&& m.name@ == name
    &&& !(m.receiver is Mutable && mutable == Some(false))
    &&& (m.owner_args.entries@.len() == 0 || m.owner_args.entries@ == subs)
}

/// The most concrete matching method among `ids`: the one whose receiver
/// fixes the most type arguments, the last of them on a tie.
pub open spec fn best_method(
    methods: Seq<MethodSymbol>,
    ids: Seq<MethodSymbolId>,
    name: Seq<char>,
    mutable: Option<bool>,
    subs: Seq<(TypeId, TypeId)>,
) -> Option<MethodSymbolId>
    decreases ids.len(),
{
    if ids.len() == 0 {
        None
    } else {
        let before = best_method(methods, ids.drop_last(), name, mutable, subs);
        let x = ids.last();
        if !method_matches_spec(methods[x.0 as int], name, mutable, subs) {
            before
        } else {
            match before {
                None => Some(x),
                Some(y) => if methods[x.0 as int].owner_args.entries@.len() >= methods[y.0 as int].owner_args.entries@.len() {
                    Some(x)
                } else {
                    Some(y)
                },
            }
        }
    }
}

/// The named fields of a struct body, as (name, member) pairs.
pub open spec fn fields_model(fields: Seq<(String, MemberSymbolId)>) -> Seq<(Seq<char>, MemberSymbolId)> {
    fields.map_values(|f: (String, MemberSymbolId)| (f.0@, f.1))
}

/// The member of the first field named `name` at or after position `i`.
pub open spec fn first_field_from(fields: Seq<(Seq<char>, MemberSymbolId)>, name: Seq<char>, i: int) -> Option<MemberSymbolId>
    decreases fields.len() - i,
{
    if i < 0 || i >= fields.len() {
        None
    } else if fields[i].0 == name {
        Some(fields[i].1)
    } else {
        first_field_from(fields, name, i + 1)
    }
}

/// Whether a field access on struct `root` of table `m` can be checked: the
/// struct exists, has named fields, and its methods exist.
pub open spec fn field_access_ok(m: SymbolTableModel, root: Option<StructSymbolId>) -> bool {
    match root {
        None => true,
        Some(s) => {
            &&& s.0 < m.structs.len()
            &&& m.structs[s.0 as int].body is Struct
            &&& forall|k: int| 0 <= k < m.structs[s.0 as int].methods@.len()
                ==> (#[trigger] m.structs[s.0 as int].methods@[k]).0 < m.methods.len()
        },
    }
}

/// What accessing `field` (at `loc`) on an object whose type is the struct
/// `root` gives, and the diagnostics it reports. Without a struct, or with no
/// field and no matching method of that name, the member is unknown. A field
/// wins over methods; otherwise the most concrete matching method is taken,
/// and using a mutating one on an immutable object is reported.
pub open spec fn field_access_spec(
    m: SymbolTableModel,
    root: Option<StructSymbolId>,
    subs: Seq<(TypeId, TypeId)>,
    mutable: Option<bool>,
    field: Seq<char>,
    loc: Location,
) -> (Option<MemberTarget>, Seq<DiagnosticModel>) {
    let unknown = seq![error_at(loc, DiagnosticKindModel::UnknownMember(field))];
    match root {
        None => (None, unknown),
        Some(s) => {
            let st = m.structs[s.0 as int];
            let fields = match st.body {
                TypeSymbolBody::Struct(f) => fields_model(f@),
                TypeSymbolBody::Tuple(_) => Seq::empty(),
            };
            match first_field_from(fields, field, 0) {
                Some(f) => (Some(MemberTarget::Field(f)), Seq::empty()),
                None => match best_method(m.methods, st.methods@, field, mutable, subs) {
                    None => (None, unknown),
                    Some(b) => (
                        Some(MemberTarget::Method(b)),
                        if m.methods[b.0 as int].receiver is Mutable && mutable == Some(false) {
                            seq![error_at(loc, DiagnosticKindModel::MutatingMethodOnImmutable)]
                        } else {
                            Seq::empty()
                        },
                    ),
                },
            }
        },
    }
}

/// Whether `method` can be what `name` names (see `method_matches_spec`).
pub fn method_matches(method: &MethodSymbol, name: &String, mutable: Option<bool>, substitutions: &SubstitutionTable) -> (r: bool)
    ensures
        r == method_matches_spec(*method, name@, mutable, substitutions.entries@),
{
    if !string_eq(&method.name, name) {
        return false;
    }
    if method.is_mutating() && mutable == Some(false) {
        return false;
    }
    if method.concreteness() == 0 {
        return true;
    }
    method.matches_substitutions(substitutions)
}

fn push_error(diagnostics: &mut Vec<Diagnostic>, kind: DiagnosticKind, loc: Location)
    ensures
        diagnostics_view(final(diagnostics)@) == diagnostics_view(old(diagnostics)@).push(error_at(loc, kind@)),
{
    diagnostics.push(Diagnostic { level: DiagnosticLevel::Error, loc, kind });
    assert(diagnostics_view(diagnostics@) =~= diagnostics_view(old(diagnostics)@).push(error_at(loc, kind@)));
}

/// Resolves `field` on an object whose type is the struct `root` (`None`
/// when its type names no struct), of the given mutability and type
/// arguments: reports what `field_access_spec` reports and gives the field
/// or method found.
pub fn check_field_access(
    table: &SymbolTable,
    diagnostics: &mut Vec<Diagnostic>,
    root: Option<StructSymbolId>,
    substitutions: &SubstitutionTable,
    object_mutable: Option<bool>,
    field: &str,
    field_loc: Location,
) -> (r: Option<MemberTarget>)
    requires
        field_access_ok(table@, root),
    ensures
        r == field_access_spec(table@, root, substitutions.entries@, object_mutable, field@, field_loc).0,
        diagnostics_view(final(diagnostics)@) == diagnostics_view(old(diagnostics)@) + field_access_spec(
            table@,
            root,
            substitutions.entries@,
            object_mutable,
            field@,
            field_loc,
        ).1,
{
    let name = String::from_str(field);
    let ghost d0 = diagnostics_view(diagnostics@);
    let s = match root {
        None => {
            push_error(diagnostics, DiagnosticKind::UnknownMember { member: name }, field_loc);
            assert(diagnostics_view(diagnostics@) =~= d0 + seq![error_at(field_loc, DiagnosticKindModel::UnknownMember(field@))]);
            return None;
        },
        Some(s) => s,
    };
    let st = table.get(s);
    let fields = match &st.body {
        TypeSymbolBody::Struct(f) => f,
        TypeSymbolBody::Tuple(_) => {
            return None;
        },
    };
    let ghost fm = fields_model(fields@);
    assert(table@.structs[s.0 as int].body == TypeSymbolBody::Struct(*fields));
    let mut i: usize = 0;
    while i < fields.len()
        invariant
            i <= fields@.len(),
            fm == fields_model(fields@),
            diagnostics_view(diagnostics@) == d0,
            d0 == diagnostics_view(old(diagnostics)@),
            name@ == field@,
            root == Some(s),
            s.0 < table@.structs.len(),
            table@.structs[s.0 as int].body == TypeSymbolBody::Struct(*fields),
            first_field_from(fm, name@, 0) == first_field_from(fm, name@, i as int),
        decreases fields@.len() - i,
    {
        if string_eq(&fields[i].0, &name) {
            assert(fm[i as int] == (fields@[i as int].0@, fields@[i as int].1));
            assert(diagnostics_view(diagnostics@) =~= d0 + Seq::<DiagnosticModel>::empty());
            return Some(MemberTarget::Field(fields[i].1));
        }
        i = i + 1;
    }
    let ids = &st.methods;
    let mut best: Option<MethodSymbolId> = None;
    let mut j: usize = 0;
    while j < ids.len()
        invariant
            j <= ids@.len(),
            root == Some(s),
            first_field_from(fields_model(fields@), field@, 0) is None,
            table@.structs[s.0 as int].body == TypeSymbolBody::Struct(*fields),
            s.0 < table@.structs.len(),
            ids@ == table@.structs[s.0 as int].methods@,
            diagnostics_view(diagnostics@) == d0,
            d0 == diagnostics_view(old(diagnostics)@),
            name@ == field@,
            forall|k: int| 0 <= k < ids@.len() ==> (#[trigger] ids@[k]).0 < table@.methods.len(),
            best == best_method(table@.methods, ids@.take(j as int), name@, object_mutable, substitutions.entries@),
            best matches Some(b) ==> b.0 < table@.methods.len(),
        decreases ids@.len() - j,
    {
        let x = ids[j];
        assert(ids@.take(j + 1).drop_last() =~= ids@.take(j as int));
        let m = table.get(x);
        if method_matches(m, &name, object_mutable, substitutions) {
            match best {
                None => {
                    best = Some(x);
                },
                Some(y) => {
                    if m.concreteness() >= table.get(y).concreteness() {
                        best = Some(x);
                    }
                },
            }
        }
        j = j + 1;
    }
    assert(ids@.take(ids@.len() as int) =~= ids@);
    match best {
        None => {
            push_error(diagnostics, DiagnosticKind::UnknownMember { member: name }, field_loc);
            assert(diagnostics_view(diagnostics@) =~= d0 + seq![error_at(field_loc, DiagnosticKindModel::UnknownMember(field@))]);
            None
        },
        Some(b) => {
            if table.get(b).is_mutating() && object_mutable == Some(false) {
                push_error(diagnostics, DiagnosticKind::MutatingMethodOnImmutable, field_loc);
                assert(diagnostics_view(diagnostics@) =~= d0 + seq![error_at(field_loc, DiagnosticKindModel::MutatingMethodOnImmutable)]);
            } else {
                assert(diagnostics_view(diagnostics@) =~= d0 + Seq::<DiagnosticModel>::empty());
            }
            Some(MemberTarget::Method(b))
        },
    }
}


/// Whether a tuple index on struct `root` can be checked: the struct exists
/// and, where the object's type is a tuple, it has positional members, no
/// more than the tuple type has elements.
pub open spec fn tuple_index_ok(m: SymbolTableModel, store: TypeStore, root: Option<StructSymbolId>, object_ty: TypeId) -> bool {
    &&& store.children_below_upto(object_ty as int)
    &&& object_ty < store.len()
    &&& match root {
        None => true,
        Some(s) => s.0 < m.structs.len() && match store.models()[object_ty as int] {
            TypeModel::Tuple(elements, _) => m.structs[s.0 as int].body matches TypeSymbolBody::Tuple(e) && e@.len() <= elements.len(),
            _ => true,
        },
    }
}

/// What indexing an object of type `object_ty` (at `object_loc`), whose type
/// is the struct `root`, with `index` (at `index_loc`) gives: the member and
/// the type of the element, and the diagnostics it reports. Without a struct
/// the member is unknown; an object that is not a tuple is reported unless
/// its type is unknown; a negative index and one past the last element are
/// reported.
pub open spec fn tuple_index_spec(
    m: SymbolTableModel,
    store: TypeStore,
    root: Option<StructSymbolId>,
    object_ty: TypeId,
    object_loc: Location,
    index: i64,
    index_loc: Location,
) -> (Option<(MemberSymbolId, TypeId)>, Seq<DiagnosticModel>) {
    match root {
        None => (None, seq![error_at(index_loc, DiagnosticKindModel::UnknownMember(decimal_text(index as int)))]),
        Some(s) => match store.models()[object_ty as int] {
            TypeModel::Tuple(elements, _) => {
                let members = match m.structs[s.0 as int].body {
                    TypeSymbolBody::Tuple(e) => e@,
                    TypeSymbolBody::Struct(_) => Seq::empty(),
                };
                if index < 0 {
                    (None, seq![error_at(index_loc, DiagnosticKindModel::NegativeTupleIndex)])
                } else if index >= members.len() {
                    (None, seq![error_at(index_loc, DiagnosticKindModel::UnknownMember(decimal_text(index as int)))])
                } else {
                    (Some((members[index as int], elements[index as int])), Seq::empty())
                }
            },
            _ => (
                None,
                if object_ty != UNKNOWN {
                    seq![error_at(object_loc, DiagnosticKindModel::ExpectedTuple(display_spec(store, object_ty)))]
                } else {
                    Seq::empty()
                },
            ),
        },
    }
}

/// Checks the tuple index `index` on an object of type `object_ty`, whose
/// type is the struct `root` (`None` when it names no struct): reports what
/// `tuple_index_spec` reports and gives the member and the element's type.
pub fn check_tuple_index(
    table: &SymbolTable,
    store: &TypeStore,
    diagnostics: &mut Vec<Diagnostic>,
    root: Option<StructSymbolId>,
    object_ty: TypeId,
    object_loc: Location,
    index: i64,
    index_loc: Location,
) -> (r: Option<(MemberSymbolId, TypeId)>)
    requires
        tuple_index_ok(table@, *store, root, object_ty),
    ensures
        r == tuple_index_spec(table@, *store, root, object_ty, object_loc, index, index_loc).0,
        diagnostics_view(final(diagnostics)@) == diagnostics_view(old(diagnostics)@) + tuple_index_spec(
            table@,
            *store,
            root,
            object_ty,
            object_loc,
            index,
            index_loc,
        ).1,
{
    let ghost d0 = diagnostics_view(diagnostics@);
    let s = match root {
        None => {
            push_error(diagnostics, DiagnosticKind::UnknownMember { member: int_to_string(index) }, index_loc);
            assert(diagnostics_view(diagnostics@) =~= d0 + tuple_index_spec(table@, *store, root, object_ty, object_loc, index, index_loc).1);
            return None;
        },
        Some(s) => s,
    };
    let elements = match store.get(object_ty) {
        Type::Tuple(t) => &t.elements,
        _ => {
            if object_ty != UNKNOWN {
                let got = display_type(store, object_ty);
                push_error(diagnostics, DiagnosticKind::ExpectedTuple { got }, object_loc);
            }
            assert(diagnostics_view(diagnostics@) =~= d0 + tuple_index_spec(table@, *store, root, object_ty, object_loc, index, index_loc).1);
            return None;
        },
    };
    let members = match &table.get(s).body {
        TypeSymbolBody::Tuple(e) => e,
        TypeSymbolBody::Struct(_) => {
            return None;
        },
    };
    if index < 0 {
        push_error(diagnostics, DiagnosticKind::NegativeTupleIndex, index_loc);
        assert(diagnostics_view(diagnostics@) =~= d0 + tuple_index_spec(table@, *store, root, object_ty, object_loc, index, index_loc).1);
        return None;
    }
    if index as u64 >= members.len() as u64 {
        push_error(diagnostics, DiagnosticKind::UnknownMember { member: int_to_string(index) }, index_loc);
        assert(diagnostics_view(diagnostics@) =~= d0 + tuple_index_spec(table@, *store, root, object_ty, object_loc, index, index_loc).1);
        return None;
    }
    let i = index as usize;
    assert(diagnostics_view(diagnostics@) =~= d0 + tuple_index_spec(table@, *store, root, object_ty, object_loc, index, index_loc).1);
    Some((members[i], elements[i]))
}

} // verus!
