use vstd::prelude::*;

use crate::calls::copy_strings;
use crate::diagnostics::{diagnostics_view, Diagnostic, DiagnosticKind, DiagnosticKindModel, DiagnosticLevel, DiagnosticModel};
use crate::locations::Location;
use crate::operators::error_at;
use crate::symbols::{
    EnumSymbol, EnumSymbolId, MethodReceiverKind, MethodSymbol, MethodSymbolId, PrimitiveTypeSymbol,
    PrimitiveTypeSymbolId, StructSymbol, StructSymbolId, SubstitutionTable, SymbolAccessManager, SymbolTable,
    SymbolIndex, SymbolTableModel, TypeSymbolBody, TypeSymbolId,
};
use crate::type_store::TypeStore;
use crate::types::{string_eq, FunctionType, Type, TypeId, TypeModel};

verus! {

/// Whether `owner` names a symbol of table `m`.
pub open spec fn owner_exists(m: SymbolTableModel, owner: TypeSymbolId) -> bool {
    match owner {
        TypeSymbolId::Struct(s) => s.0 < m.structs.len(),
        TypeSymbolId::Enum(e) => e.0 < m.enums.len(),
        TypeSymbolId::Primitive(p) => p.0 < m.primitives.len(),
    }
}

/// Whether the type `owner` has a named field called `name`: only structs
/// with named fields have fields.
pub open spec fn owner_has_field(m: SymbolTableModel, owner: TypeSymbolId, name: Seq<char>) -> bool {
    match owner {
        TypeSymbolId::Struct(s) => match m.structs[s.0 as int].body {
            TypeSymbolBody::Struct(f) => exists|i: int| 0 <= i < f@.len() && (#[trigger] f@[i]).0@ == name,
            TypeSymbolBody::Tuple(_) => false,
        },
        _ => false,
    }
}

/// `b` is the struct `a` with `id` appended to its methods.
pub open spec fn struct_with_method(a: StructSymbol, b: StructSymbol, id: MethodSymbolId) -> bool {
    &&& b.methods@ == a.methods@.push(id)
    &&& b.name == a.name && b.body == a.body && b.ty == a.ty && b.docs == a.docs
    &&& b.defined_at == a.defined_at && b.access == a.access
}

/// `b` is the enum `a` with `id` appended to its methods.
pub open spec fn enum_with_method(a: EnumSymbol, b: EnumSymbol, id: MethodSymbolId) -> bool {
    &&& b.methods@ == a.methods@.push(id)
    &&& b.name == a.name && b.variants == a.variants && b.ty == a.ty && b.docs == a.docs
    &&& b.defined_at == a.defined_at && b.access == a.access
}

/// `b` is the primitive type `a` with `id` appended to its methods.
pub open spec fn primitive_with_method(a: PrimitiveTypeSymbol, b: PrimitiveTypeSymbol, id: MethodSymbolId) -> bool {
    &&& b.methods@ == a.methods@.push(id)
    &&& b.name == a.name && b.ty == a.ty && b.docs == a.docs
    &&& b.defined_at == a.defined_at && b.access == a.access
}

/// `b` has the length of `a` and the same entries but, possibly, entry `i`.
pub open spec fn only_entry_changed<T>(a: Seq<T>, b: Seq<T>, i: int) -> bool {
    &&& b.len() == a.len()
    &&& forall|k: int| 0 <= k < a.len() && k != i ==> b[k] == a[k]
}

/// Table `new` is `old` with the method `id` attached to `owner`: the
/// owner's method list gains `id`, and every other symbol but the methods
/// stays as it was.
pub open spec fn method_attached(old: SymbolTableModel, new: SymbolTableModel, owner: TypeSymbolId, id: MethodSymbolId) -> bool {
    &&& new.variables == old.variables
    &&& new.functions == old.functions
    &&& new.variants == old.variants
    &&& new.aliases == old.aliases
    &&& new.members == old.members
    &&& match owner {
        TypeSymbolId::Struct(s) => {
            &&& new.enums == old.enums && new.primitives == old.primitives
            &&& only_entry_changed(old.structs, new.structs, s.0 as int)
            &&& struct_with_method(old.structs[s.0 as int], new.structs[s.0 as int], id)
        },
        TypeSymbolId::Enum(e) => {
            &&& new.structs == old.structs && new.primitives == old.primitives
            &&& only_entry_changed(old.enums, new.enums, e.0 as int)
            &&& enum_with_method(old.enums[e.0 as int], new.enums[e.0 as int], id)
        },
        TypeSymbolId::Primitive(p) => {
            &&& new.structs == old.structs && new.enums == old.enums
            &&& only_entry_changed(old.primitives, new.primitives, p.0 as int)
            &&& primitive_with_method(old.primitives[p.0 as int], new.primitives[p.0 as int], id)
        },
    }
}

/// The model of the type of a method with type parameters `type_params`,
/// parameter types `params` and return type `ret`.
pub open spec fn method_type_model(type_params: Seq<TypeId>, params: Seq<TypeId>, ret: TypeId) -> TypeModel {
    TypeModel::Function(type_params, params, ret)
}

/// Whether `owner` has a named field called `name`.
fn has_field(table: &SymbolTable, owner: TypeSymbolId, name: &String) -> (r: bool)
    requires
        owner_exists(table@, owner),
    ensures
        r == owner_has_field(table@, owner, name@),
{
    match owner {
        TypeSymbolId::Struct(s) => match &table.get(s).body {
            TypeSymbolBody::Struct(fields) => {
                let mut i: usize = 0;
                while i < fields.len()
                    invariant
                        i <= fields@.len(),
                        owner == TypeSymbolId::Struct(s),
                        s.0 < table@.structs.len(),
                        table@.structs[s.0 as int].body == TypeSymbolBody::Struct(*fields),
                        forall|k: int| 0 <= k < i ==> (#[trigger] fields@[k]).0@ != name@,
                    decreases fields@.len() - i,
                {
                    if string_eq(&fields[i].0, name) {
                        assert(fields@[i as int].0@ == name@);
                        assert(exists|k: int| 0 <= k < fields@.len() && (#[trigger] fields@[k]).0@ == name@);
                        assert(table@.structs[s.0 as int].body matches TypeSymbolBody::Struct(f) && f@ == fields@);
                        assert(owner_has_field(table@, owner, name@));
                        return true;
                    }
                    i = i + 1;
                }
                false
            },
            TypeSymbolBody::Tuple(_) => false,
        },
        _ => false,
    }
}

/// Defines the method `name` (at `name_loc`, with `docs`) of the type
/// `owner`, whose implementation fixes the type arguments `owner_args`: the
/// method's function type is interned; a method named like a field of its
/// type is reported and not defined; otherwise the method symbol, with a
/// mutable or immutable receiver, is added to the table and attached to its
/// owner, and its id comes back.
pub fn check_method_definition(
    table: &mut SymbolTable,
    store: &mut TypeStore,
    diagnostics: &mut Vec<Diagnostic>,
    owner: TypeSymbolId,
    owner_args: SubstitutionTable,
    mutable_receiver: bool,
    type_params: Vec<TypeId>,
    param_types: Vec<TypeId>,
    param_names: &Vec<String>,
    return_type: TypeId,
    name: String,
    name_loc: Location,
    docs: Option<String>,
) -> (r: Option<MethodSymbolId>)
    requires
        old(store).wf(),
        owner_exists(old(table)@, owner),
        old(table)@.methods.len() < usize::MAX,
    ensures
        final(store).wf(),
        old(store).after_add(method_type_model(type_params@, param_types@, return_type), *final(store)),
        owner_has_field(old(table)@, owner, name@) ==> {
            &&& r is None
            &&& final(table)@ == old(table)@
            &&& diagnostics_view(final(diagnostics)@) == diagnostics_view(old(diagnostics)@).push(
                error_at(name_loc, DiagnosticKindModel::DuplicateFieldName(name@)),
            )
        },
        !owner_has_field(old(table)@, owner, name@) ==> (r matches Some(id) && {
            let m = final(table)@.methods[id.0 as int];
            &&& id.0 == old(table)@.methods.len()
            &&& final(table)@.methods.len() == old(table)@.methods.len() + 1
            &&& final(table)@.methods.drop_last() == old(table)@.methods
            &&& m.name@ == name@
            &&& m.owner == owner
            &&& m.owner_args.entries@ == owner_args.entries@
            &&& m.receiver == (if mutable_receiver { MethodReceiverKind::Mutable } else { MethodReceiverKind::Immutable })
            &&& m.param_names@.len() == param_names@.len()
            &&& forall|k: int| 0 <= k < param_names@.len() ==> (#[trigger] m.param_names@[k])@ == param_names@[k]@
            &&& final(store).lookup(method_type_model(type_params@, param_types@, return_type)) == Some(m.ty)
            &&& m.docs == docs
            &&& m.defined_at == name_loc
            &&& m.access.uses_view() == Seq::<Location>::empty()
            &&& method_attached(old(table)@, final(table)@, owner, id)
            &&& diagnostics_view(final(diagnostics)@) == diagnostics_view(old(diagnostics)@)
        }),
{
    let function = Type::Function(FunctionType { type_params, params: param_types, return_type });
    assert(function@ == method_type_model(type_params@, param_types@, return_type));
    let ty = store.add(function);
    if has_field(table, owner, &name) {
        let ghost d0 = diagnostics_view(diagnostics@);
        diagnostics.push(Diagnostic {
            level: DiagnosticLevel::Error,
            loc: name_loc,
            kind: DiagnosticKind::DuplicateFieldName { name },
        });
        assert(diagnostics_view(diagnostics@) =~= d0.push(error_at(name_loc, DiagnosticKindModel::DuplicateFieldName(name@))));
        return None;
    }
    let access = SymbolAccessManager::new();
    proof {
        assert(access.uses_view() =~= Seq::<Location>::empty());
    }
    let method = MethodSymbol {
        name,
        owner,
        owner_args,
        receiver: if mutable_receiver { MethodReceiverKind::Mutable } else { MethodReceiverKind::Immutable },
        param_names: copy_strings(param_names),
        ty,
        docs,
        defined_at: name_loc,
        access,
    };
    let ghost t0 = table@;
    let id: MethodSymbolId = table.insert(method);
    proof {
        MethodSymbolId::lemma_with_arena(t0, t0.methods.push(method));
        assert(table@.methods.drop_last() =~= t0.methods);
    }
    let ghost t1 = table@;
    match owner {
        TypeSymbolId::Struct(s) => {
            let st = table.get_mut(s);
            st.methods.push(id);
        },
        TypeSymbolId::Enum(e) => {
            let en = table.get_mut(e);
            en.methods.push(id);
        },
        TypeSymbolId::Primitive(p) => {
            let pr = table.get_mut(p);
            pr.methods.push(id);
        },
    }
    assert(table@.methods == t1.methods);
    Some(id)
}

} // verus!
