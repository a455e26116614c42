use vstd::prelude::*;

use crate::locations::Location;
use crate::types::TypeId;

verus! {

/// The body of a struct or of an enum variant: named or positional members.
#[derive(Clone, Debug)]
pub enum TypeSymbolBody {
    Struct(Vec<(String, MemberSymbolId)>),
    Tuple(Vec<MemberSymbolId>),
}

/// How a method receives its object.
#[derive(Clone, Copy, Debug, PartialEq, Eq, Structural)]
pub enum MethodReceiverKind {
    Static,
    Immutable,
    Mutable,
}

impl MethodReceiverKind {
    pub fn is_static(&self) -> (r: bool)
        ensures
            r == (*self is Static),
    {
        match self {
            MethodReceiverKind::Static => true,
            _ => false,
        }
    }

    pub fn is_mutable(&self) -> (r: bool)
        ensures
            r == (*self is Mutable),
    {
        match self {
            MethodReceiverKind::Mutable => true,
            _ => false,
        }
    }
}

/// Type arguments given to a generic owner: pairs of (parameter, argument).
#[derive(Clone, Debug)]
pub struct SubstitutionTable {
    pub entries: Vec<(TypeId, TypeId)>,
}

impl SubstitutionTable {
    /// The number of substitutions.
    pub fn len(&self) -> (r: usize)
        ensures
            r == self.entries@.len(),
    {
        self.entries.len()
    }

    /// Whether two tables hold the same substitutions, in the same order.
    pub fn same_as(&self, other: &SubstitutionTable) -> (r: bool)
        ensures
            r == (self.entries@ == other.entries@),
    {
        if self.entries.len() != other.entries.len() {
            return false;
        }
        let mut i: usize = 0;
        while i < self.entries.len()
            invariant
                i <= self.entries@.len(),
                self.entries@.len() == other.entries@.len(),
                forall|k: int| 0 <= k < i ==> self.entries@[k] == other.entries@[k],
            decreases self.entries@.len() - i,
        {
            if self.entries[i].0 != other.entries[i].0 || self.entries[i].1 != other.entries[i].1 {
                return false;
            }
            i = i + 1;
        }
        assert(self.entries@ =~= other.entries@);
        true
    }
}
#[derive(Clone, Copy, Debug, PartialEq, Eq, Hash, Structural)]
pub struct VariableSymbolId(pub usize);
#[derive(Clone, Copy, Debug, PartialEq, Eq, Hash, Structural)]
pub struct FunctionSymbolId(pub usize);
#[derive(Clone, Copy, Debug, PartialEq, Eq, Hash, Structural)]
pub struct StructSymbolId(pub usize);
#[derive(Clone, Copy, Debug, PartialEq, Eq, Hash, Structural)]
pub struct EnumSymbolId(pub usize);
#[derive(Clone, Copy, Debug, PartialEq, Eq, Hash, Structural)]
pub struct VariantSymbolId(pub usize);
#[derive(Clone, Copy, Debug, PartialEq, Eq, Hash, Structural)]
pub struct PrimitiveTypeSymbolId(pub usize);
#[derive(Clone, Copy, Debug, PartialEq, Eq, Hash, Structural)]
pub struct TypeAliasSymbolId(pub usize);
#[derive(Clone, Copy, Debug, PartialEq, Eq, Hash, Structural)]
pub struct MethodSymbolId(pub usize);
#[derive(Clone, Copy, Debug, PartialEq, Eq, Hash, Structural)]
pub struct MemberSymbolId(pub usize);
/// The id of any symbol.
#[derive(Clone, Copy, Debug, PartialEq, Eq, Hash, Structural)]
pub enum SymbolId {
    Variable(VariableSymbolId),
    Function(FunctionSymbolId),
    Struct(StructSymbolId),
    Enum(EnumSymbolId),
    Variant(VariantSymbolId),
    Primitive(PrimitiveTypeSymbolId),
    TypeAlias(TypeAliasSymbolId),
    Method(MethodSymbolId),
    Member(MemberSymbolId),
}

/// The id of a symbol that names a type with methods.
#[derive(Clone, Copy, Debug, PartialEq, Eq, Hash, Structural)]
pub enum TypeSymbolId {
    Struct(StructSymbolId),
    Enum(EnumSymbolId),
    Primitive(PrimitiveTypeSymbolId),
}

impl SymbolId {
    /// The type-symbol id behind a struct or enum symbol id.
    pub fn as_type_symbol_id(self) -> (r: Option<TypeSymbolId>)
        ensures
            r == match self {
                SymbolId::Enum(s) => Some(TypeSymbolId::Enum(s)),
                SymbolId::Struct(s) => Some(TypeSymbolId::Struct(s)),
                _ => None::<TypeSymbolId>,
            },
    {
        match self {
            SymbolId::Enum(s) => Some(TypeSymbolId::Enum(s)),
            SymbolId::Struct(s) => Some(TypeSymbolId::Struct(s)),
            _ => None,
        }
    }

    /// An id that no table hands out.
    pub fn dummy() -> (r: Self)
        ensures
            r == SymbolId::Variable(VariableSymbolId(usize::MAX)),
    {
        SymbolId::Variable(VariableSymbolId(usize::MAX))
    }

    pub fn as_variable(self) -> (r: Option<VariableSymbolId>)
        ensures
            r == match self {
                SymbolId::Variable(s) => Some(s),
                _ => None::<VariableSymbolId>,
            },
    {
        match self {
            SymbolId::Variable(s) => Some(s),
            _ => None,
        }
    }

    pub fn as_variant(self) -> (r: Option<VariantSymbolId>)
        ensures
            r == match self {
                SymbolId::Variant(s) => Some(s),
                _ => None::<VariantSymbolId>,
            },
    {
        match self {
            SymbolId::Variant(s) => Some(s),
            _ => None,
        }
    }

    pub fn as_member(self) -> (r: Option<MemberSymbolId>)
        ensures
            r == match self {
                SymbolId::Member(s) => Some(s),
                _ => None::<MemberSymbolId>,
            },
    {
        match self {
            SymbolId::Member(s) => Some(s),
            _ => None,
        }
    }
}

impl From<TypeSymbolId> for SymbolId {
    fn from(value: TypeSymbolId) -> (r: Self) {
        match value {
            TypeSymbolId::Enum(t) => SymbolId::Enum(t),
            TypeSymbolId::Struct(t) => SymbolId::Struct(t),
            TypeSymbolId::Primitive(t) => SymbolId::Primitive(t),
        }
    }
}

impl vstd::std_specs::convert::FromSpecImpl<TypeSymbolId> for SymbolId {
    open spec fn obeys_from_spec() -> bool {
        true
    }

    open spec fn from_spec(value: TypeSymbolId) -> Self {
        match value {
            TypeSymbolId::Enum(t) => SymbolId::Enum(t),
            TypeSymbolId::Struct(t) => SymbolId::Struct(t),
            TypeSymbolId::Primitive(t) => SymbolId::Primitive(t),
        }
    }
}

impl From<VariableSymbolId> for SymbolId {
    fn from(value: VariableSymbolId) -> (r: Self) {
        SymbolId::Variable(value)
    }
}

impl vstd::std_specs::convert::FromSpecImpl<VariableSymbolId> for SymbolId {
    open spec fn obeys_from_spec() -> bool {
        true
    }

    open spec fn from_spec(value: VariableSymbolId) -> Self {
        SymbolId::Variable(value)
    }
}

impl From<FunctionSymbolId> for SymbolId {
    fn from(value: FunctionSymbolId) -> (r: Self) {
        SymbolId::Function(value)
    }
}

impl vstd::std_specs::convert::FromSpecImpl<FunctionSymbolId> for SymbolId {
    open spec fn obeys_from_spec() -> bool {
        true
    }

    open spec fn from_spec(value: FunctionSymbolId) -> Self {
        SymbolId::Function(value)
    }
}

impl From<StructSymbolId> for SymbolId {
    fn from(value: StructSymbolId) -> (r: Self) {
        SymbolId::Struct(value)
    }
}

impl vstd::std_specs::convert::FromSpecImpl<StructSymbolId> for SymbolId {
    open spec fn obeys_from_spec() -> bool {
        true
    }

    open spec fn from_spec(value: StructSymbolId) -> Self {
        SymbolId::Struct(value)
    }
}

impl From<EnumSymbolId> for SymbolId {
    fn from(value: EnumSymbolId) -> (r: Self) {
        SymbolId::Enum(value)
    }
}

impl vstd::std_specs::convert::FromSpecImpl<EnumSymbolId> for SymbolId {
    open spec fn obeys_from_spec() -> bool {
        true
    }

    open spec fn from_spec(value: EnumSymbolId) -> Self {
        SymbolId::Enum(value)
    }
}

impl From<VariantSymbolId> for SymbolId {
    fn from(value: VariantSymbolId) -> (r: Self) {
        SymbolId::Variant(value)
    }
}

impl vstd::std_specs::convert::FromSpecImpl<VariantSymbolId> for SymbolId {
    open spec fn obeys_from_spec() -> bool {
        true
    }

    open spec fn from_spec(value: VariantSymbolId) -> Self {
        SymbolId::Variant(value)
    }
}

impl From<PrimitiveTypeSymbolId> for SymbolId {
    fn from(value: PrimitiveTypeSymbolId) -> (r: Self) {
        SymbolId::Primitive(value)
    }
}

impl vstd::std_specs::convert::FromSpecImpl<PrimitiveTypeSymbolId> for SymbolId {
    open spec fn obeys_from_spec() -> bool {
        true
    }

    open spec fn from_spec(value: PrimitiveTypeSymbolId) -> Self {
        SymbolId::Primitive(value)
    }
}

impl From<TypeAliasSymbolId> for SymbolId {
    fn from(value: TypeAliasSymbolId) -> (r: Self) {
        SymbolId::TypeAlias(value)
    }
}

impl vstd::std_specs::convert::FromSpecImpl<TypeAliasSymbolId> for SymbolId {
    open spec fn obeys_from_spec() -> bool {
        true
    }

    open spec fn from_spec(value: TypeAliasSymbolId) -> Self {
        SymbolId::TypeAlias(value)
    }
}

impl From<MethodSymbolId> for SymbolId {
    fn from(value: MethodSymbolId) -> (r: Self) {
        SymbolId::Method(value)
    }
}

impl vstd::std_specs::convert::FromSpecImpl<MethodSymbolId> for SymbolId {
    open spec fn obeys_from_spec() -> bool {
        true
    }

    open spec fn from_spec(value: MethodSymbolId) -> Self {
        SymbolId::Method(value)
    }
}

impl From<MemberSymbolId> for SymbolId {
    fn from(value: MemberSymbolId) -> (r: Self) {
        SymbolId::Member(value)
    }
}

impl vstd::std_specs::convert::FromSpecImpl<MemberSymbolId> for SymbolId {
    open spec fn obeys_from_spec() -> bool {
        true
    }

    open spec fn from_spec(value: MemberSymbolId) -> Self {
        SymbolId::Member(value)
    }
}

impl From<StructSymbolId> for TypeSymbolId {
    fn from(value: StructSymbolId) -> (r: Self) {
        TypeSymbolId::Struct(value)
    }
}

impl vstd::std_specs::convert::FromSpecImpl<StructSymbolId> for TypeSymbolId {
    open spec fn obeys_from_spec() -> bool {
        true
    }

    open spec fn from_spec(value: StructSymbolId) -> Self {
        TypeSymbolId::Struct(value)
    }
}

impl From<EnumSymbolId> for TypeSymbolId {
    fn from(value: EnumSymbolId) -> (r: Self) {
        TypeSymbolId::Enum(value)
    }
}

impl vstd::std_specs::convert::FromSpecImpl<EnumSymbolId> for TypeSymbolId {
    open spec fn obeys_from_spec() -> bool {
        true
    }

    open spec fn from_spec(value: EnumSymbolId) -> Self {
        TypeSymbolId::Enum(value)
    }
}

impl From<PrimitiveTypeSymbolId> for TypeSymbolId {
    fn from(value: PrimitiveTypeSymbolId) -> (r: Self) {
        TypeSymbolId::Primitive(value)
    }
}

impl vstd::std_specs::convert::FromSpecImpl<PrimitiveTypeSymbolId> for TypeSymbolId {
    open spec fn obeys_from_spec() -> bool {
        true
    }

    open spec fn from_spec(value: PrimitiveTypeSymbolId) -> Self {
        TypeSymbolId::Primitive(value)
    }
}

/// A variable.
#[derive(Clone, Debug)]
pub struct VariableSymbol {
    pub name: String,
    pub mutable: bool,
    pub ty: TypeId,
    pub docs: Option<String>,
    pub defined_at: Location,
    pub access: SymbolAccessManager,
    pub dependencies: Vec<VariableSymbolId>,
}

/// A function name; its type is a function type.
#[derive(Clone, Debug)]
pub struct FunctionSymbol {
    pub name: String,
    pub param_names: Vec<String>,
    pub ty: TypeId,
    pub docs: Option<String>,
    pub defined_at: Location,
    pub access: SymbolAccessManager,
}

/// A struct definition.
#[derive(Clone, Debug)]
pub struct StructSymbol {
    pub name: String,
    pub body: TypeSymbolBody,
    pub methods: Vec<MethodSymbolId>,
    pub ty: TypeId,
    pub docs: Option<String>,
    pub defined_at: Location,
    pub access: SymbolAccessManager,
}

/// An enum definition; its variants are `VariantSymbol`s.
#[derive(Clone, Debug)]
pub struct EnumSymbol {
    pub name: String,
    pub variants: Vec<VariantSymbolId>,
    pub methods: Vec<MethodSymbolId>,
    pub ty: TypeId,
    pub docs: Option<String>,
    pub defined_at: Location,
    pub access: SymbolAccessManager,
}

/// An enum variant, owned by an enum symbol.
#[derive(Clone, Debug)]
pub struct VariantSymbol {
    pub name: String,
    pub owner: EnumSymbolId,
    pub body: Option<TypeSymbolBody>,
    pub ty: TypeId,
    pub docs: Option<String>,
    pub defined_at: Location,
    pub access: SymbolAccessManager,
}

/// A built-in type.
#[derive(Clone, Debug)]
pub struct PrimitiveTypeSymbol {
    pub name: String,
    pub methods: Vec<MethodSymbolId>,
    pub ty: TypeId,
    pub docs: Option<String>,
    pub defined_at: Location,
    pub access: SymbolAccessManager,
}

/// A type alias.
#[derive(Clone, Debug)]
pub struct TypeAliasSymbol {
    pub name: String,
    pub ty: TypeId,
    pub docs: Option<String>,
    pub defined_at: Location,
    pub access: SymbolAccessManager,
}

/// A method of a type; `owner_args` are the type arguments on the receiver.
#[derive(Clone, Debug)]
pub struct MethodSymbol {
    pub name: String,
    pub owner: TypeSymbolId,
    pub owner_args: SubstitutionTable,
    pub receiver: MethodReceiverKind,
    pub param_names: Vec<String>,
    pub ty: TypeId,
    pub docs: Option<String>,
    pub defined_at: Location,
    pub access: SymbolAccessManager,
}

impl Default for TypeSymbolId {
    fn default() -> (r: Self)
        ensures
            r == TypeSymbolId::Struct(StructSymbolId(0)),
    {
        TypeSymbolId::Struct(StructSymbolId(0))
    }
}

impl Default for MethodSymbol {
    /// An unnamed static method of the first struct, with no parameters.
    fn default() -> (r: Self)
        ensures
            r.name@ == Seq::<char>::empty(),
            r.owner == TypeSymbolId::Struct(StructSymbolId(0)),
            r.owner_args.entries@ == Seq::<(TypeId, TypeId)>::empty(),
            r.receiver == MethodReceiverKind::Static,
            r.param_names@ == Seq::<String>::empty(),
            r.ty == 0,
            r.docs is None,
            r.defined_at == Location::dummy_spec(),
            r.access.uses_view() == Seq::<Location>::empty(),
    {
        let access = SymbolAccessManager::new();
        proof {
            assert(access.uses_view() =~= Seq::<Location>::empty());
        }
        MethodSymbol {
            name: String::new(),
            owner: TypeSymbolId::default(),
            owner_args: SubstitutionTable { entries: Vec::new() },
            receiver: MethodReceiverKind::Static,
            param_names: Vec::new(),
            ty: 0,
            docs: None,
            defined_at: Location::dummy(),
            access,
        }
    }
}

/// A symbol that names a type: an enum or a struct.
#[derive(Clone, Debug)]
pub enum TypeSymbol {
    Enum(EnumSymbol),
    Struct(StructSymbol),
}

impl From<EnumSymbol> for TypeSymbol {
    fn from(value: EnumSymbol) -> (r: Self) {
        TypeSymbol::Enum(value)
    }
}

impl vstd::std_specs::convert::FromSpecImpl<EnumSymbol> for TypeSymbol {
    open spec fn obeys_from_spec() -> bool {
        true
    }

    open spec fn from_spec(value: EnumSymbol) -> Self {
        TypeSymbol::Enum(value)
    }
}

impl From<StructSymbol> for TypeSymbol {
    fn from(value: StructSymbol) -> (r: Self) {
        TypeSymbol::Struct(value)
    }
}

impl vstd::std_specs::convert::FromSpecImpl<StructSymbol> for TypeSymbol {
    open spec fn obeys_from_spec() -> bool {
        true
    }

    open spec fn from_spec(value: StructSymbol) -> Self {
        TypeSymbol::Struct(value)
    }
}

/// A member of a struct or variant, owned by its type.
#[derive(Clone, Debug)]
pub struct MemberSymbol {
    pub name: String,
    pub owner: TypeSymbolId,
    pub ty: TypeId,
    pub docs: Option<String>,
    pub defined_at: Location,
    pub access: SymbolAccessManager,
}

impl MethodSymbol {
    /// How many type arguments the receiver fixes.
    pub fn concreteness(&self) -> (r: usize)
        ensures
            r == self.owner_args.entries@.len(),
    {
        self.owner_args.len()
    }

    /// Whether the receiver's type arguments are exactly `substitutions`.
    pub fn matches_substitutions(&self, substitutions: &SubstitutionTable) -> (r: bool)
        ensures
            r == (self.owner_args.entries@ == substitutions.entries@),
    {
        self.owner_args.same_as(substitutions)
    }

    pub fn is_mutating(&self) -> (r: bool)
        ensures
            r == (self.receiver is Mutable),
    {
        self.receiver.is_mutable()
    }

    pub fn is_static(&self) -> (r: bool)
        ensures
            r == (self.receiver is Static),
    {
        self.receiver.is_static()
    }
}

/// The places where a symbol is read, written and referenced.
#[derive(Clone, Debug)]
pub struct SymbolAccessManager {
    reads: Vec<Location>,
    writes: Vec<Location>,
    references: Vec<Location>,
}

impl SymbolAccessManager {
    pub closed spec fn reads_view(self) -> Seq<Location> {
        self.reads@
    }

    pub closed spec fn writes_view(self) -> Seq<Location> {
        self.writes@
    }

    pub closed spec fn references_view(self) -> Seq<Location> {
        self.references@
    }

    /// All the uses: reads, then writes, then references.
    pub open spec fn uses_view(self) -> Seq<Location> {
        self.reads_view() + self.writes_view() + self.references_view()
    }

    pub fn new() -> (r: Self)
        ensures
            r.reads_view() == Seq::<Location>::empty(),
            r.writes_view() == Seq::<Location>::empty(),
            r.references_view() == Seq::<Location>::empty(),
    {
        SymbolAccessManager { reads: Vec::new(), writes: Vec::new(), references: Vec::new() }
    }

    /// All the places where the symbol is used: reads, then writes, then references.
    pub fn uses(&self) -> (r: Vec<Location>)
        ensures
            r@ == self.uses_view(),
    {
        let mut r: Vec<Location> = Vec::new();
        let mut i: usize = 0;
        while i < self.reads.len()
            invariant
                i <= self.reads@.len(),
                r@ == self.reads@.take(i as int),
            decreases self.reads@.len() - i,
        {
            r.push(self.reads[i]);
            i = i + 1;
            assert(r@ =~= self.reads@.take(i as int));
        }
        assert(self.reads@.take(self.reads@.len() as int) =~= self.reads@);
        let mut i: usize = 0;
        while i < self.writes.len()
            invariant
                i <= self.writes@.len(),
                r@ == self.reads@ + self.writes@.take(i as int),
            decreases self.writes@.len() - i,
        {
            r.push(self.writes[i]);
            i = i + 1;
            assert(r@ =~= self.reads@ + self.writes@.take(i as int));
        }
        assert(self.writes@.take(self.writes@.len() as int) =~= self.writes@);
        let mut i: usize = 0;
        while i < self.references.len()
            invariant
                i <= self.references@.len(),
                r@ == self.reads@ + self.writes@ + self.references@.take(i as int),
            decreases self.references@.len() - i,
        {
            r.push(self.references[i]);
            i = i + 1;
            assert(r@ =~= self.reads@ + self.writes@ + self.references@.take(i as int));
        }
        assert(self.references@.take(self.references@.len() as int) =~= self.references@);
        r
    }

    /// Records a read at `at`.
    pub fn read(&mut self, at: Location)
        ensures
            final(self).reads_view() == old(self).reads_view().push(at),
            final(self).writes_view() == old(self).writes_view(),
            final(self).references_view() == old(self).references_view(),
    {
        self.reads.push(at);
    }

    /// Records a write at `at`.
    pub fn write(&mut self, at: Location)
        ensures
            final(self).reads_view() == old(self).reads_view(),
            final(self).writes_view() == old(self).writes_view().push(at),
            final(self).references_view() == old(self).references_view(),
    {
        self.writes.push(at);
    }

    /// Records a reference at `at`.
    pub fn reference(&mut self, at: Location)
        ensures
            final(self).reads_view() == old(self).reads_view(),
            final(self).writes_view() == old(self).writes_view(),
            final(self).references_view() == old(self).references_view().push(at),
    {
        self.references.push(at);
    }

    /// Turns the reads at `at` into one write at `at`.
    pub fn read_to_write(&mut self, at: Location)
        ensures
            final(self).reads_view() == old(self).reads_view().filter(|l: Location| l != at),
            final(self).writes_view() == old(self).writes_view().push(at),
            final(self).references_view() == old(self).references_view(),
    {
        let mut kept: Vec<Location> = Vec::new();
        let mut i: usize = 0;
        while i < self.reads.len()
            invariant
                i <= self.reads@.len(),
                self.reads@ == old(self).reads@,
                kept@ == self.reads@.take(i as int).filter(|l: Location| l != at),
            decreases self.reads@.len() - i,
        {
            let l = self.reads[i];
            proof {
                reveal_with_fuel(Seq::filter, 1);
                assert(self.reads@.take(i + 1).drop_last() =~= self.reads@.take(i as int));
            }
            if l != at {
                kept.push(l);
            }
            i = i + 1;
        }
        assert(self.reads@.take(self.reads@.len() as int) =~= self.reads@);
        self.reads = kept;
        self.write(at);
    }

    /// Whether any reference was recorded.
    pub fn has_references(&self) -> (r: bool)
        ensures
            r == (self.references_view().len() > 0),
    {
        self.references.len() > 0
    }
}

/// The abstract contents of a symbol table: one sequence per kind of symbol.
pub struct SymbolTableModel {
    pub variables: Seq<VariableSymbol>,
    pub functions: Seq<FunctionSymbol>,
    pub structs: Seq<StructSymbol>,
    pub enums: Seq<EnumSymbol>,
    pub variants: Seq<VariantSymbol>,
    pub primitives: Seq<PrimitiveTypeSymbol>,
    pub aliases: Seq<TypeAliasSymbol>,
    pub methods: Seq<MethodSymbol>,
    pub members: Seq<MemberSymbol>,
}

impl SymbolTableModel {
    /// The arena of kind `k` (in field order, from 0 for variables to 8 for
    /// members) may differ between the two tables; all other arenas are equal.
    pub open spec fn same_except(self, other: SymbolTableModel, k: nat) -> bool {
        &&& (k == 0 || self.variables == other.variables)
        &&& (k == 1 || self.functions == other.functions)
        &&& (k == 2 || self.structs == other.structs)
        &&& (k == 3 || self.enums == other.enums)
        &&& (k == 4 || self.variants == other.variants)
        &&& (k == 5 || self.primitives == other.primitives)
        &&& (k == 6 || self.aliases == other.aliases)
        &&& (k == 7 || self.methods == other.methods)
        &&& (k == 8 || self.members == other.members)
    }
}

/// The arenas of all the symbols of a project, one per kind of symbol.
pub struct SymbolTable {
    variables: Vec<VariableSymbol>,
    functions: Vec<FunctionSymbol>,
    structs: Vec<StructSymbol>,
    enums: Vec<EnumSymbol>,
    variants: Vec<VariantSymbol>,
    primitives: Vec<PrimitiveTypeSymbol>,
    aliases: Vec<TypeAliasSymbol>,
    methods: Vec<MethodSymbol>,
    members: Vec<MemberSymbol>,
}

impl View for SymbolTable {
    type V = SymbolTableModel;

    closed spec fn view(&self) -> SymbolTableModel {
        SymbolTableModel {
            variables: self.variables@,
            functions: self.functions@,
            structs: self.structs@,
            enums: self.enums@,
            variants: self.variants@,
            primitives: self.primitives@,
            aliases: self.aliases@,
            methods: self.methods@,
            members: self.members@,
        }
    }
}

/// Common access to the symbols of every kind.
pub trait Symbol {
    spec fn symbol_name(&self) -> Seq<char>;

    spec fn symbol_type(&self) -> TypeId;

    spec fn symbol_location(&self) -> Location;

    spec fn symbol_docs(&self) -> Option<Seq<char>>;

    spec fn symbol_access(&self) -> SymbolAccessManager;

    fn docs(&self) -> (r: Option<&String>)
        ensures
            r is None <==> self.symbol_docs() is None,
            r matches Some(d) ==> self.symbol_docs() == Some(d@),
    ;

    fn name(&self) -> (r: &str)
        ensures
            r@ == self.symbol_name(),
    ;

    fn ty(&self) -> (r: TypeId)
        ensures
            r == self.symbol_type(),
    ;

    fn defined_at(&self) -> (r: Location)
        ensures
            r == self.symbol_location(),
    ;

    /// Where the symbol is used: reads, writes, then references.
    fn uses(&self) -> (r: Vec<Location>)
        ensures
            r@ == self.symbol_access().uses_view(),
    ;
}

/// Gives the recorded uses of a symbol for update.
pub trait SymbolMut: Symbol + Sized {
    /// The symbol with its uses replaced by `access`, all else kept.
    spec fn with_access(self, access: SymbolAccessManager) -> Self;

    /// The record of the symbol's uses, to be changed in place.
    fn access(&mut self) -> (r: &mut SymbolAccessManager)
        ensures
            *r == old(self).symbol_access(),
            *final(self) == (*old(self)).with_access(*final(r)),
    ;
}

/// The model of optional docs.
pub open spec fn docs_view(d: Option<String>) -> Option<Seq<char>> {
    match d {
        Some(s) => Some(s@),
        None => None,
    }
}

fn docs_ref(d: &Option<String>) -> (r: Option<&String>)
    ensures
        r is None <==> d is None,
        r matches Some(s) ==> d == &Some(*s),
{
    match d {
        Some(s) => Some(s),
        None => None,
    }
}

impl Symbol for VariableSymbol {
    open spec fn symbol_name(&self) -> Seq<char> {
        self.name@
    }

    open spec fn symbol_type(&self) -> TypeId {
        self.ty
    }

    open spec fn symbol_location(&self) -> Location {
        self.defined_at
    }

    open spec fn symbol_docs(&self) -> Option<Seq<char>> {
        docs_view(self.docs)
    }

    open spec fn symbol_access(&self) -> SymbolAccessManager {
        self.access
    }

    fn docs(&self) -> (r: Option<&String>) {
        docs_ref(&self.docs)
    }

    fn name(&self) -> (r: &str) {
        self.name.as_str()
    }

    fn ty(&self) -> (r: TypeId) {
        self.ty
    }

    fn defined_at(&self) -> (r: Location) {
        self.defined_at
    }

    fn uses(&self) -> (r: Vec<Location>) {
        self.access.uses()
    }
}

impl SymbolMut for VariableSymbol {
    open spec fn with_access(self, access: SymbolAccessManager) -> Self {
        VariableSymbol { access, ..self }
    }

    fn access(&mut self) -> (r: &mut SymbolAccessManager) {
        &mut self.access
    }
}

impl Symbol for FunctionSymbol {
    open spec fn symbol_name(&self) -> Seq<char> {
        self.name@
    }

    open spec fn symbol_type(&self) -> TypeId {
        self.ty
    }

    open spec fn symbol_location(&self) -> Location {
        self.defined_at
    }

    open spec fn symbol_docs(&self) -> Option<Seq<char>> {
        docs_view(self.docs)
    }

    open spec fn symbol_access(&self) -> SymbolAccessManager {
        self.access
    }

    fn docs(&self) -> (r: Option<&String>) {
        docs_ref(&self.docs)
    }

    fn name(&self) -> (r: &str) {
        self.name.as_str()
    }

    fn ty(&self) -> (r: TypeId) {
        self.ty
    }

    fn defined_at(&self) -> (r: Location) {
        self.defined_at
    }

    fn uses(&self) -> (r: Vec<Location>) {
        self.access.uses()
    }
}

impl SymbolMut for FunctionSymbol {
    open spec fn with_access(self, access: SymbolAccessManager) -> Self {
        FunctionSymbol { access, ..self }
    }

    fn access(&mut self) -> (r: &mut SymbolAccessManager) {
        &mut self.access
    }
}

impl Symbol for StructSymbol {
    open spec fn symbol_name(&self) -> Seq<char> {
        self.name@
    }

    open spec fn symbol_type(&self) -> TypeId {
        self.ty
    }

    open spec fn symbol_location(&self) -> Location {
        self.defined_at
    }

    open spec fn symbol_docs(&self) -> Option<Seq<char>> {
        docs_view(self.docs)
    }

    open spec fn symbol_access(&self) -> SymbolAccessManager {
        self.access
    }

    fn docs(&self) -> (r: Option<&String>) {
        docs_ref(&self.docs)
    }

    fn name(&self) -> (r: &str) {
        self.name.as_str()
    }

    fn ty(&self) -> (r: TypeId) {
        self.ty
    }

    fn defined_at(&self) -> (r: Location) {
        self.defined_at
    }

    fn uses(&self) -> (r: Vec<Location>) {
        self.access.uses()
    }
}

impl SymbolMut for StructSymbol {
    open spec fn with_access(self, access: SymbolAccessManager) -> Self {
        StructSymbol { access, ..self }
    }

    fn access(&mut self) -> (r: &mut SymbolAccessManager) {
        &mut self.access
    }
}

impl Symbol for EnumSymbol {
    open spec fn symbol_name(&self) -> Seq<char> {
        self.name@
    }

    open spec fn symbol_type(&self) -> TypeId {
        self.ty
    }

    open spec fn symbol_location(&self) -> Location {
        self.defined_at
    }

    open spec fn symbol_docs(&self) -> Option<Seq<char>> {
        docs_view(self.docs)
    }

    open spec fn symbol_access(&self) -> SymbolAccessManager {
        self.access
    }

    fn docs(&self) -> (r: Option<&String>) {
        docs_ref(&self.docs)
    }

    fn name(&self) -> (r: &str) {
        self.name.as_str()
    }

    fn ty(&self) -> (r: TypeId) {
        self.ty
    }

    fn defined_at(&self) -> (r: Location) {
        self.defined_at
    }

    fn uses(&self) -> (r: Vec<Location>) {
        self.access.uses()
    }
}

impl SymbolMut for EnumSymbol {
    open spec fn with_access(self, access: SymbolAccessManager) -> Self {
        EnumSymbol { access, ..self }
    }

    fn access(&mut self) -> (r: &mut SymbolAccessManager) {
        &mut self.access
    }
}

impl Symbol for VariantSymbol {
    open spec fn symbol_name(&self) -> Seq<char> {
        self.name@
    }

    open spec fn symbol_type(&self) -> TypeId {
        self.ty
    }

    open spec fn symbol_location(&self) -> Location {
        self.defined_at
    }

    open spec fn symbol_docs(&self) -> Option<Seq<char>> {
        docs_view(self.docs)
    }

    open spec fn symbol_access(&self) -> SymbolAccessManager {
        self.access
    }

    fn docs(&self) -> (r: Option<&String>) {
        docs_ref(&self.docs)
    }

    fn name(&self) -> (r: &str) {
        self.name.as_str()
    }

    fn ty(&self) -> (r: TypeId) {
        self.ty
    }

    fn defined_at(&self) -> (r: Location) {
        self.defined_at
    }

    fn uses(&self) -> (r: Vec<Location>) {
        self.access.uses()
    }
}

impl SymbolMut for VariantSymbol {
    open spec fn with_access(self, access: SymbolAccessManager) -> Self {
        VariantSymbol { access, ..self }
    }

    fn access(&mut self) -> (r: &mut SymbolAccessManager) {
        &mut self.access
    }
}

impl Symbol for PrimitiveTypeSymbol {
    open spec fn symbol_name(&self) -> Seq<char> {
        self.name@
    }

    open spec fn symbol_type(&self) -> TypeId {
        self.ty
    }

    open spec fn symbol_location(&self) -> Location {
        self.defined_at
    }

    open spec fn symbol_docs(&self) -> Option<Seq<char>> {
        docs_view(self.docs)
    }

    open spec fn symbol_access(&self) -> SymbolAccessManager {
        self.access
    }

    fn docs(&self) -> (r: Option<&String>) {
        docs_ref(&self.docs)
    }

    fn name(&self) -> (r: &str) {
        self.name.as_str()
    }

    fn ty(&self) -> (r: TypeId) {
        self.ty
    }

    fn defined_at(&self) -> (r: Location) {
        self.defined_at
    }

    fn uses(&self) -> (r: Vec<Location>) {
        self.access.uses()
    }
}

impl SymbolMut for PrimitiveTypeSymbol {
    open spec fn with_access(self, access: SymbolAccessManager) -> Self {
        PrimitiveTypeSymbol { access, ..self }
    }

    fn access(&mut self) -> (r: &mut SymbolAccessManager) {
        &mut self.access
    }
}

impl Symbol for TypeAliasSymbol {
    open spec fn symbol_name(&self) -> Seq<char> {
        self.name@
    }

    open spec fn symbol_type(&self) -> TypeId {
        self.ty
    }

    open spec fn symbol_location(&self) -> Location {
        self.defined_at
    }

    open spec fn symbol_docs(&self) -> Option<Seq<char>> {
        docs_view(self.docs)
    }

    open spec fn symbol_access(&self) -> SymbolAccessManager {
        self.access
    }

    fn docs(&self) -> (r: Option<&String>) {
        docs_ref(&self.docs)
    }

    fn name(&self) -> (r: &str) {
        self.name.as_str()
    }

    fn ty(&self) -> (r: TypeId) {
        self.ty
    }

    fn defined_at(&self) -> (r: Location) {
        self.defined_at
    }

    fn uses(&self) -> (r: Vec<Location>) {
        self.access.uses()
    }
}

impl SymbolMut for TypeAliasSymbol {
    open spec fn with_access(self, access: SymbolAccessManager) -> Self {
        TypeAliasSymbol { access, ..self }
    }

    fn access(&mut self) -> (r: &mut SymbolAccessManager) {
        &mut self.access
    }
}

impl Symbol for MethodSymbol {
    open spec fn symbol_name(&self) -> Seq<char> {
        self.name@
    }

    open spec fn symbol_type(&self) -> TypeId {
        self.ty
    }

    open spec fn symbol_location(&self) -> Location {
        self.defined_at
    }

    open spec fn symbol_docs(&self) -> Option<Seq<char>> {
        docs_view(self.docs)
    }

    open spec fn symbol_access(&self) -> SymbolAccessManager {
        self.access
    }

    fn docs(&self) -> (r: Option<&String>) {
        docs_ref(&self.docs)
    }

    fn name(&self) -> (r: &str) {
        self.name.as_str()
    }

    fn ty(&self) -> (r: TypeId) {
        self.ty
    }

    fn defined_at(&self) -> (r: Location) {
        self.defined_at
    }

    fn uses(&self) -> (r: Vec<Location>) {
        self.access.uses()
    }
}

impl SymbolMut for MethodSymbol {
    open spec fn with_access(self, access: SymbolAccessManager) -> Self {
        MethodSymbol { access, ..self }
    }

    fn access(&mut self) -> (r: &mut SymbolAccessManager) {
        &mut self.access
    }
}

impl Symbol for MemberSymbol {
    open spec fn symbol_name(&self) -> Seq<char> {
        self.name@
    }

    open spec fn symbol_type(&self) -> TypeId {
        self.ty
    }

    open spec fn symbol_location(&self) -> Location {
        self.defined_at
    }

    open spec fn symbol_docs(&self) -> Option<Seq<char>> {
        docs_view(self.docs)
    }

    open spec fn symbol_access(&self) -> SymbolAccessManager {
        self.access
    }

    fn docs(&self) -> (r: Option<&String>) {
        docs_ref(&self.docs)
    }

    fn name(&self) -> (r: &str) {
        self.name.as_str()
    }

    fn ty(&self) -> (r: TypeId) {
        self.ty
    }

    fn defined_at(&self) -> (r: Location) {
        self.defined_at
    }

    fn uses(&self) -> (r: Vec<Location>) {
        self.access.uses()
    }
}

impl SymbolMut for MemberSymbol {
    open spec fn with_access(self, access: SymbolAccessManager) -> Self {
        MemberSymbol { access, ..self }
    }

    fn access(&mut self) -> (r: &mut SymbolAccessManager) {
        &mut self.access
    }
}

/// The ids of one kind of symbol, each naming a position in that kind's arena.
pub trait SymbolIndex: Sized + Copy {
    type SymbolKind: Symbol;

    /// This kind's arena in a table's contents.
    spec fn arena_of(m: SymbolTableModel) -> Seq<Self::SymbolKind>;

    /// A table's contents with this kind's arena replaced by `a`.
    spec fn with_arena(m: SymbolTableModel, a: Seq<Self::SymbolKind>) -> SymbolTableModel;

    /// The position this id names.
    spec fn position(&self) -> nat;

    /// The id as an id of any symbol.
    spec fn any_id(&self) -> SymbolId;

    /// The id of any symbol for position `i` of this kind.
    spec fn id_at(i: nat) -> SymbolId;

    proof fn lemma_id_at(id: Self)
        ensures
            id.any_id() == Self::id_at(id.position()),
    ;

    /// Replacing this kind's arena and reading it back gives the new arena.
    proof fn lemma_with_arena(m: SymbolTableModel, a: Seq<Self::SymbolKind>)
        ensures
            Self::arena_of(Self::with_arena(m, a)) == a,
    ;

    /// The number of this kind's arena in a table, in field order.
    spec fn kind() -> nat;

    /// Replacing this kind's arena leaves the other arenas as they were.
    proof fn lemma_with_arena_keeps(m: SymbolTableModel, a: Seq<Self::SymbolKind>)
        ensures
            Self::with_arena(m, a).same_except(m, Self::kind()),
    ;

    /// This kind's arena is the same in two tables that differ only in another kind.
    proof fn lemma_arena_of_same(m1: SymbolTableModel, m2: SymbolTableModel, k: nat)
        requires
            m1.same_except(m2, k),
            k != Self::kind(),
        ensures
            Self::arena_of(m1) == Self::arena_of(m2),
    ;

    fn arena(table: &SymbolTable) -> (r: &Vec<Self::SymbolKind>)
        ensures
            r@ == Self::arena_of(table@),
    ;

    fn arena_mut(table: &mut SymbolTable) -> (r: &mut Vec<Self::SymbolKind>)
        ensures
            r@ == Self::arena_of(old(table)@),
            final(table)@ == Self::with_arena(old(table)@, final(r)@),
    ;

    fn index(&self) -> (r: usize)
        ensures
            r == self.position(),
    ;

    fn from_index(id: usize) -> (r: Self)
        ensures
            r.position() == id,
    ;

    fn symbol_id(self) -> (r: SymbolId)
        ensures
            r == self.any_id(),
    ;
}

impl SymbolIndex for VariableSymbolId {
    type SymbolKind = VariableSymbol;

    open spec fn arena_of(m: SymbolTableModel) -> Seq<VariableSymbol> {
        m.variables
    }

    open spec fn with_arena(m: SymbolTableModel, a: Seq<VariableSymbol>) -> SymbolTableModel {
        SymbolTableModel { variables: a, functions: m.functions, structs: m.structs, enums: m.enums, variants: m.variants, primitives: m.primitives, aliases: m.aliases, methods: m.methods, members: m.members }
    }

    open spec fn position(&self) -> nat {
        self.0 as nat
    }

    open spec fn any_id(&self) -> SymbolId {
        SymbolId::Variable(*self)
    }

    open spec fn id_at(i: nat) -> SymbolId {
        SymbolId::Variable(Self(i as usize))
    }

    proof fn lemma_id_at(id: Self) {
    }

    proof fn lemma_with_arena(m: SymbolTableModel, a: Seq<Self::SymbolKind>) {
    }

    open spec fn kind() -> nat {
        0
    }

    proof fn lemma_with_arena_keeps(m: SymbolTableModel, a: Seq<Self::SymbolKind>) {
    }

    proof fn lemma_arena_of_same(m1: SymbolTableModel, m2: SymbolTableModel, k: nat) {
    }

    fn arena(table: &SymbolTable) -> (r: &Vec<VariableSymbol>) {
        &table.variables
    }

    fn arena_mut(table: &mut SymbolTable) -> (r: &mut Vec<VariableSymbol>) {
        &mut table.variables
    }

    fn index(&self) -> (r: usize) {
        self.0
    }

    fn from_index(id: usize) -> (r: Self) {
        VariableSymbolId(id)
    }

    fn symbol_id(self) -> (r: SymbolId) {
        SymbolId::Variable(self)
    }
}

impl SymbolIndex for FunctionSymbolId {
    type SymbolKind = FunctionSymbol;

    open spec fn arena_of(m: SymbolTableModel) -> Seq<FunctionSymbol> {
        m.functions
    }

    open spec fn with_arena(m: SymbolTableModel, a: Seq<FunctionSymbol>) -> SymbolTableModel {
        SymbolTableModel { functions: a, variables: m.variables, structs: m.structs, enums: m.enums, variants: m.variants, primitives: m.primitives, aliases: m.aliases, methods: m.methods, members: m.members }
    }

    open spec fn position(&self) -> nat {
        self.0 as nat
    }

    open spec fn any_id(&self) -> SymbolId {
        SymbolId::Function(*self)
    }

    open spec fn id_at(i: nat) -> SymbolId {
        SymbolId::Function(Self(i as usize))
    }

    proof fn lemma_id_at(id: Self) {
    }

    proof fn lemma_with_arena(m: SymbolTableModel, a: Seq<Self::SymbolKind>) {
    }

    open spec fn kind() -> nat {
        1
    }

    proof fn lemma_with_arena_keeps(m: SymbolTableModel, a: Seq<Self::SymbolKind>) {
    }

    proof fn lemma_arena_of_same(m1: SymbolTableModel, m2: SymbolTableModel, k: nat) {
    }

    fn arena(table: &SymbolTable) -> (r: &Vec<FunctionSymbol>) {
        &table.functions
    }

    fn arena_mut(table: &mut SymbolTable) -> (r: &mut Vec<FunctionSymbol>) {
        &mut table.functions
    }

    fn index(&self) -> (r: usize) {
        self.0
    }

    fn from_index(id: usize) -> (r: Self) {
        FunctionSymbolId(id)
    }

    fn symbol_id(self) -> (r: SymbolId) {
        SymbolId::Function(self)
    }
}

impl SymbolIndex for StructSymbolId {
    type SymbolKind = StructSymbol;

    open spec fn arena_of(m: SymbolTableModel) -> Seq<StructSymbol> {
        m.structs
    }

    open spec fn with_arena(m: SymbolTableModel, a: Seq<StructSymbol>) -> SymbolTableModel {
        SymbolTableModel { structs: a, variables: m.variables, functions: m.functions, enums: m.enums, variants: m.variants, primitives: m.primitives, aliases: m.aliases, methods: m.methods, members: m.members }
    }

    open spec fn position(&self) -> nat {
        self.0 as nat
    }

    open spec fn any_id(&self) -> SymbolId {
        SymbolId::Struct(*self)
    }

    open spec fn id_at(i: nat) -> SymbolId {
        SymbolId::Struct(Self(i as usize))
    }

    proof fn lemma_id_at(id: Self) {
    }

    proof fn lemma_with_arena(m: SymbolTableModel, a: Seq<Self::SymbolKind>) {
    }

    open spec fn kind() -> nat {
        2
    }

    proof fn lemma_with_arena_keeps(m: SymbolTableModel, a: Seq<Self::SymbolKind>) {
    }

    proof fn lemma_arena_of_same(m1: SymbolTableModel, m2: SymbolTableModel, k: nat) {
    }

    fn arena(table: &SymbolTable) -> (r: &Vec<StructSymbol>) {
        &table.structs
    }

    fn arena_mut(table: &mut SymbolTable) -> (r: &mut Vec<StructSymbol>) {
        &mut table.structs
    }

    fn index(&self) -> (r: usize) {
        self.0
    }

    fn from_index(id: usize) -> (r: Self) {
        StructSymbolId(id)
    }

    fn symbol_id(self) -> (r: SymbolId) {
        SymbolId::Struct(self)
    }
}

impl SymbolIndex for EnumSymbolId {
    type SymbolKind = EnumSymbol;

    open spec fn arena_of(m: SymbolTableModel) -> Seq<EnumSymbol> {
        m.enums
    }

    open spec fn with_arena(m: SymbolTableModel, a: Seq<EnumSymbol>) -> SymbolTableModel {
        SymbolTableModel { enums: a, variables: m.variables, functions: m.functions, structs: m.structs, variants: m.variants, primitives: m.primitives, aliases: m.aliases, methods: m.methods, members: m.members }
    }

    open spec fn position(&self) -> nat {
        self.0 as nat
    }

    open spec fn any_id(&self) -> SymbolId {
        SymbolId::Enum(*self)
    }

    open spec fn id_at(i: nat) -> SymbolId {
        SymbolId::Enum(Self(i as usize))
    }

    proof fn lemma_id_at(id: Self) {
    }

    proof fn lemma_with_arena(m: SymbolTableModel, a: Seq<Self::SymbolKind>) {
    }

    open spec fn kind() -> nat {
        3
    }

    proof fn lemma_with_arena_keeps(m: SymbolTableModel, a: Seq<Self::SymbolKind>) {
    }

    proof fn lemma_arena_of_same(m1: SymbolTableModel, m2: SymbolTableModel, k: nat) {
    }

    fn arena(table: &SymbolTable) -> (r: &Vec<EnumSymbol>) {
        &table.enums
    }

    fn arena_mut(table: &mut SymbolTable) -> (r: &mut Vec<EnumSymbol>) {
        &mut table.enums
    }

    fn index(&self) -> (r: usize) {
        self.0
    }

    fn from_index(id: usize) -> (r: Self) {
        EnumSymbolId(id)
    }

    fn symbol_id(self) -> (r: SymbolId) {
        SymbolId::Enum(self)
    }
}

impl SymbolIndex for VariantSymbolId {
    type SymbolKind = VariantSymbol;

    open spec fn arena_of(m: SymbolTableModel) -> Seq<VariantSymbol> {
        m.variants
    }

    open spec fn with_arena(m: SymbolTableModel, a: Seq<VariantSymbol>) -> SymbolTableModel {
        SymbolTableModel { variants: a, variables: m.variables, functions: m.functions, structs: m.structs, enums: m.enums, primitives: m.primitives, aliases: m.aliases, methods: m.methods, members: m.members }
    }

    open spec fn position(&self) -> nat {
        self.0 as nat
    }

    open spec fn any_id(&self) -> SymbolId {
        SymbolId::Variant(*self)
    }

    open spec fn id_at(i: nat) -> SymbolId {
        SymbolId::Variant(Self(i as usize))
    }

    proof fn lemma_id_at(id: Self) {
    }

    proof fn lemma_with_arena(m: SymbolTableModel, a: Seq<Self::SymbolKind>) {
    }

    open spec fn kind() -> nat {
        4
    }

    proof fn lemma_with_arena_keeps(m: SymbolTableModel, a: Seq<Self::SymbolKind>) {
    }

    proof fn lemma_arena_of_same(m1: SymbolTableModel, m2: SymbolTableModel, k: nat) {
    }

    fn arena(table: &SymbolTable) -> (r: &Vec<VariantSymbol>) {
        &table.variants
    }

    fn arena_mut(table: &mut SymbolTable) -> (r: &mut Vec<VariantSymbol>) {
        &mut table.variants
    }

    fn index(&self) -> (r: usize) {
        self.0
    }

    fn from_index(id: usize) -> (r: Self) {
        VariantSymbolId(id)
    }

    fn symbol_id(self) -> (r: SymbolId) {
        SymbolId::Variant(self)
    }
}

impl SymbolIndex for PrimitiveTypeSymbolId {
    type SymbolKind = PrimitiveTypeSymbol;

    open spec fn arena_of(m: SymbolTableModel) -> Seq<PrimitiveTypeSymbol> {
        m.primitives
    }

    open spec fn with_arena(m: SymbolTableModel, a: Seq<PrimitiveTypeSymbol>) -> SymbolTableModel {
        SymbolTableModel { primitives: a, variables: m.variables, functions: m.functions, structs: m.structs, enums: m.enums, variants: m.variants, aliases: m.aliases, methods: m.methods, members: m.members }
    }

    open spec fn position(&self) -> nat {
        self.0 as nat
    }

    open spec fn any_id(&self) -> SymbolId {
        SymbolId::Primitive(*self)
    }

    open spec fn id_at(i: nat) -> SymbolId {
        SymbolId::Primitive(Self(i as usize))
    }

    proof fn lemma_id_at(id: Self) {
    }

    proof fn lemma_with_arena(m: SymbolTableModel, a: Seq<Self::SymbolKind>) {
    }

    open spec fn kind() -> nat {
        5
    }

    proof fn lemma_with_arena_keeps(m: SymbolTableModel, a: Seq<Self::SymbolKind>) {
    }

    proof fn lemma_arena_of_same(m1: SymbolTableModel, m2: SymbolTableModel, k: nat) {
    }

    fn arena(table: &SymbolTable) -> (r: &Vec<PrimitiveTypeSymbol>) {
        &table.primitives
    }

    fn arena_mut(table: &mut SymbolTable) -> (r: &mut Vec<PrimitiveTypeSymbol>) {
        &mut table.primitives
    }

    fn index(&self) -> (r: usize) {
        self.0
    }

    fn from_index(id: usize) -> (r: Self) {
        PrimitiveTypeSymbolId(id)
    }

    fn symbol_id(self) -> (r: SymbolId) {
        SymbolId::Primitive(self)
    }
}

impl SymbolIndex for TypeAliasSymbolId {
    type SymbolKind = TypeAliasSymbol;

    open spec fn arena_of(m: SymbolTableModel) -> Seq<TypeAliasSymbol> {
        m.aliases
    }

    open spec fn with_arena(m: SymbolTableModel, a: Seq<TypeAliasSymbol>) -> SymbolTableModel {
        SymbolTableModel { aliases: a, variables: m.variables, functions: m.functions, structs: m.structs, enums: m.enums, variants: m.variants, primitives: m.primitives, methods: m.methods, members: m.members }
    }

    open spec fn position(&self) -> nat {
        self.0 as nat
    }

    open spec fn any_id(&self) -> SymbolId {
        SymbolId::TypeAlias(*self)
    }

    open spec fn id_at(i: nat) -> SymbolId {
        SymbolId::TypeAlias(Self(i as usize))
    }

    proof fn lemma_id_at(id: Self) {
    }

    proof fn lemma_with_arena(m: SymbolTableModel, a: Seq<Self::SymbolKind>) {
    }

    open spec fn kind() -> nat {
        6
    }

    proof fn lemma_with_arena_keeps(m: SymbolTableModel, a: Seq<Self::SymbolKind>) {
    }

    proof fn lemma_arena_of_same(m1: SymbolTableModel, m2: SymbolTableModel, k: nat) {
    }

    fn arena(table: &SymbolTable) -> (r: &Vec<TypeAliasSymbol>) {
        &table.aliases
    }

    fn arena_mut(table: &mut SymbolTable) -> (r: &mut Vec<TypeAliasSymbol>) {
        &mut table.aliases
    }

    fn index(&self) -> (r: usize) {
        self.0
    }

    fn from_index(id: usize) -> (r: Self) {
        TypeAliasSymbolId(id)
    }

    fn symbol_id(self) -> (r: SymbolId) {
        SymbolId::TypeAlias(self)
    }
}

impl SymbolIndex for MethodSymbolId {
    type SymbolKind = MethodSymbol;

    open spec fn arena_of(m: SymbolTableModel) -> Seq<MethodSymbol> {
        m.methods
    }

    open spec fn with_arena(m: SymbolTableModel, a: Seq<MethodSymbol>) -> SymbolTableModel {
        SymbolTableModel { methods: a, variables: m.variables, functions: m.functions, structs: m.structs, enums: m.enums, variants: m.variants, primitives: m.primitives, aliases: m.aliases, members: m.members }
    }

    open spec fn position(&self) -> nat {
        self.0 as nat
    }

    open spec fn any_id(&self) -> SymbolId {
        SymbolId::Method(*self)
    }

    open spec fn id_at(i: nat) -> SymbolId {
        SymbolId::Method(Self(i as usize))
    }

    proof fn lemma_id_at(id: Self) {
    }

    proof fn lemma_with_arena(m: SymbolTableModel, a: Seq<Self::SymbolKind>) {
    }

    open spec fn kind() -> nat {
        7
    }

    proof fn lemma_with_arena_keeps(m: SymbolTableModel, a: Seq<Self::SymbolKind>) {
    }

    proof fn lemma_arena_of_same(m1: SymbolTableModel, m2: SymbolTableModel, k: nat) {
    }

    fn arena(table: &SymbolTable) -> (r: &Vec<MethodSymbol>) {
        &table.methods
    }

    fn arena_mut(table: &mut SymbolTable) -> (r: &mut Vec<MethodSymbol>) {
        &mut table.methods
    }

    fn index(&self) -> (r: usize) {
        self.0
    }

    fn from_index(id: usize) -> (r: Self) {
        MethodSymbolId(id)
    }

    fn symbol_id(self) -> (r: SymbolId) {
        SymbolId::Method(self)
    }
}

impl SymbolIndex for MemberSymbolId {
    type SymbolKind = MemberSymbol;

    open spec fn arena_of(m: SymbolTableModel) -> Seq<MemberSymbol> {
        m.members
    }

    open spec fn with_arena(m: SymbolTableModel, a: Seq<MemberSymbol>) -> SymbolTableModel {
        SymbolTableModel { members: a, variables: m.variables, functions: m.functions, structs: m.structs, enums: m.enums, variants: m.variants, primitives: m.primitives, aliases: m.aliases, methods: m.methods }
    }

    open spec fn position(&self) -> nat {
        self.0 as nat
    }

    open spec fn any_id(&self) -> SymbolId {
        SymbolId::Member(*self)
    }

    open spec fn id_at(i: nat) -> SymbolId {
        SymbolId::Member(Self(i as usize))
    }

    proof fn lemma_id_at(id: Self) {
    }

    proof fn lemma_with_arena(m: SymbolTableModel, a: Seq<Self::SymbolKind>) {
    }

    open spec fn kind() -> nat {
        8
    }

    proof fn lemma_with_arena_keeps(m: SymbolTableModel, a: Seq<Self::SymbolKind>) {
    }

    proof fn lemma_arena_of_same(m1: SymbolTableModel, m2: SymbolTableModel, k: nat) {
    }

    fn arena(table: &SymbolTable) -> (r: &Vec<MemberSymbol>) {
        &table.members
    }

    fn arena_mut(table: &mut SymbolTable) -> (r: &mut Vec<MemberSymbol>) {
        &mut table.members
    }

    fn index(&self) -> (r: usize) {
        self.0
    }

    fn from_index(id: usize) -> (r: Self) {
        MemberSymbolId(id)
    }

    fn symbol_id(self) -> (r: SymbolId) {
        SymbolId::Member(self)
    }
}

/// A borrowed symbol of any kind.
pub enum AnySymbol<'a> {
    Variable(&'a VariableSymbol),
    Function(&'a FunctionSymbol),
    Struct(&'a StructSymbol),
    Enum(&'a EnumSymbol),
    Variant(&'a VariantSymbol),
    Primitive(&'a PrimitiveTypeSymbol),
    TypeAlias(&'a TypeAliasSymbol),
    Method(&'a MethodSymbol),
    Member(&'a MemberSymbol),
}

impl<'a> Symbol for AnySymbol<'a> {
    open spec fn symbol_name(&self) -> Seq<char> {
        match self {
            AnySymbol::Variable(s) => s.symbol_name(),
            AnySymbol::Function(s) => s.symbol_name(),
            AnySymbol::Struct(s) => s.symbol_name(),
            AnySymbol::Enum(s) => s.symbol_name(),
            AnySymbol::Variant(s) => s.symbol_name(),
            AnySymbol::Primitive(s) => s.symbol_name(),
            AnySymbol::TypeAlias(s) => s.symbol_name(),
            AnySymbol::Method(s) => s.symbol_name(),
            AnySymbol::Member(s) => s.symbol_name(),
        }
    }

    open spec fn symbol_type(&self) -> TypeId {
        match self {
            AnySymbol::Variable(s) => s.symbol_type(),
            AnySymbol::Function(s) => s.symbol_type(),
            AnySymbol::Struct(s) => s.symbol_type(),
            AnySymbol::Enum(s) => s.symbol_type(),
            AnySymbol::Variant(s) => s.symbol_type(),
            AnySymbol::Primitive(s) => s.symbol_type(),
            AnySymbol::TypeAlias(s) => s.symbol_type(),
            AnySymbol::Method(s) => s.symbol_type(),
            AnySymbol::Member(s) => s.symbol_type(),
        }
    }

    open spec fn symbol_location(&self) -> Location {
        match self {
            AnySymbol::Variable(s) => s.symbol_location(),
            AnySymbol::Function(s) => s.symbol_location(),
            AnySymbol::Struct(s) => s.symbol_location(),
            AnySymbol::Enum(s) => s.symbol_location(),
            AnySymbol::Variant(s) => s.symbol_location(),
            AnySymbol::Primitive(s) => s.symbol_location(),
            AnySymbol::TypeAlias(s) => s.symbol_location(),
            AnySymbol::Method(s) => s.symbol_location(),
            AnySymbol::Member(s) => s.symbol_location(),
        }
    }

    open spec fn symbol_docs(&self) -> Option<Seq<char>> {
        match self {
            AnySymbol::Variable(s) => s.symbol_docs(),
            AnySymbol::Function(s) => s.symbol_docs(),
            AnySymbol::Struct(s) => s.symbol_docs(),
            AnySymbol::Enum(s) => s.symbol_docs(),
            AnySymbol::Variant(s) => s.symbol_docs(),
            AnySymbol::Primitive(s) => s.symbol_docs(),
            AnySymbol::TypeAlias(s) => s.symbol_docs(),
            AnySymbol::Method(s) => s.symbol_docs(),
            AnySymbol::Member(s) => s.symbol_docs(),
        }
    }

    open spec fn symbol_access(&self) -> SymbolAccessManager {
        match self {
            AnySymbol::Variable(s) => s.symbol_access(),
            AnySymbol::Function(s) => s.symbol_access(),
            AnySymbol::Struct(s) => s.symbol_access(),
            AnySymbol::Enum(s) => s.symbol_access(),
            AnySymbol::Variant(s) => s.symbol_access(),
            AnySymbol::Primitive(s) => s.symbol_access(),
            AnySymbol::TypeAlias(s) => s.symbol_access(),
            AnySymbol::Method(s) => s.symbol_access(),
            AnySymbol::Member(s) => s.symbol_access(),
        }
    }

    fn docs(&self) -> (r: Option<&String>) {
        match self {
            AnySymbol::Variable(s) => s.docs(),
            AnySymbol::Function(s) => s.docs(),
            AnySymbol::Struct(s) => s.docs(),
            AnySymbol::Enum(s) => s.docs(),
            AnySymbol::Variant(s) => s.docs(),
            AnySymbol::Primitive(s) => s.docs(),
            AnySymbol::TypeAlias(s) => s.docs(),
            AnySymbol::Method(s) => s.docs(),
            AnySymbol::Member(s) => s.docs(),
        }
    }

    fn name(&self) -> (r: &str) {
        match self {
            AnySymbol::Variable(s) => s.name(),
            AnySymbol::Function(s) => s.name(),
            AnySymbol::Struct(s) => s.name(),
            AnySymbol::Enum(s) => s.name(),
            AnySymbol::Variant(s) => s.name(),
            AnySymbol::Primitive(s) => s.name(),
            AnySymbol::TypeAlias(s) => s.name(),
            AnySymbol::Method(s) => s.name(),
            AnySymbol::Member(s) => s.name(),
        }
    }

    fn ty(&self) -> (r: TypeId) {
        match self {
            AnySymbol::Variable(s) => s.ty(),
            AnySymbol::Function(s) => s.ty(),
            AnySymbol::Struct(s) => s.ty(),
            AnySymbol::Enum(s) => s.ty(),
            AnySymbol::Variant(s) => s.ty(),
            AnySymbol::Primitive(s) => s.ty(),
            AnySymbol::TypeAlias(s) => s.ty(),
            AnySymbol::Method(s) => s.ty(),
            AnySymbol::Member(s) => s.ty(),
        }
    }

    fn defined_at(&self) -> (r: Location) {
        match self {
            AnySymbol::Variable(s) => s.defined_at(),
            AnySymbol::Function(s) => s.defined_at(),
            AnySymbol::Struct(s) => s.defined_at(),
            AnySymbol::Enum(s) => s.defined_at(),
            AnySymbol::Variant(s) => s.defined_at(),
            AnySymbol::Primitive(s) => s.defined_at(),
            AnySymbol::TypeAlias(s) => s.defined_at(),
            AnySymbol::Method(s) => s.defined_at(),
            AnySymbol::Member(s) => s.defined_at(),
        }
    }

    fn uses(&self) -> (r: Vec<Location>) {
        match self {
            AnySymbol::Variable(s) => s.uses(),
            AnySymbol::Function(s) => s.uses(),
            AnySymbol::Struct(s) => s.uses(),
            AnySymbol::Enum(s) => s.uses(),
            AnySymbol::Variant(s) => s.uses(),
            AnySymbol::Primitive(s) => s.uses(),
            AnySymbol::TypeAlias(s) => s.uses(),
            AnySymbol::Method(s) => s.uses(),
            AnySymbol::Member(s) => s.uses(),
        }
    }

}

/// The position an id of any kind names.
pub open spec fn id_position(id: SymbolId) -> nat {
    match id {
        SymbolId::Variable(i) => i.0 as nat,
        SymbolId::Function(i) => i.0 as nat,
        SymbolId::Struct(i) => i.0 as nat,
        SymbolId::Enum(i) => i.0 as nat,
        SymbolId::Variant(i) => i.0 as nat,
        SymbolId::Primitive(i) => i.0 as nat,
        SymbolId::TypeAlias(i) => i.0 as nat,
        SymbolId::Method(i) => i.0 as nat,
        SymbolId::Member(i) => i.0 as nat,
    }
}

/// The length of the arena an id of any kind points into.
pub open spec fn arena_len(m: SymbolTableModel, id: SymbolId) -> nat {
    match id {
        SymbolId::Variable(_) => m.variables.len(),
        SymbolId::Function(_) => m.functions.len(),
        SymbolId::Struct(_) => m.structs.len(),
        SymbolId::Enum(_) => m.enums.len(),
        SymbolId::Variant(_) => m.variants.len(),
        SymbolId::Primitive(_) => m.primitives.len(),
        SymbolId::TypeAlias(_) => m.aliases.len(),
        SymbolId::Method(_) => m.methods.len(),
        SymbolId::Member(_) => m.members.len(),
    }
}

/// Whether `id` names a symbol of the table.
pub open spec fn valid_id(m: SymbolTableModel, id: SymbolId) -> bool {
    id_position(id) < arena_len(m, id)
}

/// The `symbol_name` of the symbol that `id` names.
pub open spec fn symbol_name_of(m: SymbolTableModel, id: SymbolId) -> Seq<char> {
    match id {
        SymbolId::Variable(i) => m.variables[i.0 as int].symbol_name(),
        SymbolId::Function(i) => m.functions[i.0 as int].symbol_name(),
        SymbolId::Struct(i) => m.structs[i.0 as int].symbol_name(),
        SymbolId::Enum(i) => m.enums[i.0 as int].symbol_name(),
        SymbolId::Variant(i) => m.variants[i.0 as int].symbol_name(),
        SymbolId::Primitive(i) => m.primitives[i.0 as int].symbol_name(),
        SymbolId::TypeAlias(i) => m.aliases[i.0 as int].symbol_name(),
        SymbolId::Method(i) => m.methods[i.0 as int].symbol_name(),
        SymbolId::Member(i) => m.members[i.0 as int].symbol_name(),
    }
}

/// The `symbol_type` of the symbol that `id` names.
pub open spec fn symbol_type_of(m: SymbolTableModel, id: SymbolId) -> TypeId {
    match id {
        SymbolId::Variable(i) => m.variables[i.0 as int].symbol_type(),
        SymbolId::Function(i) => m.functions[i.0 as int].symbol_type(),
        SymbolId::Struct(i) => m.structs[i.0 as int].symbol_type(),
        SymbolId::Enum(i) => m.enums[i.0 as int].symbol_type(),
        SymbolId::Variant(i) => m.variants[i.0 as int].symbol_type(),
        SymbolId::Primitive(i) => m.primitives[i.0 as int].symbol_type(),
        SymbolId::TypeAlias(i) => m.aliases[i.0 as int].symbol_type(),
        SymbolId::Method(i) => m.methods[i.0 as int].symbol_type(),
        SymbolId::Member(i) => m.members[i.0 as int].symbol_type(),
    }
}

/// The `symbol_location` of the symbol that `id` names.
pub open spec fn symbol_location_of(m: SymbolTableModel, id: SymbolId) -> Location {
    match id {
        SymbolId::Variable(i) => m.variables[i.0 as int].symbol_location(),
        SymbolId::Function(i) => m.functions[i.0 as int].symbol_location(),
        SymbolId::Struct(i) => m.structs[i.0 as int].symbol_location(),
        SymbolId::Enum(i) => m.enums[i.0 as int].symbol_location(),
        SymbolId::Variant(i) => m.variants[i.0 as int].symbol_location(),
        SymbolId::Primitive(i) => m.primitives[i.0 as int].symbol_location(),
        SymbolId::TypeAlias(i) => m.aliases[i.0 as int].symbol_location(),
        SymbolId::Method(i) => m.methods[i.0 as int].symbol_location(),
        SymbolId::Member(i) => m.members[i.0 as int].symbol_location(),
    }
}

/// The `symbol_docs` of the symbol that `id` names.
pub open spec fn symbol_docs_of(m: SymbolTableModel, id: SymbolId) -> Option<Seq<char>> {
    match id {
        SymbolId::Variable(i) => m.variables[i.0 as int].symbol_docs(),
        SymbolId::Function(i) => m.functions[i.0 as int].symbol_docs(),
        SymbolId::Struct(i) => m.structs[i.0 as int].symbol_docs(),
        SymbolId::Enum(i) => m.enums[i.0 as int].symbol_docs(),
        SymbolId::Variant(i) => m.variants[i.0 as int].symbol_docs(),
        SymbolId::Primitive(i) => m.primitives[i.0 as int].symbol_docs(),
        SymbolId::TypeAlias(i) => m.aliases[i.0 as int].symbol_docs(),
        SymbolId::Method(i) => m.methods[i.0 as int].symbol_docs(),
        SymbolId::Member(i) => m.members[i.0 as int].symbol_docs(),
    }
}

/// The `symbol_access` of the symbol that `id` names.
pub open spec fn symbol_access_of(m: SymbolTableModel, id: SymbolId) -> SymbolAccessManager {
    match id {
        SymbolId::Variable(i) => m.variables[i.0 as int].symbol_access(),
        SymbolId::Function(i) => m.functions[i.0 as int].symbol_access(),
        SymbolId::Struct(i) => m.structs[i.0 as int].symbol_access(),
        SymbolId::Enum(i) => m.enums[i.0 as int].symbol_access(),
        SymbolId::Variant(i) => m.variants[i.0 as int].symbol_access(),
        SymbolId::Primitive(i) => m.primitives[i.0 as int].symbol_access(),
        SymbolId::TypeAlias(i) => m.aliases[i.0 as int].symbol_access(),
        SymbolId::Method(i) => m.methods[i.0 as int].symbol_access(),
        SymbolId::Member(i) => m.members[i.0 as int].symbol_access(),
    }
}

/// Whether `s` is the very symbol that `id` names in `m`.
pub open spec fn is_symbol_of(s: AnySymbol, m: SymbolTableModel, id: SymbolId) -> bool {
    match (s, id) {
        (AnySymbol::Variable(x), SymbolId::Variable(i)) => *x == m.variables[i.0 as int],
        (AnySymbol::Function(x), SymbolId::Function(i)) => *x == m.functions[i.0 as int],
        (AnySymbol::Struct(x), SymbolId::Struct(i)) => *x == m.structs[i.0 as int],
        (AnySymbol::Enum(x), SymbolId::Enum(i)) => *x == m.enums[i.0 as int],
        (AnySymbol::Variant(x), SymbolId::Variant(i)) => *x == m.variants[i.0 as int],
        (AnySymbol::Primitive(x), SymbolId::Primitive(i)) => *x == m.primitives[i.0 as int],
        (AnySymbol::TypeAlias(x), SymbolId::TypeAlias(i)) => *x == m.aliases[i.0 as int],
        (AnySymbol::Method(x), SymbolId::Method(i)) => *x == m.methods[i.0 as int],
        (AnySymbol::Member(x), SymbolId::Member(i)) => *x == m.members[i.0 as int],
        _ => false,
    }
}

/// Whether a borrowed symbol shows the symbol that `id` names.
pub open spec fn describes(s: AnySymbol, m: SymbolTableModel, id: SymbolId) -> bool {
    &&& s.symbol_name() == symbol_name_of(m, id)
    &&& s.symbol_type() == symbol_type_of(m, id)
    &&& s.symbol_location() == symbol_location_of(m, id)
    &&& s.symbol_docs() == symbol_docs_of(m, id)
    &&& s.symbol_access() == symbol_access_of(m, id)
}

/// The table's contents with the uses of the symbol `id` replaced by `a`.
pub open spec fn with_access(m: SymbolTableModel, id: SymbolId, a: SymbolAccessManager) -> SymbolTableModel {
    match id {
        SymbolId::Variable(i) => SymbolTableModel { variables: m.variables.update(i.0 as int, VariableSymbol { access: a, ..m.variables[i.0 as int] }), functions: m.functions, structs: m.structs, enums: m.enums, variants: m.variants, primitives: m.primitives, aliases: m.aliases, methods: m.methods, members: m.members },
        SymbolId::Function(i) => SymbolTableModel { functions: m.functions.update(i.0 as int, FunctionSymbol { access: a, ..m.functions[i.0 as int] }), variables: m.variables, structs: m.structs, enums: m.enums, variants: m.variants, primitives: m.primitives, aliases: m.aliases, methods: m.methods, members: m.members },
        SymbolId::Struct(i) => SymbolTableModel { structs: m.structs.update(i.0 as int, StructSymbol { access: a, ..m.structs[i.0 as int] }), variables: m.variables, functions: m.functions, enums: m.enums, variants: m.variants, primitives: m.primitives, aliases: m.aliases, methods: m.methods, members: m.members },
        SymbolId::Enum(i) => SymbolTableModel { enums: m.enums.update(i.0 as int, EnumSymbol { access: a, ..m.enums[i.0 as int] }), variables: m.variables, functions: m.functions, structs: m.structs, variants: m.variants, primitives: m.primitives, aliases: m.aliases, methods: m.methods, members: m.members },
        SymbolId::Variant(i) => SymbolTableModel { variants: m.variants.update(i.0 as int, VariantSymbol { access: a, ..m.variants[i.0 as int] }), variables: m.variables, functions: m.functions, structs: m.structs, enums: m.enums, primitives: m.primitives, aliases: m.aliases, methods: m.methods, members: m.members },
        SymbolId::Primitive(i) => SymbolTableModel { primitives: m.primitives.update(i.0 as int, PrimitiveTypeSymbol { access: a, ..m.primitives[i.0 as int] }), variables: m.variables, functions: m.functions, structs: m.structs, enums: m.enums, variants: m.variants, aliases: m.aliases, methods: m.methods, members: m.members },
        SymbolId::TypeAlias(i) => SymbolTableModel { aliases: m.aliases.update(i.0 as int, TypeAliasSymbol { access: a, ..m.aliases[i.0 as int] }), variables: m.variables, functions: m.functions, structs: m.structs, enums: m.enums, variants: m.variants, primitives: m.primitives, methods: m.methods, members: m.members },
        SymbolId::Method(i) => SymbolTableModel { methods: m.methods.update(i.0 as int, MethodSymbol { access: a, ..m.methods[i.0 as int] }), variables: m.variables, functions: m.functions, structs: m.structs, enums: m.enums, variants: m.variants, primitives: m.primitives, aliases: m.aliases, members: m.members },
        SymbolId::Member(i) => SymbolTableModel { members: m.members.update(i.0 as int, MemberSymbol { access: a, ..m.members[i.0 as int] }), variables: m.variables, functions: m.functions, structs: m.structs, enums: m.enums, variants: m.variants, primitives: m.primitives, aliases: m.aliases, methods: m.methods },
    }
}

/// The ids of the first `n` symbols of one kind.
pub open spec fn kind_ids(n: nat, kind: spec_fn(nat) -> SymbolId) -> Seq<SymbolId> {
    Seq::new(n, |i: int| kind(i as nat))
}

/// The ids of all the symbols of a table, kind by kind.
pub open spec fn all_ids_spec(m: SymbolTableModel) -> Seq<SymbolId> {
    kind_ids(m.variables.len(), |k: nat| SymbolId::Variable(VariableSymbolId(k as usize)))
        + kind_ids(m.functions.len(), |k: nat| SymbolId::Function(FunctionSymbolId(k as usize)))
        + kind_ids(m.structs.len(), |k: nat| SymbolId::Struct(StructSymbolId(k as usize)))
        + kind_ids(m.enums.len(), |k: nat| SymbolId::Enum(EnumSymbolId(k as usize)))
        + kind_ids(m.variants.len(), |k: nat| SymbolId::Variant(VariantSymbolId(k as usize)))
        + kind_ids(m.primitives.len(), |k: nat| SymbolId::Primitive(PrimitiveTypeSymbolId(k as usize)))
        + kind_ids(m.aliases.len(), |k: nat| SymbolId::TypeAlias(TypeAliasSymbolId(k as usize)))
        + kind_ids(m.members.len(), |k: nat| SymbolId::Member(MemberSymbolId(k as usize)))
        + kind_ids(m.methods.len(), |k: nat| SymbolId::Method(MethodSymbolId(k as usize)))
}

impl SymbolTable {
    /// An empty table.
    pub fn new() -> (r: SymbolTable)
        ensures
            r@.variables == Seq::<VariableSymbol>::empty(),
            r@.functions == Seq::<FunctionSymbol>::empty(),
            r@.structs == Seq::<StructSymbol>::empty(),
            r@.enums == Seq::<EnumSymbol>::empty(),
            r@.variants == Seq::<VariantSymbol>::empty(),
            r@.primitives == Seq::<PrimitiveTypeSymbol>::empty(),
            r@.aliases == Seq::<TypeAliasSymbol>::empty(),
            r@.methods == Seq::<MethodSymbol>::empty(),
            r@.members == Seq::<MemberSymbol>::empty(),
    {
        SymbolTable {
            variables: Vec::new(),
            functions: Vec::new(),
            structs: Vec::new(),
            enums: Vec::new(),
            variants: Vec::new(),
            primitives: Vec::new(),
            aliases: Vec::new(),
            methods: Vec::new(),
            members: Vec::new(),
        }
    }

    /// Appends `symbol` to its kind's arena and gives its id.
    pub fn insert<I: SymbolIndex>(&mut self, symbol: I::SymbolKind) -> (r: I)
        ensures
            r.position() == I::arena_of(old(self)@).len(),
            final(self)@ == I::with_arena(old(self)@, I::arena_of(old(self)@).push(symbol)),
    {
        let arena = I::arena_mut(self);
        let index = arena.len();
        arena.push(symbol);
        I::from_index(index)
    }

    /// The symbol that `id` names.
    pub fn get<I: SymbolIndex>(&self, id: I) -> (r: &I::SymbolKind)
        requires
            id.position() < I::arena_of(self@).len(),
        ensures
            *r == I::arena_of(self@)[id.position() as int],
    {
        &I::arena(self)[id.index()]
    }

    /// The symbol that `id` names, for update.
    pub fn get_mut<I: SymbolIndex>(&mut self, id: I) -> (r: &mut I::SymbolKind)
        requires
            id.position() < I::arena_of(old(self)@).len(),
        ensures
            *r == I::arena_of(old(self)@)[id.position() as int],
            final(self)@ == I::with_arena(old(self)@, I::arena_of(old(self)@).update(id.position() as int, *final(r))),
    {
        let i = id.index();
        let arena = I::arena_mut(self);
        &mut arena[i]
    }

    /// The symbol that `id` names, whatever its kind.
    pub fn get_symbol(&self, id: SymbolId) -> (r: AnySymbol<'_>)
        requires
            valid_id(self@, id),
        ensures
            describes(r, self@, id),
            is_symbol_of(r, self@, id),
    {
        match id {
            SymbolId::Variable(x) => AnySymbol::Variable(&self.variables[x.0]),
            SymbolId::Function(x) => AnySymbol::Function(&self.functions[x.0]),
            SymbolId::Struct(x) => AnySymbol::Struct(&self.structs[x.0]),
            SymbolId::Enum(x) => AnySymbol::Enum(&self.enums[x.0]),
            SymbolId::Variant(x) => AnySymbol::Variant(&self.variants[x.0]),
            SymbolId::Primitive(x) => AnySymbol::Primitive(&self.primitives[x.0]),
            SymbolId::TypeAlias(x) => AnySymbol::TypeAlias(&self.aliases[x.0]),
            SymbolId::Method(x) => AnySymbol::Method(&self.methods[x.0]),
            SymbolId::Member(x) => AnySymbol::Member(&self.members[x.0]),
        }
    }

    /// The recorded uses of the symbol that `id` names, for update.
    pub fn get_symbol_mut(&mut self, id: SymbolId) -> (r: &mut SymbolAccessManager)
        requires
            valid_id(old(self)@, id),
        ensures
            *r == symbol_access_of(old(self)@, id),
            final(self)@ == with_access(old(self)@, id, *final(r)),
    {
        match id {
            SymbolId::Variable(x) => &mut self.variables[x.0].access,
            SymbolId::Function(x) => &mut self.functions[x.0].access,
            SymbolId::Struct(x) => &mut self.structs[x.0].access,
            SymbolId::Enum(x) => &mut self.enums[x.0].access,
            SymbolId::Variant(x) => &mut self.variants[x.0].access,
            SymbolId::Primitive(x) => &mut self.primitives[x.0].access,
            SymbolId::TypeAlias(x) => &mut self.aliases[x.0].access,
            SymbolId::Method(x) => &mut self.methods[x.0].access,
            SymbolId::Member(x) => &mut self.members[x.0].access,
        }
    }

    /// Whether `id` names a mutable variable.
    pub fn is_mutable(&self, id: SymbolId) -> (r: bool)
        requires
            id matches SymbolId::Variable(v) ==> v.0 < self@.variables.len(),
        ensures
            r == match id {
                SymbolId::Variable(v) => self@.variables[v.0 as int].mutable,
                _ => false,
            },
    {
        match id {
            SymbolId::Variable(v) => self.variables[v.0].mutable,
            _ => false,
        }
    }

    /// The first symbol of kind `I` that `predicate` accepts.
    pub fn find<I: SymbolIndex, F: Fn(&I::SymbolKind) -> bool>(&self, predicate: F) -> (r: Option<&I::SymbolKind>)
        requires
            forall|k: int| 0 <= k < I::arena_of(self@).len() ==> predicate.requires((&I::arena_of(self@)[k],)),
        ensures
            match r {
                Some(s) => exists|i: int| 0 <= i < I::arena_of(self@).len() && *s == I::arena_of(self@)[i]
                    && predicate.ensures((&I::arena_of(self@)[i],), true)
                    && forall|k: int| 0 <= k < i ==> predicate.ensures((&I::arena_of(self@)[k],), false),
                None => forall|k: int| 0 <= k < I::arena_of(self@).len() ==> predicate.ensures((&I::arena_of(self@)[k],), false),
            },
    {
        let arena = I::arena(self);
        let mut i: usize = 0;
        while i < arena.len()
            invariant
                arena@ == I::arena_of(self@),
                i <= arena@.len(),
                forall|k: int| 0 <= k < arena@.len() ==> predicate.requires((&arena@[k],)),
                forall|k: int| 0 <= k < i ==> predicate.ensures((&arena@[k],), false),
            decreases arena@.len() - i,
        {
            if predicate(&arena[i]) {
                return Some(&arena[i]);
            }
            i = i + 1;
        }
        None
    }

    /// The id of the first symbol of kind `I` that `predicate` accepts.
    pub fn find_id<I: SymbolIndex, F: Fn(&I::SymbolKind) -> bool>(&self, predicate: F) -> (r: Option<I>)
        requires
            forall|k: int| 0 <= k < I::arena_of(self@).len() ==> predicate.requires((&I::arena_of(self@)[k],)),
        ensures
            match r {
                Some(id) => id.position() < I::arena_of(self@).len()
                    && predicate.ensures((&I::arena_of(self@)[id.position() as int],), true)
                    && forall|k: int| 0 <= k < id.position() ==> predicate.ensures((&I::arena_of(self@)[k],), false),
                None => forall|k: int| 0 <= k < I::arena_of(self@).len() ==> predicate.ensures((&I::arena_of(self@)[k],), false),
            },
    {
        let arena = I::arena(self);
        let mut i: usize = 0;
        while i < arena.len()
            invariant
                arena@ == I::arena_of(self@),
                i <= arena@.len(),
                forall|k: int| 0 <= k < arena@.len() ==> predicate.requires((&arena@[k],)),
                forall|k: int| 0 <= k < i ==> predicate.ensures((&arena@[k],), false),
            decreases arena@.len() - i,
        {
            if predicate(&arena[i]) {
                return Some(I::from_index(i));
            }
            i = i + 1;
        }
        None
    }

    /// The ids of all the symbols, kind by kind.
    pub fn all_ids(&self) -> (r: Vec<SymbolId>)
        ensures
            r@ == all_ids_spec(self@),
    {
        let mut r: Vec<SymbolId> = Vec::new();
        let part = ids::<VariableSymbolId>(&self.variables);
        r.append(&mut part.clone());
        let part = ids::<FunctionSymbolId>(&self.functions);
        r.append(&mut part.clone());
        let part = ids::<StructSymbolId>(&self.structs);
        r.append(&mut part.clone());
        let part = ids::<EnumSymbolId>(&self.enums);
        r.append(&mut part.clone());
        let part = ids::<VariantSymbolId>(&self.variants);
        r.append(&mut part.clone());
        let part = ids::<PrimitiveTypeSymbolId>(&self.primitives);
        r.append(&mut part.clone());
        let part = ids::<TypeAliasSymbolId>(&self.aliases);
        r.append(&mut part.clone());
        let part = ids::<MemberSymbolId>(&self.members);
        r.append(&mut part.clone());
        let part = ids::<MethodSymbolId>(&self.methods);
        r.append(&mut part.clone());
        assert(r@ =~= all_ids_spec(self@));
        r
    }

    /// All the symbols, kind by kind.
    pub fn all(&self) -> (r: Vec<AnySymbol<'_>>)
        ensures
            r@.len() == all_ids_spec(self@).len(),
            forall|k: int| 0 <= k < r@.len() ==> describes(#[trigger] r@[k], self@, all_ids_spec(self@)[k]),
            forall|k: int| 0 <= k < r@.len() ==> is_symbol_of(#[trigger] r@[k], self@, all_ids_spec(self@)[k]),
    {
        let ids = self.all_ids();
        let mut r: Vec<AnySymbol<'_>> = Vec::new();
        let mut k: usize = 0;
        while k < ids.len()
            invariant
                ids@ == all_ids_spec(self@),
                k <= ids@.len(),
                r@.len() == k,
                forall|j: int| 0 <= j < k ==> describes(#[trigger] r@[j], self@, ids@[j]),
                forall|j: int| 0 <= j < k ==> is_symbol_of(#[trigger] r@[j], self@, ids@[j]),
            decreases ids@.len() - k,
        {
            proof {
                lemma_all_ids_valid(self@, k as int);
            }
            r.push(self.get_symbol(ids[k]));
            k = k + 1;
        }
        r
    }
}

/// The ids of all symbols of one arena, in order.
pub fn ids<S: SymbolIndex>(symbols: &Vec<S::SymbolKind>) -> (r: Vec<SymbolId>)
    ensures
        r@.len() == symbols@.len(),
        forall|i: int| 0 <= i < r@.len() ==> #[trigger] r@[i] == S::id_at(i as nat),
{
    let mut r: Vec<SymbolId> = Vec::new();
    let mut i: usize = 0;
    while i < symbols.len()
        invariant
            i <= symbols@.len(),
            r@.len() == i,
            forall|k: int| 0 <= k < i ==> #[trigger] r@[k] == S::id_at(k as nat),
        decreases symbols@.len() - i,
    {
        let id = S::from_index(i);
        proof {
            S::lemma_id_at(id);
        }
        r.push(id.symbol_id());
        i = i + 1;
    }
    r
}

proof fn lemma_all_ids_valid(m: SymbolTableModel, k: int)
    requires
        0 <= k < all_ids_spec(m).len(),
    ensures
        valid_id(m, all_ids_spec(m)[k]),
{
}


/// A symbol inserted into a table is what its new id names afterwards, and
/// the symbols already there keep their ids.
pub proof fn lemma_insert_then_get<I: SymbolIndex>(m: SymbolTableModel, symbol: I::SymbolKind, i: int)
    requires
        0 <= i < I::arena_of(m).len(),
    ensures
        I::arena_of(I::with_arena(m, I::arena_of(m).push(symbol)))[I::arena_of(m).len() as int] == symbol,
        I::arena_of(I::with_arena(m, I::arena_of(m).push(symbol)))[i] == I::arena_of(m)[i],
{
    I::lemma_with_arena(m, I::arena_of(m).push(symbol));
}

/// Inserting a symbol of one kind leaves the arena of every other kind as
/// it was.
pub proof fn lemma_insert_keeps_other_kinds<I: SymbolIndex, J: SymbolIndex>(m: SymbolTableModel, symbol: I::SymbolKind)
    requires
        I::kind() != J::kind(),
    ensures
        J::arena_of(I::with_arena(m, I::arena_of(m).push(symbol))) == J::arena_of(m),
{
    I::lemma_with_arena_keeps(m, I::arena_of(m).push(symbol));
    J::lemma_arena_of_same(I::with_arena(m, I::arena_of(m).push(symbol)), m, I::kind());
}

/// The ids of all the symbols of a table name each symbol once: no id
/// occurs twice.
/// The place of `id` in the list of all ids of `m`: its kind's offset plus its index.
pub open spec fn id_rank(m: SymbolTableModel, id: SymbolId) -> int {
    match id {
        SymbolId::Variable(x) => 0int + x.0,
        SymbolId::Function(x) => 0int + m.variables.len() + x.0,
        SymbolId::Struct(x) => 0int + m.variables.len() + m.functions.len() + x.0,
        SymbolId::Enum(x) => 0int + m.variables.len() + m.functions.len() + m.structs.len() + x.0,
        SymbolId::Variant(x) => 0int + m.variables.len() + m.functions.len() + m.structs.len() + m.enums.len() + x.0,
        SymbolId::Primitive(x) => 0int + m.variables.len() + m.functions.len() + m.structs.len() + m.enums.len() + m.variants.len() + x.0,
        SymbolId::TypeAlias(x) => 0int + m.variables.len() + m.functions.len() + m.structs.len() + m.enums.len() + m.variants.len() + m.primitives.len() + x.0,
        SymbolId::Member(x) => 0int + m.variables.len() + m.functions.len() + m.structs.len() + m.enums.len() + m.variants.len() + m.primitives.len() + m.aliases.len() + x.0,
        SymbolId::Method(x) => 0int + m.variables.len() + m.functions.len() + m.structs.len() + m.enums.len() + m.variants.len() + m.primitives.len() + m.aliases.len() + m.members.len() + x.0,
    }
}

/// Every arena of `m` is short enough for its indices to fit in a `usize`.
pub open spec fn arenas_fit(m: SymbolTableModel) -> bool {
    &&& m.variables.len() <= usize::MAX + 1
    &&& m.functions.len() <= usize::MAX + 1
    &&& m.structs.len() <= usize::MAX + 1
    &&& m.enums.len() <= usize::MAX + 1
    &&& m.variants.len() <= usize::MAX + 1
    &&& m.primitives.len() <= usize::MAX + 1
    &&& m.aliases.len() <= usize::MAX + 1
    &&& m.members.len() <= usize::MAX + 1
    &&& m.methods.len() <= usize::MAX + 1
}

proof fn lemma_rank(m: SymbolTableModel, i: int)
    requires
        arenas_fit(m),
        0 <= i < all_ids_spec(m).len(),
    ensures
        id_rank(m, all_ids_spec(m)[i]) == i,
{
}

pub proof fn lemma_all_ids_distinct(m: SymbolTableModel, i: int, j: int)
    requires
        arenas_fit(m),
        0 <= i < j < all_ids_spec(m).len(),
    ensures
        all_ids_spec(m)[i] != all_ids_spec(m)[j],
{
    lemma_rank(m, i);
    lemma_rank(m, j);
}

} // verus!
