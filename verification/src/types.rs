use vstd::prelude::*;

verus! {

/// Index of a type in the type store's arena.
pub type TypeId = usize;

#[derive(Debug, Clone, PartialEq)]
pub struct ArrayType {
    pub element: TypeId,
}

#[derive(Debug, Clone, PartialEq)]
pub struct Variant {
    pub name: String,
    pub def: TypeId,
}

#[derive(Debug, Clone, PartialEq)]
pub struct EnumType {
    pub id: TypeId,
    pub variants: Vec<Variant>,
}

#[derive(Debug, Clone, PartialEq)]
pub struct FunctionType {
    pub type_params: Vec<TypeId>,
    pub params: Vec<TypeId>,
    pub return_type: TypeId,
}

#[derive(Debug, Clone, PartialEq)]
pub struct GenericType {
    pub params: Vec<TypeId>,
    pub definition: TypeId,
}

#[derive(Debug, Clone, PartialEq)]
pub struct ListenerType {
    pub inner: TypeId,
}

#[derive(Debug, Clone, PartialEq)]
pub struct SignalType {
    pub inner: TypeId,
}

#[derive(Debug, Clone, PartialEq)]
pub struct MapType {
    pub key: TypeId,
    pub value: TypeId,
}

#[derive(Debug, Clone, PartialEq)]
pub struct OptionType {
    pub some: TypeId,
}

#[derive(Debug, Clone, PartialEq)]
pub struct TypeParam {
    pub name: String,
    pub id: TypeId,
}

#[derive(Debug, Clone, PartialEq)]
pub struct TypeRef {
    pub inner: TypeId,
    pub args: Vec<TypeId>,
}

#[derive(Debug, Clone, PartialEq)]
pub struct ResultType {
    pub error: Option<TypeId>,
    pub ok: TypeId,
}

#[derive(Debug, Clone, PartialEq)]
pub struct StructField {
    pub name: String,
    pub def: TypeId,
}

#[derive(Debug, Clone, PartialEq)]
pub struct StructType {
    pub id: TypeId,
    pub params: Vec<TypeParam>,
    pub fields: Vec<StructField>,
}

#[derive(Debug, Clone, PartialEq)]
pub struct TraitMethod {
    pub name: String,
    pub def: TypeId,
}

#[derive(Debug, Clone, PartialEq)]
pub struct TraitType {
    pub methods: Vec<TraitMethod>,
}

#[derive(Debug, Clone, PartialEq)]
pub struct TupleType {
    pub elements: Vec<TypeId>,
    pub params: Vec<TypeParam>,
}

/// A type of the language. Types refer to each other by `TypeId`.
#[derive(Debug, Clone, PartialEq)]
pub enum Type {
    Array(ArrayType),
    Boolean,
    Dynamic,
    Enum(EnumType),
    Float,
    Function(FunctionType),
    Generic(GenericType),
    Listener(ListenerType),
    Mapping(MapType),
    Integer,
    Option(OptionType),
    Param(TypeParam),
    Ref(TypeRef),
    Result(ResultType),
    SelfType,
    Signal(SignalType),
    String,
    Struct(StructType),
    Trait(TraitType),
    Tuple(TupleType),
    Unit,
    Unknown,
}

/// The mathematical value of a type: names become character sequences and
/// lists become sequences, so that two types are the same exactly when
/// their models are equal.
pub enum TypeModel {
    Array(TypeId),
    Boolean,
    Dynamic,
    Enum(TypeId, Seq<(Seq<char>, TypeId)>),
    Float,
    Function(Seq<TypeId>, Seq<TypeId>, TypeId),
    Generic(Seq<TypeId>, TypeId),
    Listener(TypeId),
    Mapping(TypeId, TypeId),
    Integer,
    Option(TypeId),
    Param(Seq<char>, TypeId),
    Ref(TypeId, Seq<TypeId>),
    Result(Option<TypeId>, TypeId),
    SelfType,
    Signal(TypeId),
    String,
    Struct(TypeId, Seq<(Seq<char>, TypeId)>, Seq<(Seq<char>, TypeId)>),
    Trait(Seq<(Seq<char>, TypeId)>),
    Tuple(Seq<TypeId>, Seq<(Seq<char>, TypeId)>),
    Unit,
    Unknown,
}

impl View for Variant {
    type V = (Seq<char>, TypeId);

    open spec fn view(&self) -> (Seq<char>, TypeId) {
        (self.name@, self.def)
    }
}

impl View for TypeParam {
    type V = (Seq<char>, TypeId);

    open spec fn view(&self) -> (Seq<char>, TypeId) {
        (self.name@, self.id)
    }
}

impl View for StructField {
    type V = (Seq<char>, TypeId);

    open spec fn view(&self) -> (Seq<char>, TypeId) {
        (self.name@, self.def)
    }
}

impl View for TraitMethod {
    type V = (Seq<char>, TypeId);

    open spec fn view(&self) -> (Seq<char>, TypeId) {
        (self.name@, self.def)
    }
}

/// The models of a list of named entries.
pub open spec fn named_models<T: View<V = (Seq<char>, TypeId)>>(v: Seq<T>) -> Seq<(Seq<char>, TypeId)> {
    v.map_values(|e: T| e@)
}

impl View for Type {
    type V = TypeModel;

    open spec fn view(&self) -> TypeModel {
        match self {
            Type::Array(t) => TypeModel::Array(t.element),
            Type::Boolean => TypeModel::Boolean,
            Type::Dynamic => TypeModel::Dynamic,
            Type::Enum(t) => TypeModel::Enum(t.id, named_models(t.variants@)),
            Type::Float => TypeModel::Float,
            Type::Function(t) => TypeModel::Function(t.type_params@, t.params@, t.return_type),
            Type::Generic(t) => TypeModel::Generic(t.params@, t.definition),
            Type::Listener(t) => TypeModel::Listener(t.inner),
            Type::Mapping(t) => TypeModel::Mapping(t.key, t.value),
            Type::Integer => TypeModel::Integer,
            Type::Option(t) => TypeModel::Option(t.some),
            Type::Param(t) => TypeModel::Param(t.name@, t.id),
            Type::Ref(t) => TypeModel::Ref(t.inner, t.args@),
            Type::Result(t) => TypeModel::Result(t.error, t.ok),
            Type::SelfType => TypeModel::SelfType,
            Type::Signal(t) => TypeModel::Signal(t.inner),
            Type::String => TypeModel::String,
            Type::Struct(t) => TypeModel::Struct(t.id, named_models(t.params@), named_models(t.fields@)),
            Type::Trait(t) => TypeModel::Trait(named_models(t.methods@)),
            Type::Tuple(t) => TypeModel::Tuple(t.elements@, named_models(t.params@)),
            Type::Unit => TypeModel::Unit,
            Type::Unknown => TypeModel::Unknown,
        }
    }
}

/// Whether two lists of type ids are equal.
pub fn ids_equal(a: &Vec<TypeId>, b: &Vec<TypeId>) -> (r: bool)
    ensures
        r == (a@ == b@),
{
    if a.len() != b.len() {
        return false;
    }
    let mut i: usize = 0;
    while i < a.len()
        invariant
            a.len() == b.len(),
            i <= a.len(),
            forall|j: int| 0 <= j < i ==> a@[j] == b@[j],
        decreases a.len() - i,
    {
        if a[i] != b[i] {
            return false;
        }
        i = i + 1;
    }
    assert(a@ =~= b@);
    true
}

/// Whether two optional type ids are equal.
fn opt_id_equal(a: Option<TypeId>, b: Option<TypeId>) -> (r: bool)
    ensures
        r == (a == b),
{
    match (a, b) {
        (Some(x), Some(y)) => x == y,
        (None, None) => true,
        _ => false,
    }
}

/// Whether two lists of named entries (name and type) are equal.
pub fn named_equal<T: View<V = (Seq<char>, TypeId)> + NamedEntry>(a: &Vec<T>, b: &Vec<T>) -> (r: bool)
    ensures
        r == (named_models(a@) == named_models(b@)),
{
    if a.len() != b.len() {
        assert(named_models(a@).len() != named_models(b@).len());
        return false;
    }
    let mut i: usize = 0;
    while i < a.len()
        invariant
            a.len() == b.len(),
            i <= a.len(),
            forall|j: int| 0 <= j < i ==> a@[j]@ == b@[j]@,
        decreases a.len() - i,
    {
        let na: &String = a[i].entry_name();
        let nb: &String = b[i].entry_name();
        let same_name = string_eq(na, nb);
        if !same_name || a[i].entry_def() != b[i].entry_def() {
            assert(named_models(a@)[i as int] != named_models(b@)[i as int]);
            return false;
        }
        i = i + 1;
    }
    assert(named_models(a@) =~= named_models(b@));
    true
}

/// Whether two strings hold the same characters.
pub fn string_eq(a: &String, b: &String) -> (r: bool)
    ensures
        r == (a@ == b@),
{
    *a == *b
}

/// Access to the two components of a named entry.
pub trait NamedEntry: View<V = (Seq<char>, TypeId)> {
    fn entry_name(&self) -> (r: &String)
        ensures
            r@ == self@.0,
    ;

    fn entry_def(&self) -> (r: TypeId)
        ensures
            r == self@.1,
    ;
}

impl NamedEntry for Variant {
    fn entry_name(&self) -> (r: &String) {
        &self.name
    }

    fn entry_def(&self) -> (r: TypeId) {
        self.def
    }
}

impl NamedEntry for TypeParam {
    fn entry_name(&self) -> (r: &String) {
        &self.name
    }

    fn entry_def(&self) -> (r: TypeId) {
        self.id
    }
}

impl NamedEntry for StructField {
    fn entry_name(&self) -> (r: &String) {
        &self.name
    }

    fn entry_def(&self) -> (r: TypeId) {
        self.def
    }
}

impl NamedEntry for TraitMethod {
    fn entry_name(&self) -> (r: &String) {
        &self.name
    }

    fn entry_def(&self) -> (r: TypeId) {
        self.def
    }
}

impl Type {
    /// Structural equality of two types.
    pub fn same_as(&self, other: &Type) -> (r: bool)
        ensures
            r == (self@ == other@),
    {
        match (self, other) {
            (Type::Array(a), Type::Array(b)) => a.element == b.element,
            (Type::Boolean, Type::Boolean) => true,
            (Type::Dynamic, Type::Dynamic) => true,
            (Type::Enum(a), Type::Enum(b)) => a.id == b.id && named_equal(&a.variants, &b.variants),
            (Type::Float, Type::Float) => true,
            (Type::Function(a), Type::Function(b)) => {
                ids_equal(&a.type_params, &b.type_params) && ids_equal(&a.params, &b.params)
                    && a.return_type == b.return_type
            },
            (Type::Generic(a), Type::Generic(b)) => {
                ids_equal(&a.params, &b.params) && a.definition == b.definition
            },
            (Type::Listener(a), Type::Listener(b)) => a.inner == b.inner,
            (Type::Mapping(a), Type::Mapping(b)) => a.key == b.key && a.value == b.value,
            (Type::Integer, Type::Integer) => true,
            (Type::Option(a), Type::Option(b)) => a.some == b.some,
            (Type::Param(a), Type::Param(b)) => string_eq(&a.name, &b.name) && a.id == b.id,
            (Type::Ref(a), Type::Ref(b)) => a.inner == b.inner && ids_equal(&a.args, &b.args),
            (Type::Result(a), Type::Result(b)) => opt_id_equal(a.error, b.error) && a.ok == b.ok,
            (Type::SelfType, Type::SelfType) => true,
            (Type::Signal(a), Type::Signal(b)) => a.inner == b.inner,
            (Type::String, Type::String) => true,
            (Type::Struct(a), Type::Struct(b)) => {
                a.id == b.id && named_equal(&a.params, &b.params) && named_equal(
                    &a.fields,
                    &b.fields,
                )
            },
            (Type::Trait(a), Type::Trait(b)) => named_equal(&a.methods, &b.methods),
            (Type::Tuple(a), Type::Tuple(b)) => {
                ids_equal(&a.elements, &b.elements) && named_equal(&a.params, &b.params)
            },
            (Type::Unit, Type::Unit) => true,
            (Type::Unknown, Type::Unknown) => true,
            _ => false,
        }
    }

    /// Whether the type is a generic definition.
    pub fn is_generic(&self) -> (r: bool)
        ensures
            r == (self is Generic),
    {
        match self {
            Type::Generic(_) => true,
            _ => false,
        }
    }
}

} // verus!
