use vstd::prelude::*;

use crate::locations::Location;
use crate::symbols::SymbolAccessManager;
use crate::type_store::{BOOLEAN, FLOAT, INTEGER, STRING, UNKNOWN};
use crate::types::TypeId;

verus! {

/// The body of a struct or of an enum constructor.
#[derive(Clone, Debug)]
pub enum TypeSymbolBody {
    Struct(Vec<(String, SymbolRef)>),
    Tuple(Vec<SymbolRef>),
}

/// The mathematical value of a type body.
pub enum BodyModel {
    Struct(Seq<(Seq<char>, SymbolRef)>),
    Tuple(Seq<SymbolRef>),
}

/// The model of a type body: field names with their symbols, or the
/// positional members.
pub open spec fn body_model(b: TypeSymbolBody) -> BodyModel {
    match b {
        TypeSymbolBody::Struct(f) => BodyModel::Struct(f@.map_values(|e: (String, SymbolRef)| (e.0@, e.1))),
        TypeSymbolBody::Tuple(m) => BodyModel::Tuple(m@),
    }
}

/// A copy of a type body.
pub fn copy_body(b: &TypeSymbolBody) -> (r: TypeSymbolBody)
    ensures
        body_model(r) == body_model(*b),
{
    match b {
        TypeSymbolBody::Struct(fields) => {
            let mut r: Vec<(String, SymbolRef)> = Vec::new();
            let mut i: usize = 0;
            while i < fields.len()
                invariant
                    i <= fields@.len(),
                    r@.len() == i,
                    forall|k: int| 0 <= k < i ==> (#[trigger] r@[k]).0@ == fields@[k].0@ && r@[k].1 == fields@[k].1,
                decreases fields@.len() - i,
            {
                let name = fields[i].0.clone();
                r.push((name, fields[i].1));
                i = i + 1;
            }
            assert(r@.map_values(|e: (String, SymbolRef)| (e.0@, e.1)) =~= fields@.map_values(|e: (String, SymbolRef)| (e.0@, e.1)));
            TypeSymbolBody::Struct(r)
        },
        TypeSymbolBody::Tuple(members) => TypeSymbolBody::Tuple(copy_refs(members)),
    }
}

/// What a symbol names.
#[derive(Clone, Debug)]
pub enum SymbolKind {
    Value { mutable: bool },
    /// A function name; its type is a function type.
    Function { param_names: Vec<String> },
    PrimitiveType { methods: Vec<SymbolRef> },
    TypeAlias,
    Struct { body: TypeSymbolBody, methods: Vec<SymbolRef> },
    /// An enum; its variants are `Constructor` symbols.
    Enum { variants: Vec<SymbolRef>, methods: Vec<SymbolRef> },
    /// An enum constructor, owned by an enum symbol.
    Constructor { owner: SymbolRef, body: Option<TypeSymbolBody> },
    /// A member of the struct `owner`.
    Member { owner: SymbolRef },
    /// A method of the type `owner`; with a receiver it is an instance method.
    Method { owner: SymbolRef, owner_args: Vec<TypeId>, has_receiver: bool, param_names: Vec<String> },
}

impl SymbolKind {
    /// An immutable value.
    pub fn constant() -> (r: Self)
        ensures
            r == (SymbolKind::Value { mutable: false }),
    {
        SymbolKind::Value { mutable: false }
    }

    /// Whether this is a mutable value.
    pub fn is_mutable(&self) -> (r: bool)
        ensures
            r == (*self matches SymbolKind::Value { mutable } && mutable),
    {
        match self {
            SymbolKind::Value { mutable } => *mutable,
            _ => false,
        }
    }
}

/// A declared name with its type, kind and uses.
#[derive(Clone, Debug)]
pub struct SymbolData {
    pub name: String,
    pub ty: TypeId,
    pub kind: SymbolKind,
    pub defined_at: Location,
    pub docs: Option<String>,
    pub access: SymbolAccessManager,
    pub dependencies: Vec<SymbolRef>,
}

impl SymbolData {
    /// Whether the symbol is referenced somewhere.
    pub fn has_ref(&self) -> (r: bool)
        ensures
            r == (self.access.references_view().len() > 0),
    {
        self.access.has_references()
    }

    pub fn is_mutable(&self) -> (r: bool)
        ensures
            r == (self.kind matches SymbolKind::Value { mutable } && mutable),
    {
        self.kind.is_mutable()
    }

    pub fn get_type(&self) -> (r: TypeId)
        ensures
            r == self.ty,
    {
        self.ty
    }

    /// Whether the symbol names a struct or an enum.
    pub fn is_type_symbol(&self) -> (r: bool)
        ensures
            r == (self.kind is Struct || self.kind is Enum),
    {
        match self.kind {
            SymbolKind::Struct { .. } => true,
            SymbolKind::Enum { .. } => true,
            _ => false,
        }
    }
}

impl Default for SymbolData {
    fn default() -> (r: Self)
        ensures
            r.name@ == Seq::<char>::empty(),
            r.ty == UNKNOWN,
            r.kind == (SymbolKind::Value { mutable: false }),
            r.defined_at == Location::dummy_spec(),
            r.docs is None,
            r.access.uses_view() == Seq::<Location>::empty(),
            r.access.references_view() == Seq::<Location>::empty(),
            r.dependencies@ == Seq::<SymbolRef>::empty(),
    {
        let access = SymbolAccessManager::new();
        proof {
            assert(access.uses_view() =~= Seq::<Location>::empty());
        }
        SymbolData {
            name: String::new(),
            ty: UNKNOWN,
            kind: SymbolKind::constant(),
            defined_at: Location::dummy(),
            docs: None,
            access,
            dependencies: Vec::new(),
        }
    }
}

/// The symbols of a module; handles and references point into it.
#[derive(Clone, Debug)]
pub struct SymbolArena {
    entries: Vec<SymbolData>,
}

impl View for SymbolArena {
    type V = Seq<SymbolData>;

    closed spec fn view(&self) -> Seq<SymbolData> {
        self.entries@
    }
}

impl SymbolArena {
    pub fn new() -> (r: SymbolArena)
        ensures
            r@ == Seq::<SymbolData>::empty(),
    {
        SymbolArena { entries: Vec::new() }
    }

    pub fn len(&self) -> (r: usize)
        ensures
            r == self@.len(),
    {
        self.entries.len()
    }

    fn data(&self, i: usize) -> (r: &SymbolData)
        requires
            i < self@.len(),
        ensures
            *r == self@[i as int],
    {
        &self.entries[i]
    }

    /// Applies `f` to the uses of symbol `i`.
    fn access_mut(&mut self, i: usize) -> (r: &mut SymbolAccessManager)
        requires
            i < old(self)@.len(),
        ensures
            *r == old(self)@[i as int].access,
            final(self)@ == old(self)@.update(i as int, SymbolData { access: *final(r), ..old(self)@[i as int] }),
    {
        &mut self.entries[i].access
    }
}

/// The handle through which a symbol's uses are recorded.
#[derive(Clone, Copy, Debug, PartialEq, Eq, Structural)]
pub struct SymbolHandle(pub usize);

/// A read-only reference to a symbol.
#[derive(Clone, Copy, Debug, PartialEq, Eq, Structural)]
pub struct SymbolRef(pub usize);

impl SymbolHandle {
    /// Adds `symbol` to the arena and gives its handle.
    pub fn new(arena: &mut SymbolArena, symbol: SymbolData) -> (r: Self)
        ensures
            r.0 == old(arena)@.len(),
            final(arena)@ == old(arena)@.push(symbol),
    {
        let i = arena.entries.len();
        arena.entries.push(symbol);
        SymbolHandle(i)
    }

    /// Whether the symbol is a mutable value.
    pub fn is_mutable(&self, arena: &SymbolArena) -> (r: bool)
        requires
            self.0 < arena@.len(),
        ensures
            r == (arena@[self.0 as int].kind matches SymbolKind::Value { mutable } && mutable),
    {
        arena.data(self.0).kind.is_mutable()
    }

    /// Records a read of the symbol at `at`.
    pub fn read(&self, at: Location, arena: &mut SymbolArena)
        requires
            self.0 < old(arena)@.len(),
        ensures
            final(arena)@.len() == old(arena)@.len(),
            forall|k: int| 0 <= k < final(arena)@.len() && k != self.0 ==> final(arena)@[k] == old(arena)@[k],
            final(arena)@[self.0 as int].access.reads_view() == old(arena)@[self.0 as int].access.reads_view().push(at),
            final(arena)@[self.0 as int].access.writes_view() == old(arena)@[self.0 as int].access.writes_view(),
            final(arena)@[self.0 as int].access.references_view() == old(arena)@[self.0 as int].access.references_view(),
            final(arena)@[self.0 as int].name == old(arena)@[self.0 as int].name,
            final(arena)@[self.0 as int].kind == old(arena)@[self.0 as int].kind,
            final(arena)@[self.0 as int].ty == old(arena)@[self.0 as int].ty,
            final(arena)@[self.0 as int].defined_at == old(arena)@[self.0 as int].defined_at,
            final(arena)@[self.0 as int].docs == old(arena)@[self.0 as int].docs,
            final(arena)@[self.0 as int].dependencies == old(arena)@[self.0 as int].dependencies,
    {
        arena.access_mut(self.0).read(at);
    }

    /// Records a reference to the symbol at `at`.
    pub fn reference(&self, at: Location, arena: &mut SymbolArena)
        requires
            self.0 < old(arena)@.len(),
        ensures
            final(arena)@.len() == old(arena)@.len(),
            forall|k: int| 0 <= k < final(arena)@.len() && k != self.0 ==> final(arena)@[k] == old(arena)@[k],
            final(arena)@[self.0 as int].access.reads_view() == old(arena)@[self.0 as int].access.reads_view(),
            final(arena)@[self.0 as int].access.writes_view() == old(arena)@[self.0 as int].access.writes_view(),
            final(arena)@[self.0 as int].access.references_view() == old(arena)@[self.0 as int].access.references_view().push(at),
            final(arena)@[self.0 as int].name == old(arena)@[self.0 as int].name,
            final(arena)@[self.0 as int].kind == old(arena)@[self.0 as int].kind,
            final(arena)@[self.0 as int].ty == old(arena)@[self.0 as int].ty,
            final(arena)@[self.0 as int].defined_at == old(arena)@[self.0 as int].defined_at,
            final(arena)@[self.0 as int].docs == old(arena)@[self.0 as int].docs,
            final(arena)@[self.0 as int].dependencies == old(arena)@[self.0 as int].dependencies,
    {
        arena.access_mut(self.0).reference(at);
    }

    /// Records a write of the symbol at `at`.
    pub fn write(&self, at: Location, arena: &mut SymbolArena)
        requires
            self.0 < old(arena)@.len(),
        ensures
            final(arena)@.len() == old(arena)@.len(),
            forall|k: int| 0 <= k < final(arena)@.len() && k != self.0 ==> final(arena)@[k] == old(arena)@[k],
            final(arena)@[self.0 as int].access.reads_view() == old(arena)@[self.0 as int].access.reads_view(),
            final(arena)@[self.0 as int].access.writes_view() == old(arena)@[self.0 as int].access.writes_view().push(at),
            final(arena)@[self.0 as int].access.references_view() == old(arena)@[self.0 as int].access.references_view(),
            final(arena)@[self.0 as int].name == old(arena)@[self.0 as int].name,
            final(arena)@[self.0 as int].kind == old(arena)@[self.0 as int].kind,
            final(arena)@[self.0 as int].ty == old(arena)@[self.0 as int].ty,
            final(arena)@[self.0 as int].defined_at == old(arena)@[self.0 as int].defined_at,
            final(arena)@[self.0 as int].docs == old(arena)@[self.0 as int].docs,
            final(arena)@[self.0 as int].dependencies == old(arena)@[self.0 as int].dependencies,
    {
        arena.access_mut(self.0).write(at);
    }

    /// Turns the reads of the symbol at `at` into a write at `at`.
    pub fn read_to_write(&self, at: Location, arena: &mut SymbolArena)
        requires
            self.0 < old(arena)@.len(),
        ensures
            final(arena)@.len() == old(arena)@.len(),
            forall|k: int| 0 <= k < final(arena)@.len() && k != self.0 ==> final(arena)@[k] == old(arena)@[k],
            final(arena)@[self.0 as int].access.reads_view() == old(arena)@[self.0 as int].access.reads_view().filter(|l: Location| l != at),
            final(arena)@[self.0 as int].access.writes_view() == old(arena)@[self.0 as int].access.writes_view().push(at),
            final(arena)@[self.0 as int].access.references_view() == old(arena)@[self.0 as int].access.references_view(),
            final(arena)@[self.0 as int].name == old(arena)@[self.0 as int].name,
            final(arena)@[self.0 as int].kind == old(arena)@[self.0 as int].kind,
            final(arena)@[self.0 as int].ty == old(arena)@[self.0 as int].ty,
            final(arena)@[self.0 as int].defined_at == old(arena)@[self.0 as int].defined_at,
            final(arena)@[self.0 as int].docs == old(arena)@[self.0 as int].docs,
            final(arena)@[self.0 as int].dependencies == old(arena)@[self.0 as int].dependencies,
    {
        arena.access_mut(self.0).read_to_write(at);
    }

    /// Turns the reads at `at` into a write, and records a reference at `at`.
    pub fn read_to_mutable_ref(&self, at: Location, arena: &mut SymbolArena)
        requires
            self.0 < old(arena)@.len(),
        ensures
            final(arena)@.len() == old(arena)@.len(),
            forall|k: int| 0 <= k < final(arena)@.len() && k != self.0 ==> final(arena)@[k] == old(arena)@[k],
            final(arena)@[self.0 as int].access.reads_view() == old(arena)@[self.0 as int].access.reads_view().filter(|l: Location| l != at),
            final(arena)@[self.0 as int].access.writes_view() == old(arena)@[self.0 as int].access.writes_view().push(at),
            final(arena)@[self.0 as int].access.references_view() == old(arena)@[self.0 as int].access.references_view().push(at),
            final(arena)@[self.0 as int].name == old(arena)@[self.0 as int].name,
            final(arena)@[self.0 as int].kind == old(arena)@[self.0 as int].kind,
            final(arena)@[self.0 as int].ty == old(arena)@[self.0 as int].ty,
            final(arena)@[self.0 as int].defined_at == old(arena)@[self.0 as int].defined_at,
            final(arena)@[self.0 as int].docs == old(arena)@[self.0 as int].docs,
            final(arena)@[self.0 as int].dependencies == old(arena)@[self.0 as int].dependencies,
    {
        self.read_to_write(at, arena);
        self.reference(at, arena);
    }

    /// The symbol's data.
    pub fn borrow<'a>(&self, arena: &'a SymbolArena) -> (r: &'a SymbolData)
        requires
            self.0 < arena@.len(),
        ensures
            *r == arena@[self.0 as int],
    {
        arena.data(self.0)
    }

    /// A read-only reference to the same symbol.
    pub fn readonly(&self) -> (r: SymbolRef)
        ensures
            r.0 == self.0,
    {
        SymbolRef(self.0)
    }

    /// Whether `variable` refers to this handle's symbol.
    pub fn has_ref(&self, variable: &SymbolRef) -> (r: bool)
        ensures
            r == (self.0 == variable.0),
    {
        self.0 == variable.0
    }
}

impl SymbolRef {
    /// The symbol's data.
    pub fn borrow<'a>(&self, arena: &'a SymbolArena) -> (r: &'a SymbolData)
        requires
            self.0 < arena@.len(),
        ensures
            *r == arena@[self.0 as int],
    {
        arena.data(self.0)
    }

    pub fn as_name(&self, arena: &SymbolArena) -> (r: String)
        requires
            self.0 < arena@.len(),
        ensures
            r@ == arena@[self.0 as int].name@,
    {
        arena.data(self.0).name.clone()
    }

    pub fn as_type(&self, arena: &SymbolArena) -> (r: TypeId)
        requires
            self.0 < arena@.len(),
        ensures
            r == arena@[self.0 as int].ty,
    {
        arena.data(self.0).ty
    }

    /// The body of a struct or constructor symbol.
    pub fn as_type_body(&self, arena: &SymbolArena) -> (r: Option<TypeSymbolBody>)
        requires
            self.0 < arena@.len(),
        ensures
            match arena@[self.0 as int].kind {
                SymbolKind::Struct { body, .. } => r matches Some(b) && body_model(b) == body_model(body),
                SymbolKind::Constructor { body, .. } => match body {
                    Some(cb) => r matches Some(b) && body_model(b) == body_model(cb),
                    None => r is None,
                },
                _ => r is None,
            },
    {
        match &arena.data(self.0).kind {
            SymbolKind::Struct { body, .. } => Some(copy_body(body)),
            SymbolKind::Constructor { body, .. } => match body {
                Some(b) => Some(copy_body(b)),
                None => None,
            },
            _ => None,
        }
    }

    /// The variants of an enum symbol.
    pub fn as_variants(&self, arena: &SymbolArena) -> (r: Option<Vec<SymbolRef>>)
        requires
            self.0 < arena@.len(),
        ensures
            match arena@[self.0 as int].kind {
                SymbolKind::Enum { variants, .. } => r matches Some(v) && v@ == variants@,
                _ => r is None,
            },
    {
        match &arena.data(self.0).kind {
            SymbolKind::Enum { variants, .. } => Some(copy_refs(variants)),
            _ => None,
        }
    }

    /// Whether both refer to the same symbol.
    pub fn is(&self, test: &SymbolRef) -> (r: bool)
        ensures
            r == (self.0 == test.0),
    {
        self.0 == test.0
    }

    /// The definition place followed by all uses of the symbol.
    pub fn uses(&self, arena: &SymbolArena) -> (r: Vec<Location>)
        requires
            self.0 < arena@.len(),
        ensures
            r@ == seq![arena@[self.0 as int].defined_at] + arena@[self.0 as int].access.uses_view(),
    {
        let data = arena.data(self.0);
        let mut r: Vec<Location> = Vec::new();
        r.push(data.defined_at);
        let mut rest = data.access.uses();
        r.append(&mut rest);
        r
    }

    /// Whether the symbol is referenced somewhere.
    pub fn is_referenced(&self, arena: &SymbolArena) -> (r: bool)
        requires
            self.0 < arena@.len(),
        ensures
            r == (arena@[self.0 as int].access.references_view().len() > 0),
    {
        arena.data(self.0).access.has_references()
    }

    /// Whether the symbol's type is `bool`, `float`, `int` or `str`.
    pub fn is_scalar(&self, arena: &SymbolArena) -> (r: bool)
        requires
            self.0 < arena@.len(),
        ensures
            r == is_scalar_type(arena@[self.0 as int].ty),
    {
        let ty = self.as_type(arena);
        ty == BOOLEAN || ty == FLOAT || ty == INTEGER || ty == STRING
    }
}

/// Whether `ty` is one of the scalar types.
pub open spec fn is_scalar_type(ty: TypeId) -> bool {
    ty == BOOLEAN || ty == FLOAT || ty == INTEGER || ty == STRING
}

/// A copy of a list of references.
pub fn copy_refs(v: &Vec<SymbolRef>) -> (r: Vec<SymbolRef>)
    ensures
        r@ == v@,
{
    let mut r: Vec<SymbolRef> = Vec::new();
    let mut i: usize = 0;
    while i < v.len()
        invariant
            i <= v@.len(),
            r@ == v@.take(i as int),
        decreases v@.len() - i,
    {
        r.push(v[i]);
        i = i + 1;
        assert(r@ =~= v@.take(i as int));
    }
    assert(v@.take(v@.len() as int) =~= v@);
    r
}

} // verus!
