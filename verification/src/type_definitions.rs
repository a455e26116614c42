use vstd::prelude::*;

use crate::types::{StructType, TupleType, Type, TypeParam};

verus! {

/// The body of a type definition: named fields or a tuple of types.
#[derive(Debug)]
pub enum TypeBody {
    Struct(StructType),
    Tuple(TupleType),
}

impl TypeBody {
    /// Gives the body the type parameters of its definition.
    pub fn set_params(&mut self, type_params: Vec<TypeParam>)
        ensures
            match (*old(self), *final(self)) {
                (TypeBody::Struct(a), TypeBody::Struct(b)) => b.id == a.id && b.fields == a.fields
                    && b.params == type_params,
                (TypeBody::Tuple(a), TypeBody::Tuple(b)) => b.elements == a.elements && b.params == type_params,
                _ => false,
            },
    {
        match self {
            TypeBody::Struct(ty) => ty.params = type_params,
            TypeBody::Tuple(ty) => ty.params = type_params,
        }
    }
}

impl From<StructType> for TypeBody {
    fn from(value: StructType) -> (r: Self) {
        TypeBody::Struct(value)
    }
}

impl vstd::std_specs::convert::FromSpecImpl<StructType> for TypeBody {
    open spec fn obeys_from_spec() -> bool {
        true
    }

    open spec fn from_spec(value: StructType) -> Self {
        TypeBody::Struct(value)
    }
}

impl From<TupleType> for TypeBody {
    fn from(value: TupleType) -> (r: Self) {
        TypeBody::Tuple(value)
    }
}

impl vstd::std_specs::convert::FromSpecImpl<TupleType> for TypeBody {
    open spec fn obeys_from_spec() -> bool {
        true
    }

    open spec fn from_spec(value: TupleType) -> Self {
        TypeBody::Tuple(value)
    }
}

impl From<TypeBody> for Type {
    fn from(value: TypeBody) -> (r: Self) {
        match value {
            TypeBody::Struct(ty) => Type::Struct(ty),
            TypeBody::Tuple(ty) => Type::Tuple(ty),
        }
    }
}

impl vstd::std_specs::convert::FromSpecImpl<TypeBody> for Type {
    open spec fn obeys_from_spec() -> bool {
        true
    }

    open spec fn from_spec(value: TypeBody) -> Self {
        match value {
            TypeBody::Struct(ty) => Type::Struct(ty),
            TypeBody::Tuple(ty) => Type::Tuple(ty),
        }
    }
}

} // verus!
