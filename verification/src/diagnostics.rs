use vstd::prelude::*;

use crate::ast::BinaryOperator;
use crate::locations::Location;

verus! {

/// How serious a diagnostic is.
#[derive(Clone, Copy, Debug, PartialEq, Eq, Structural)]
pub enum DiagnosticLevel {
    Error,
    Warning,
}

/// What went wrong.
#[derive(Debug, Clone, PartialEq, Eq)]
pub enum DiagnosticKind {
    /// One of the listed tokens was expected at this place.
    ExpectedToken { expected: Vec<String> },
    /// This token was not expected at this place.
    UnexpectedToken { token: String },
    /// An expression is missing.
    MissingExpression,
    /// A member access has no valid member after the dot.
    InvalidMember,
    /// A loop has no body.
    MissingConsequent,
    /// The two sides of an operation have different types.
    MismatchedTypes { left_name: String, right_name: String },
    /// An operand's type is not one the operator accepts.
    InvalidTypeForOperator { operator: BinaryOperator, type_text: String },
    /// The object has no field or method of this name.
    UnknownMember { member: String },
    /// A method that changes its object is called on an immutable object.
    MutatingMethodOnImmutable,
    /// A tuple index is applied to a value that is not a tuple.
    ExpectedTuple { got: String },
    /// A tuple index is negative.
    NegativeTupleIndex,
    /// A literal gives named fields where the constructor takes positional ones.
    ExpectedTupleLikeBody,
    /// A literal gives positional elements where the constructor takes named fields.
    ExpectedStructLikeBody,
    /// A literal gives no body where the constructor takes one.
    ExpectedVariantUnit,
    /// A call has another number of arguments than the callee takes.
    ArgumentCountMismatch { expected: usize, got: usize },
    /// A callback is given where something else is expected.
    UnexpectedCallback { expected: String },
    /// A derived value depends on nothing that can change.
    NonReactiveExpression,
    /// A method has the name of a field of its type.
    DuplicateFieldName { name: String },
}

/// The mathematical value of a diagnostic kind.
pub enum DiagnosticKindModel {
    ExpectedToken(Seq<Seq<char>>),
    UnexpectedToken(Seq<char>),
    MissingExpression,
    InvalidMember,
    MissingConsequent,
    MismatchedTypes(Seq<char>, Seq<char>),
    InvalidTypeForOperator(BinaryOperator, Seq<char>),
    UnknownMember(Seq<char>),
    MutatingMethodOnImmutable,
    ExpectedTuple(Seq<char>),
    NegativeTupleIndex,
    ExpectedTupleLikeBody,
    ExpectedStructLikeBody,
    ExpectedVariantUnit,
    ArgumentCountMismatch(usize, usize),
    UnexpectedCallback(Seq<char>),
    NonReactiveExpression,
    DuplicateFieldName(Seq<char>),
}

/// The texts of a list of strings.
pub open spec fn strings_view(v: Seq<String>) -> Seq<Seq<char>> {
    v.map_values(|s: String| s@)
}

impl View for DiagnosticKind {
    type V = DiagnosticKindModel;

    open spec fn view(&self) -> DiagnosticKindModel {
        match self {
            DiagnosticKind::ExpectedToken { expected } => DiagnosticKindModel::ExpectedToken(
                strings_view(expected@),
            ),
            DiagnosticKind::UnexpectedToken { token } => DiagnosticKindModel::UnexpectedToken(
                token@,
            ),
            DiagnosticKind::MissingExpression => DiagnosticKindModel::MissingExpression,
            DiagnosticKind::InvalidMember => DiagnosticKindModel::InvalidMember,
            DiagnosticKind::MissingConsequent => DiagnosticKindModel::MissingConsequent,
            DiagnosticKind::MismatchedTypes { left_name, right_name } => DiagnosticKindModel::MismatchedTypes(
                left_name@,
                right_name@,
            ),
            DiagnosticKind::InvalidTypeForOperator { operator, type_text } =>
                DiagnosticKindModel::InvalidTypeForOperator(*operator, type_text@),
            DiagnosticKind::UnknownMember { member } => DiagnosticKindModel::UnknownMember(member@),
            DiagnosticKind::MutatingMethodOnImmutable => DiagnosticKindModel::MutatingMethodOnImmutable,
            DiagnosticKind::ExpectedTuple { got } => DiagnosticKindModel::ExpectedTuple(got@),
            DiagnosticKind::NegativeTupleIndex => DiagnosticKindModel::NegativeTupleIndex,
            DiagnosticKind::ExpectedTupleLikeBody => DiagnosticKindModel::ExpectedTupleLikeBody,
            DiagnosticKind::ExpectedStructLikeBody => DiagnosticKindModel::ExpectedStructLikeBody,
            DiagnosticKind::ExpectedVariantUnit => DiagnosticKindModel::ExpectedVariantUnit,
            DiagnosticKind::ArgumentCountMismatch { expected, got } => DiagnosticKindModel::ArgumentCountMismatch(*expected, *got),
            DiagnosticKind::UnexpectedCallback { expected } => DiagnosticKindModel::UnexpectedCallback(expected@),
            DiagnosticKind::NonReactiveExpression => DiagnosticKindModel::NonReactiveExpression,
            DiagnosticKind::DuplicateFieldName { name } => DiagnosticKindModel::DuplicateFieldName(name@),
        }
    }
}

/// A message about the source, attached to a location.
#[derive(Debug, Clone, PartialEq, Eq)]
pub struct Diagnostic {
    pub level: DiagnosticLevel,
    pub loc: Location,
    pub kind: DiagnosticKind,
}

/// The mathematical value of a diagnostic.
pub struct DiagnosticModel {
    pub level: DiagnosticLevel,
    pub loc: Location,
    pub kind: DiagnosticKindModel,
}

impl View for Diagnostic {
    type V = DiagnosticModel;

    open spec fn view(&self) -> DiagnosticModel {
        DiagnosticModel { level: self.level, loc: self.loc, kind: self.kind@ }
    }
}

/// The models of a list of diagnostics.
pub open spec fn diagnostics_view(v: Seq<Diagnostic>) -> Seq<DiagnosticModel> {
    v.map_values(|d: Diagnostic| d@)
}

} // verus!
