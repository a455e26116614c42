use vstd::prelude::*;

use crate::analysis_context::symbols::TypeSymbolBody;
use crate::diagnostics::{diagnostics_view, Diagnostic, DiagnosticKind, DiagnosticKindModel, DiagnosticLevel, DiagnosticModel};
use crate::locations::Location;
use crate::operators::error_at;

verus! {

/// The shape of the body written in a constructor literal.
#[derive(Clone, Copy, Debug, PartialEq, Eq, Structural)]
pub enum LiteralBody {
    /// Named fields in braces.
    Struct,
    /// Positional elements in parentheses.
    Tuple,
    /// No body.
    Unit,
}

/// How the body of a constructor literal is checked further.
#[derive(Clone, Copy, Debug, PartialEq, Eq, Structural)]
pub enum BodyCheck {
    /// Against the constructor's named fields.
    Fields,
    /// Against the constructor's positional members.
    Elements,
    /// The literal is the unit value of the constructor.
    Unit,
    /// The body does not fit the constructor; its expressions are checked alone.
    Rejected,
}

/// How a literal whose body has shape `written` (at `written_loc`) fits a
/// constructor that takes `expected` (`None`: no body), and the diagnostics
/// a mismatch reports: named fields need a struct-like constructor,
/// positional elements a tuple-like one, and a missing body a unit one.
pub open spec fn constructor_body_spec(
    expected: Option<TypeSymbolBody>,
    written: LiteralBody,
    written_loc: Location,
    literal_loc: Location,
) -> (BodyCheck, Seq<DiagnosticModel>) {
    match written {
        LiteralBody::Struct => match expected {
            Some(TypeSymbolBody::Struct(_)) => (BodyCheck::Fields, Seq::empty()),
            _ => (BodyCheck::Rejected, seq![error_at(written_loc, DiagnosticKindModel::ExpectedTupleLikeBody)]),
        },
        LiteralBody::Tuple => match expected {
            Some(TypeSymbolBody::Tuple(_)) => (BodyCheck::Elements, Seq::empty()),
            _ => (BodyCheck::Rejected, seq![error_at(written_loc, DiagnosticKindModel::ExpectedStructLikeBody)]),
        },
        LiteralBody::Unit => match expected {
            None => (BodyCheck::Unit, Seq::empty()),
            Some(_) => (BodyCheck::Rejected, seq![error_at(literal_loc, DiagnosticKindModel::ExpectedVariantUnit)]),
        },
    }
}

/// Decides how the body of a constructor literal (at `literal_loc`) is
/// checked against the constructor's expected body, reporting a body of
/// the wrong shape (see `constructor_body_spec`).
pub fn check_constructor_body(
    diagnostics: &mut Vec<Diagnostic>,
    expected: &Option<TypeSymbolBody>,
    written: LiteralBody,
    written_loc: Location,
    literal_loc: Location,
) -> (r: BodyCheck)
    ensures
        r == constructor_body_spec(*expected, written, written_loc, literal_loc).0,
        diagnostics_view(final(diagnostics)@) == diagnostics_view(old(diagnostics)@) + constructor_body_spec(
            *expected,
            written,
            written_loc,
            literal_loc,
        ).1,
{
    let ghost d0 = diagnostics_view(diagnostics@);
    let (r, error) = match written {
        LiteralBody::Struct => match expected {
            Some(TypeSymbolBody::Struct(_)) => (BodyCheck::Fields, None),
            _ => (BodyCheck::Rejected, Some((DiagnosticKind::ExpectedTupleLikeBody, written_loc))),
        },
        LiteralBody::Tuple => match expected {
            Some(TypeSymbolBody::Tuple(_)) => (BodyCheck::Elements, None),
            _ => (BodyCheck::Rejected, Some((DiagnosticKind::ExpectedStructLikeBody, written_loc))),
        },
        LiteralBody::Unit => match expected {
            None => (BodyCheck::Unit, None),
            Some(_) => (BodyCheck::Rejected, Some((DiagnosticKind::ExpectedVariantUnit, literal_loc))),
        },
    };
    match error {
        Some((kind, loc)) => {
            diagnostics.push(Diagnostic { level: DiagnosticLevel::Error, loc, kind });
        },
        None => {},
    }
    assert(diagnostics_view(diagnostics@) =~= d0 + constructor_body_spec(*expected, written, written_loc, literal_loc).1);
    r
}

} // verus!
