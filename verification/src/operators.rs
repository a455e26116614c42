use vstd::prelude::*;

use crate::analysis_context::LocalContext;
use crate::ast::BinaryOperator;
use crate::diagnostics::{
    Diagnostic, DiagnosticKind, DiagnosticKindModel, DiagnosticLevel, DiagnosticModel,
    diagnostics_view,
};
use crate::locations::Location;
use crate::type_display::{display_spec, display_type};
use crate::type_store::{TypeStore, BOOLEAN, FLOAT, INTEGER, STRING, UNKNOWN};
use crate::types::TypeId;

verus! {

/// Whether `t` is a number type.
pub open spec fn is_numeric(t: TypeId) -> bool {
    t == INTEGER || t == FLOAT
}

/// Whether the operator accepts an operand of type `t`.
pub open spec fn operand_ok(op: BinaryOperator, t: TypeId) -> bool {
    match op {
        BinaryOperator::Add => t == INTEGER || t == FLOAT || t == STRING,
        BinaryOperator::EqEq | BinaryOperator::Neq => true,
        BinaryOperator::LAnd | BinaryOperator::LOr => t == BOOLEAN,
        _ => is_numeric(t),
    }
}

/// The type of `left op right`: strings concatenate; arithmetic keeps a
/// common number type; comparisons and logic give booleans; anything else
/// is unknown.
pub open spec fn binary_type(op: BinaryOperator, left: TypeId, right: TypeId) -> TypeId {
    match op {
        BinaryOperator::Add => if left == right && (left == STRING || left == INTEGER || left == FLOAT) {
            left
        } else {
            UNKNOWN
        },
        BinaryOperator::Sub | BinaryOperator::Mul | BinaryOperator::Div | BinaryOperator::Mod
        | BinaryOperator::Pow => if left == right && is_numeric(left) {
            left
        } else {
            UNKNOWN
        },
        _ => BOOLEAN,
    }
}

/// An error diagnostic.
pub open spec fn error_at(loc: Location, kind: DiagnosticKindModel) -> DiagnosticModel {
    DiagnosticModel { level: DiagnosticLevel::Error, loc, kind }
}

/// The report of an operand whose known type the operator does not accept.
pub open spec fn operand_report(store: TypeStore, op: BinaryOperator, t: TypeId, loc: Location) -> Seq<DiagnosticModel> {
    if t != UNKNOWN && !operand_ok(op, t) {
        seq![error_at(loc, DiagnosticKindModel::InvalidTypeForOperator(op, display_spec(store, t)))]
    } else {
        Seq::empty()
    }
}

/// Whether the two operand types clash: for `==` and `!=`, known and
/// different; for arithmetic and `+`, both accepted and different.
pub open spec fn operands_clash(op: BinaryOperator, left: TypeId, right: TypeId) -> bool {
    match op {
        BinaryOperator::EqEq | BinaryOperator::Neq => !(left == right || left == UNKNOWN || right == UNKNOWN),
        BinaryOperator::LAnd | BinaryOperator::LOr => false,
        _ => operand_ok(op, left) && operand_ok(op, right) && left != right,
    }
}

/// The diagnostics of `left op right` at `loc`, whose operands have the
/// given types and locations: the reports of the left and then the right
/// operand, then a clash of the two.
pub open spec fn binary_reports(
    store: TypeStore,
    op: BinaryOperator,
    loc: Location,
    left: TypeId,
    left_loc: Location,
    right: TypeId,
    right_loc: Location,
) -> Seq<DiagnosticModel> {
    operand_report(store, op, left, left_loc) + operand_report(store, op, right, right_loc) + if operands_clash(
        op,
        left,
        right,
    ) {
        seq![error_at(loc, DiagnosticKindModel::MismatchedTypes(display_spec(store, left), display_spec(store, right)))]
    } else {
        Seq::empty()
    }
}

/// The type of `left op right`.
pub fn get_binary_expression_type(op: BinaryOperator, left: TypeId, right: TypeId) -> (r: TypeId)
    ensures
        r == binary_type(op, left, right),
{
    match op {
        BinaryOperator::Add => if left == STRING && right == STRING {
            STRING
        } else if left == INTEGER && right == INTEGER {
            INTEGER
        } else if left == FLOAT && right == FLOAT {
            FLOAT
        } else {
            UNKNOWN
        },
        BinaryOperator::Sub | BinaryOperator::Mul | BinaryOperator::Div | BinaryOperator::Mod
        | BinaryOperator::Pow => if left == INTEGER && right == INTEGER {
            INTEGER
        } else if left == FLOAT && right == FLOAT {
            FLOAT
        } else {
            UNKNOWN
        },
        _ => BOOLEAN,
    }
}

/// Whether the operator accepts an operand of type `t`.
fn accepts(op: BinaryOperator, t: TypeId) -> (r: bool)
    ensures
        r == operand_ok(op, t),
{
    match op {
        BinaryOperator::Add => t == INTEGER || t == FLOAT || t == STRING,
        BinaryOperator::EqEq | BinaryOperator::Neq => true,
        BinaryOperator::LAnd | BinaryOperator::LOr => t == BOOLEAN,
        _ => t == INTEGER || t == FLOAT,
    }
}

/// Reports an operand whose type the operator does not accept.
fn push_binary_error(
    diagnostics: &mut Vec<Diagnostic>,
    store: &TypeStore,
    op: BinaryOperator,
    ty: TypeId,
    loc: Location,
)
    requires
        store.children_below_upto(ty as int),
        ty < store.len(),
    ensures
        diagnostics_view(final(diagnostics)@) == diagnostics_view(old(diagnostics)@).push(
            error_at(loc, DiagnosticKindModel::InvalidTypeForOperator(op, display_spec(*store, ty))),
        ),
{
    let type_text = display_type(store, ty);
    diagnostics.push(
        Diagnostic { level: DiagnosticLevel::Error, loc, kind: DiagnosticKind::InvalidTypeForOperator { operator: op, type_text } },
    );
    assert(diagnostics_view(diagnostics@) =~= diagnostics_view(old(diagnostics)@).push(
        error_at(loc, DiagnosticKindModel::InvalidTypeForOperator(op, display_spec(*store, ty))),
    ));
}

/// Checks `left op right` at `loc`, whose operands were found to have the
/// types `left` and `right` (`UNKNOWN` for a missing operand): reports the
/// operands the operator does not accept and operands that clash, records
/// the type of the whole expression at `loc` and gives it back.
pub fn check_binary_expression(
    ctx: &mut LocalContext,
    diagnostics: &mut Vec<Diagnostic>,
    op: BinaryOperator,
    loc: Location,
    left: TypeId,
    left_loc: Location,
    right: TypeId,
    right_loc: Location,
) -> (r: TypeId)
    requires
        old(ctx).wf(),
        old(ctx).type_store.children_below_upto(left as int),
        old(ctx).type_store.children_below_upto(right as int),
        left < old(ctx).type_store.len(),
        right < old(ctx).type_store.len(),
    ensures
        final(ctx).wf(),
        r == binary_type(op, left, right),
        diagnostics_view(final(diagnostics)@) == diagnostics_view(old(diagnostics)@) + binary_reports(
            old(ctx).type_store,
            op,
            loc,
            left,
            left_loc,
            right,
            right_loc,
        ),
        final(ctx).expression_types() == old(ctx).expression_types().insert(loc, r),
        final(ctx).arena == old(ctx).arena,
        final(ctx).symbols == old(ctx).symbols,
        final(ctx).scopes == old(ctx).scopes,
{
    let ghost d0 = diagnostics_view(diagnostics@);
    let ghost store = ctx.type_store;
    let left_ok = accepts(op, left);
    let right_ok = accepts(op, right);
    if left != UNKNOWN && !left_ok {
        push_binary_error(diagnostics, &ctx.type_store, op, left, left_loc);
    }
    let ghost d1 = diagnostics_view(diagnostics@);
    assert(d1 == d0 + operand_report(store, op, left, left_loc));
    if right != UNKNOWN && !right_ok {
        push_binary_error(diagnostics, &ctx.type_store, op, right, right_loc);
    }
    let ghost d2 = diagnostics_view(diagnostics@);
    assert(d2 == d1 + operand_report(store, op, right, right_loc));
    let clash = match op {
        BinaryOperator::EqEq | BinaryOperator::Neq => !(left == right || left == UNKNOWN || right == UNKNOWN),
        BinaryOperator::LAnd | BinaryOperator::LOr => false,
        _ => left_ok && right_ok && left != right,
    };
    if clash {
        let left_name = display_type(&ctx.type_store, left);
        let right_name = display_type(&ctx.type_store, right);
        diagnostics.push(
            Diagnostic { level: DiagnosticLevel::Error, loc, kind: DiagnosticKind::MismatchedTypes { left_name, right_name } },
        );
        assert(diagnostics_view(diagnostics@) =~= d2.push(
            error_at(loc, DiagnosticKindModel::MismatchedTypes(display_spec(store, left), display_spec(store, right))),
        ));
    } else {
        assert(diagnostics_view(diagnostics@) =~= d2 + Seq::<DiagnosticModel>::empty());
    }
    assert(diagnostics_view(diagnostics@) =~= d0 + binary_reports(store, op, loc, left, left_loc, right, right_loc));
    let ty = get_binary_expression_type(op, left, right);
    ctx.save_expression_type(loc, ty)
}

/// Arithmetic on two operands of one number type gives that type: `int`
/// with `int` is `int`, `float` with `float` is `float`; `+` also joins two
/// strings into a string.
pub proof fn lemma_arithmetic_keeps_number_type(op: BinaryOperator, t: TypeId)
    requires
        op is Add || op is Sub || op is Mul || op is Div || op is Mod || op is Pow,
        t == INTEGER || t == FLOAT,
    ensures
        binary_type(op, t, t) == t,
        binary_type(BinaryOperator::Add, STRING, STRING) == STRING,
{
}

/// Arithmetic on operands of two different types has no known type.
pub proof fn lemma_arithmetic_mixed_is_unknown(op: BinaryOperator, l: TypeId, r: TypeId)
    requires
        op is Add || op is Sub || op is Mul || op is Div || op is Mod || op is Pow,
        l != r,
    ensures
        binary_type(op, l, r) == UNKNOWN,
{
}

/// Comparisons and logical operators always give a boolean.
pub proof fn lemma_comparison_is_boolean(op: BinaryOperator, l: TypeId, r: TypeId)
    requires
        !(op is Add || op is Sub || op is Mul || op is Div || op is Mod || op is Pow),
    ensures
        binary_type(op, l, r) == BOOLEAN,
{
}

/// Which operand types the operators accept: numbers for arithmetic and
/// ordering, also strings for `+`; booleans only for `&&` and `||`; anything
/// for `==` and `!=`.
pub proof fn lemma_accepted_operands(op: BinaryOperator, t: TypeId)
    ensures
        (op is Sub || op is Mul || op is Div || op is Mod || op is Pow || op is Less || op is Leq
            || op is Grt || op is Geq) ==> (operand_ok(op, t) <==> (t == INTEGER || t == FLOAT)),
        op is Add ==> (operand_ok(op, t) <==> (t == INTEGER || t == FLOAT || t == STRING)),
        (op is LAnd || op is LOr) ==> (operand_ok(op, t) <==> t == BOOLEAN),
        (op is EqEq || op is Neq) ==> operand_ok(op, t),
{
}

/// A well-typed binary expression reports nothing: two operands of one type
/// that the operator accepts give no diagnostic.
pub proof fn lemma_well_typed_reports_nothing(
    store: TypeStore,
    op: BinaryOperator,
    loc: Location,
    t: TypeId,
    left_loc: Location,
    right_loc: Location,
)
    requires
        operand_ok(op, t),
    ensures
        binary_reports(store, op, loc, t, left_loc, t, right_loc) == Seq::<DiagnosticModel>::empty(),
{
    assert(Seq::<DiagnosticModel>::empty() + Seq::<DiagnosticModel>::empty() + Seq::<DiagnosticModel>::empty()
        =~= Seq::<DiagnosticModel>::empty());
}

/// Two accepted operands of different types report exactly one mismatch,
/// at the whole expression, naming the left type and then the right one.
pub proof fn lemma_mismatch_reported(
    store: TypeStore,
    op: BinaryOperator,
    loc: Location,
    l: TypeId,
    left_loc: Location,
    r: TypeId,
    right_loc: Location,
)
    requires
        !(op is LAnd || op is LOr),
        operand_ok(op, l),
        operand_ok(op, r),
        l != r,
        l != UNKNOWN,
        r != UNKNOWN,
    ensures
        binary_reports(store, op, loc, l, left_loc, r, right_loc) == seq![
            error_at(loc, DiagnosticKindModel::MismatchedTypes(display_spec(store, l), display_spec(store, r))),
        ],
{
    let e = Seq::<DiagnosticModel>::empty();
    let m = seq![error_at(loc, DiagnosticKindModel::MismatchedTypes(display_spec(store, l), display_spec(store, r)))];
    assert(e + e + m =~= m);
}

/// An operand of a known type that the operator refuses is reported at the
/// operand, first the left one.
pub proof fn lemma_refused_operand_reported(
    store: TypeStore,
    op: BinaryOperator,
    loc: Location,
    l: TypeId,
    left_loc: Location,
    r: TypeId,
    right_loc: Location,
)
    requires
        l != UNKNOWN,
        !operand_ok(op, l),
    ensures
        binary_reports(store, op, loc, l, left_loc, r, right_loc)[0]
            == error_at(left_loc, DiagnosticKindModel::InvalidTypeForOperator(op, display_spec(store, l))),
        binary_reports(store, op, loc, l, left_loc, r, right_loc).len() >= 1,
{
}

} // verus!
