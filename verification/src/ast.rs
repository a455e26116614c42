use vstd::prelude::*;

use crate::locations::Location;

verus! {

/// An integer literal.
#[derive(Debug, PartialEq)]
pub struct IntLiteral {
    pub loc: Location,
    pub value: i64,
}

/// A float literal, kept as its source text.
#[derive(Debug, PartialEq)]
pub struct FloatLiteral {
    pub loc: Location,
    pub text: String,
}

/// `true` or `false`.
#[derive(Debug, PartialEq)]
pub struct BooleanLiteral {
    pub loc: Location,
    pub value: bool,
}

/// A string literal, escapes resolved.
#[derive(Debug, PartialEq)]
pub struct StringLiteral {
    pub loc: Location,
    pub text: String,
}

/// A name.
#[derive(Debug, PartialEq)]
pub struct Identifier {
    pub loc: Location,
    pub text: String,
}

/// `(a, b, ...)`
#[derive(Debug, PartialEq)]
pub struct TupleExpression {
    pub loc: Location,
    pub elements: Vec<Expression>,
}

/// `[a, b, ...]`
#[derive(Debug, PartialEq)]
pub struct ArrayExpression {
    pub loc: Location,
    pub elements: Vec<Expression>,
}

/// The operator of a binary expression.
#[derive(Clone, Copy, Debug, PartialEq, Eq, Structural)]
pub enum BinaryOperator {
    Add,
    Sub,
    Mul,
    Div,
    Mod,
    Pow,
    EqEq,
    Neq,
    Geq,
    Grt,
    Leq,
    Less,
    LAnd,
    LOr,
}

/// `left operator right`
#[derive(Debug, PartialEq)]
pub struct BinaryExpression {
    pub loc: Location,
    pub left: Box<Expression>,
    pub operator: BinaryOperator,
    pub right: Box<Expression>,
}

/// The operator of a unary expression.
#[derive(Clone, Copy, Debug, PartialEq, Eq, Structural)]
pub enum UnaryOperator {
    Ampersand,
    At,
    Bang,
    Dollar,
    Minus,
    Star,
}

/// `operator operand`
#[derive(Debug, PartialEq)]
pub struct UnaryExpression {
    pub loc: Location,
    pub operator: UnaryOperator,
    pub operand: Box<Expression>,
}

/// What follows the dot of a member access.
#[derive(Debug, PartialEq)]
pub enum MemberProp {
    FieldName(Identifier),
    Index(IntLiteral),
}

/// `object.prop`; `prop` is `None` when the member is missing or invalid.
#[derive(Debug, PartialEq)]
pub struct MemberExpression {
    pub loc: Location,
    pub object: Box<Expression>,
    pub prop: Option<MemberProp>,
}

/// A parameter of a callback argument.
#[derive(Debug, PartialEq)]
pub enum CallbackParam {
    Identifier(Identifier),
}

/// `(a, b) => body` as a call argument.
#[derive(Debug, PartialEq)]
pub struct Callback {
    pub loc: Location,
    pub params: Vec<CallbackParam>,
    pub body: Box<Expression>,
}

/// An argument of a call.
#[derive(Debug, PartialEq)]
pub enum CallArgument {
    Expression(Expression),
    Callback(Callback),
}

/// `callee(args)`
#[derive(Debug, PartialEq)]
pub struct CallExpression {
    pub loc: Location,
    pub callee: Box<Expression>,
    pub args: Vec<CallArgument>,
}

/// A statement of a block.
#[derive(Debug, PartialEq)]
pub enum Statement {
    Expression(Expression),
}

/// `{ statements }`
#[derive(Debug, PartialEq)]
pub struct BlockExpression {
    pub statements: Vec<Statement>,
    pub loc: Location,
}

/// What follows `else`.
#[derive(Debug, PartialEq)]
pub enum Alternate {
    If(IfExpression),
    Block(BlockExpression),
}

/// `if condition { ... } else ...`
#[derive(Debug, PartialEq)]
pub struct IfExpression {
    pub loc: Location,
    pub condition: Box<Expression>,
    pub consequent: Box<BlockExpression>,
    pub alternate: Option<Box<Alternate>>,
}

/// `for condition { ... }`
#[derive(Debug, PartialEq)]
pub struct ForExpression {
    pub loc: Location,
    pub condition: Option<Box<Expression>>,
    pub body: Option<BlockExpression>,
}

/// A loop.
#[derive(Debug, PartialEq)]
pub enum Loop {
    For(ForExpression),
}

/// An expression; `Empty` stands where an expression is missing.
#[derive(Debug, PartialEq)]
pub enum Expression {
    Array(ArrayExpression),
    IntLiteral(IntLiteral),
    FloatLiteral(FloatLiteral),
    BooleanLiteral(BooleanLiteral),
    StringLiteral(StringLiteral),
    Identifier(Identifier),
    Tuple(TupleExpression),
    Binary(BinaryExpression),
    Unary(UnaryExpression),
    Member(MemberExpression),
    Call(CallExpression),
    If(IfExpression),
    Block(BlockExpression),
    Loop(Loop),
    Empty,
}

// ----- the mathematical model -----

/// The model of an expression: names and texts become character sequences,
/// lists become sequences.
pub enum ExprModel {
    Array(Location, Seq<ExprModel>),
    Int(Location, int),
    Float(Location, Seq<char>),
    Bool(Location, bool),
    Str(Location, Seq<char>),
    Ident(Location, Seq<char>),
    Tuple(Location, Seq<ExprModel>),
    Binary(Location, Box<ExprModel>, BinaryOperator, Box<ExprModel>),
    Unary(Location, UnaryOperator, Box<ExprModel>),
    Member(Location, Box<ExprModel>, Option<PropModel>),
    Call(Location, Box<ExprModel>, Seq<ArgModel>),
    If(IfModel),
    Block(BlockModel),
    For(Location, Option<Box<ExprModel>>, Option<BlockModel>),
    Empty,
}

/// The model of a member property.
pub enum PropModel {
    Field(Location, Seq<char>),
    Index(Location, int),
}

/// The model of a call argument.
pub enum ArgModel {
    Expr(ExprModel),
    Callback(Location, Seq<(Location, Seq<char>)>, Box<ExprModel>),
}

/// The model of a block: its location and its statements' expressions.
pub struct BlockModel {
    pub loc: Location,
    pub statements: Seq<ExprModel>,
}

/// The model of an `if` expression.
pub struct IfModel {
    pub loc: Location,
    pub condition: Box<ExprModel>,
    pub consequent: BlockModel,
    pub alternate: Option<Box<AltModel>>,
}

/// The model of what follows `else`.
pub enum AltModel {
    If(IfModel),
    Block(BlockModel),
}

pub open spec fn prop_model(p: MemberProp) -> PropModel {
    match p {
        MemberProp::FieldName(i) => PropModel::Field(i.loc, i.text@),
        MemberProp::Index(n) => PropModel::Index(n.loc, n.value as int),
    }
}

pub open spec fn param_model(p: CallbackParam) -> (Location, Seq<char>) {
    match p {
        CallbackParam::Identifier(i) => (i.loc, i.text@),
    }
}

pub open spec fn params_model(s: Seq<CallbackParam>) -> Seq<(Location, Seq<char>)> {
    s.map_values(|p: CallbackParam| param_model(p))
}

/// The model of an expression.
pub open spec fn expr_model(e: Expression) -> ExprModel
    decreases e,
{
    match e {
        Expression::Array(a) => ExprModel::Array(a.loc, exprs_model(a.elements@)),
        Expression::IntLiteral(n) => ExprModel::Int(n.loc, n.value as int),
        Expression::FloatLiteral(f) => ExprModel::Float(f.loc, f.text@),
        Expression::BooleanLiteral(b) => ExprModel::Bool(b.loc, b.value),
        Expression::StringLiteral(s) => ExprModel::Str(s.loc, s.text@),
        Expression::Identifier(i) => ExprModel::Ident(i.loc, i.text@),
        Expression::Tuple(t) => ExprModel::Tuple(t.loc, exprs_model(t.elements@)),
        Expression::Binary(b) => ExprModel::Binary(
            b.loc,
            Box::new(expr_model(*b.left)),
            b.operator,
            Box::new(expr_model(*b.right)),
        ),
        Expression::Unary(u) => ExprModel::Unary(u.loc, u.operator, Box::new(expr_model(*u.operand))),
        Expression::Member(m) => ExprModel::Member(
            m.loc,
            Box::new(expr_model(*m.object)),
            match m.prop {
                Some(p) => Some(prop_model(p)),
                None => None,
            },
        ),
        Expression::Call(c) => ExprModel::Call(c.loc, Box::new(expr_model(*c.callee)), args_model(c.args@)),
        Expression::If(i) => ExprModel::If(if_model(i)),
        Expression::Block(b) => ExprModel::Block(block_model(b)),
        Expression::Loop(Loop::For(f)) => ExprModel::For(
            f.loc,
            match f.condition {
                Some(c) => Some(Box::new(expr_model(*c))),
                None => None,
            },
            match f.body {
                Some(b) => Some(block_model(b)),
                None => None,
            },
        ),
        Expression::Empty => ExprModel::Empty,
    }
}

/// The models of a list of expressions.
pub open spec fn exprs_model(s: Seq<Expression>) -> Seq<ExprModel>
    decreases s,
{
    if s.len() == 0 {
        Seq::empty()
    } else {
        exprs_model(s.subrange(0, s.len() - 1)).push(expr_model(s[s.len() - 1]))
    }
}

/// The model of a call argument.
pub open spec fn arg_model(a: CallArgument) -> ArgModel
    decreases a,
{
    match a {
        CallArgument::Expression(e) => ArgModel::Expr(expr_model(e)),
        CallArgument::Callback(c) => ArgModel::Callback(
            c.loc,
            params_model(c.params@),
            Box::new(expr_model(*c.body)),
        ),
    }
}

/// The models of a list of call arguments.
pub open spec fn args_model(s: Seq<CallArgument>) -> Seq<ArgModel>
    decreases s,
{
    if s.len() == 0 {
        Seq::empty()
    } else {
        args_model(s.subrange(0, s.len() - 1)).push(arg_model(s[s.len() - 1]))
    }
}

/// The models of the expressions of a list of statements.
pub open spec fn stmts_model(s: Seq<Statement>) -> Seq<ExprModel>
    decreases s,
{
    if s.len() == 0 {
        Seq::empty()
    } else {
        let last = match s[s.len() - 1] {
            Statement::Expression(e) => expr_model(e),
        };
        stmts_model(s.subrange(0, s.len() - 1)).push(last)
    }
}

/// The model of a block.
pub open spec fn block_model(b: BlockExpression) -> BlockModel
    decreases b,
{
    BlockModel { loc: b.loc, statements: stmts_model(b.statements@) }
}

/// The model of an `if` expression.
pub open spec fn if_model(i: IfExpression) -> IfModel
    decreases i,
{
    IfModel {
        loc: i.loc,
        condition: Box::new(expr_model(*i.condition)),
        consequent: block_model(*i.consequent),
        alternate: match i.alternate {
            Some(a) => Some(Box::new(alt_model(*a))),
            None => None,
        },
    }
}

/// The model of what follows `else`.
pub open spec fn alt_model(a: Alternate) -> AltModel
    decreases a,
{
    match a {
        Alternate::If(i) => AltModel::If(if_model(i)),
        Alternate::Block(b) => AltModel::Block(block_model(b)),
    }
}

/// The model of an optional expression.
pub open spec fn opt_model(o: Option<Expression>) -> Option<ExprModel> {
    match o {
        Some(e) => Some(expr_model(e)),
        None => None,
    }
}

/// The expression of a statement.
pub open spec fn stmt_model(s: Statement) -> ExprModel {
    match s {
        Statement::Expression(e) => expr_model(e),
    }
}

/// The list models are the element-wise models.
pub proof fn lemma_exprs_model(s: Seq<Expression>)
    ensures
        exprs_model(s) == s.map_values(|e: Expression| expr_model(e)),
    decreases s.len(),
{
    if s.len() > 0 {
        lemma_exprs_model(s.subrange(0, s.len() - 1));
    }
    assert(exprs_model(s) =~= s.map_values(|e: Expression| expr_model(e)));
}

pub proof fn lemma_args_model(s: Seq<CallArgument>)
    ensures
        args_model(s) == s.map_values(|a: CallArgument| arg_model(a)),
    decreases s.len(),
{
    if s.len() > 0 {
        lemma_args_model(s.subrange(0, s.len() - 1));
    }
    assert(args_model(s) =~= s.map_values(|a: CallArgument| arg_model(a)));
}

pub proof fn lemma_stmts_model(s: Seq<Statement>)
    ensures
        stmts_model(s) == s.map_values(|x: Statement| stmt_model(x)),
    decreases s.len(),
{
    if s.len() > 0 {
        lemma_stmts_model(s.subrange(0, s.len() - 1));
    }
    assert(stmts_model(s) =~= s.map_values(|x: Statement| stmt_model(x)));
}

impl View for Expression {
    type V = ExprModel;

    open spec fn view(&self) -> ExprModel {
        expr_model(*self)
    }
}

/// The location of an expression model (the placeholder location for `Empty`).
pub open spec fn model_loc(e: ExprModel) -> Location {
    match e {
        ExprModel::Array(l, _) => l,
        ExprModel::Int(l, _) => l,
        ExprModel::Float(l, _) => l,
        ExprModel::Bool(l, _) => l,
        ExprModel::Str(l, _) => l,
        ExprModel::Ident(l, _) => l,
        ExprModel::Tuple(l, _) => l,
        ExprModel::Binary(l, _, _, _) => l,
        ExprModel::Unary(l, _, _) => l,
        ExprModel::Member(l, _, _) => l,
        ExprModel::Call(l, _, _) => l,
        ExprModel::If(i) => i.loc,
        ExprModel::Block(b) => b.loc,
        ExprModel::For(l, _, _) => l,
        ExprModel::Empty => Location::dummy_spec(),
    }
}

impl Alternate {
    /// The location of what follows `else`.
    pub fn loc(&self) -> (r: Location)
        ensures
            r == match alt_model(*self) {
                AltModel::If(i) => i.loc,
                AltModel::Block(b) => b.loc,
            },
    {
        match self {
            Alternate::If(i) => i.loc,
            Alternate::Block(b) => b.loc,
        }
    }
}

impl Expression {
    /// The location of the expression (the placeholder location for `Empty`).
    pub fn loc(&self) -> (r: Location)
        ensures
            r == model_loc(self@),
    {
        proof {
            reveal_with_fuel(expr_model, 2);
        }
        match self {
            Expression::Array(a) => a.loc,
            Expression::IntLiteral(n) => n.loc,
            Expression::FloatLiteral(f) => f.loc,
            Expression::BooleanLiteral(b) => b.loc,
            Expression::StringLiteral(s) => s.loc,
            Expression::Identifier(i) => i.loc,
            Expression::Tuple(t) => t.loc,
            Expression::Binary(b) => b.loc,
            Expression::Unary(u) => u.loc,
            Expression::Member(m) => m.loc,
            Expression::Call(c) => c.loc,
            Expression::If(i) => i.loc,
            Expression::Block(b) => b.loc,
            Expression::Loop(Loop::For(f)) => f.loc,
            Expression::Empty => Location::dummy(),
        }
    }

    /// Whether the expression is the placeholder for a missing one.
    pub fn is_empty(&self) -> (r: bool)
        ensures
            r == (self@ is Empty),
    {
        match self {
            Expression::Empty => true,
            _ => false,
        }
    }
}

} // verus!
