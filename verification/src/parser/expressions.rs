use vstd::prelude::*;

use crate::ast::{
    Alternate, ArrayExpression, BinaryExpression, BinaryOperator, BlockExpression, BooleanLiteral,
    CallArgument, CallExpression, Callback, CallbackParam, Expression, FloatLiteral, ForExpression,
    Identifier, IfExpression, IntLiteral, Loop, MemberExpression, MemberProp, Statement,
    StringLiteral, TupleExpression, UnaryExpression, UnaryOperator, alt_model, arg_model,
    args_model, block_model, expr_model, exprs_model, if_model, lemma_args_model,
    lemma_exprs_model, lemma_stmts_model, opt_model, params_model, stmt_model, ExprModel,
    ArgModel, AltModel, BlockModel, model_loc,
};
use crate::diagnostics::DiagnosticKind;
use crate::locations::{Location, merged};
use crate::parser::grammar::{
    after_element, all_idents, alt_loc, alternate_result, arg_list_result, argument_result, array_result,
    atom_result, binary_op_of, binary_rest, binary_result, block_result, call_result,
    condition_result, exponent_result, expr_list_result, expression_result, if_body_result,
    if_result, is_unary_token, list_stops, binds_tighter_than, lemma_binds_weaken,
    lemma_op_precedence, level, next_binds_at_most, loop_body_result, loop_result, member_float_result,
    member_result, params_of, postfix_rest, postfix_result, stray_separator, tuple_result,
    unary_op_of, unary_result, without_block_result,
};
use crate::parser::{
    Parser, ParserModel, advance, advanced, at_token, char_digits_value, first_dot, first_dot_from,
    float_below_one, float_fits, float_shape, member_float, mid_digits, fraction_below_from, float_left, float_right, is_digit_or_underscore, lemma_at_single,
    lemma_skip_until, loc_within, next_loc, range_at, stepped, tok, wf,
};
use crate::tokens::{Token, TokenModel, token_models};

verus! {

// ----- digits of float literals -----

/// The index of the first `.` of `t`.
fn first_dot_exec(t: &str) -> (r: usize)
    ensures
        r == first_dot(t@),
{
    let n = t.unicode_len();
    let mut i: usize = 0;
    while i < n
        invariant
            i <= n,
            n == t@.len(),
            first_dot_from(t@, i as int) == first_dot(t@),
        decreases n - i,
    {
        if t.get_char(i) == '.' {
            return i;
        }
        i = i + 1;
    }
    i
}

proof fn lemma_char_digits_mono(t: Seq<char>, i: int, j: int)
    requires
        0 <= i <= j <= t.len(),
        forall|k: int| 0 <= k < t.len() ==> is_digit_or_underscore(#[trigger] t[k]),
    ensures
        0 <= char_digits_value(t.subrange(0, i)) <= char_digits_value(t.subrange(0, j)),
    decreases j,
{
    let s = t.subrange(0, j);
    if j > 0 {
        assert(s.subrange(0, s.len() - 1) =~= t.subrange(0, j - 1));
        if i < j {
            lemma_char_digits_mono(t, i, j - 1);
        } else {
            lemma_char_digits_mono(t, j - 1, j - 1);
        }
    }
}

/// The value of the digits of `t[a..b]`, underscores ignored.
fn digits_value_of(t: &str, a: usize, b: usize) -> (r: i64)
    requires
        a <= b <= t@.len(),
        forall|k: int| a <= k < b ==> is_digit_or_underscore(#[trigger] t@[k]),
        char_digits_value(t@.subrange(a as int, b as int)) <= i64::MAX,
    ensures
        r == char_digits_value(t@.subrange(a as int, b as int)),
{
    let ghost w = t@.subrange(a as int, b as int);
    let mut v: i64 = 0;
    let mut i = a;
    assert(w.subrange(0, 0) =~= Seq::<char>::empty());
    while i < b
        invariant
            a <= i <= b,
            b <= t@.len(),
            w == t@.subrange(a as int, b as int),
            forall|k: int| 0 <= k < w.len() ==> is_digit_or_underscore(#[trigger] w[k]),
            char_digits_value(w) <= i64::MAX,
            v == char_digits_value(w.subrange(0, i - a)),
        decreases b - i,
    {
        let c = t.get_char(i);
        proof {
            assert(w.subrange(0, w.len() as int) =~= w);
            lemma_char_digits_mono(w, (i - a + 1) as int, w.len() as int);
            assert(w.subrange(0, i - a + 1).subrange(0, i - a) =~= w.subrange(0, i - a));
            assert(w[i - a] == c);
        }
        if c != '_' {
            let d = (c as u32) - 48;
            v = v * 10 + (d as i64);
        }
        i = i + 1;
    }
    assert(w.subrange(0, (b - a) as int) =~= w);
    v
}

/// Splits a float text at its dot: the index of the dot, and the values of
/// the digits on each side.
fn float_parts(t: &str) -> (r: (usize, i64, i64))
    requires
        float_fits(t@),
    ensures
        r.0 == first_dot(t@),
        r.0 <= t@.len(),
        r.0 == float_left(t@).len(),
        r.1 == char_digits_value(float_left(t@)),
        r.2 == char_digits_value(float_right(t@)),
        r.0 < t@.len() ==> float_right(t@).len() == t@.len() - r.0 - 1,
        r.0 >= t@.len() ==> float_right(t@).len() == 0,
{
    let n = t.unicode_len();
    let dot = first_dot_exec(t);
    proof {
        lemma_first_dot_bound(t@, 0);
        assert forall|k: int| 0 <= k < dot implies is_digit_or_underscore(#[trigger] t@[k]) by {
            assert(float_left(t@)[k] == t@[k]);
        }
    }
    let left = digits_value_of(t, 0, dot);
    if dot < n {
        proof {
            assert forall|k: int| dot + 1 <= k < n implies is_digit_or_underscore(#[trigger] t@[k]) by {
                assert(float_right(t@)[k - dot - 1] == t@[k]);
            }
        }
        let right = digits_value_of(t, dot + 1, n);
        (dot, left, right)
    } else {
        assert(float_right(t@) =~= Seq::<char>::empty());
        assert(char_digits_value(Seq::<char>::empty()) == 0);
        (dot, left, 0)
    }
}

/// The value of the digits of `t[a..b]`, or `None` if it does not fit in an `i64`.
fn char_digits_checked(t: &str, a: usize, b: usize) -> (r: Option<i64>)
    requires
        a <= b <= t@.len(),
        forall|k: int| a <= k < b ==> is_digit_or_underscore(#[trigger] t@[k]),
    ensures
        r is Some <==> char_digits_value(t@.subrange(a as int, b as int)) <= i64::MAX,
        r matches Some(v) ==> v == char_digits_value(t@.subrange(a as int, b as int)),
{
    let ghost w = t@.subrange(a as int, b as int);
    let mut v: i64 = 0;
    let mut i = a;
    assert(w.subrange(0, 0) =~= Seq::<char>::empty());
    assert(w.subrange(0, w.len() as int) =~= w);
    while i < b
        invariant
            a <= i <= b,
            b <= t@.len(),
            w == t@.subrange(a as int, b as int),
            forall|k: int| 0 <= k < w.len() ==> is_digit_or_underscore(#[trigger] w[k]),
            v == char_digits_value(w.subrange(0, i - a)),
            w.subrange(0, w.len() as int) == w,
        decreases b - i,
    {
        let c = t.get_char(i);
        proof {
            assert(w.subrange(0, i - a + 1).subrange(0, i - a) =~= w.subrange(0, i - a));
            assert(w[i - a] == c);
            lemma_char_digits_mono(w, (i - a + 1) as int, w.len() as int);
        }
        if c != '_' {
            let d = ((c as u32) - 48) as i64;
            match v.checked_mul(10) {
                Some(x) => match x.checked_add(d) {
                    Some(y) => {
                        v = y;
                    },
                    None => {
                        return None;
                    },
                },
                None => {
                    return None;
                },
            }
        }
        i = i + 1;
    }
    assert(w.subrange(0, (b - a) as int) =~= w);
    Some(v)
}

/// Whether every character of `t[a..b]` is a digit or an underscore.
fn all_digits_or_underscores(t: &str, a: usize, b: usize) -> (r: bool)
    requires
        a <= b <= t@.len(),
    ensures
        r == forall|k: int| a <= k < b ==> is_digit_or_underscore(#[trigger] t@[k]),
{
    let mut i = a;
    while i < b
        invariant
            a <= i <= b,
            b <= t@.len(),
            forall|k: int| a <= k < i ==> is_digit_or_underscore(#[trigger] t@[k]),
        decreases b - i,
    {
        let c = t.get_char(i);
        if !(('0' <= c && c <= '9') || c == '_') {
            assert(!is_digit_or_underscore(t@[i as int]));
            return false;
        }
        i = i + 1;
    }
    true
}

/// Whether a float text has the float shape (see `float_shape`).
pub(crate) fn float_shape_exec(t: &str) -> (r: bool)
    ensures
        r == float_shape(t@),
{
    let n = t.unicode_len();
    let dot = first_dot_exec(t);
    proof {
        lemma_first_dot_bound(t@, 0);
    }
    let ghost left = float_left(t@);
    let ghost right = float_right(t@);
    assert(left =~= t@.subrange(0, dot as int));
    let left_ok = all_digits_or_underscores(t, 0, dot);
    assert(left_ok == forall|i: int| 0 <= i < left.len() ==> is_digit_or_underscore(#[trigger] left[i])) by {
        if left_ok {
            assert forall|i: int| 0 <= i < left.len() implies is_digit_or_underscore(#[trigger] left[i]) by {
                assert(left[i] == t@[i]);
            }
        } else {
            let k = choose|k: int| 0 <= k < dot && !is_digit_or_underscore(#[trigger] t@[k]);
            assert(left[k] == t@[k]);
        }
    }
    if !left_ok {
        return false;
    }
    if dot < n {
        assert(right =~= t@.subrange(dot + 1, n as int));
        let ok = all_digits_or_underscores(t, dot + 1, n);
        assert(ok == forall|i: int| 0 <= i < right.len() ==> is_digit_or_underscore(#[trigger] right[i])) by {
            if ok {
                assert forall|i: int| 0 <= i < right.len() implies is_digit_or_underscore(#[trigger] right[i]) by {
                    assert(right[i] == t@[dot + 1 + i]);
                }
            } else {
                let k = choose|k: int| dot + 1 <= k < n && !is_digit_or_underscore(#[trigger] t@[k]);
                assert(right[k - dot - 1] == t@[k]);
            }
        }
        ok
    } else {
        assert(right =~= Seq::<char>::empty());
        true
    }
}

/// Whether a float text fits (see `float_fits`).
pub(crate) fn float_fits_exec(t: &str) -> (r: bool)
    ensures
        r == float_fits(t@),
{
    if !float_shape_exec(t) {
        return false;
    }
    let n = t.unicode_len();
    let dot = first_dot_exec(t);
    proof {
        lemma_first_dot_bound(t@, 0);
        assert(float_left(t@) =~= t@.subrange(0, dot as int));
        assert forall|k: int| 0 <= k < dot implies is_digit_or_underscore(#[trigger] t@[k]) by {
            assert(float_left(t@)[k] == t@[k]);
        }
    }
    let left_value = char_digits_checked(t, 0, dot);
    if left_value.is_none() {
        return false;
    }
    if dot < n {
        proof {
            assert(float_right(t@) =~= t@.subrange(dot + 1, n as int));
            assert forall|k: int| dot + 1 <= k < n implies is_digit_or_underscore(#[trigger] t@[k]) by {
                assert(float_right(t@)[k - dot - 1] == t@[k]);
            }
        }
        char_digits_checked(t, dot + 1, n).is_some()
    } else {
        assert(float_right(t@) =~= Seq::<char>::empty());
        assert(char_digits_value(float_right(t@)) == 0);
        true
    }
}

/// Whether a float text of the float shape has a value below one (see
/// `float_below_one`).
pub(crate) fn float_below_one_exec(t: &str) -> (r: bool)
    requires
        float_shape(t@),
    ensures
        r == float_below_one(t@),
{
    let dot = first_dot_exec(t);
    proof {
        lemma_first_dot_bound(t@, 0);
        assert(float_left(t@) =~= t@.subrange(0, dot as int));
        assert forall|k: int| 0 <= k < dot implies is_digit_or_underscore(#[trigger] t@[k]) by {
            assert(float_left(t@)[k] == t@[k]);
        }
    }
    let left_zero = match char_digits_checked(t, 0, dot) {
        Some(v) => v == 0,
        None => false,
    };
    if !left_zero {
        return false;
    }
    let n = t.unicode_len();
    if dot >= n {
        assert(float_right(t@) =~= Seq::<char>::empty());
        return true;
    }
    let mid: [u8; 54] = [9, 9, 9, 9, 9, 9, 9, 9, 9, 9, 9, 9, 9, 9, 9, 9, 4, 4, 4, 8, 8, 8, 4, 8, 7, 6, 8, 7, 4, 2, 1, 7, 2, 9, 7, 8, 8, 1, 8, 4, 1, 6, 5, 9, 5, 4, 5, 8, 9, 8, 4, 3, 7, 5];
    assert(mid@ =~= mid_digits());
    let ghost s = float_right(t@);
    assert(s =~= t@.subrange(dot + 1, n as int));
    let mut j: usize = dot + 1;
    let mut i: usize = 0;
    while j < n
        invariant
            dot + 1 <= j <= n,
            n == t@.len(),
            s == t@.subrange(dot + 1, n as int),
            mid@ == mid_digits(),
            i < 54,
            s == float_right(t@),
            char_digits_value(float_left(t@)) == 0,
            forall|k: int| 0 <= k < s.len() ==> is_digit_or_underscore(#[trigger] s[k]),
            fraction_below_from(s, 0, 0) == fraction_below_from(s, j - dot - 1, i as int),
        decreases n - j,
    {
        let c = t.get_char(j);
        assert(c == s[j - dot - 1]);
        if c != '_' {
            assert(is_digit_or_underscore(s[j - dot - 1]));
            let d = (c as u32) - 48;
            let m = mid[i] as u32;
            if d < m {
                return true;
            }
            if d > m {
                return false;
            }
            if i == 53 {
                assert(fraction_below_from(s, j - dot, 54) == false);
                return false;
            }
            i = i + 1;
        }
        j = j + 1;
    }
    true
}

proof fn lemma_first_dot_bound(t: Seq<char>, i: int)
    requires
        0 <= i <= t.len(),
    ensures
        i <= first_dot_from(t, i) <= t.len(),
        forall|k: int| i <= k < first_dot_from(t, i) ==> t[k] != '.',
    decreases t.len() - i,
{
    if i < t.len() && t[i] != '.' {
        lemma_first_dot_bound(t, i + 1);
    }
}

impl BinaryOperator {
    /// The binary operator a token stands for (`Add` for a token that is not one).
    pub fn from_token(t: &Token) -> (r: BinaryOperator)
        ensures
            r == binary_op_of(t@),
    {
        match t {
            Token::PipePipe => BinaryOperator::LOr,
            Token::AndAnd => BinaryOperator::LAnd,
            Token::EqEq => BinaryOperator::EqEq,
            Token::NotEq => BinaryOperator::Neq,
            Token::Ge => BinaryOperator::Geq,
            Token::Le => BinaryOperator::Leq,
            Token::Lt => BinaryOperator::Less,
            Token::Gt => BinaryOperator::Grt,
            Token::Minus => BinaryOperator::Sub,
            Token::Star => BinaryOperator::Mul,
            Token::Slash => BinaryOperator::Div,
            Token::Mod => BinaryOperator::Mod,
            Token::StarStar => BinaryOperator::Pow,
            _ => BinaryOperator::Add,
        }
    }
}

impl UnaryOperator {
    /// The prefix operator a token stands for, if it is one.
    pub fn from_token(t: &Token) -> (r: Option<UnaryOperator>)
        ensures
            r == (if is_unary_token(t@) {
                Some(unary_op_of(t@))
            } else {
                None
            }),
    {
        match t {
            Token::And => Some(UnaryOperator::Ampersand),
            Token::At => Some(UnaryOperator::At),
            Token::Bang => Some(UnaryOperator::Bang),
            Token::Dollar => Some(UnaryOperator::Dollar),
            Token::Minus => Some(UnaryOperator::Minus),
            Token::Star => Some(UnaryOperator::Star),
            _ => None,
        }
    }
}

/// The statements made of `exprs`, in order.
fn into_statements(exprs: Vec<Expression>) -> (r: Vec<Statement>)
    ensures
        r@.map_values(|s: Statement| stmt_model(s)) == exprs_model(exprs@),
{
    proof {
        lemma_exprs_model(exprs@);
    }
    let ghost all = exprs@;
    let mut rest = exprs;
    let mut out: Vec<Statement> = Vec::new();
    while rest.len() > 0
        invariant
            out@.map_values(|s: Statement| stmt_model(s)) + rest@.map_values(|e: Expression| expr_model(e))
                == all.map_values(|e: Expression| expr_model(e)),
        decreases rest@.len(),
    {
        let ghost before = rest@;
        let e = rest.remove(0);
        out.push(Statement::Expression(e));
        proof {
            assert(before =~= seq![e] + rest@);
            assert(before.map_values(|e: Expression| expr_model(e)) =~= seq![expr_model(e)] + rest@.map_values(
                |e: Expression| expr_model(e),
            ));
            assert(out@.map_values(|s: Statement| stmt_model(s)) =~= out@.subrange(0, out@.len() - 1).map_values(
                |s: Statement| stmt_model(s),
            ).push(expr_model(e)));
            assert(out@.subrange(0, out@.len() - 1) =~= old_out_of(out@));
        }
    }
    assert(rest@.map_values(|e: Expression| expr_model(e)) =~= Seq::<ExprModel>::empty());
    assert(out@.map_values(|s: Statement| stmt_model(s)) + Seq::<ExprModel>::empty() =~= out@.map_values(
        |s: Statement| stmt_model(s),
    ));
    out
}

spec fn old_out_of(s: Seq<Statement>) -> Seq<Statement> {
    s.subrange(0, s.len() - 1)
}

/// The callback parameters named by identifier expressions.
fn callback_params(exprs: Vec<Expression>) -> (r: Vec<CallbackParam>)
    requires
        all_idents(exprs_model(exprs@)),
    ensures
        params_model(r@) == params_of(exprs_model(exprs@)),
{
    proof {
        lemma_exprs_model(exprs@);
    }
    reveal(all_idents);
    reveal(params_of);
    let ghost all = exprs@;
    let ghost target = params_of(exprs_model(exprs@));
    assert forall|k: int| 0 <= k < all.len() implies (#[trigger] expr_model(all[k])) is Ident by {
        assert(exprs_model(exprs@)[k] == expr_model(all[k]));
    }
    let mut rest = exprs;
    let mut out: Vec<CallbackParam> = Vec::new();
    let ghost done: int = 0;
    while rest.len() > 0
        invariant
            0 <= done <= all.len(),
            rest@ == all.subrange(done, all.len() as int),
            out@.len() == done,
            target == params_of(all.map_values(|e: Expression| expr_model(e))),
            forall|k: int| 0 <= k < all.len() ==> (#[trigger] expr_model(all[k])) is Ident,
            forall|k: int| 0 <= k < done ==> crate::ast::param_model(#[trigger] out@[k]) == target[k],
        decreases rest@.len(),
    {
        let e = rest.remove(0);
        proof {
            reveal(all_idents);
            reveal(params_of);
            assert(e == all[done]);
            assert(all.map_values(|e: Expression| expr_model(e))[done] == expr_model(all[done]));
        }
        match e {
            Expression::Identifier(id) => {
                out.push(CallbackParam::Identifier(id));
            },
            _ => {
                proof {
                    assert(false);
                }
            },
        }
        proof {
            done = done + 1;
            assert(rest@ =~= all.subrange(done, all.len() as int));
        }
    }
    assert(params_model(out@) =~= target);
    out
}

impl Parser {
    fn parse_int(&mut self) -> (r: IntLiteral)
        requires
            wf(old(self)@),
            tok(old(self)@) matches Some(TokenModel::Int(_)),
        ensures
            final(self)@ == advance(old(self)@),
            r.loc == next_loc(old(self)@),
            loc_within(r.loc, old(self)@.len),
            r.value == tok(old(self)@)->0->Int_0,
    {
        let loc = self.next_loc();
        let value = match self.peek() {
            Some(Token::Int(v)) => *v,
            _ => 0,
        };
        self.bump();
        IntLiteral { loc, value }
    }

    fn parse_float(&mut self) -> (r: FloatLiteral)
        requires
            wf(old(self)@),
            tok(old(self)@) matches Some(TokenModel::Float(_)),
        ensures
            final(self)@ == advance(old(self)@),
            r.loc == next_loc(old(self)@),
            loc_within(r.loc, old(self)@.len),
            r.text@ == tok(old(self)@)->0->Float_0,
    {
        let loc = self.next_loc();
        let text = match self.peek() {
            Some(Token::Float(f)) => f.src.clone(),
            _ => String::new(),
        };
        self.bump();
        FloatLiteral { loc, text }
    }

    fn parse_bool(&mut self) -> (r: BooleanLiteral)
        requires
            wf(old(self)@),
            tok(old(self)@) matches Some(TokenModel::Bool(_)),
        ensures
            final(self)@ == advance(old(self)@),
            r.loc == next_loc(old(self)@),
            loc_within(r.loc, old(self)@.len),
            r.value == tok(old(self)@)->0->Bool_0,
    {
        let loc = self.next_loc();
        let value = match self.peek() {
            Some(Token::Bool(v)) => *v,
            _ => false,
        };
        self.bump();
        BooleanLiteral { loc, value }
    }

    fn parse_string(&mut self) -> (r: StringLiteral)
        requires
            wf(old(self)@),
            tok(old(self)@) matches Some(TokenModel::String(_)),
        ensures
            final(self)@ == advance(old(self)@),
            r.loc == next_loc(old(self)@),
            loc_within(r.loc, old(self)@.len),
            r.text@ == tok(old(self)@)->0->String_0,
    {
        let loc = self.next_loc();
        let text = match self.peek() {
            Some(Token::String(s)) => s.clone(),
            _ => String::new(),
        };
        self.bump();
        StringLiteral { loc, text }
    }

    fn parse_identifier(&mut self) -> (r: Identifier)
        requires
            wf(old(self)@),
            tok(old(self)@) matches Some(TokenModel::Ident(_)),
        ensures
            final(self)@ == advance(old(self)@),
            r.loc == next_loc(old(self)@),
            loc_within(r.loc, old(self)@.len),
            r.text@ == tok(old(self)@)->0->Ident_0,
    {
        let loc = self.next_loc();
        let text = match self.peek() {
            Some(Token::Ident(s)) => s.clone(),
            _ => String::new(),
        };
        self.bump();
        Identifier { loc, text }
    }

    /// Reports `kind` at the next lexeme.
    pub fn report_missing(&mut self, kind: DiagnosticKind)
        requires
            wf(old(self)@),
        ensures
            final(self)@ == crate::parser::with_error(old(self)@, kind@, next_loc(old(self)@)),
    {
        let loc = self.next_loc();
        self.error(kind, loc);
    }

    /// An expression: `if`, `for`, a block, or else an expression without a
    /// block; `None` if no expression comes next.
    pub fn parse_expression(&mut self) -> (r: Option<Expression>)
        requires
            wf(old(self)@),
        ensures
            match r { Some(e) => loc_within(model_loc(e@), old(self)@.len), None => true },
            wf(final(self)@),
            stepped(old(self)@, final(self)@),
            (opt_model(r), final(self)@) == expression_result(old(self)@),
        decreases (old(self).tokens@.len() - old(self).pos) * 64 + 30,
    {
        if self.at(&Token::If) {
            let e = self.parse_condition();
            Some(e)
        } else if self.at(&Token::For) {
            let l = self.parse_loop_expression();
            Some(Expression::Loop(l))
        } else if self.at(&Token::LBrace) {
            let b = self.parse_block();
            Some(Expression::Block(b))
        } else {
            self.parse_expression_without_block()
        }
    }

    /// A binary expression, if there is one.
    pub fn parse_expression_without_block(&mut self) -> (r: Option<Expression>)
        requires
            wf(old(self)@),
        ensures
            match r { Some(e) => loc_within(model_loc(e@), old(self)@.len), None => true },
            wf(final(self)@),
            stepped(old(self)@, final(self)@),
            (opt_model(r), final(self)@) == without_block_result(old(self)@),
            match r {
                Some(e) => binds_tighter_than(e@, 0),
                None => true,
            },
        decreases (old(self).tokens@.len() - old(self).pos) * 64 + 20,
    {
        let e = self.parse_binary_expression(0);
        if e.is_empty() {
            None
        } else {
            Some(e)
        }
    }

    /// A binary expression whose operators bind tighter than `min_precedence`;
    /// operators of equal precedence group to the left, except `**`.
    #[verifier::spinoff_prover]
    #[verifier::rlimit(100)]
    pub fn parse_binary_expression(&mut self, min_precedence: u8) -> (r: Expression)
        requires
            wf(old(self)@),
            min_precedence <= 7,
        ensures
            loc_within(model_loc(r@), old(self)@.len),
            wf(final(self)@),
            stepped(old(self)@, final(self)@),
            (r@, final(self)@) == binary_result(old(self)@, min_precedence),
            binds_tighter_than(r@, level(min_precedence as int)),
            next_binds_at_most(final(self)@, level(min_precedence as int)),
        decreases (old(self).tokens@.len() - old(self).pos) * 64 + (if min_precedence < 7 {
            19 - min_precedence
        } else {
            12int
        }),
    {
        if min_precedence == Token::StarStar.precedence() {
            return self.parse_exponentiation();
        }
        let ghost m0 = self@;
        let mut expression = self.parse_binary_expression(min_precedence + 1);
        proof {
            lemma_binds_weaken(expression@, min_precedence as int, level(min_precedence + 1));
        }
        loop
            invariant
                wf(self@),
                stepped(m0, self@),
                m0 == old(self)@,
                min_precedence < 7,
                binary_rest(self@, min_precedence, expression@) == binary_result(m0, min_precedence),
                loc_within(model_loc(expression@), self@.len),
                binds_tighter_than(expression@, min_precedence as int),
                next_binds_at_most(self@, level(min_precedence + 1)),
            ensures
                wf(self@),
                stepped(m0, self@),
                binary_rest(self@, min_precedence, expression@) == (expression@, self@),
                binary_rest(self@, min_precedence, expression@) == binary_result(m0, min_precedence),
                loc_within(model_loc(expression@), self@.len),
                binds_tighter_than(expression@, min_precedence as int),
                next_binds_at_most(self@, min_precedence as int),
            decreases self@.toks.len() - self@.pos,
        {
            let operator = match self.peek() {
                Some(t) => if t.precedence() > min_precedence {
                    Some(BinaryOperator::from_token(t))
                } else {
                    None
                },
                None => None,
            };
            match operator {
                None => {
                    break;
                },
                Some(operator) => {
                    let ghost m = self@;
                    let ghost e0 = expression@;
                    proof {
                        lemma_op_precedence(tok(m)->0);
                    }
                    let op_loc = self.next_loc();
                    self.bump();
                    let right = self.parse_binary_expression(min_precedence + 1);
                    let loc = if right.is_empty() {
                        self.error(DiagnosticKind::MissingExpression, op_loc.increment());
                        Location::merge(expression.loc(), op_loc)
                    } else {
                        Location::merge(expression.loc(), right.loc())
                    };
                    expression = Expression::Binary(
                        BinaryExpression { loc, left: Box::new(expression), operator, right: Box::new(right) },
                    );
                    assert(binary_rest(m, min_precedence, e0) == binary_rest(self@, min_precedence, expression@));
                    assert(binds_tighter_than(expression@, min_precedence as int));
                },
            }
        }
        expression
    }

    fn parse_exponentiation(&mut self) -> (r: Expression)
        requires
            wf(old(self)@),
        ensures
            loc_within(model_loc(r@), old(self)@.len),
            wf(final(self)@),
            stepped(old(self)@, final(self)@),
            (r@, final(self)@) == exponent_result(old(self)@),
            binds_tighter_than(r@, 6),
            !at_token(final(self)@, TokenModel::StarStar),
        decreases (old(self).tokens@.len() - old(self).pos) * 64 + 11,
    {
        let lhs = self.parse_unary_expression();
        assert(binds_tighter_than(lhs@, 7) && binds_tighter_than(lhs@, 6));
        if self.at(&Token::StarStar) {
            let op_loc = self.next_loc();
            self.bump();
            let rhs = self.parse_exponentiation();
            let loc = if rhs.is_empty() {
                self.error(DiagnosticKind::MissingExpression, op_loc.increment());
                Location::merge(lhs.loc(), op_loc)
            } else {
                Location::merge(lhs.loc(), rhs.loc())
            };
            Expression::Binary(
                BinaryExpression { loc, left: Box::new(lhs), operator: BinaryOperator::Pow, right: Box::new(rhs) },
            )
        } else {
            lhs
        }
    }

    /// Prefix operators (`& @ ! $ - *`), then a postfix expression.
    pub fn parse_unary_expression(&mut self) -> (r: Expression)
        requires
            wf(old(self)@),
        ensures
            loc_within(model_loc(r@), old(self)@.len),
            wf(final(self)@),
            stepped(old(self)@, final(self)@),
            (r@, final(self)@) == unary_result(old(self)@),
            !(r@ is Binary),
        decreases (old(self).tokens@.len() - old(self).pos) * 64 + 10,
    {
        let operator = match self.peek() {
            Some(t) => UnaryOperator::from_token(t),
            None => None,
        };
        match operator {
            Some(operator) => {
                let op_loc = self.next_loc();
                self.bump();
                let expr = self.parse_unary_expression();
                if expr.is_empty() {
                    self.error(DiagnosticKind::MissingExpression, op_loc.increment());
                }
                let loc = Location::merge(op_loc, expr.loc());
                Expression::Unary(UnaryExpression { loc, operator, operand: Box::new(expr) })
            },
            None => self.parse_postfix(),
        }
    }

    /// An atom followed by member accesses and calls.
    pub fn parse_postfix(&mut self) -> (r: Expression)
        requires
            wf(old(self)@),
        ensures
            loc_within(model_loc(r@), old(self)@.len),
            wf(final(self)@),
            stepped(old(self)@, final(self)@),
            (r@, final(self)@) == postfix_result(old(self)@),
            !(r@ is Binary),
        decreases (old(self).tokens@.len() - old(self).pos) * 64 + 9,
    {
        let ghost m0 = self@;
        let mut expression = self.parse_atom();
        loop
            invariant
                wf(self@),
                stepped(m0, self@),
                m0 == old(self)@,
                postfix_rest(self@, expression@) == postfix_result(m0),
                loc_within(model_loc(expression@), self@.len),
                !(expression@ is Binary),
            ensures
                wf(self@),
                stepped(m0, self@),
                postfix_rest(self@, expression@) == (expression@, self@),
                postfix_rest(self@, expression@) == postfix_result(m0),
                loc_within(model_loc(expression@), self@.len),
                !(expression@ is Binary),
            decreases self@.toks.len() - self@.pos,
        {
            let step: u8 = if self.at(&Token::Dot) {
                1
            } else if self.at(&Token::LParen) {
                3
            } else if self.at_float_below_one() {
                2
            } else {
                0
            };
            let ghost m = self@;
            let ghost e0 = expression@;
            if step == 0 {
                break;
            } else if step == 1 {
                expression = Expression::Member(self.parse_member_expression(expression));
            } else if step == 2 {
                expression = Expression::Member(self.parse_member_from_float(expression));
            } else {
                expression = Expression::Call(self.parse_call_expression(expression));
            }
            assert(postfix_rest(m, e0) == postfix_rest(self@, expression@));
        }
        expression
    }

    /// Whether a float literal whose integer part is zero comes next.
    fn at_float_below_one(&self) -> (r: bool)
        requires
            wf(self@),
        ensures
            r == (tok(self@) matches Some(TokenModel::Float(t)) && float_below_one(t)),
    {
        match self.peek() {
            Some(Token::Float(f)) => {
                proof {
                    self.lemma_float_at();
                }
                float_below_one_exec(f.src.as_str())
            },
            _ => false,
        }
    }

    /// The facts known of the float lexeme that comes next.
    proof fn lemma_float_at(&self)
        requires
            wf(self@),
            tok(self@) matches Some(TokenModel::Float(_)),
        ensures
            float_shape(tok(self@)->0->Float_0),
            float_below_one(tok(self@)->0->Float_0) ==> float_fits(tok(self@)->0->Float_0),
            self@.pos > 0 && self@.toks[self@.pos - 1].0 == Some(TokenModel::Dot) ==> float_fits(tok(self@)->0->Float_0),
            tok(self@)->0->Float_0.len() == range_at(self@).1 - range_at(self@).0,
    {
        reveal(crate::parser::input_ok);
        let k = self@.pos;
        assert(self@.toks[k].0 matches Some(TokenModel::Float(t)) ==> float_shape(t) && (member_float(self@.toks, k, t) ==> float_fits(t)));
        assert(self@.toks[k].0 matches Some(TokenModel::Float(t)) ==> t.len() == self@.toks[k].2 - self@.toks[k].1);
    }

    #[verifier::spinoff_prover]
    #[verifier::rlimit(100)]
    fn parse_member_expression(&mut self, object: Expression) -> (r: MemberExpression)
        requires
            loc_within(model_loc(object@), old(self)@.len),
            wf(old(self)@),
            at_token(old(self)@, TokenModel::Dot),
        ensures
            loc_within(r.loc, old(self)@.len),
            wf(final(self)@),
            advanced(old(self)@, final(self)@),
            (expr_model(Expression::Member(r)), final(self)@) == member_result(old(self)@, object@),
    {
        let ghost m0 = self@;
        let dot_loc = self.next_loc();
        self.bump();
        let loc = Location::merge(object.loc(), dot_loc);
        let ghost m1 = self@;
        let range = self.next_range();
        match self.peek() {
            Some(Token::Ident(_)) => {
                let name = self.parse_identifier();
                let name_loc = name.loc;
                MemberExpression {
                    loc: Location::merge(loc, name_loc),
                    object: Box::new(object),
                    prop: Some(MemberProp::FieldName(name)),
                }
            },
            Some(Token::Int(_)) => {
                let index = self.parse_int();
                let index_loc = index.loc;
                MemberExpression {
                    loc: Location::merge(loc, index_loc),
                    object: Box::new(object),
                    prop: Some(MemberProp::Index(index)),
                }
            },
            Some(Token::Float(f)) => {
                let text = f.src.clone();
                proof {
                    self.lemma_float_at();
                    self.lemma_start_after_dot(m0);
                }
                let (dot, left, right) = float_parts(text.as_str());
                let n = text.as_str().unicode_len();
                let float_loc = self.localize(range.start..range.end);
                let left_loc = self.localize(range.start..range.start + dot);
                let inner_prop = if dot == 0 {
                    self.error(DiagnosticKind::InvalidMember, float_loc.decrement().increment());
                    None
                } else {
                    Some(MemberProp::Index(IntLiteral { loc: left_loc, value: left }))
                };
                let inner = MemberExpression {
                    loc: Location::merge(loc, left_loc),
                    object: Box::new(object),
                    prop: inner_prop,
                };
                let outer_prop = if n - dot <= 1 {
                    self.error(DiagnosticKind::InvalidMember, float_loc.increment());
                    None
                } else {
                    let right_loc = self.localize(range.start + dot + 1..range.end);
                    Some(MemberProp::Index(IntLiteral { loc: right_loc, value: right }))
                };
                self.bump();
                let r = MemberExpression {
                    loc: Location::merge(loc, float_loc),
                    object: Box::new(Expression::Member(inner)),
                    prop: outer_prop,
                };
                proof {
                    reveal_with_fuel(expr_model, 2);
                }
                r
            },
            _ => {
                self.error(DiagnosticKind::InvalidMember, loc.increment());
                MemberExpression { loc, object: Box::new(object), prop: None }
            },
        }
    }

    /// A lexeme that follows another starts after offset 0.
    proof fn lemma_start_after_dot(&self, m0: ParserModel)
        requires
            wf(self@),
            wf(m0),
            self@ == advance(m0),
            self@.pos < self@.toks.len(),
        ensures
            range_at(self@).0 >= 1,
    {
        reveal(crate::parser::input_ok);
        let i = m0.pos;
        let j = self@.pos;
        assert(self@.toks[i].2 <= self@.toks[j].1);
        assert(0 <= self@.toks[i].1 < self@.toks[i].2);
    }

    fn parse_member_from_float(&mut self, object: Expression) -> (r: MemberExpression)
        requires
            loc_within(model_loc(object@), old(self)@.len),
            wf(old(self)@),
            tok(old(self)@) matches Some(TokenModel::Float(t)) && float_below_one(t),
        ensures
            loc_within(r.loc, old(self)@.len),
            wf(final(self)@),
            advanced(old(self)@, final(self)@),
            (expr_model(Expression::Member(r)), final(self)@) == member_float_result(old(self)@, object@),
    {
        let float_range = self.next_range();
        let text = match self.peek() {
            Some(Token::Float(f)) => f.src.clone(),
            _ => String::new(),
        };
        proof {
            self.lemma_float_at();
        }
        self.bump();
        let (dot, _, right) = float_parts(text.as_str());
        let n = text.as_str().unicode_len();
        let index_loc = self.localize(float_range.start + 1..float_range.end);
        let loc = Location::merge(object.loc(), self.localize(float_range.start..float_range.end));
        let prop = if n - dot <= 1 {
            self.error(DiagnosticKind::InvalidMember, index_loc);
            None
        } else {
            Some(MemberProp::Index(IntLiteral { loc: index_loc, value: right }))
        };
        MemberExpression { loc, object: Box::new(object), prop }
    }

    fn parse_call_expression(&mut self, callee: Expression) -> (r: CallExpression)
        requires
            loc_within(model_loc(callee@), old(self)@.len),
            wf(old(self)@),
            at_token(old(self)@, TokenModel::LParen),
        ensures
            loc_within(r.loc, old(self)@.len),
            wf(final(self)@),
            advanced(old(self)@, final(self)@),
            (expr_model(Expression::Call(r)), final(self)@) == call_result(old(self)@, callee@),
        decreases (old(self).tokens@.len() - old(self).pos) * 64 + 1,
    {
        self.bump();
        let args = self.parse_argument_list();
        let end_range = self.expect(Token::RParen);
        let loc = Location::merge(callee.loc(), self.localize(end_range));
        CallExpression { loc, callee: Box::new(callee), args }
    }

    /// The call arguments up to `)` (not consumed).
    #[verifier::spinoff_prover]
    #[verifier::rlimit(100)]
    fn parse_argument_list(&mut self) -> (r: Vec<CallArgument>)
        requires
            wf(old(self)@),
        ensures
            wf(final(self)@),
            stepped(old(self)@, final(self)@),
            (args_model(r@), final(self)@) == arg_list_result(old(self)@, Seq::empty()),
        decreases (old(self).tokens@.len() - old(self).pos) * 64 + 40,
    {
        let ghost m0 = self@;
        let mut args: Vec<CallArgument> = Vec::new();
        let stops = [Token::Newline, Token::Comma, Token::RParen];
        proof {
            assert(args_model(args@) =~= Seq::<ArgModel>::empty());
        }
        loop
            invariant
                wf(self@),
                stepped(m0, self@),
                m0 == old(self)@,
                stops@[0]@ == TokenModel::Newline,
                stops@[1]@ == TokenModel::Comma,
                stops@[2]@ == TokenModel::RParen,
                arg_list_result(self@, args_model(args@)) == arg_list_result(m0, Seq::empty()),
            ensures
                wf(self@),
                stepped(m0, self@),
                arg_list_result(self@, args_model(args@)) == (args_model(args@), self@),
                arg_list_result(self@, args_model(args@)) == arg_list_result(m0, Seq::empty()),
            decreases self@.toks.len() - self@.pos,
        {
            let ghost m = self@;
            let ghost acc = args_model(args@);
            let kind: u8 = match self.peek() {
                None => 0,
                Some(t) => if t.is(&Token::Newline) {
                    1
                } else if t.is(&Token::RParen) {
                    0
                } else if t.is(&Token::Comma) {
                    2
                } else {
                    3
                },
            };
            if kind == 0 {
                break;
            } else if kind == 1 {
                self.bump();
            } else if kind == 2 {
                self.stray_separator(&stops[1]);
            } else {
                let a = self.parse_argument();
                proof {
                    lemma_args_model(args@);
                }
                match a {
                    Some(x) => {
                        args.push(x);
                    },
                    None => {},
                }
                proof {
                    reveal(argument_ok);
                    lemma_args_model(args@);
                    assert(args_model(args@) == match argument_result(m).0 {
                        Some(x) => acc.push(x),
                        None => acc,
                    });
                }
                let ghost m1 = self@;
                self.after_element(&stops);
                proof {
                    lemma_list_progress(m, m1, self@, TokenModel::Comma, TokenModel::RParen);
                }
            }
            assert(arg_list_result(m, acc) == arg_list_result(self@, args_model(args@)));
        }
        args
    }

    /// At a separator where an element is expected: reports it, and consumes
    /// it and a newline after it.
    fn stray_separator(&mut self, separator: &Token)
        requires
            wf(old(self)@),
            at_token(old(self)@, separator@),
        ensures
            wf(final(self)@),
            advanced(old(self)@, final(self)@),
            final(self)@ == stray_separator(old(self)@, separator@),
    {
        let loc = self.next_loc();
        self.error(DiagnosticKind::UnexpectedToken { token: separator.to_string() }, loc);
        self.bump();
        self.skip_next_if(&Token::Newline);
    }

    /// After an element of a list: skips to the next of `stops` (newline,
    /// separator, terminator) unless one comes next, then consumes a
    /// separator if there is one.
    fn after_element(&mut self, stops: &[Token; 3])
        requires
            wf(old(self)@),
            stops@[0]@ == TokenModel::Newline,
        ensures
            wf(final(self)@),
            stepped(old(self)@, final(self)@),
            final(self)@ == after_element(old(self)@, stops@[1]@, stops@[2]@),
    {
        let ghost set = list_stops(stops@[1]@, stops@[2]@);
        assert(token_models(stops@) =~= set);
        let stop = match self.peek() {
            Some(t) => t.is_one_of(stops),
            None => true,
        };
        if !stop {
            let empty: [Token; 0] = [];
            assert(token_models(empty@) =~= Seq::<TokenModel>::empty());
            self.recover_before(stops, &empty);
        }
        self.skip_next_if(&stops[1]);
    }

    /// A call argument: an expression, or a callback `(a, b) => body` whose
    /// parameters are names.
    #[verifier::spinoff_prover]
    #[verifier::rlimit(100)]
    fn parse_argument(&mut self) -> (r: Option<CallArgument>)
        requires
            wf(old(self)@),
        ensures
            wf(final(self)@),
            stepped(old(self)@, final(self)@),
            argument_ok(r, old(self)@, final(self)@),
        decreases (old(self).tokens@.len() - old(self).pos) * 64 + 35,
    {
        reveal(argument_ok);
        let argument = self.parse_expression();
        match argument {
            None => None,
            Some(Expression::Tuple(tuple)) => {
                proof {
                    lemma_exprs_model(tuple.elements@);
                }
                let callback = self.at(&Token::FatArrow) && all_identifiers(&tuple.elements);
                if callback {
                    let arrow_loc = self.next_loc();
                    self.bump();
                    let mut loc = Location::merge(tuple.loc, arrow_loc);
                    let body = match self.parse_expression() {
                        Some(b) => {
                            loc = Location::merge(loc, b.loc());
                            b
                        },
                        None => {
                            self.error(DiagnosticKind::MissingExpression, loc.increment());
                            Expression::Empty
                        },
                    };
                    let params = callback_params(tuple.elements);
                    Some(CallArgument::Callback(Callback { loc, params, body: Box::new(body) }))
                } else {
                    Some(CallArgument::Expression(Expression::Tuple(tuple)))
                }
            },
            Some(x) => Some(CallArgument::Expression(x)),
        }
    }

    /// A literal, a name, a tuple or an array; `Empty` if none comes next
    /// (nothing is consumed then).
    #[verifier::spinoff_prover]
    #[verifier::rlimit(100)]
    pub fn parse_atom(&mut self) -> (r: Expression)
        requires
            wf(old(self)@),
        ensures
            loc_within(model_loc(r@), old(self)@.len),
            wf(final(self)@),
            stepped(old(self)@, final(self)@),
            (r@, final(self)@) == atom_result(old(self)@),
            !(r@ is Binary),
        decreases (old(self).tokens@.len() - old(self).pos) * 64 + 8,
    {
        let kind: u8 = match self.peek() {
            Some(Token::Bool(_)) => 1,
            Some(Token::Int(_)) => 2,
            Some(Token::Float(_)) => 3,
            Some(Token::String(_)) => 4,
            Some(Token::Ident(_)) => 5,
            Some(Token::LParen) => 6,
            Some(Token::LBracket) => 7,
            _ => 0,
        };
        if kind == 1 {
            Expression::BooleanLiteral(self.parse_bool())
        } else if kind == 2 {
            Expression::IntLiteral(self.parse_int())
        } else if kind == 3 {
            Expression::FloatLiteral(self.parse_float())
        } else if kind == 4 {
            Expression::StringLiteral(self.parse_string())
        } else if kind == 5 {
            Expression::Identifier(self.parse_identifier())
        } else if kind == 6 {
            Expression::Tuple(self.parse_tuple())
        } else if kind == 7 {
            Expression::Array(self.parse_array())
        } else {
            Expression::Empty
        }
    }

    /// A tuple `(a, b, ...)`, at the opening parenthesis.
    pub fn parse_tuple(&mut self) -> (r: TupleExpression)
        requires
            wf(old(self)@),
            at_token(old(self)@, TokenModel::LParen),
        ensures
            loc_within(r.loc, old(self)@.len),
            wf(final(self)@),
            advanced(old(self)@, final(self)@),
            (expr_model(Expression::Tuple(r)), final(self)@) == tuple_result(old(self)@),
        decreases (old(self).tokens@.len() - old(self).pos) * 64 + 1,
    {
        let start_range = self.next_range();
        self.bump();
        let elements = self.parse_expression_list(Token::Comma, Token::RParen);
        let end_range = self.expect(Token::RParen);
        TupleExpression { loc: self.localize(start_range.start..end_range.end), elements }
    }

    /// An array `[a, b, ...]`, at the opening bracket.
    pub fn parse_array(&mut self) -> (r: ArrayExpression)
        requires
            wf(old(self)@),
            at_token(old(self)@, TokenModel::LBracket),
        ensures
            loc_within(r.loc, old(self)@.len),
            wf(final(self)@),
            advanced(old(self)@, final(self)@),
            (expr_model(Expression::Array(r)), final(self)@) == array_result(old(self)@),
        decreases (old(self).tokens@.len() - old(self).pos) * 64 + 1,
    {
        let brackets = [Token::LBracket];
        assert(token_models(brackets@) =~= seq![TokenModel::LBracket]);
        proof {
            lemma_at_single(self@, TokenModel::LBracket);
        }
        let start_range = self.eat(&brackets);
        let elements = self.parse_expression_list(Token::Comma, Token::RBracket);
        let end_range = self.expect(Token::RBracket);
        ArrayExpression {
            loc: Location::merge(self.localize(start_range), self.localize(end_range)),
            elements,
        }
    }

    /// A block `{ ... }` of newline-separated expressions, at the brace.
    pub fn parse_block(&mut self) -> (r: BlockExpression)
        requires
            wf(old(self)@),
            at_token(old(self)@, TokenModel::LBrace),
        ensures
            loc_within(r.loc, old(self)@.len),
            wf(final(self)@),
            advanced(old(self)@, final(self)@),
            (block_model(r), final(self)@) == block_result(old(self)@),
        decreases (old(self).tokens@.len() - old(self).pos) * 64 + 5,
    {
        let start_range = self.next_range();
        self.bump();
        let exprs = self.parse_expression_list(Token::Newline, Token::RBrace);
        let statements = into_statements(exprs);
        let end_range = self.expect(Token::RBrace);
        proof {
            lemma_stmts_model(statements@);
        }
        BlockExpression { statements, loc: self.localize(start_range.start..end_range.end) }
    }

    /// The expressions of a list up to `terminator` (not consumed), the end,
    /// or a lexeme that did not lex. Newlines between elements are skipped;
    /// a separator where an element is expected is reported; after an
    /// element, anything up to the next newline, separator or terminator is
    /// reported and skipped.
    #[verifier::spinoff_prover]
    #[verifier::rlimit(100)]
    fn parse_expression_list(&mut self, separator: Token, terminator: Token) -> (r: Vec<Expression>)
        requires
            wf(old(self)@),
            separator@ is Comma || separator@ is Newline,
            terminator@ is RParen || terminator@ is RBracket || terminator@ is RBrace,
        ensures
            wf(final(self)@),
            stepped(old(self)@, final(self)@),
            (exprs_model(r@), final(self)@) == expr_list_result(old(self)@, separator@, terminator@, Seq::empty()),
        decreases (old(self).tokens@.len() - old(self).pos) * 64 + 40,
    {
        let ghost m0 = self@;
        let ghost sep = separator@;
        let ghost term = terminator@;
        let stops = [Token::Newline, separator, terminator];
        let mut elements: Vec<Expression> = Vec::new();
        proof {
            assert(token_models(stops@) =~= list_stops(sep, term));
            assert(exprs_model(elements@) =~= Seq::<ExprModel>::empty());
        }
        loop
            invariant
                wf(self@),
                stepped(m0, self@),
                m0 == old(self)@,
                stops@[0]@ == TokenModel::Newline,
                stops@[1]@ == sep,
                stops@[2]@ == term,
                sep is Comma || sep is Newline,
                term is RParen || term is RBracket || term is RBrace,
                token_models(stops@) == list_stops(sep, term),
                expr_list_result(self@, sep, term, exprs_model(elements@)) == expr_list_result(m0, sep, term, Seq::empty()),
            ensures
                wf(self@),
                stepped(m0, self@),
                expr_list_result(self@, sep, term, exprs_model(elements@)) == (exprs_model(elements@), self@),
                expr_list_result(self@, sep, term, exprs_model(elements@)) == expr_list_result(m0, sep, term, Seq::empty()),
            decreases self@.toks.len() - self@.pos,
        {
            let ghost m = self@;
            let ghost acc = exprs_model(elements@);
            let kind: u8 = match self.peek() {
                None => 0,
                Some(t) => if t.is(&Token::Newline) {
                    1
                } else if t.is(&stops[2]) {
                    0
                } else if t.is(&stops[1]) {
                    2
                } else {
                    3
                },
            };
            if kind == 0 {
                break;
            } else if kind == 1 {
                self.bump();
            } else if kind == 2 {
                self.stray_separator(&stops[1]);
            } else {
                let e = self.parse_expression();
                let ghost m1 = self@;
                proof {
                    lemma_exprs_model(elements@);
                }
                match e {
                    Some(x) => {
                        elements.push(x);
                    },
                    None => {},
                }
                proof {
                    lemma_exprs_model(elements@);
                    assert(exprs_model(elements@) == match expression_result(m).0 {
                        Some(x) => acc.push(x),
                        None => acc,
                    });
                }
                self.after_element(&stops);
                proof {
                    lemma_list_progress(m, m1, self@, sep, term);
                }
            }
            assert(expr_list_result(m, sep, term, acc) == expr_list_result(self@, sep, term, exprs_model(elements@)));
        }
        elements
    }

    /// An `if` expression, at the keyword.
    pub fn parse_condition(&mut self) -> (r: Expression)
        requires
            wf(old(self)@),
            at_token(old(self)@, TokenModel::If),
        ensures
            loc_within(model_loc(r@), old(self)@.len),
            wf(final(self)@),
            advanced(old(self)@, final(self)@),
            (r@, final(self)@) == (ExprModel::If(condition_result(old(self)@).0), condition_result(old(self)@).1),
        decreases (old(self).tokens@.len() - old(self).pos) * 64 + 25,
    {
        Expression::If(self.parse_if())
    }

    fn parse_if(&mut self) -> (r: IfExpression)
        requires
            wf(old(self)@),
            at_token(old(self)@, TokenModel::If),
        ensures
            loc_within(r.loc, old(self)@.len),
            wf(final(self)@),
            advanced(old(self)@, final(self)@),
            (if_model(r), final(self)@) == condition_result(old(self)@),
        decreases (old(self).tokens@.len() - old(self).pos) * 64 + 24,
    {
        let keyword = [Token::If];
        assert(token_models(keyword@) =~= seq![TokenModel::If]);
        proof {
            lemma_at_single(self@, TokenModel::If);
        }
        let start_range = self.eat(&keyword);
        let start_loc = self.localize(start_range);
        self.parse_if_expression(start_loc)
    }

    #[verifier::spinoff_prover]
    #[verifier::rlimit(100)]
    fn parse_if_expression(&mut self, kw: Location) -> (r: IfExpression)
        requires
            loc_within(kw, old(self)@.len),
            wf(old(self)@),
        ensures
            loc_within(r.loc, old(self)@.len),
            wf(final(self)@),
            stepped(old(self)@, final(self)@),
            (if_model(r), final(self)@) == if_result(old(self)@, kw),
        decreases (old(self).tokens@.len() - old(self).pos) * 64 + 24,
    {
        let condition = match self.parse_expression_without_block() {
            Some(expr) => expr,
            None => {
                self.report_missing(DiagnosticKind::MissingExpression);
                Expression::Empty
            },
        };
        let consequent = self.parse_if_body();
        let alternate = if self.at(&Token::Else) {
            self.parse_alternate()
        } else {
            None
        };
        let end_loc = match &alternate {
            Some(alternate) => alternate.loc(),
            None => consequent.loc,
        };
        IfExpression {
            loc: Location::merge(kw, end_loc),
            condition: Box::new(condition),
            consequent: Box::new(consequent),
            alternate: match alternate {
                Some(a) => Some(Box::new(a)),
                None => None,
            },
        }
    }

    fn parse_if_body(&mut self) -> (r: BlockExpression)
        requires
            wf(old(self)@),
        ensures
            loc_within(r.loc, old(self)@.len),
            wf(final(self)@),
            stepped(old(self)@, final(self)@),
            (block_model(r), final(self)@) == if_body_result(old(self)@),
        decreases (old(self).tokens@.len() - old(self).pos) * 64 + 23,
    {
        if self.at(&Token::LBrace) {
            self.parse_block()
        } else {
            let tokens = [Token::LBrace];
            let sync = [Token::Newline];
            assert(token_models(tokens@) =~= seq![TokenModel::LBrace]);
            assert(token_models(sync@) =~= seq![TokenModel::Newline]);
            self.recover_before(&tokens, &sync);
            let range = self.next_range();
            let statements: Vec<Statement> = Vec::new();
            proof {
                lemma_stmts_model(statements@);
                assert(statements@.map_values(|s: Statement| stmt_model(s)) =~= Seq::<ExprModel>::empty());
            }
            BlockExpression { statements, loc: self.localize(range) }
        }
    }

    fn parse_alternate(&mut self) -> (r: Option<Alternate>)
        requires
            wf(old(self)@),
            at_token(old(self)@, TokenModel::Else),
        ensures
            match r { Some(a) => loc_within(alt_loc(alt_model(a)), old(self)@.len), None => true },
            wf(final(self)@),
            advanced(old(self)@, final(self)@),
            ((match r {
                Some(a) => Some(alt_model(a)),
                None => None,
            }), final(self)@) == alternate_result(old(self)@),
        decreases (old(self).tokens@.len() - old(self).pos) * 64 + 23,
    {
        let keyword = [Token::Else];
        assert(token_models(keyword@) =~= seq![TokenModel::Else]);
        proof {
            lemma_at_single(self@, TokenModel::Else);
        }
        self.eat(&keyword);
        let next = [Token::LBrace, Token::If, Token::Newline];
        assert(token_models(next@) =~= seq![TokenModel::LBrace, TokenModel::If, TokenModel::Newline]);
        self.expect_either(&next);
        if self.at(&Token::If) {
            Some(Alternate::If(self.parse_if()))
        } else if self.at(&Token::LBrace) {
            Some(Alternate::Block(self.parse_block()))
        } else {
            None
        }
    }

    /// A `for` loop, at the keyword.
    pub fn parse_loop_expression(&mut self) -> (r: Loop)
        requires
            wf(old(self)@),
            at_token(old(self)@, TokenModel::For),
        ensures
            match r { Loop::For(f) => loc_within(f.loc, old(self)@.len) },
            wf(final(self)@),
            advanced(old(self)@, final(self)@),
            (expr_model(Expression::Loop(r)), final(self)@) == loop_result(old(self)@),
        decreases (old(self).tokens@.len() - old(self).pos) * 64 + 25,
    {
        let ghost m = self@;
        let start_loc = self.next_loc();
        self.bump();
        let expression = self.parse_expression_without_block();
        let ghost m2 = self@;
        let body = self.parse_loop_body();
        proof {
            lemma_loop_result(m, opt_model(expression), m2, opt_block_model(body), self@);
        }
        make_for(start_loc, expression, body, Ghost(old(self)@.len))
    }

    fn parse_loop_body(&mut self) -> (r: Option<BlockExpression>)
        requires
            wf(old(self)@),
        ensures
            match r { Some(b) => loc_within(b.loc, old(self)@.len), None => true },
            wf(final(self)@),
            stepped(old(self)@, final(self)@),
            ((match r {
                Some(b) => Some(block_model(b)),
                None => None,
            }), final(self)@) == loop_body_result(old(self)@),
        decreases (old(self).tokens@.len() - old(self).pos) * 64 + 23,
    {
        if self.at(&Token::LBrace) {
            Some(self.parse_block())
        } else {
            let loc = self.next_loc();
            self.error(DiagnosticKind::MissingConsequent, loc);
            None
        }
    }
}

/// Whether every expression is a name.
fn all_identifiers(exprs: &Vec<Expression>) -> (r: bool)
    ensures
        r == all_idents(exprs_model(exprs@)),
{
    proof {
        lemma_exprs_model(exprs@);
        reveal_with_fuel(expr_model, 2);
    }
    reveal(all_idents);
    let ghost ms = exprs_model(exprs@);
    let mut i: usize = 0;
    while i < exprs.len()
        invariant
            i <= exprs@.len(),
            ms == exprs@.map_values(|e: Expression| expr_model(e)),
            ms == exprs_model(exprs@),
            forall|k: int| 0 <= k < i ==> (#[trigger] ms[k]) is Ident,
        decreases exprs@.len() - i,
    {
        reveal(all_idents);
        match &exprs[i] {
            Expression::Identifier(_) => {
                assert(ms[i as int] is Ident);
            },
            _ => {
                assert(!(ms[i as int] is Ident));
                assert(!all_idents(exprs_model(exprs@)));
                return false;
            },
        }
        i = i + 1;
    }
    true
}

/// An element of a list that consumed nothing leaves a lexeme that
/// recovery then skips: each round of a list moves on.
proof fn lemma_list_progress(m: ParserModel, m1: ParserModel, m2: ParserModel, separator: TokenModel, terminator: TokenModel)
    requires
        wf(m),
        wf(m1),
        stepped(m, m1),
        stepped(m1, m2),
        m2 == after_element(m1, separator, terminator),
        tok(m) matches Some(t) && !list_stops(separator, terminator).contains(t),
    ensures
        advanced(m, m2),
{
    if m1.pos == m.pos {
        let stops = list_stops(separator, terminator);
        assert(stops + Seq::<TokenModel>::empty() =~= stops);
        lemma_skip_until(m1, stops, range_at(m1).1);
        let r = crate::parser::recover_before_result(m1, stops, Seq::empty()).1;
        assert(m.pos < r.pos);
    }
}


/// The model of an optional block.
pub open spec fn opt_block_model(b: Option<BlockExpression>) -> Option<BlockModel> {
    match b {
        Some(x) => Some(block_model(x)),
        None => None,
    }
}

/// The model of a `for` loop from its keyword's location, condition and body.
pub open spec fn for_model(start: Location, c: Option<ExprModel>, b: Option<BlockModel>) -> ExprModel {
    let loc = match c {
        Some(e) => merged(start, model_loc(e)),
        None => start,
    };
    let loc2 = match b {
        Some(x) => merged(loc, x.loc),
        None => loc,
    };
    ExprModel::For(
        loc2,
        match c {
            Some(e) => Some(Box::new(e)),
            None => None,
        },
        b,
    )
}

proof fn lemma_loop_result(
    m: ParserModel,
    c: Option<ExprModel>,
    m2: ParserModel,
    b: Option<BlockModel>,
    m3: ParserModel,
)
    requires
        wf(m),
        at_token(m, TokenModel::For),
        (c, m2) == without_block_result(advance(m)),
        stepped(advance(m), m2),
        (b, m3) == loop_body_result(m2),
    ensures
        loop_result(m) == (for_model(next_loc(m), c, b), m3),
{
}

fn make_for(start: Location, expression: Option<Expression>, body: Option<BlockExpression>, Ghost(len): Ghost<int>) -> (r: Loop)
    requires
        loc_within(start, len),
        match expression {
            Some(e) => loc_within(model_loc(e@), len),
            None => true,
        },
        match body {
            Some(b) => loc_within(b.loc, len),
            None => true,
        },
    ensures
        expr_model(Expression::Loop(r)) == for_model(start, opt_model(expression), opt_block_model(body)),
        match r {
            Loop::For(f) => loc_within(f.loc, len),
        },
{
    let loc = match &expression {
        Some(e) => Location::merge(start, e.loc()),
        None => start,
    };
    let loc2 = match &body {
        Some(b) => Location::merge(loc, b.loc),
        None => loc,
    };
    Loop::For(
        ForExpression {
            loc: loc2,
            condition: match expression {
                Some(e) => Some(Box::new(e)),
                None => None,
            },
            body,
        },
    )
}

#[verifier::opaque]
pub open spec fn argument_ok(r: Option<CallArgument>, m: ParserModel, m1: ParserModel) -> bool {
    ((match r {
        Some(a) => Some(arg_model(a)),
        None => None,
    }), m1) == argument_result(m)
}
} // verus!
