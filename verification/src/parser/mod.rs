use vstd::prelude::*;

use std::ops::Range;
use vstd::string::StringSliceAdditionalSpecFns;

use crate::diagnostics::{
    Diagnostic, DiagnosticKind, DiagnosticKindModel, DiagnosticLevel, DiagnosticModel,
    diagnostics_view, strings_view,
};
use crate::lexer::{
    LexemeModel, Lexeme, lexemes_view, tokenize, ints_fit, lex_spec, lemma_float_lengths,
    lemma_lexemes_ordered,
};
use crate::locations::{Location, ModuleId, Span};
use crate::tokens::{Token, TokenModel, token_models, token_text, token_texts};

pub mod grammar;
pub mod expressions;
pub mod laws;

use crate::parser::expressions::{float_below_one_exec, float_fits_exec, float_shape_exec};

verus! {

/// The mathematical state of a parser: the module and length of the source,
/// its lexemes, the position of the next lexeme and the diagnostics so far.
pub struct ParserModel {
    pub module: ModuleId,
    pub len: int,
    pub toks: Seq<LexemeModel>,
    pub pos: int,
    pub diags: Seq<DiagnosticModel>,
}

// ----- float literals used as member indices -----

/// The index of the first `.` in `t` at or after `i` (`t.len()` if none).
pub open spec fn first_dot_from(t: Seq<char>, i: int) -> int
    decreases t.len() - i,
{
    if i < 0 || i >= t.len() {
        t.len() as int
    } else if t[i] == '.' {
        i
    } else {
        first_dot_from(t, i + 1)
    }
}

/// The index of the first `.` of `t` (`t.len()` if none).
pub open spec fn first_dot(t: Seq<char>) -> int {
    first_dot_from(t, 0)
}

/// The text of a float literal before its dot.
pub open spec fn float_left(t: Seq<char>) -> Seq<char> {
    t.subrange(0, first_dot(t))
}

/// The text of a float literal after its dot (empty if it has none).
pub open spec fn float_right(t: Seq<char>) -> Seq<char> {
    if first_dot(t) < t.len() {
        t.subrange(first_dot(t) + 1, t.len() as int)
    } else {
        Seq::empty()
    }
}

/// Whether `c` is an ASCII digit or an underscore.
pub open spec fn is_digit_or_underscore(c: char) -> bool {
    ('0' <= c && c <= '9') || c == '_'
}

/// The decimal value of digit characters, underscores ignored.
pub open spec fn char_digits_value(t: Seq<char>) -> int
    decreases t.len(),
{
    if t.len() == 0 {
        0
    } else if t[t.len() - 1] == '_' {
        char_digits_value(t.subrange(0, t.len() - 1))
    } else {
        char_digits_value(t.subrange(0, t.len() - 1)) * 10 + (t[t.len() - 1] as int - '0' as int)
    }
}

/// Whether a float text is made of digits and underscores around one dot.
pub open spec fn float_shape(t: Seq<char>) -> bool {
    &&& forall|i: int| 0 <= i < float_left(t).len() ==> is_digit_or_underscore(#[trigger] float_left(t)[i])
    &&& forall|i: int| 0 <= i < float_right(t).len() ==> is_digit_or_underscore(#[trigger] float_right(t)[i])
}

/// Whether a float text has the float shape and each side's value fits in
/// an `i64`, as it must where its sides are read as two member indices.
pub open spec fn float_fits(t: Seq<char>) -> bool {
    &&& float_shape(t)
    &&& char_digits_value(float_left(t)) <= i64::MAX
    &&& char_digits_value(float_right(t)) <= i64::MAX
}

/// Whether the float lexeme at `k` may be read as member indices: it follows
/// a dot, or its value is below one (a member index after a dot that the
/// lexer made part of the float).
pub open spec fn member_float(toks: Seq<LexemeModel>, k: int, t: Seq<char>) -> bool {
    (k > 0 && toks[k - 1].0 == Some(TokenModel::Dot)) || float_below_one(t)
}

/// Whether every float lexeme of `toks` has the float shape, and every one
/// that may be read as member indices fits (see `float_fits`).
pub open spec fn floats_fit(toks: Seq<LexemeModel>) -> bool {
    forall|k: int| 0 <= k < toks.len() ==> ((#[trigger] toks[k]).0 matches Some(TokenModel::Float(t)) ==> {
        &&& float_shape(t)
        &&& member_float(toks, k, t) ==> float_fits(t)
    })
}

/// The decimal digits of 1 - 2^-54, the midpoint between one and the
/// largest `f64` below one: a decimal fraction reads as an `f64` below one
/// exactly when it is below this midpoint (a tie goes to one, the even
/// neighbour).
pub open spec fn mid_digits() -> Seq<u8> {
    seq![9u8, 9, 9, 9, 9, 9, 9, 9, 9, 9, 9, 9, 9, 9, 9, 9, 4, 4, 4, 8, 8, 8, 4, 8, 7, 6, 8, 7, 4, 2, 1, 7, 2, 9, 7, 8, 8, 1, 8, 4, 1, 6, 5, 9, 5, 4, 5, 8, 9, 8, 4, 3, 7, 5]
}

/// Whether the fraction digits `s[j..]`, underscores skipped, the next of
/// which is digit number `i`, are below the midpoint given that the digits
/// before them equal its first `i` digits.
pub open spec fn fraction_below_from(s: Seq<char>, j: int, i: int) -> bool
    decreases s.len() - j,
{
    if j < 0 || i < 0 || i >= 54 {
        false
    } else if j >= s.len() {
        true
    } else if s[j] == '_' {
        fraction_below_from(s, j + 1, i)
    } else if (s[j] as int) - ('0' as int) < mid_digits()[i] as int {
        true
    } else if (s[j] as int) - ('0' as int) > mid_digits()[i] as int {
        false
    } else {
        fraction_below_from(s, j + 1, i + 1)
    }
}

/// Whether a float literal's value, read as an `f64`, is below one: its
/// integer part is zero and its fraction is below the midpoint `mid_digits`.
pub open spec fn float_below_one(t: Seq<char>) -> bool {
    char_digits_value(float_left(t)) == 0 && fraction_below_from(float_right(t), 0, 0)
}

/// Whether the parser accepts `s`: it is shorter than `u32::MAX` bytes, its
/// integer literals fit in an `i64`, and so do the digit groups of the float
/// literals that may be read as member indices.
pub open spec fn source_ok(s: Seq<u8>) -> bool {
    &&& s.len() < u32::MAX
    &&& ints_fit(s)
    &&& floats_fit(lex_spec(s))
}

// ----- the parser state -----

/// The lexemes are in increasing order, within the source, and the source
/// is short enough for `u32` offsets.
#[verifier::opaque]
pub open spec fn input_ok(len: int, toks: Seq<LexemeModel>) -> bool {
    &&& 0 <= len < u32::MAX
    &&& forall|k: int| 0 <= k < toks.len() ==> 0 <= (#[trigger] toks[k]).1 < toks[k].2 <= len
    &&& forall|i: int, j: int| 0 <= i < j < toks.len() ==> (#[trigger] toks[i]).2 <= (#[trigger] toks[j]).1
    &&& forall|k: int| 0 <= k < toks.len() ==> ((#[trigger] toks[k]).0 matches Some(TokenModel::Float(t)) ==> t.len()
        == toks[k].2 - toks[k].1)
    &&& floats_fit(toks)
}

/// Whether a location ends within a source of `len` bytes.
pub open spec fn loc_within(l: Location, len: int) -> bool {
    l.span.end <= len
}

/// A well-formed parser state.
pub open spec fn wf(m: ParserModel) -> bool {
    0 <= m.len < u32::MAX && input_ok(m.len, m.toks) && 0 <= m.pos <= m.toks.len()
}

/// The next lexeme's range lies within the source.
pub proof fn lemma_range_at(m: ParserModel)
    requires
        wf(m),
    ensures
        0 <= range_at(m).0 <= range_at(m).1 <= m.len,
{
    reveal(input_ok);
    if 0 <= m.pos < m.toks.len() {
        assert(0 <= m.toks[m.pos].1 < m.toks[m.pos].2 <= m.len);
    }
}

/// `m1` continues `m0`: same input, position not moved backwards.
pub open spec fn stepped(m0: ParserModel, m1: ParserModel) -> bool {
    &&& m1.module == m0.module
    &&& m1.len == m0.len
    &&& m1.toks == m0.toks
    &&& m0.pos <= m1.pos <= m1.toks.len()
}

/// `m1` continues `m0` and has consumed at least one lexeme.
pub open spec fn advanced(m0: ParserModel, m1: ParserModel) -> bool {
    stepped(m0, m1) && m0.pos < m1.pos
}

/// The token of the next lexeme, if there is one and it lexed correctly.
pub open spec fn tok(m: ParserModel) -> Option<TokenModel> {
    if 0 <= m.pos < m.toks.len() {
        m.toks[m.pos].0
    } else {
        None
    }
}

/// Whether the next lexeme is the token `t`.
pub open spec fn at_token(m: ParserModel, t: TokenModel) -> bool {
    tok(m) == Some(t)
}

/// Whether the next lexeme is one of the tokens `set`.
pub open spec fn at_one_of(m: ParserModel, set: Seq<TokenModel>) -> bool {
    tok(m) matches Some(t) && set.contains(t)
}

/// The byte range of the next lexeme (the empty range at the end of the
/// source if there is none).
pub open spec fn range_at(m: ParserModel) -> (int, int) {
    if 0 <= m.pos < m.toks.len() {
        (m.toks[m.pos].1, m.toks[m.pos].2)
    } else {
        (m.len, m.len)
    }
}

/// The state after consuming one lexeme.
pub open spec fn advance(m: ParserModel) -> ParserModel {
    ParserModel { pos: m.pos + 1, ..m }
}

/// The location of the byte range `a..b` in the parser's module.
pub open spec fn loc_at(m: ParserModel, a: int, b: int) -> Location {
    Location { module: m.module, span: Span { start: a as u32, end: b as u32 } }
}

/// The location of the next lexeme.
pub open spec fn next_loc(m: ParserModel) -> Location {
    loc_at(m, range_at(m).0, range_at(m).1)
}

/// The state after reporting an error.
pub open spec fn with_error(m: ParserModel, kind: DiagnosticKindModel, loc: Location) -> ParserModel {
    ParserModel {
        diags: m.diags.push(DiagnosticModel { level: DiagnosticLevel::Error, loc, kind }),
        ..m
    }
}

/// Consumes the next lexeme if it is the token `t`.
pub open spec fn skip_if(m: ParserModel, t: TokenModel) -> ParserModel {
    if at_token(m, t) {
        advance(m)
    } else {
        m
    }
}

/// Consumes lexemes until one of the tokens `set` or the end; returns the
/// end of the skipped range (`end` if nothing is skipped) and the new state.
pub open spec fn skip_until(m: ParserModel, set: Seq<TokenModel>, end: int) -> (int, ParserModel)
    decreases m.toks.len() - m.pos,
{
    if 0 <= m.pos < m.toks.len() && !at_one_of(m, set) {
        skip_until(advance(m), set, m.toks[m.pos].2)
    } else {
        (end, m)
    }
}

/// Skips to the next of `tokens` or `sync`, reporting that one of `tokens`
/// was expected over the skipped range.
pub open spec fn recover_before_result(m: ParserModel, tokens: Seq<TokenModel>, sync: Seq<TokenModel>) -> (
    (int, int),
    ParserModel,
) {
    let start = range_at(m);
    let (end, m1) = skip_until(m, tokens + sync, start.1);
    (
        (start.0, end),
        with_error(m1, DiagnosticKindModel::ExpectedToken(token_texts(tokens)), loc_at(m1, start.0, end)),
    )
}

/// Like `recover_before_result`, and also consumes the token found.
pub open spec fn recover_at_result(m: ParserModel, tokens: Seq<TokenModel>) -> ((int, int), ParserModel) {
    let (r, m1) = recover_before_result(m, tokens, Seq::empty());
    if 0 <= m1.pos < m1.toks.len() {
        ((r.0, m1.toks[m1.pos].2), advance(m1))
    } else {
        ((r.0, m1.len), m1)
    }
}

/// Consumes the token `t` if it comes next, else recovers at it.
pub open spec fn expect_result(m: ParserModel, t: TokenModel) -> ((int, int), ParserModel) {
    if at_token(m, t) {
        (range_at(m), advance(m))
    } else {
        recover_at_result(m, seq![t])
    }
}

/// Reports and skips to one of `tokens` unless one of them comes next.
pub open spec fn expect_either_result(m: ParserModel, tokens: Seq<TokenModel>) -> ParserModel {
    if at_one_of(m, tokens) {
        m
    } else {
        recover_before_result(m, tokens, Seq::empty()).1
    }
}

proof fn lemma_contains_add(a: Seq<TokenModel>, b: Seq<TokenModel>, x: TokenModel)
    ensures
        (a + b).contains(x) <==> (a.contains(x) || b.contains(x)),
{
    if a.contains(x) {
        let i = choose|i: int| 0 <= i < a.len() && a[i] == x;
        assert((a + b)[i] == x);
    }
    if b.contains(x) {
        let i = choose|i: int| 0 <= i < b.len() && b[i] == x;
        assert((a + b)[a.len() + i] == x);
    }
    if (a + b).contains(x) {
        let i = choose|i: int| 0 <= i < (a + b).len() && (a + b)[i] == x;
        if i < a.len() {
            assert(a[i] == x);
        } else {
            assert(b[i - a.len()] == x);
        }
    }
}

/// Being at the token `t` is being at one of `[t]`.
pub proof fn lemma_at_single(m: ParserModel, t: TokenModel)
    requires
        at_token(m, t),
    ensures
        at_one_of(m, seq![t]),
{
    assert(seq![t][0] == t);
}

proof fn lemma_skip_until(m: ParserModel, set: Seq<TokenModel>, end: int)
    requires
        wf(m),
    ensures
        stepped(m, skip_until(m, set, end).1),
        wf(skip_until(m, set, end).1),
        skip_until(m, set, end).1.diags == m.diags,
        m.pos < m.toks.len() && !at_one_of(m, set) ==> m.pos < skip_until(m, set, end).1.pos,
        skip_until(m, set, end).1 == (ParserModel { pos: skip_until(m, set, end).1.pos, ..m }),
    decreases m.toks.len() - m.pos,
{
    if 0 <= m.pos < m.toks.len() && !at_one_of(m, set) {
        lemma_skip_until(advance(m), set, m.toks[m.pos].2);
    }
}

/// The lexer's output for `s` is a well-formed parser input.
proof fn lemma_new_input(s: Seq<u8>, module: ModuleId)
    requires
        source_ok(s),
    ensures
        wf(ParserModel { module, len: s.len() as int, toks: lex_spec(s), pos: 0, diags: Seq::empty() }),
{
    reveal(input_ok);
    lemma_lexemes_ordered(s);
    lemma_float_lengths(s);
    let l = lex_spec(s);
    assert forall|i: int, j: int| 0 <= i < j < l.len() implies (#[trigger] l[i]).2 <= (#[trigger] l[j]).1 by {
        lemma_chain(l, i, j);
    }
}

proof fn lemma_chain(l: Seq<LexemeModel>, i: int, j: int)
    requires
        0 <= i < j < l.len(),
        forall|k: int| 0 <= k < l.len() ==> (#[trigger] l[k]).1 < l[k].2,
        forall|k: int| 0 <= k < l.len() - 1 ==> (#[trigger] l[k]).2 <= l[k + 1].1,
    ensures
        l[i].2 <= l[j].1,
    decreases j - i,
{
    if i + 1 < j {
        lemma_chain(l, i + 1, j);
        assert(l[i].2 <= l[i + 1].1);
        assert(l[i + 1].1 < l[i + 1].2);
    }
}

/// A parser of the expressions of one module's source text.
pub struct Parser {
    pub module: ModuleId,
    pub src_len: usize,
    pub tokens: Vec<Lexeme>,
    pub pos: usize,
    pub diagnostics: Vec<Diagnostic>,
}

impl View for Parser {
    type V = ParserModel;

    open spec fn view(&self) -> ParserModel {
        ParserModel {
            module: self.module,
            len: self.src_len as int,
            toks: lexemes_view(self.tokens@),
            pos: self.pos as int,
            diags: diagnostics_view(self.diagnostics@),
        }
    }
}

impl Parser {
    /// A parser at the start of `src`, with no diagnostics.
    pub fn new(module: ModuleId, src: &str) -> (r: Parser)
        requires
            source_ok(src.spec_bytes()),
        ensures
            r@ == (ParserModel {
                module,
                len: src.spec_bytes().len() as int,
                toks: lex_spec(src.spec_bytes()),
                pos: 0,
                diags: Seq::empty(),
            }),
            wf(r@),
    {
        let bytes = src.as_bytes();
        let tokens = match tokenize(bytes) {
            Some(v) => v,
            None => Vec::new(),
        };
        proof {
            lemma_new_input(bytes@, module);
        }
        let r = Parser { module, src_len: bytes.len(), tokens, pos: 0, diagnostics: Vec::new() };
        assert(diagnostics_view(r.diagnostics@) =~= Seq::empty());
        r
    }

    /// Whether `src` can be parsed (see `source_ok`): shorter than
    /// `u32::MAX` bytes, with integer literals and float digit groups that
    /// fit in an `i64`.
    pub fn accepts(src: &str) -> (r: bool)
        ensures
            r == source_ok(src.spec_bytes()),
    {
        let bytes = src.as_bytes();
        if bytes.len() >= 4294967295usize {
            return false;
        }
        match tokenize(bytes) {
            None => false,
            Some(tokens) => floats_fit_exec(&tokens),
        }
    }

    /// The location of a byte range of the source.
    pub fn localize(&self, range: Range<usize>) -> (r: Location)
        ensures
            r == loc_at(self@, range.start as int, range.end as int),
    {
        Location::new(self.module, Span::new(range.start as u32, range.end as u32))
    }

    /// The byte range of the next lexeme (the empty range at the end of the
    /// source if there is none).
    pub fn next_range(&self) -> (r: Range<usize>)
        requires
            wf(self@),
        ensures
            r.start == range_at(self@).0,
            r.end == range_at(self@).1,
            r.start <= r.end <= self@.len,
    {
        proof {
            lemma_range_at(self@);
        }
        if self.pos < self.tokens.len() {
            let l = &self.tokens[self.pos];
            l.start..l.end
        } else {
            self.src_len..self.src_len
        }
    }

    /// The location of the next lexeme.
    pub fn next_loc(&self) -> (r: Location)
        requires
            wf(self@),
        ensures
            r == next_loc(self@),
            r.span.start <= r.span.end,
            r.span.end <= self@.len,
    {
        let range = self.next_range();
        self.localize(range)
    }

    /// The token of the next lexeme, if there is one and it lexed correctly.
    pub fn peek(&self) -> (r: Option<&Token>)
        requires
            wf(self@),
        ensures
            match r {
                Some(t) => tok(self@) == Some(t@),
                None => tok(self@) is None,
            },
    {
        if self.pos < self.tokens.len() {
            match &self.tokens[self.pos].token {
                Some(t) => Some(t),
                None => None,
            }
        } else {
            None
        }
    }

    /// Whether the next lexeme is the token `t`.
    pub fn at(&self, t: &Token) -> (r: bool)
        requires
            wf(self@),
        ensures
            r == at_token(self@, t@),
    {
        match self.peek() {
            Some(next) => next.is(t),
            None => false,
        }
    }

    /// Consumes the next lexeme and returns its range.
    fn bump(&mut self) -> (r: Range<usize>)
        requires
            wf(old(self)@),
            old(self)@.pos < old(self)@.toks.len(),
        ensures
            final(self)@ == advance(old(self)@),
            r.start == range_at(old(self)@).0,
            r.end == range_at(old(self)@).1,
            r.start <= r.end <= old(self)@.len,
            wf(final(self)@),
    {
        let r = self.next_range();
        let n = self.tokens.len();
        assert(self@.toks.len() == n);
        self.pos = self.pos + 1;
        r
    }

    /// Consumes the next lexeme, which must be one of `tokens`.
    pub fn eat(&mut self, tokens: &[Token]) -> (r: Range<usize>)
        requires
            wf(old(self)@),
            at_one_of(old(self)@, token_models(tokens@)),
        ensures
            final(self)@ == advance(old(self)@),
            r.start == range_at(old(self)@).0,
            r.end == range_at(old(self)@).1,
            r.start <= r.end <= old(self)@.len,
            wf(final(self)@),
    {
        self.bump()
    }

    /// Reports an error at `loc`.
    pub fn error(&mut self, kind: DiagnosticKind, loc: Location)
        ensures
            final(self)@ == with_error(old(self)@, kind@, loc),
    {
        self.diagnostics.push(Diagnostic { level: DiagnosticLevel::Error, loc, kind });
        assert(diagnostics_view(self.diagnostics@) =~= diagnostics_view(old(self).diagnostics@).push(
            DiagnosticModel { level: DiagnosticLevel::Error, loc, kind: kind@ },
        ));
    }

    /// Consumes the next lexeme if it is the token `t`.
    pub fn skip_next_if(&mut self, t: &Token)
        requires
            wf(old(self)@),
        ensures
            final(self)@ == skip_if(old(self)@, t@),
            wf(final(self)@),
    {
        if self.at(t) {
            self.bump();
        }
    }

    /// Consumes lexemes until one of `tokens` or `sync` comes next, or the
    /// end; reports that one of `tokens` was expected over the skipped range.
    pub fn recover_before(&mut self, tokens: &[Token], sync: &[Token]) -> (r: Range<usize>)
        requires
            wf(old(self)@),
        ensures
            (r.start as int, r.end as int) == recover_before_result(old(self)@, token_models(tokens@), token_models(sync@)).0,
            final(self)@ == recover_before_result(old(self)@, token_models(tokens@), token_models(sync@)).1,
            wf(final(self)@),
            stepped(old(self)@, final(self)@),
    {
        let ghost set = token_models(tokens@) + token_models(sync@);
        let ghost m0 = self@;
        let start = self.next_range();
        let mut end = start.end;
        let mut p = self.pos;
        let n = self.tokens.len();
        proof {
            lemma_skip_until(m0, set, end as int);
            assert(m0 == (ParserModel { pos: p as int, ..m0 }));
        }
        while p < n
            invariant
                m0 == old(self)@,
                wf(m0),
                n == m0.toks.len(),
                m0.toks == lexemes_view(self.tokens@),
                m0.pos <= p <= n,
                skip_until(ParserModel { pos: p as int, ..m0 }, set, end as int) == skip_until(m0, set, start.end as int),
                set == token_models(tokens@) + token_models(sync@),
            ensures
                m0.pos <= p <= n,
                skip_until(ParserModel { pos: p as int, ..m0 }, set, end as int) == skip_until(m0, set, start.end as int),
                p >= n || at_one_of(ParserModel { pos: p as int, ..m0 }, set),
            decreases n - p,
        {
            let stop = match &self.tokens[p].token {
                Some(t) => t.is_one_of(tokens) || t.is_one_of(sync),
                None => false,
            };
            proof {
                match self.tokens@[p as int].token {
                    Some(t) => lemma_contains_add(token_models(tokens@), token_models(sync@), t@),
                    None => {},
                }
                assert(stop == at_one_of(ParserModel { pos: p as int, ..m0 }, set));
            }
            if stop {
                break;
            }
            end = self.tokens[p].end;
            p = p + 1;
        }
        self.pos = p;
        let ghost m1 = self@;
        proof {
            assert(m1 == (ParserModel { pos: p as int, ..m0 }));
            lemma_skip_until(m1, set, end as int);
            assert(skip_until(m0, set, start.end as int) == (end as int, m1));
        }
        let expected = token_strings(tokens);
        let loc = self.localize(start.start..end);
        self.error(DiagnosticKind::ExpectedToken { expected }, loc);
        proof {
            assert(self@ == with_error(m1, DiagnosticKindModel::ExpectedToken(token_texts(token_models(tokens@))), loc_at(m1, start.start as int, end as int)));
        }
        start.start..end
    }

    /// Like `recover_before` with no sync tokens, and also consumes the
    /// token found (if any); the range then ends where that token ends.
    pub fn recover_at(&mut self, tokens: &[Token]) -> (r: Range<usize>)
        requires
            wf(old(self)@),
        ensures
            (r.start as int, r.end as int) == recover_at_result(old(self)@, token_models(tokens@)).0,
            final(self)@ == recover_at_result(old(self)@, token_models(tokens@)).1,
            r.end <= old(self)@.len,
            wf(final(self)@),
            stepped(old(self)@, final(self)@),
    {
        let empty: [Token; 0] = [];
        let range = self.recover_before(tokens, &empty);
        assert(token_models(empty@) =~= Seq::<TokenModel>::empty());
        if self.pos < self.tokens.len() {
            let next = self.bump();
            range.start..next.end
        } else {
            range.start..self.src_len
        }
    }

    /// Consumes the token `token` if it comes next; else recovers at it.
    pub fn expect(&mut self, token: Token) -> (r: Range<usize>)
        requires
            wf(old(self)@),
        ensures
            (r.start as int, r.end as int) == expect_result(old(self)@, token@).0,
            final(self)@ == expect_result(old(self)@, token@).1,
            r.end <= old(self)@.len,
            wf(final(self)@),
            stepped(old(self)@, final(self)@),
    {
        if self.at(&token) {
            self.bump()
        } else {
            let tokens = [token];
            assert(token_models(tokens@) =~= seq![token@]);
            self.recover_at(&tokens)
        }
    }

    /// Reports and skips to one of `tokens` unless one of them comes next.
    pub fn expect_either(&mut self, tokens: &[Token])
        requires
            wf(old(self)@),
        ensures
            final(self)@ == expect_either_result(old(self)@, token_models(tokens@)),
            wf(final(self)@),
            stepped(old(self)@, final(self)@),
    {
        let found = match self.peek() {
            Some(t) => t.is_one_of(tokens),
            None => false,
        };
        if !found {
            let empty: [Token; 0] = [];
            assert(token_models(empty@) =~= Seq::<TokenModel>::empty());
            self.recover_before(tokens, &empty);
        }
    }
}

/// The message texts of `tokens`.
fn token_strings(tokens: &[Token]) -> (r: Vec<String>)
    ensures
        strings_view(r@) == token_texts(token_models(tokens@)),
{
    let mut out: Vec<String> = Vec::new();
    let mut i: usize = 0;
    while i < tokens.len()
        invariant
            i <= tokens@.len(),
            out@.len() == i,
            forall|k: int| 0 <= k < i ==> (#[trigger] out@[k])@ == token_text(tokens@[k]@),
        decreases tokens@.len() - i,
    {
        let s = tokens[i].to_string();
        out.push(s);
        i = i + 1;
    }
    assert(strings_view(out@) =~= token_texts(token_models(tokens@)));
    out
}


/// Whether every float lexeme fits (see `floats_fit`).
fn floats_fit_exec(tokens: &Vec<Lexeme>) -> (r: bool)
    ensures
        r == floats_fit(lexemes_view(tokens@)),
{
    let ghost toks = lexemes_view(tokens@);
    let mut i: usize = 0;
    while i < tokens.len()
        invariant
            i <= tokens@.len(),
            toks == lexemes_view(tokens@),
            forall|k: int| 0 <= k < i ==> ((#[trigger] toks[k]).0 matches Some(TokenModel::Float(t)) ==> {
                &&& float_shape(t)
                &&& member_float(toks, k, t) ==> float_fits(t)
            }),
        decreases tokens@.len() - i,
    {
        match &tokens[i].token {
            Some(Token::Float(f)) => {
                let t = f.src.as_str();
                assert(toks[i as int].0 == Some(TokenModel::Float(t@)));
                if !float_shape_exec(t) {
                    assert(!(toks[i as int].0 matches Some(TokenModel::Float(x)) ==> float_shape(x)));
                    return false;
                }
                let after_dot = i > 0 && match &tokens[i - 1].token {
                    Some(Token::Dot) => true,
                    _ => false,
                };
                proof {
                    if i > 0 {
                        assert(toks[i - 1].0 == Some(TokenModel::Dot) <==> (tokens@[i - 1].token matches Some(Token::Dot)));
                    }
                }
                if (after_dot || float_below_one_exec(t)) && !float_fits_exec(t) {
                    assert(member_float(toks, i as int, t@) && !float_fits(t@));
                    return false;
                }
            },
            _ => {},
        }
        i = i + 1;
    }
    true
}
} // verus!
