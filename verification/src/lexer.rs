use vstd::prelude::*;

use crate::tokens::{Float, Token, TokenModel};
use crate::wrappers::string_from_utf8;
use vstd::utf8::{decode_utf8, valid_utf8};

verus! {

/// The byte at `i`, or 0 outside the text.
pub open spec fn byte_at(s: Seq<u8>, i: int) -> u8 {
    if 0 <= i < s.len() {
        s[i]
    } else {
        0
    }
}

pub open spec fn is_digit(b: u8) -> bool {
    48 <= b <= 57
}

pub open spec fn is_ident_start(b: u8) -> bool {
    (65 <= b <= 90) || (97 <= b <= 122) || b == 95
}

pub open spec fn is_ident_char(b: u8) -> bool {
    is_ident_start(b) || is_digit(b)
}

/// Space, tab and form feed: skipped between tokens.
pub open spec fn is_blank(b: u8) -> bool {
    b == 32 || b == 9 || b == 12
}

pub open spec fn is_line_break(b: u8) -> bool {
    b == 10 || b == 13
}

/// A UTF-8 continuation byte.
pub open spec fn is_continuation(b: u8) -> bool {
    128 <= b < 192
}

/// The number of digits starting at `p`.
pub open spec fn digits_span(s: Seq<u8>, p: int) -> nat
    decreases s.len() - p,
{
    if 0 <= p < s.len() && is_digit(s[p]) {
        1 + digits_span(s, p + 1)
    } else {
        0
    }
}

/// The number of identifier characters starting at `p`.
pub open spec fn ident_span(s: Seq<u8>, p: int) -> nat
    decreases s.len() - p,
{
    if 0 <= p < s.len() && is_ident_char(s[p]) {
        1 + ident_span(s, p + 1)
    } else {
        0
    }
}

/// The number of line-break bytes starting at `p`.
pub open spec fn breaks_span(s: Seq<u8>, p: int) -> nat
    decreases s.len() - p,
{
    if 0 <= p < s.len() && is_line_break(s[p]) {
        1 + breaks_span(s, p + 1)
    } else {
        0
    }
}

/// The number of bytes before the next `\n` (or the end), starting at `p`.
pub open spec fn line_span(s: Seq<u8>, p: int) -> nat
    decreases s.len() - p,
{
    if 0 <= p < s.len() && s[p] != 10 {
        1 + line_span(s, p + 1)
    } else {
        0
    }
}

/// The number of continuation bytes starting at `q`, at most `k`.
pub open spec fn continuation_span(s: Seq<u8>, q: int, k: nat) -> nat
    decreases k,
{
    if k > 0 && 0 <= q < s.len() && is_continuation(s[q]) {
        1 + continuation_span(s, q + 1, (k - 1) as nat)
    } else {
        0
    }
}

/// The length of an unmatched character at `p`: its first byte and the
/// continuation bytes that follow it.
pub open spec fn error_len(s: Seq<u8>, p: int) -> int {
    1 + continuation_span(s, p + 1, 3) as int
}

/// The length of a digit run `\d+(_\d+)*` starting at `p` (0 if none).
pub open spec fn run_len(s: Seq<u8>, p: int) -> nat
    decreases s.len() - p,
{
    if !(0 <= p < s.len() && is_digit(s[p])) {
        0
    } else {
        let d = digits_span(s, p);
        let q = p + d;
        if d >= 1 && byte_at(s, q) == 95 && is_digit(byte_at(s, q + 1)) {
            d + 1 + run_len(s, q + 1)
        } else {
            d
        }
    }
}

/// The decimal value of the digits of `s[a..b]`, underscores ignored.
pub open spec fn digits_value(s: Seq<u8>, a: int, b: int) -> int
    decreases b - a,
{
    if b <= a {
        0
    } else if s[b - 1] == 95 {
        digits_value(s, a, b - 1)
    } else {
        digits_value(s, a, b - 1) * 10 + (s[b - 1] - 48)
    }
}

/// The characters of ASCII bytes.
pub open spec fn ascii_text(w: Seq<u8>) -> Seq<char> {
    w.map_values(|b: u8| b as char)
}

/// The byte an escape sequence `\b` stands for.
pub open spec fn escape_byte(b: u8) -> u8 {
    if b == 110 {
        10
    } else if b == 116 {
        9
    } else if b == 114 {
        13
    } else {
        b
    }
}

/// The bytes of a string literal's content with its escapes resolved.
pub open spec fn unescape(c: Seq<u8>) -> Seq<u8>
    decreases c.len(),
{
    if c.len() == 0 {
        Seq::empty()
    } else if c[0] != 92 {
        seq![c[0]] + unescape(c.drop_first())
    } else if c.len() == 1 {
        Seq::empty()
    } else {
        seq![escape_byte(c[1])] + unescape(c.subrange(2, c.len() as int))
    }
}

/// The position of the quote that closes a string literal whose content
/// starts at `q`, if there is one.
pub open spec fn string_end(s: Seq<u8>, q: int) -> Option<int>
    decreases s.len() - q,
{
    if !(0 <= q < s.len()) {
        None
    } else if s[q] == 34 {
        Some(q)
    } else if s[q] == 92 {
        if q + 1 < s.len() && s[q + 1] != 10 {
            string_end(s, q + 2)
        } else {
            None
        }
    } else {
        string_end(s, q + 1)
    }
}

/// The token of a word: a keyword, a boolean or an identifier.
pub open spec fn word_token(w: Seq<u8>) -> TokenModel {
    if w == seq![98u8, 114u8, 101u8, 97u8, 107u8] {
        TokenModel::Break
    } else if w == seq![99u8, 111u8, 110u8, 116u8, 105u8, 110u8, 117u8, 101u8] {
        TokenModel::Continue
    } else if w == seq![99u8, 111u8, 110u8, 115u8, 116u8] {
        TokenModel::Const
    } else if w == seq![101u8, 108u8, 115u8, 101u8] {
        TokenModel::Else
    } else if w == seq![101u8, 110u8, 117u8, 109u8] {
        TokenModel::Enum
    } else if w == seq![102u8, 110u8] {
        TokenModel::Fn
    } else if w == seq![102u8, 111u8, 114u8] {
        TokenModel::For
    } else if w == seq![105u8, 102u8] {
        TokenModel::If
    } else if w == seq![105u8, 110u8] {
        TokenModel::In
    } else if w == seq![109u8, 97u8, 116u8, 99u8, 104u8] {
        TokenModel::Match
    } else if w == seq![114u8, 101u8, 116u8, 117u8, 114u8, 110u8] {
        TokenModel::Return
    } else if w == seq![115u8, 116u8, 114u8, 117u8, 99u8, 116u8] {
        TokenModel::Struct
    } else if w == seq![116u8, 114u8, 97u8, 105u8, 116u8] {
        TokenModel::Trait
    } else if w == seq![116u8, 121u8, 112u8, 101u8] {
        TokenModel::Type
    } else if w == seq![117u8, 115u8, 101u8] {
        TokenModel::Use
    } else if w == seq![118u8, 97u8, 114u8] {
        TokenModel::Var
    } else if w == seq![116u8, 114u8, 117u8, 101u8] {
        TokenModel::Bool(true)
    } else if w == seq![102u8, 97u8, 108u8, 115u8, 101u8] {
        TokenModel::Bool(false)
    } else {
        TokenModel::Ident(ascii_text(w))
    }
}

/// The operator or punctuation token at `p` and its length, if any.
pub open spec fn fixed_token_at(s: Seq<u8>, p: int) -> Option<(TokenModel, int)> {
    if byte_at(s, p) == 38 && byte_at(s, p + 1) == 38 {
        Some((TokenModel::AndAnd, 2))
    } else if byte_at(s, p) == 124 && byte_at(s, p + 1) == 124 {
        Some((TokenModel::PipePipe, 2))
    } else if byte_at(s, p) == 61 && byte_at(s, p + 1) == 61 {
        Some((TokenModel::EqEq, 2))
    } else if byte_at(s, p) == 33 && byte_at(s, p + 1) == 61 {
        Some((TokenModel::NotEq, 2))
    } else if byte_at(s, p) == 47 && byte_at(s, p + 1) == 62 {
        Some((TokenModel::TagClose, 2))
    } else if byte_at(s, p) == 60 && byte_at(s, p + 1) == 47 {
        Some((TokenModel::LtSlash, 2))
    } else if byte_at(s, p) == 60 && byte_at(s, p + 1) == 61 {
        Some((TokenModel::Le, 2))
    } else if byte_at(s, p) == 62 && byte_at(s, p + 1) == 61 {
        Some((TokenModel::Ge, 2))
    } else if byte_at(s, p) == 42 && byte_at(s, p + 1) == 42 {
        Some((TokenModel::StarStar, 2))
    } else if byte_at(s, p) == 61 && byte_at(s, p + 1) == 62 {
        Some((TokenModel::FatArrow, 2))
    } else if byte_at(s, p) == 60 {
        Some((TokenModel::Lt, 1))
    } else if byte_at(s, p) == 62 {
        Some((TokenModel::Gt, 1))
    } else if byte_at(s, p) == 38 {
        Some((TokenModel::And, 1))
    } else if byte_at(s, p) == 124 {
        Some((TokenModel::Pipe, 1))
    } else if byte_at(s, p) == 64 {
        Some((TokenModel::At, 1))
    } else if byte_at(s, p) == 33 {
        Some((TokenModel::Bang, 1))
    } else if byte_at(s, p) == 36 {
        Some((TokenModel::Dollar, 1))
    } else if byte_at(s, p) == 61 {
        Some((TokenModel::Eq, 1))
    } else if byte_at(s, p) == 43 {
        Some((TokenModel::Plus, 1))
    } else if byte_at(s, p) == 45 {
        Some((TokenModel::Minus, 1))
    } else if byte_at(s, p) == 42 {
        Some((TokenModel::Star, 1))
    } else if byte_at(s, p) == 47 {
        Some((TokenModel::Slash, 1))
    } else if byte_at(s, p) == 37 {
        Some((TokenModel::Mod, 1))
    } else if byte_at(s, p) == 63 {
        Some((TokenModel::QMark, 1))
    } else if byte_at(s, p) == 40 {
        Some((TokenModel::LParen, 1))
    } else if byte_at(s, p) == 41 {
        Some((TokenModel::RParen, 1))
    } else if byte_at(s, p) == 91 {
        Some((TokenModel::LBracket, 1))
    } else if byte_at(s, p) == 93 {
        Some((TokenModel::RBracket, 1))
    } else if byte_at(s, p) == 123 {
        Some((TokenModel::LBrace, 1))
    } else if byte_at(s, p) == 125 {
        Some((TokenModel::RBrace, 1))
    } else if byte_at(s, p) == 44 {
        Some((TokenModel::Comma, 1))
    } else if byte_at(s, p) == 46 {
        Some((TokenModel::Dot, 1))
    } else {
        None
    }
}

/// The token starting at `p` (`None` for a lexical error) and its length.
/// Among the patterns that match at `p`, the longest wins; a keyword or a
/// boolean wins over an identifier of the same length.
pub open spec fn next_lexeme(s: Seq<u8>, p: int) -> (Option<TokenModel>, int) {
    let b = s[p];
    if is_line_break(b) {
        (Some(TokenModel::Newline), breaks_span(s, p) as int)
    } else if is_digit(b) {
        let r = run_len(s, p);
        let q = p + r;
        if byte_at(s, q) == 46 {
            let n = (r + 1 + run_len(s, q + 1)) as int;
            (Some(TokenModel::Float(ascii_text(s.subrange(p, p + n)))), n)
        } else {
            (Some(TokenModel::Int(digits_value(s, p, q))), r as int)
        }
    } else if b == 46 && run_len(s, p + 1) > 0 {
        let n = (1 + run_len(s, p + 1)) as int;
        (Some(TokenModel::Float(ascii_text(s.subrange(p, p + n)))), n)
    } else if is_ident_start(b) {
        let n = ident_span(s, p) as int;
        (Some(word_token(s.subrange(p, p + n))), n)
    } else if b == 34 {
        match string_end(s, p + 1) {
            Some(e) => {
                let u = unescape(s.subrange(p + 1, e));
                if valid_utf8(u) {
                    (Some(TokenModel::String(decode_utf8(u))), e + 1 - p)
                } else {
                    (None, e + 1 - p)
                }
            },
            None => (None, error_len(s, p)),
        }
    } else if b == 47 && byte_at(s, p + 1) == 47 {
        let n = (2 + line_span(s, p + 2)) as int;
        let text = s.subrange(p, p + n);
        if valid_utf8(text) {
            (Some(TokenModel::LineComment(decode_utf8(text))), n)
        } else {
            (None, n)
        }
    } else {
        match fixed_token_at(s, p) {
            Some((t, n)) => (Some(t), n),
            None => (None, error_len(s, p)),
        }
    }
}

/// A lexeme: its token (`None` for a lexical error) and its byte range.
pub type LexemeModel = (Option<TokenModel>, int, int);

/// The lexemes of `s` from position `p` on; blanks between them are skipped.
pub open spec fn lex_from(s: Seq<u8>, p: int) -> Seq<LexemeModel>
    decreases s.len() - p,
{
    if !(0 <= p < s.len()) {
        Seq::empty()
    } else if is_blank(s[p]) {
        lex_from(s, p + 1)
    } else {
        let (t, n) = next_lexeme(s, p);
        if n <= 0 || p + n > s.len() {
            Seq::empty()
        } else {
            seq![(t, p, p + n)] + lex_from(s, p + n)
        }
    }
}

/// The lexemes of a whole text.
pub open spec fn lex_spec(s: Seq<u8>) -> Seq<LexemeModel> {
    lex_from(s, 0)
}

/// Whether every integer literal of `s` fits in an `i64`.
pub open spec fn ints_fit(s: Seq<u8>) -> bool {
    forall|k: int| 0 <= k < lex_spec(s).len() ==> ((#[trigger] lex_spec(s)[k]).0 matches Some(TokenModel::Int(v)) ==> v <= i64::MAX)
}

pub fn is_digit_byte(b: u8) -> (r: bool)
    ensures
        r == is_digit(b),
{
    48 <= b && b <= 57
}

pub fn is_ident_start_byte(b: u8) -> (r: bool)
    ensures
        r == is_ident_start(b),
{
    (65 <= b && b <= 90) || (97 <= b && b <= 122) || b == 95
}

pub fn is_ident_char_byte(b: u8) -> (r: bool)
    ensures
        r == is_ident_char(b),
{
    is_ident_start_byte(b) || is_digit_byte(b)
}

pub fn is_blank_byte(b: u8) -> (r: bool)
    ensures
        r == is_blank(b),
{
    b == 32 || b == 9 || b == 12
}

pub fn is_line_break_byte(b: u8) -> (r: bool)
    ensures
        r == is_line_break(b),
{
    b == 10 || b == 13
}

fn digits_span_exec(s: &[u8], p: usize) -> (r: usize)
    requires
        p <= s@.len(),
    ensures
        r == digits_span(s@, p as int),
        p + r <= s@.len(),
        forall|i: int| p <= i < p + r ==> is_digit(#[trigger] s@[i]),
{
    let mut q = p;
    while q < s.len() && is_digit_byte(s[q])
        invariant
            p <= q <= s@.len(),
            digits_span(s@, p as int) == (q - p) + digits_span(s@, q as int),
            forall|i: int| p <= i < q ==> is_digit(#[trigger] s@[i]),
        decreases s@.len() - q,
    {
        q = q + 1;
    }
    q - p
}

fn ident_span_exec(s: &[u8], p: usize) -> (r: usize)
    requires
        p <= s@.len(),
    ensures
        r == ident_span(s@, p as int),
        p + r <= s@.len(),
        forall|i: int| p <= i < p + r ==> is_ident_char(#[trigger] s@[i]),
{
    let mut q = p;
    while q < s.len() && is_ident_char_byte(s[q])
        invariant
            p <= q <= s@.len(),
            ident_span(s@, p as int) == (q - p) + ident_span(s@, q as int),
            forall|i: int| p <= i < q ==> is_ident_char(#[trigger] s@[i]),
        decreases s@.len() - q,
    {
        q = q + 1;
    }
    q - p
}

fn breaks_span_exec(s: &[u8], p: usize) -> (r: usize)
    requires
        p <= s@.len(),
    ensures
        r == breaks_span(s@, p as int),
        p + r <= s@.len(),
{
    let mut q = p;
    while q < s.len() && is_line_break_byte(s[q])
        invariant
            p <= q <= s@.len(),
            breaks_span(s@, p as int) == (q - p) + breaks_span(s@, q as int),
        decreases s@.len() - q,
    {
        q = q + 1;
    }
    q - p
}

fn line_span_exec(s: &[u8], p: usize) -> (r: usize)
    requires
        p <= s@.len(),
    ensures
        r == line_span(s@, p as int),
        p + r <= s@.len(),
{
    let mut q = p;
    while q < s.len() && s[q] != 10
        invariant
            p <= q <= s@.len(),
            line_span(s@, p as int) == (q - p) + line_span(s@, q as int),
        decreases s@.len() - q,
    {
        q = q + 1;
    }
    q - p
}

fn error_len_exec(s: &[u8], p: usize) -> (r: usize)
    requires
        p < s@.len(),
    ensures
        r == error_len(s@, p as int),
        p + r <= s@.len(),
        r >= 1,
{
    let mut k: usize = 0;
    while k < 3 && k + 1 < s.len() - p && 128 <= s[p + 1 + k] && s[p + 1 + k] < 192
        invariant
            k <= 3,
            p < s@.len(),
            p + 1 + k <= s@.len(),
            continuation_span(s@, p + 1, 3) == k + continuation_span(s@, p + 1 + k, (3 - k) as nat),
        decreases 3 - k,
    {
        k = k + 1;
    }
    1 + k
}

fn run_len_exec(s: &[u8], p: usize) -> (r: usize)
    requires
        p <= s@.len(),
    ensures
        r == run_len(s@, p as int),
        p + r <= s@.len(),
        forall|i: int| p <= i < p + r ==> is_digit(#[trigger] s@[i]) || s@[i] == 95,
{
    if p >= s.len() || !is_digit_byte(s[p]) {
        return 0;
    }
    let mut q = p;
    loop
        invariant
            p <= q < s@.len(),
            is_digit(s@[q as int]),
            run_len(s@, p as int) == (q - p) + run_len(s@, q as int),
            forall|i: int| p <= i < q ==> is_digit(#[trigger] s@[i]) || s@[i] == 95,
        decreases s@.len() - q,
    {
        let len = s.len();
        let d = digits_span_exec(s, q);
        let e = q + d;
        if e < len && e + 1 < len && s[e] == 95 && is_digit_byte(s[e + 1]) {
            q = e + 1;
        } else {
            return e - p;
        }
    }
}

proof fn lemma_digits_value_mono(s: Seq<u8>, a: int, i: int, j: int)
    requires
        a <= i <= j,
        j <= s.len(),
        0 <= a,
        forall|k: int| a <= k < j ==> is_digit(#[trigger] s[k]) || s[k] == 95,
    ensures
        0 <= digits_value(s, a, i) <= digits_value(s, a, j),
    decreases j - i,
{
    if i < j {
        lemma_digits_value_mono(s, a, i, j - 1);
    } else {
        lemma_digits_value_nonneg(s, a, i);
    }
}

proof fn lemma_digits_value_nonneg(s: Seq<u8>, a: int, i: int)
    requires
        0 <= a <= i <= s.len(),
        forall|k: int| a <= k < i ==> is_digit(#[trigger] s[k]) || s[k] == 95,
    ensures
        0 <= digits_value(s, a, i),
    decreases i - a,
{
    if a < i {
        lemma_digits_value_nonneg(s, a, i - 1);
    }
}

/// The value of the digits of `s[a..b]`, or `None` if it does not fit in an `i64`.
fn digits_value_checked(s: &[u8], a: usize, b: usize) -> (r: Option<i64>)
    requires
        a <= b <= s@.len(),
        forall|k: int| a <= k < b ==> is_digit(#[trigger] s@[k]) || s@[k] == 95,
    ensures
        r is Some <==> digits_value(s@, a as int, b as int) <= i64::MAX,
        r matches Some(v) ==> v == digits_value(s@, a as int, b as int),
{
    let mut v: i64 = 0;
    let mut i = a;
    while i < b
        invariant
            a <= i <= b,
            b <= s@.len(),
            forall|k: int| a <= k < b ==> is_digit(#[trigger] s@[k]) || s@[k] == 95,
            v == digits_value(s@, a as int, i as int),
        decreases b - i,
    {
        if s[i] != 95 {
            let d = (s[i] - 48) as i64;
            match v.checked_mul(10) {
                Some(w) => match w.checked_add(d) {
                    Some(x) => {
                        v = x;
                    },
                    None => {
                        proof {
                            lemma_digits_value_mono(s@, a as int, i + 1, b as int);
                        }
                        return None;
                    },
                },
                None => {
                    proof {
                        lemma_digits_value_mono(s@, a as int, i + 1, b as int);
                    }
                    return None;
                },
            }
        }
        i = i + 1;
    }
    Some(v)
}

fn string_end_exec(s: &[u8], q: usize) -> (r: Option<usize>)
    requires
        q <= s@.len(),
    ensures
        match string_end(s@, q as int) {
            Some(e) => r matches Some(x) && x == e && q <= e < s@.len(),
            None => r is None,
        },
{
    let mut i = q;
    while i < s.len()
        invariant
            q <= i <= s@.len(),
            string_end(s@, q as int) == string_end(s@, i as int),
        decreases s@.len() - i,
    {
        if s[i] == 34 {
            return Some(i);
        } else if s[i] == 92 {
            if i + 1 < s.len() && s[i + 1] != 10 {
                i = i + 2;
            } else {
                return None;
            }
        } else {
            i = i + 1;
        }
    }
    None
}

fn unescape_exec(s: &[u8], a: usize, b: usize) -> (r: Vec<u8>)
    requires
        a <= b <= s@.len(),
    ensures
        r@ == unescape(s@.subrange(a as int, b as int)),
{
    let mut out: Vec<u8> = Vec::new();
    let mut i = a;
    while i < b
        invariant
            a <= i <= b,
            b <= s@.len(),
            out@ + unescape(s@.subrange(i as int, b as int)) == unescape(s@.subrange(a as int, b as int)),
        decreases b - i,
    {
        let ghost c = s@.subrange(i as int, b as int);
        if s[i] != 92 {
            proof {
                assert(c.drop_first() =~= s@.subrange(i + 1, b as int));
                assert(out@.push(s@[i as int]) + unescape(c.drop_first()) =~= out@ + unescape(c));
            }
            out.push(s[i]);
            i = i + 1;
        } else if i + 1 == b {
            proof {
                assert(out@ + unescape(c) =~= out@);
                assert(s@.subrange(b as int, b as int) =~= Seq::<u8>::empty());
            }
            i = b;
        } else {
            let e = s[i + 1];
            let x: u8 = if e == 110 {
                10
            } else if e == 116 {
                9
            } else if e == 114 {
                13
            } else {
                e
            };
            proof {
                assert(c.subrange(2, c.len() as int) =~= s@.subrange(i + 2, b as int));
                assert(out@.push(x) + unescape(c.subrange(2, c.len() as int)) =~= out@ + unescape(c));
            }
            out.push(x);
            i = i + 2;
        }
    }
    proof {
        assert(s@.subrange(i as int, b as int) =~= Seq::<u8>::empty());
        assert(out@ + Seq::<u8>::empty() =~= out@);
    }
    out
}

/// A copy of `s[a..b]`.
fn copy_bytes(s: &[u8], a: usize, b: usize) -> (r: Vec<u8>)
    requires
        a <= b <= s@.len(),
    ensures
        r@ == s@.subrange(a as int, b as int),
{
    let mut out: Vec<u8> = Vec::new();
    let mut i = a;
    while i < b
        invariant
            a <= i <= b,
            b <= s@.len(),
            out@ == s@.subrange(a as int, i as int),
        decreases b - i,
    {
        out.push(s[i]);
        i = i + 1;
        assert(out@ =~= s@.subrange(a as int, i as int));
    }
    out
}

proof fn lemma_ascii_utf8(w: Seq<u8>)
    requires
        forall|i: int| 0 <= i < w.len() ==> #[trigger] w[i] < 128,
    ensures
        valid_utf8(w),
        decode_utf8(w) == ascii_text(w),
{
    let c = ascii_text(w);
    assert forall|i: int| 0 <= i < c.len() implies '\0' <= #[trigger] c[i] <= '\u{7f}' by {
        assert(c[i] == w[i] as char);
        assert(w[i] < 128);
    }
    assert(vstd::utf8::is_ascii_chars(c));
    vstd::utf8::is_ascii_chars_encode_utf8(c);
    let e = vstd::utf8::encode_utf8(c);
    assert forall|i: int| 0 <= i < w.len() implies e[i] == w[i] by {
        assert(c[i] as u8 == e[i]);
        assert(c[i] == w[i] as char);
        assert((w[i] as char) as u8 == w[i]);
    }
    assert(e =~= w);
    vstd::utf8::encode_utf8_valid_utf8(c);
    vstd::utf8::encode_utf8_decode_utf8(c);
}

/// The string of the ASCII bytes `s[a..b]`.
fn ascii_string(s: &[u8], a: usize, b: usize) -> (r: String)
    requires
        a <= b <= s@.len(),
        forall|i: int| a <= i < b ==> #[trigger] s@[i] < 128,
    ensures
        r@ == ascii_text(s@.subrange(a as int, b as int)),
{
    let bytes = copy_bytes(s, a, b);
    proof {
        assert forall|i: int| 0 <= i < bytes@.len() implies #[trigger] bytes@[i] < 128 by {
            assert(bytes@[i] == s@[a + i]);
        }
        lemma_ascii_utf8(bytes@);
    }
    string_from_utf8(bytes).unwrap()
}

/// The token of the word `s[p..p+n]`.
fn word_token_exec(s: &[u8], p: usize, n: usize) -> (r: Token)
    requires
        p + n <= s@.len(),
        forall|i: int| p <= i < p + n ==> is_ident_char(#[trigger] s@[i]),
    ensures
        r@ == word_token(s@.subrange(p as int, p + n)),
{
    let ghost w = s@.subrange(p as int, p + n);
    assert forall|i: int| 0 <= i < n implies #[trigger] w[i] == s@[p + i] by {}
    if n == 5 && s[p + 0] == 98 && s[p + 1] == 114 && s[p + 2] == 101 && s[p + 3] == 97 && s[p + 4] == 107 {
        assert(w =~= seq![98u8, 114u8, 101u8, 97u8, 107u8]);
        return Token::Break;
    }
    assert(w != seq![98u8, 114u8, 101u8, 97u8, 107u8]) by {
        if w == seq![98u8, 114u8, 101u8, 97u8, 107u8] {
            assert(w.len() == 5);
            assert(w[0] == 98u8);
            assert(s@[p + 0] == w[0]);
            assert(w[1] == 114u8);
            assert(s@[p + 1] == w[1]);
            assert(w[2] == 101u8);
            assert(s@[p + 2] == w[2]);
            assert(w[3] == 97u8);
            assert(s@[p + 3] == w[3]);
            assert(w[4] == 107u8);
            assert(s@[p + 4] == w[4]);
        }
    }
    if n == 8 && s[p + 0] == 99 && s[p + 1] == 111 && s[p + 2] == 110 && s[p + 3] == 116 && s[p + 4] == 105 && s[p + 5] == 110 && s[p + 6] == 117 && s[p + 7] == 101 {
        assert(w =~= seq![99u8, 111u8, 110u8, 116u8, 105u8, 110u8, 117u8, 101u8]);
        return Token::Continue;
    }
    assert(w != seq![99u8, 111u8, 110u8, 116u8, 105u8, 110u8, 117u8, 101u8]) by {
        if w == seq![99u8, 111u8, 110u8, 116u8, 105u8, 110u8, 117u8, 101u8] {
            assert(w.len() == 8);
            assert(w[0] == 99u8);
            assert(s@[p + 0] == w[0]);
            assert(w[1] == 111u8);
            assert(s@[p + 1] == w[1]);
            assert(w[2] == 110u8);
            assert(s@[p + 2] == w[2]);
            assert(w[3] == 116u8);
            assert(s@[p + 3] == w[3]);
            assert(w[4] == 105u8);
            assert(s@[p + 4] == w[4]);
            assert(w[5] == 110u8);
            assert(s@[p + 5] == w[5]);
            assert(w[6] == 117u8);
            assert(s@[p + 6] == w[6]);
            assert(w[7] == 101u8);
            assert(s@[p + 7] == w[7]);
        }
    }
    if n == 5 && s[p + 0] == 99 && s[p + 1] == 111 && s[p + 2] == 110 && s[p + 3] == 115 && s[p + 4] == 116 {
        assert(w =~= seq![99u8, 111u8, 110u8, 115u8, 116u8]);
        return Token::Const;
    }
    assert(w != seq![99u8, 111u8, 110u8, 115u8, 116u8]) by {
        if w == seq![99u8, 111u8, 110u8, 115u8, 116u8] {
            assert(w.len() == 5);
            assert(w[0] == 99u8);
            assert(s@[p + 0] == w[0]);
            assert(w[1] == 111u8);
            assert(s@[p + 1] == w[1]);
            assert(w[2] == 110u8);
            assert(s@[p + 2] == w[2]);
            assert(w[3] == 115u8);
            assert(s@[p + 3] == w[3]);
            assert(w[4] == 116u8);
            assert(s@[p + 4] == w[4]);
        }
    }
    if n == 4 && s[p + 0] == 101 && s[p + 1] == 108 && s[p + 2] == 115 && s[p + 3] == 101 {
        assert(w =~= seq![101u8, 108u8, 115u8, 101u8]);
        return Token::Else;
    }
    assert(w != seq![101u8, 108u8, 115u8, 101u8]) by {
        if w == seq![101u8, 108u8, 115u8, 101u8] {
            assert(w.len() == 4);
            assert(w[0] == 101u8);
            assert(s@[p + 0] == w[0]);
            assert(w[1] == 108u8);
            assert(s@[p + 1] == w[1]);
            assert(w[2] == 115u8);
            assert(s@[p + 2] == w[2]);
            assert(w[3] == 101u8);
            assert(s@[p + 3] == w[3]);
        }
    }
    if n == 4 && s[p + 0] == 101 && s[p + 1] == 110 && s[p + 2] == 117 && s[p + 3] == 109 {
        assert(w =~= seq![101u8, 110u8, 117u8, 109u8]);
        return Token::Enum;
    }
    assert(w != seq![101u8, 110u8, 117u8, 109u8]) by {
        if w == seq![101u8, 110u8, 117u8, 109u8] {
            assert(w.len() == 4);
            assert(w[0] == 101u8);
            assert(s@[p + 0] == w[0]);
            assert(w[1] == 110u8);
            assert(s@[p + 1] == w[1]);
            assert(w[2] == 117u8);
            assert(s@[p + 2] == w[2]);
            assert(w[3] == 109u8);
            assert(s@[p + 3] == w[3]);
        }
    }
    if n == 2 && s[p + 0] == 102 && s[p + 1] == 110 {
        assert(w =~= seq![102u8, 110u8]);
        return Token::Fn;
    }
    assert(w != seq![102u8, 110u8]) by {
        if w == seq![102u8, 110u8] {
            assert(w.len() == 2);
            assert(w[0] == 102u8);
            assert(s@[p + 0] == w[0]);
            assert(w[1] == 110u8);
            assert(s@[p + 1] == w[1]);
        }
    }
    if n == 3 && s[p + 0] == 102 && s[p + 1] == 111 && s[p + 2] == 114 {
        assert(w =~= seq![102u8, 111u8, 114u8]);
        return Token::For;
    }
    assert(w != seq![102u8, 111u8, 114u8]) by {
        if w == seq![102u8, 111u8, 114u8] {
            assert(w.len() == 3);
            assert(w[0] == 102u8);
            assert(s@[p + 0] == w[0]);
            assert(w[1] == 111u8);
            assert(s@[p + 1] == w[1]);
            assert(w[2] == 114u8);
            assert(s@[p + 2] == w[2]);
        }
    }
    if n == 2 && s[p + 0] == 105 && s[p + 1] == 102 {
        assert(w =~= seq![105u8, 102u8]);
        return Token::If;
    }
    assert(w != seq![105u8, 102u8]) by {
        if w == seq![105u8, 102u8] {
            assert(w.len() == 2);
            assert(w[0] == 105u8);
            assert(s@[p + 0] == w[0]);
            assert(w[1] == 102u8);
            assert(s@[p + 1] == w[1]);
        }
    }
    if n == 2 && s[p + 0] == 105 && s[p + 1] == 110 {
        assert(w =~= seq![105u8, 110u8]);
        return Token::In;
    }
    assert(w != seq![105u8, 110u8]) by {
        if w == seq![105u8, 110u8] {
            assert(w.len() == 2);
            assert(w[0] == 105u8);
            assert(s@[p + 0] == w[0]);
            assert(w[1] == 110u8);
            assert(s@[p + 1] == w[1]);
        }
    }
    if n == 5 && s[p + 0] == 109 && s[p + 1] == 97 && s[p + 2] == 116 && s[p + 3] == 99 && s[p + 4] == 104 {
        assert(w =~= seq![109u8, 97u8, 116u8, 99u8, 104u8]);
        return Token::Match;
    }
    assert(w != seq![109u8, 97u8, 116u8, 99u8, 104u8]) by {
        if w == seq![109u8, 97u8, 116u8, 99u8, 104u8] {
            assert(w.len() == 5);
            assert(w[0] == 109u8);
            assert(s@[p + 0] == w[0]);
            assert(w[1] == 97u8);
            assert(s@[p + 1] == w[1]);
            assert(w[2] == 116u8);
            assert(s@[p + 2] == w[2]);
            assert(w[3] == 99u8);
            assert(s@[p + 3] == w[3]);
            assert(w[4] == 104u8);
            assert(s@[p + 4] == w[4]);
        }
    }
    if n == 6 && s[p + 0] == 114 && s[p + 1] == 101 && s[p + 2] == 116 && s[p + 3] == 117 && s[p + 4] == 114 && s[p + 5] == 110 {
        assert(w =~= seq![114u8, 101u8, 116u8, 117u8, 114u8, 110u8]);
        return Token::Return;
    }
    assert(w != seq![114u8, 101u8, 116u8, 117u8, 114u8, 110u8]) by {
        if w == seq![114u8, 101u8, 116u8, 117u8, 114u8, 110u8] {
            assert(w.len() == 6);
            assert(w[0] == 114u8);
            assert(s@[p + 0] == w[0]);
            assert(w[1] == 101u8);
            assert(s@[p + 1] == w[1]);
            assert(w[2] == 116u8);
            assert(s@[p + 2] == w[2]);
            assert(w[3] == 117u8);
            assert(s@[p + 3] == w[3]);
            assert(w[4] == 114u8);
            assert(s@[p + 4] == w[4]);
            assert(w[5] == 110u8);
            assert(s@[p + 5] == w[5]);
        }
    }
    if n == 6 && s[p + 0] == 115 && s[p + 1] == 116 && s[p + 2] == 114 && s[p + 3] == 117 && s[p + 4] == 99 && s[p + 5] == 116 {
        assert(w =~= seq![115u8, 116u8, 114u8, 117u8, 99u8, 116u8]);
        return Token::Struct;
    }
    assert(w != seq![115u8, 116u8, 114u8, 117u8, 99u8, 116u8]) by {
        if w == seq![115u8, 116u8, 114u8, 117u8, 99u8, 116u8] {
            assert(w.len() == 6);
            assert(w[0] == 115u8);
            assert(s@[p + 0] == w[0]);
            assert(w[1] == 116u8);
            assert(s@[p + 1] == w[1]);
            assert(w[2] == 114u8);
            assert(s@[p + 2] == w[2]);
            assert(w[3] == 117u8);
            assert(s@[p + 3] == w[3]);
            assert(w[4] == 99u8);
            assert(s@[p + 4] == w[4]);
            assert(w[5] == 116u8);
            assert(s@[p + 5] == w[5]);
        }
    }
    if n == 5 && s[p + 0] == 116 && s[p + 1] == 114 && s[p + 2] == 97 && s[p + 3] == 105 && s[p + 4] == 116 {
        assert(w =~= seq![116u8, 114u8, 97u8, 105u8, 116u8]);
        return Token::Trait;
    }
    assert(w != seq![116u8, 114u8, 97u8, 105u8, 116u8]) by {
        if w == seq![116u8, 114u8, 97u8, 105u8, 116u8] {
            assert(w.len() == 5);
            assert(w[0] == 116u8);
            assert(s@[p + 0] == w[0]);
            assert(w[1] == 114u8);
            assert(s@[p + 1] == w[1]);
            assert(w[2] == 97u8);
            assert(s@[p + 2] == w[2]);
            assert(w[3] == 105u8);
            assert(s@[p + 3] == w[3]);
            assert(w[4] == 116u8);
            assert(s@[p + 4] == w[4]);
        }
    }
    if n == 4 && s[p + 0] == 116 && s[p + 1] == 121 && s[p + 2] == 112 && s[p + 3] == 101 {
        assert(w =~= seq![116u8, 121u8, 112u8, 101u8]);
        return Token::Type;
    }
    assert(w != seq![116u8, 121u8, 112u8, 101u8]) by {
        if w == seq![116u8, 121u8, 112u8, 101u8] {
            assert(w.len() == 4);
            assert(w[0] == 116u8);
            assert(s@[p + 0] == w[0]);
            assert(w[1] == 121u8);
            assert(s@[p + 1] == w[1]);
            assert(w[2] == 112u8);
            assert(s@[p + 2] == w[2]);
            assert(w[3] == 101u8);
            assert(s@[p + 3] == w[3]);
        }
    }
    if n == 3 && s[p + 0] == 117 && s[p + 1] == 115 && s[p + 2] == 101 {
        assert(w =~= seq![117u8, 115u8, 101u8]);
        return Token::Use;
    }
    assert(w != seq![117u8, 115u8, 101u8]) by {
        if w == seq![117u8, 115u8, 101u8] {
            assert(w.len() == 3);
            assert(w[0] == 117u8);
            assert(s@[p + 0] == w[0]);
            assert(w[1] == 115u8);
            assert(s@[p + 1] == w[1]);
            assert(w[2] == 101u8);
            assert(s@[p + 2] == w[2]);
        }
    }
    if n == 3 && s[p + 0] == 118 && s[p + 1] == 97 && s[p + 2] == 114 {
        assert(w =~= seq![118u8, 97u8, 114u8]);
        return Token::Var;
    }
    assert(w != seq![118u8, 97u8, 114u8]) by {
        if w == seq![118u8, 97u8, 114u8] {
            assert(w.len() == 3);
            assert(w[0] == 118u8);
            assert(s@[p + 0] == w[0]);
            assert(w[1] == 97u8);
            assert(s@[p + 1] == w[1]);
            assert(w[2] == 114u8);
            assert(s@[p + 2] == w[2]);
        }
    }
    if n == 4 && s[p + 0] == 116 && s[p + 1] == 114 && s[p + 2] == 117 && s[p + 3] == 101 {
        assert(w =~= seq![116u8, 114u8, 117u8, 101u8]);
        return Token::Bool(true);
    }
    assert(w != seq![116u8, 114u8, 117u8, 101u8]) by {
        if w == seq![116u8, 114u8, 117u8, 101u8] {
            assert(w.len() == 4);
            assert(w[0] == 116u8);
            assert(s@[p + 0] == w[0]);
            assert(w[1] == 114u8);
            assert(s@[p + 1] == w[1]);
            assert(w[2] == 117u8);
            assert(s@[p + 2] == w[2]);
            assert(w[3] == 101u8);
            assert(s@[p + 3] == w[3]);
        }
    }
    if n == 5 && s[p + 0] == 102 && s[p + 1] == 97 && s[p + 2] == 108 && s[p + 3] == 115 && s[p + 4] == 101 {
        assert(w =~= seq![102u8, 97u8, 108u8, 115u8, 101u8]);
        return Token::Bool(false);
    }
    assert(w != seq![102u8, 97u8, 108u8, 115u8, 101u8]) by {
        if w == seq![102u8, 97u8, 108u8, 115u8, 101u8] {
            assert(w.len() == 5);
            assert(w[0] == 102u8);
            assert(s@[p + 0] == w[0]);
            assert(w[1] == 97u8);
            assert(s@[p + 1] == w[1]);
            assert(w[2] == 108u8);
            assert(s@[p + 2] == w[2]);
            assert(w[3] == 115u8);
            assert(s@[p + 3] == w[3]);
            assert(w[4] == 101u8);
            assert(s@[p + 4] == w[4]);
        }
    }
    let len = s.len();
    assert(p + n <= len);
    let text = ascii_string(s, p, p + n);
    Token::Ident(text)
}

/// The operator or punctuation token at `p` and its length, if any.
fn fixed_token_exec(s: &[u8], p: usize) -> (r: Option<(Token, usize)>)
    requires
        p < s@.len(),
    ensures
        match fixed_token_at(s@, p as int) {
            Some((t, n)) => r matches Some((rt, rn)) && rt@ == t && rn == n,
            None => r is None,
        },
{
    let b0 = s[p];
    let b1: u8 = if p + 1 < s.len() { s[p + 1] } else { 0 };
    if b0 == 38 && b1 == 38 {
        return Some((Token::AndAnd, 2));
    }
    if b0 == 124 && b1 == 124 {
        return Some((Token::PipePipe, 2));
    }
    if b0 == 61 && b1 == 61 {
        return Some((Token::EqEq, 2));
    }
    if b0 == 33 && b1 == 61 {
        return Some((Token::NotEq, 2));
    }
    if b0 == 47 && b1 == 62 {
        return Some((Token::TagClose, 2));
    }
    if b0 == 60 && b1 == 47 {
        return Some((Token::LtSlash, 2));
    }
    if b0 == 60 && b1 == 61 {
        return Some((Token::Le, 2));
    }
    if b0 == 62 && b1 == 61 {
        return Some((Token::Ge, 2));
    }
    if b0 == 42 && b1 == 42 {
        return Some((Token::StarStar, 2));
    }
    if b0 == 61 && b1 == 62 {
        return Some((Token::FatArrow, 2));
    }
    if b0 == 60 {
        return Some((Token::Lt, 1));
    }
    if b0 == 62 {
        return Some((Token::Gt, 1));
    }
    if b0 == 38 {
        return Some((Token::And, 1));
    }
    if b0 == 124 {
        return Some((Token::Pipe, 1));
    }
    if b0 == 64 {
        return Some((Token::At, 1));
    }
    if b0 == 33 {
        return Some((Token::Bang, 1));
    }
    if b0 == 36 {
        return Some((Token::Dollar, 1));
    }
    if b0 == 61 {
        return Some((Token::Eq, 1));
    }
    if b0 == 43 {
        return Some((Token::Plus, 1));
    }
    if b0 == 45 {
        return Some((Token::Minus, 1));
    }
    if b0 == 42 {
        return Some((Token::Star, 1));
    }
    if b0 == 47 {
        return Some((Token::Slash, 1));
    }
    if b0 == 37 {
        return Some((Token::Mod, 1));
    }
    if b0 == 63 {
        return Some((Token::QMark, 1));
    }
    if b0 == 40 {
        return Some((Token::LParen, 1));
    }
    if b0 == 41 {
        return Some((Token::RParen, 1));
    }
    if b0 == 91 {
        return Some((Token::LBracket, 1));
    }
    if b0 == 93 {
        return Some((Token::RBracket, 1));
    }
    if b0 == 123 {
        return Some((Token::LBrace, 1));
    }
    if b0 == 125 {
        return Some((Token::RBrace, 1));
    }
    if b0 == 44 {
        return Some((Token::Comma, 1));
    }
    if b0 == 46 {
        return Some((Token::Dot, 1));
    }
    None
}

/// A lexeme of the source: its token (`None` for a lexical error) and its byte range.
#[derive(Debug, Clone)]
pub struct Lexeme {
    pub token: Option<Token>,
    pub start: usize,
    pub end: usize,
}

impl View for Lexeme {
    type V = LexemeModel;

    open spec fn view(&self) -> LexemeModel {
        (
            match self.token {
                Some(t) => Some(t@),
                None => None,
            },
            self.start as int,
            self.end as int,
        )
    }
}

/// The models of a list of lexemes.
pub open spec fn lexemes_view(v: Seq<Lexeme>) -> Seq<LexemeModel> {
    v.map_values(|l: Lexeme| l@)
}

fn option_view_some(t: Token) -> (r: Option<Token>)
    ensures
        r matches Some(x) && x@ == t@,
{
    Some(t)
}

/// The token starting at `p` and its length.
fn next_lexeme_exec(s: &[u8], p: usize) -> (r: Option<(Option<Token>, usize)>)
    requires
        p < s@.len(),
        !is_blank(s@[p as int]),
    ensures
        r is None <==> (next_lexeme(s@, p as int).0 matches Some(TokenModel::Int(v)) && v > i64::MAX),
        r matches Some(x) ==> {
            &&& (match x.0 {
                Some(t) => Some(t@),
                None => None,
            }) == next_lexeme(s@, p as int).0
            &&& x.1 == next_lexeme(s@, p as int).1
            &&& 1 <= x.1
            &&& p + x.1 <= s@.len()
        },
{
    let b = s[p];
    if is_line_break_byte(b) {
        let n = breaks_span_exec(s, p);
        return Some((Some(Token::Newline), n));
    }
    if is_digit_byte(b) {
        let r = run_len_exec(s, p);
        let q = p + r;
        if q < s.len() && s[q] == 46 {
            let r2 = run_len_exec(s, q + 1);
            let n = r + 1 + r2;
            proof {
                assert forall|i: int| p <= i < p + n implies #[trigger] s@[i] < 128 by {
                    if i < q {
                        assert(is_digit(s@[i]) || s@[i] == 95);
                    } else if i > q {
                        assert(is_digit(s@[i]) || s@[i] == 95);
                    }
                }
            }
            let text = ascii_string(s, p, p + n);
            return Some((Some(Token::Float(Float { src: text })), n));
        }
        match digits_value_checked(s, p, q) {
            Some(v) => {
                return Some((Some(Token::Int(v)), r));
            },
            None => {
                return None;
            },
        }
    }
    if b == 46 {
        let r = run_len_exec(s, p + 1);
        if r > 0 {
            let n = 1 + r;
            proof {
                assert forall|i: int| p <= i < p + n implies #[trigger] s@[i] < 128 by {
                    if i > p {
                        assert(is_digit(s@[i]) || s@[i] == 95);
                    }
                }
            }
            let text = ascii_string(s, p, p + n);
            return Some((Some(Token::Float(Float { src: text })), n));
        }
    }
    if is_ident_start_byte(b) {
        let n = ident_span_exec(s, p);
        proof {
            assert forall|i: int| p <= i < p + n implies #[trigger] s@[i] < 128 by {
                assert(is_ident_char(s@[i]));
            }
        }
        let t = word_token_exec(s, p, n);
        return Some((Some(t), n));
    }
    if b == 34 {
        match string_end_exec(s, p + 1) {
            Some(e) => {
                let u = unescape_exec(s, p + 1, e);
                match string_from_utf8(u) {
                    Some(text) => {
                        return Some((Some(Token::String(text)), e + 1 - p));
                    },
                    None => {
                        return Some((None, e + 1 - p));
                    },
                }
            },
            None => {
                let n = error_len_exec(s, p);
                return Some((None, n));
            },
        }
    }
    if b == 47 && p + 1 < s.len() && s[p + 1] == 47 {
        let n = 2 + line_span_exec(s, p + 2);
        let text = copy_bytes(s, p, p + n);
        match string_from_utf8(text) {
            Some(t) => {
                return Some((Some(Token::LineComment(t)), n));
            },
            None => {
                return Some((None, n));
            },
        }
    }
    match fixed_token_exec(s, p) {
        Some((t, n)) => Some((Some(t), n)),
        None => {
            let n = error_len_exec(s, p);
            Some((None, n))
        },
    }
}

proof fn lemma_lex_index(s: Seq<u8>, p: int, done: Seq<LexemeModel>)
    requires
        0 <= p < s.len(),
        !is_blank(s[p]),
        done + lex_from(s, p) == lex_spec(s),
        next_lexeme(s, p).1 >= 1,
    ensures
        lex_spec(s)[done.len() as int] == (next_lexeme(s, p).0, p, p + next_lexeme(s, p).1),
{
    lemma_next_lexeme_len(s, p);
    let l = lex_from(s, p);
    assert(l[0] == (next_lexeme(s, p).0, p, p + next_lexeme(s, p).1));
    assert((done + l)[done.len() as int] == l[0]);
}

/// The lexemes of the source bytes `s`, in order; blanks are skipped.
/// `None` if an integer literal does not fit in an `i64`.
pub fn tokenize(s: &[u8]) -> (r: Option<Vec<Lexeme>>)
    ensures
        r is Some <==> ints_fit(s@),
        r matches Some(v) ==> lexemes_view(v@) == lex_spec(s@),
{
    let mut out: Vec<Lexeme> = Vec::new();
    let mut pos: usize = 0;
    proof {
        assert(lexemes_view(out@) + lex_from(s@, 0) =~= lex_spec(s@));
    }
    while pos < s.len()
        invariant
            pos <= s@.len(),
            lexemes_view(out@) + lex_from(s@, pos as int) == lex_spec(s@),
        decreases s@.len() - pos,
    {
        if is_blank_byte(s[pos]) {
            pos = pos + 1;
        } else {
            proof {
                lemma_next_lexeme_len(s@, pos as int);
                lemma_lex_index(s@, pos as int, lexemes_view(out@));
                let k = lexemes_view(out@).len() as int;
                assert(0 <= k < lex_spec(s@).len());
                assert(lex_spec(s@)[k].0 == next_lexeme(s@, pos as int).0);
            }
            match next_lexeme_exec(s, pos) {
                None => {
                    proof {
                        let k = lexemes_view(out@).len() as int;
                        assert(!((lex_spec(s@)[k]).0 matches Some(TokenModel::Int(v)) ==> v <= i64::MAX));
                    }
                    return None;
                },
                Some((tok, n)) => {
                    let ghost before = out@;
                    out.push(Lexeme { token: tok, start: pos, end: pos + n });
                    proof {
                        let item = (next_lexeme(s@, pos as int).0, pos as int, pos + n);
                        assert(out@[out@.len() - 1]@ == item);
                        assert(lexemes_view(out@) =~= lexemes_view(before).push(item));
                        assert(lex_from(s@, pos as int) == seq![item] + lex_from(s@, pos + n));
                        assert(lexemes_view(out@) + lex_from(s@, pos + n) =~= lexemes_view(before) + lex_from(s@, pos as int));
                    }
                    pos = pos + n;
                },
            }
        }
    }
    proof {
        assert(lex_from(s@, pos as int) == Seq::<LexemeModel>::empty());
        assert(lexemes_view(out@) + Seq::<LexemeModel>::empty() =~= lexemes_view(out@));
        assert forall|k: int| 0 <= k < lex_spec(s@).len() implies ((#[trigger] lex_spec(s@)[k]).0 matches Some(
            TokenModel::Int(v),
        ) ==> v <= i64::MAX) by {
            assert(lex_spec(s@)[k] == out@[k]@);
        }
    }
    Some(out)
}

proof fn lemma_digits_span(s: Seq<u8>, p: int)
    requires
        0 <= p <= s.len(),
    ensures
        p + digits_span(s, p) <= s.len(),
    decreases s.len() - p,
{
    if p < s.len() && is_digit(s[p]) {
        lemma_digits_span(s, p + 1);
    }
}

proof fn lemma_run_len(s: Seq<u8>, p: int)
    requires
        0 <= p <= s.len(),
    ensures
        p + run_len(s, p) <= s.len(),
        (p < s.len() && is_digit(s[p])) ==> run_len(s, p) >= 1,
    decreases s.len() - p,
{
    if p < s.len() && is_digit(s[p]) {
        lemma_digits_span(s, p);
        lemma_digits_span(s, p + 1);
        let d = digits_span(s, p);
        let q = p + d;
        if d >= 1 && byte_at(s, q) == 95 && is_digit(byte_at(s, q + 1)) {
            lemma_run_len(s, q + 1);
        }
    }
}

proof fn lemma_span_bounds(s: Seq<u8>, p: int)
    requires
        0 <= p <= s.len(),
    ensures
        p + ident_span(s, p) <= s.len(),
        p + breaks_span(s, p) <= s.len(),
        p + line_span(s, p) <= s.len(),
    decreases s.len() - p,
{
    if p < s.len() {
        lemma_span_bounds(s, p + 1);
    }
}

proof fn lemma_continuation_span(s: Seq<u8>, q: int, k: nat)
    requires
        0 <= q <= s.len(),
    ensures
        q + continuation_span(s, q, k) <= s.len(),
    decreases k,
{
    if k > 0 && q < s.len() && is_continuation(s[q]) {
        lemma_continuation_span(s, q + 1, (k - 1) as nat);
    }
}

proof fn lemma_string_end(s: Seq<u8>, q: int)
    requires
        0 <= q,
    ensures
        string_end(s, q) matches Some(e) ==> q <= e < s.len(),
    decreases s.len() - q,
{
    if 0 <= q < s.len() && s[q] != 34 {
        if s[q] == 92 {
            if q + 1 < s.len() && s[q + 1] != 10 {
                lemma_string_end(s, q + 2);
            }
        } else {
            lemma_string_end(s, q + 1);
        }
    }
}

/// Every lexeme is at least one byte long and ends within the text.
pub proof fn lemma_next_lexeme_len(s: Seq<u8>, p: int)
    requires
        0 <= p < s.len(),
    ensures
        1 <= next_lexeme(s, p).1,
        p + next_lexeme(s, p).1 <= s.len(),
{
    lemma_span_bounds(s, p);
    lemma_run_len(s, p);
    lemma_run_len(s, p + 1);
    lemma_continuation_span(s, p + 1, 3);
    lemma_string_end(s, p + 1);
    let b = s[p];
    if is_digit(b) {
        let q = p + run_len(s, p);
        if byte_at(s, q) == 46 {
            lemma_run_len(s, q + 1);
        }
    }
    if b == 47 && byte_at(s, p + 1) == 47 {
        assert(p + 2 <= s.len());
        lemma_span_bounds(s, p + 2);
    }
}

proof fn lemma_lex_from_ordered(s: Seq<u8>, p: int)
    requires
        0 <= p,
    ensures
        forall|k: int| 0 <= k < lex_from(s, p).len() ==> p <= (#[trigger] lex_from(s, p)[k]).1 < lex_from(s, p)[k].2 <= s.len(),
        forall|k: int| 0 <= k < lex_from(s, p).len() - 1 ==> (#[trigger] lex_from(s, p)[k]).2 <= lex_from(s, p)[k + 1].1,
    decreases s.len() - p,
{
    if 0 <= p < s.len() {
        if is_blank(s[p]) {
            lemma_lex_from_ordered(s, p + 1);
            assert(lex_from(s, p) == lex_from(s, p + 1));
        } else {
            lemma_next_lexeme_len(s, p);
            let n = next_lexeme(s, p).1;
            lemma_lex_from_ordered(s, p + n);
            let l = lex_from(s, p);
            let rest = lex_from(s, p + n);
            assert(l == seq![(next_lexeme(s, p).0, p, p + n)] + rest);
            assert forall|k: int| 0 <= k < l.len() implies p <= (#[trigger] l[k]).1 < l[k].2 <= s.len() by {
                if k > 0 {
                    assert(l[k] == rest[k - 1]);
                }
            }
            assert forall|k: int| 0 <= k < l.len() - 1 implies (#[trigger] l[k]).2 <= l[k + 1].1 by {
                if k > 0 {
                    assert(l[k] == rest[k - 1]);
                    assert(l[k + 1] == rest[k]);
                } else {
                    assert(l[1] == rest[0]);
                }
            }
        }
    }
}

/// The lexemes of a text lie inside it, each at least one byte long, in
/// increasing order and without overlap.
pub proof fn lemma_lexemes_ordered(s: Seq<u8>)
    ensures
        forall|k: int| 0 <= k < lex_spec(s).len() ==> 0 <= (#[trigger] lex_spec(s)[k]).1 < lex_spec(s)[k].2 <= s.len(),
        forall|k: int| 0 <= k < lex_spec(s).len() - 1 ==> (#[trigger] lex_spec(s)[k]).2 <= lex_spec(s)[k + 1].1,
{
    lemma_lex_from_ordered(s, 0);
}

proof fn lemma_lex_from_covers(s: Seq<u8>, p: int)
    requires
        0 <= p,
    ensures
        forall|i: int| p <= i < s.len() ==> is_blank(#[trigger] s[i])
            || exists|k: int| 0 <= k < lex_from(s, p).len() && (#[trigger] lex_from(s, p)[k]).1 <= i < lex_from(s, p)[k].2,
    decreases s.len() - p,
{
    if 0 <= p < s.len() {
        if is_blank(s[p]) {
            lemma_lex_from_covers(s, p + 1);
            assert(lex_from(s, p) == lex_from(s, p + 1));
        } else {
            lemma_next_lexeme_len(s, p);
            let n = next_lexeme(s, p).1;
            lemma_lex_from_covers(s, p + n);
            let l = lex_from(s, p);
            let rest = lex_from(s, p + n);
            assert(l == seq![(next_lexeme(s, p).0, p, p + n)] + rest);
            assert forall|i: int| p <= i < s.len() implies is_blank(#[trigger] s[i])
                || exists|k: int| 0 <= k < l.len() && (#[trigger] l[k]).1 <= i < l[k].2 by {
                if i < p + n {
                    assert(l[0].1 <= i < l[0].2);
                } else if !is_blank(s[i]) {
                    let k = choose|k: int| 0 <= k < rest.len() && (#[trigger] rest[k]).1 <= i < rest[k].2;
                    assert(l[k + 1] == rest[k]);
                }
            }
        }
    }
}

/// Every byte of a text is either a blank (space, tab, form feed) or part
/// of a lexeme: lexing loses nothing but blanks.
pub proof fn lemma_lexemes_cover(s: Seq<u8>)
    ensures
        forall|i: int| 0 <= i < s.len() ==> is_blank(#[trigger] s[i])
            || exists|k: int| 0 <= k < lex_spec(s).len() && (#[trigger] lex_spec(s)[k]).1 <= i < lex_spec(s)[k].2,
{
    lemma_lex_from_covers(s, 0);
    let l = lex_spec(s);
    assert forall|i: int| 0 <= i < s.len() implies is_blank(#[trigger] s[i])
        || exists|k: int| 0 <= k < l.len() && (#[trigger] l[k]).1 <= i < l[k].2 by {
        if !is_blank(s[i]) {
            let k = choose|k: int| 0 <= k < lex_from(s, 0).len() && (#[trigger] lex_from(s, 0)[k]).1 <= i < lex_from(s, 0)[k].2;
            assert(l[k] == lex_from(s, 0)[k]);
        }
    }
}


proof fn lemma_lex_from_float_lengths(s: Seq<u8>, p: int)
    requires
        0 <= p,
    ensures
        forall|k: int| 0 <= k < lex_from(s, p).len() ==> ((#[trigger] lex_from(s, p)[k]).0 matches Some(
            TokenModel::Float(t),
        ) ==> t.len() == lex_from(s, p)[k].2 - lex_from(s, p)[k].1),
    decreases s.len() - p,
{
    if 0 <= p < s.len() {
        if is_blank(s[p]) {
            lemma_lex_from_float_lengths(s, p + 1);
            assert(lex_from(s, p) == lex_from(s, p + 1));
        } else {
            lemma_next_lexeme_len(s, p);
            let n = next_lexeme(s, p).1;
            lemma_lex_from_float_lengths(s, p + n);
            let l = lex_from(s, p);
            let rest = lex_from(s, p + n);
            assert(l == seq![(next_lexeme(s, p).0, p, p + n)] + rest);
            assert forall|k: int| 0 <= k < l.len() implies ((#[trigger] l[k]).0 matches Some(TokenModel::Float(t))
                ==> t.len() == l[k].2 - l[k].1) by {
                if k > 0 {
                    assert(l[k] == rest[k - 1]);
                }
            }
        }
    }
}

/// The text of a float literal is exactly its bytes: as long as its range.
pub proof fn lemma_float_lengths(s: Seq<u8>)
    ensures
        forall|k: int| 0 <= k < lex_spec(s).len() ==> ((#[trigger] lex_spec(s)[k]).0 matches Some(
            TokenModel::Float(t),
        ) ==> t.len() == lex_spec(s)[k].2 - lex_spec(s)[k].1),
{
    lemma_lex_from_float_lengths(s, 0);
}
/// In a string literal, `\n`, `\t` and `\r` stand for the line feed (10),
/// the tab (9) and the carriage return (13), `\\` and `\"` for the backslash
/// and the quote; any other byte stands for itself.
pub proof fn lemma_escapes(c: Seq<u8>, b: u8)
    ensures
        unescape(seq![92u8, 110u8] + c) == seq![10u8] + unescape(c),
        unescape(seq![92u8, 116u8] + c) == seq![9u8] + unescape(c),
        unescape(seq![92u8, 114u8] + c) == seq![13u8] + unescape(c),
        unescape(seq![92u8, 92u8] + c) == seq![92u8] + unescape(c),
        unescape(seq![92u8, 34u8] + c) == seq![34u8] + unescape(c),
        b != 92 ==> unescape(seq![b] + c) == seq![b] + unescape(c),
{
    assert((seq![92u8, 110u8] + c).subrange(2, c.len() + 2int) =~= c);
    assert((seq![92u8, 116u8] + c).subrange(2, c.len() + 2int) =~= c);
    assert((seq![92u8, 114u8] + c).subrange(2, c.len() + 2int) =~= c);
    assert((seq![92u8, 92u8] + c).subrange(2, c.len() + 2int) =~= c);
    assert((seq![92u8, 34u8] + c).subrange(2, c.len() + 2int) =~= c);
    assert((seq![b] + c).drop_first() =~= c);
}

} // verus!
