use vstd::prelude::*;
use crate::preprocessor::syntax::{op_text, unary_text, BinOp, Literal, LiteralV, UnaryOp};
use crate::preprocessor::unicode::{ascii_digit, is_xid_continue, is_xid_start, xid_continue, xid_start};

verus! {

// ---------------------------------------------------------------------------
// Character classes and runs
// ---------------------------------------------------------------------------

pub open spec fn is_blank(c: char) -> bool {
    c == ' ' || c == '\t'
}

pub open spec fn is_ascii_char(c: char) -> bool {
    (c as u32) < 128
}

/// Characters allowed inside a string literal.
pub open spec fn is_string_char(c: char) -> bool {
    c != '"' && c != '\r'
}

pub open spec fn blank_pred() -> spec_fn(char) -> bool {
    |c: char| is_blank(c)
}

pub open spec fn digit_pred() -> spec_fn(char) -> bool {
    |c: char| ascii_digit(c)
}

pub open spec fn xid_continue_pred() -> spec_fn(char) -> bool {
    |c: char| xid_continue(c)
}

pub open spec fn string_char_pred() -> spec_fn(char) -> bool {
    |c: char| is_string_char(c)
}

/// The end of the longest run of characters satisfying `pred` that starts at `p`.
pub open spec fn run_end(s: Seq<char>, p: int, pred: spec_fn(char) -> bool) -> int
    decreases s.len() - p,
{
    if 0 <= p < s.len() && pred(s[p]) {
        run_end(s, p + 1, pred)
    } else {
        p
    }
}

pub proof fn lemma_run_end(s: Seq<char>, p: int, pred: spec_fn(char) -> bool)
    requires
        0 <= p <= s.len(),
    ensures
        p <= run_end(s, p, pred) <= s.len(),
        forall|i: int| p <= i < run_end(s, p, pred) ==> pred(#[trigger] s[i]),
        run_end(s, p, pred) < s.len() ==> !pred(s[run_end(s, p, pred)]),
    decreases s.len() - p,
{
    if p < s.len() && pred(s[p]) {
        lemma_run_end(s, p + 1, pred);
    }
}

/// Position after the blanks (spaces and tabs) that start at `p`.
pub fn skip_blanks(s: &Vec<char>, p: usize) -> (e: usize)
    requires
        p <= s.len(),
    ensures
        e == run_end(s@, p as int, blank_pred()),
        p <= e <= s.len(),
{
    proof {
        lemma_run_end(s@, p as int, blank_pred());
    }
    let mut i = p;
    while i < s.len() && (s[i] == ' ' || s[i] == '\t')
        invariant
            p <= i <= s.len(),
            run_end(s@, i as int, blank_pred()) == run_end(s@, p as int, blank_pred()),
        decreases s.len() - i,
    {
        i = i + 1;
    }
    i
}

fn skip_digits(s: &Vec<char>, p: usize) -> (e: usize)
    requires
        p <= s.len(),
    ensures
        e == run_end(s@, p as int, digit_pred()),
        p <= e <= s.len(),
{
    proof {
        lemma_run_end(s@, p as int, digit_pred());
    }
    let mut i = p;
    while i < s.len() && '0' <= s[i] && s[i] <= '9'
        invariant
            p <= i <= s.len(),
            run_end(s@, i as int, digit_pred()) == run_end(s@, p as int, digit_pred()),
        decreases s.len() - i,
    {
        i = i + 1;
    }
    i
}

fn skip_xid_continue(s: &Vec<char>, p: usize) -> (e: usize)
    requires
        p <= s.len(),
    ensures
        e == run_end(s@, p as int, xid_continue_pred()),
        p <= e <= s.len(),
{
    proof {
        lemma_run_end(s@, p as int, xid_continue_pred());
    }
    let mut i = p;
    while i < s.len() && is_xid_continue(s[i])
        invariant
            p <= i <= s.len(),
            run_end(s@, i as int, xid_continue_pred()) == run_end(
                s@,
                p as int,
                xid_continue_pred(),
            ),
        decreases s.len() - i,
    {
        i = i + 1;
    }
    i
}

fn skip_string_chars(s: &Vec<char>, p: usize) -> (e: usize)
    requires
        p <= s.len(),
    ensures
        e == run_end(s@, p as int, string_char_pred()),
        p <= e <= s.len(),
{
    proof {
        lemma_run_end(s@, p as int, string_char_pred());
    }
    let mut i = p;
    while i < s.len() && s[i] != '"' && s[i] != '\r'
        invariant
            p <= i <= s.len(),
            run_end(s@, i as int, string_char_pred()) == run_end(
                s@,
                p as int,
                string_char_pred(),
            ),
        decreases s.len() - i,
    {
        i = i + 1;
    }
    i
}

/// Copy of `s[p..e]`.
pub fn slice_chars(s: &Vec<char>, p: usize, e: usize) -> (r: Vec<char>)
    requires
        p <= e <= s.len(),
    ensures
        r@ == s@.subrange(p as int, e as int),
{
    let mut r: Vec<char> = Vec::new();
    let mut i = p;
    while i < e
        invariant
            p <= i <= e <= s.len(),
            r@ == s@.subrange(p as int, i as int),
        decreases e - i,
    {
        r.push(s[i]);
        i = i + 1;
    }
    r
}

// ---------------------------------------------------------------------------
// Decimal numbers
// ---------------------------------------------------------------------------

pub open spec fn digit_value(c: char) -> int {
    (c as u32) as int - ('0' as u32) as int
}

/// The integer spelled by the decimal digits `s[p..e]`.
pub open spec fn decimal_value(s: Seq<char>, p: int, e: int) -> int
    decreases e - p,
{
    if e <= p {
        0
    } else {
        decimal_value(s, p, e - 1) * 10 + digit_value(s[e - 1])
    }
}

proof fn lemma_decimal_monotone(s: Seq<char>, p: int, k: int, e: int)
    requires
        p <= k <= e,
        forall|i: int| p <= i < e ==> ascii_digit(#[trigger] s[i]),
    ensures
        0 <= decimal_value(s, p, k) <= decimal_value(s, p, e),
    decreases e - k,
{
    if k < e {
        lemma_decimal_monotone(s, p, k, e - 1);
        assert(ascii_digit(s[e - 1]));
        let v = decimal_value(s, p, e - 1);
        assert(v * 10 >= v) by (nonlinear_arith)
            requires
                v >= 0,
        ;
    } else {
        lemma_decimal_nonneg(s, p, e);
    }
}

proof fn lemma_decimal_nonneg(s: Seq<char>, p: int, e: int)
    requires
        forall|i: int| p <= i < e ==> ascii_digit(#[trigger] s[i]),
    ensures
        0 <= decimal_value(s, p, e),
    decreases e - p,
{
    if e > p {
        lemma_decimal_nonneg(s, p, e - 1);
        assert(ascii_digit(s[e - 1]));
        let v = decimal_value(s, p, e - 1);
        assert(v * 10 >= 0) by (nonlinear_arith)
            requires
                v >= 0,
        ;
    }
}

/// The value of the digits `s[p..e]` if it is at most `max`.
fn decimal_at_most(s: &Vec<char>, p: usize, e: usize, max: u64) -> (r: Option<u64>)
    requires
        p <= e <= s.len(),
        max >= 9,
        forall|i: int| p <= i < e ==> ascii_digit(#[trigger] s@[i]),
    ensures
        match r {
            Some(v) => v == decimal_value(s@, p as int, e as int) && v <= max,
            None => decimal_value(s@, p as int, e as int) > max,
        },
{
    let mut v: u64 = 0;
    let mut i = p;
    while i < e
        invariant
            p <= i <= e <= s.len(),
            max >= 9,
            forall|j: int| p <= j < e ==> ascii_digit(#[trigger] s@[j]),
            v == decimal_value(s@, p as int, i as int),
            v <= max,
        decreases e - i,
    {
        let c = s[i];
        assert(ascii_digit(s@[i as int]));
        let d = (c as u32 - '0' as u32) as u64;
        assert(d <= 9);
        if v > (max - d) / 10 {
            proof {
                assert(v * 10 + d > max) by (nonlinear_arith)
                    requires
                        v > (max - d) / 10,
                        d <= 9,
                        max >= 9,
                ;
                lemma_decimal_monotone(s@, p as int, i as int + 1, e as int);
            }
            return None;
        }
        assert(v * 10 + d <= max) by (nonlinear_arith)
            requires
                v <= (max - d) / 10,
                d <= 9,
                max >= 9,
        ;
        v = v * 10 + d;
        i = i + 1;
    }
    Some(v)
}

// ---------------------------------------------------------------------------
// Literals and identifiers
// ---------------------------------------------------------------------------

/// Outcome of reading a literal: a literal and the position after it, no
/// literal at all, or an input on which preprocessing aborts (a decimal
/// literal whose fraction digits spell zero, such as `1.0`).
pub enum LitOutcome {
    Lit(LiteralV, int),
    NoLit,
    Abort,
}

pub open spec fn spec_literal(s: Seq<char>, p: int) -> LitOutcome {
    if 0 <= p < s.len() && s[p] == '"' {
        let q = run_end(s, p + 1, string_char_pred());
        if q > p + 1 && q < s.len() && s[q] == '"' {
            LitOutcome::Lit(LiteralV::Str(s.subrange(p + 1, q)), q + 1)
        } else {
            LitOutcome::NoLit
        }
    } else {
        let d = run_end(s, p, digit_pred());
        if d == p {
            LitOutcome::NoLit
        } else if decimal_value(s, p, d) > i64::MAX {
            LitOutcome::NoLit
        } else if d < s.len() && s[d] == '.' {
            let f = run_end(s, d + 1, digit_pred());
            if f == d + 1 || decimal_value(s, d + 1, f) > u64::MAX {
                LitOutcome::NoLit
            } else if decimal_value(s, d + 1, f) == 0 {
                LitOutcome::Abort
            } else {
                LitOutcome::Lit(
                    LiteralV::Float(decimal_value(s, p, d) as i64, decimal_value(s, d + 1, f) as u64),
                    f,
                )
            }
        } else {
            LitOutcome::Lit(LiteralV::Number(decimal_value(s, p, d) as i64), d)
        }
    }
}

pub enum LitResult {
    Lit(Literal, usize),
    NoLit,
    Abort,
}

impl LitResult {
    pub open spec fn view(&self) -> LitOutcome {
        match self {
            LitResult::Lit(l, p) => LitOutcome::Lit(l.view(), *p as int),
            LitResult::NoLit => LitOutcome::NoLit,
            LitResult::Abort => LitOutcome::Abort,
        }
    }
}

/// Reads a literal starting at `p`.
pub fn literal(s: &Vec<char>, p: usize) -> (r: LitResult)
    requires
        p <= s.len(),
    ensures
        r.view() == spec_literal(s@, p as int),
        r matches LitResult::Lit(_, e) ==> p < e <= s.len(),
{
    if p < s.len() && s[p] == '"' {
        let q = skip_string_chars(s, p + 1);
        if q > p + 1 && q < s.len() && s[q] == '"' {
            let text = slice_chars(s, p + 1, q);
            LitResult::Lit(Literal::Str(text), q + 1)
        } else {
            LitResult::NoLit
        }
    } else {
        let d = skip_digits(s, p);
        proof {
            lemma_run_end(s@, p as int, digit_pred());
        }
        if d == p {
            return LitResult::NoLit;
        }
        let int_part = match decimal_at_most(s, p, d, i64::MAX as u64) {
            Some(v) => v,
            None => {
                return LitResult::NoLit;
            },
        };
        if d < s.len() && s[d] == '.' {
            let f = skip_digits(s, d + 1);
            proof {
                lemma_run_end(s@, d as int + 1, digit_pred());
            }
            if f == d + 1 {
                return LitResult::NoLit;
            }
            let frac = match decimal_at_most(s, d + 1, f, u64::MAX) {
                Some(v) => v,
                None => {
                    return LitResult::NoLit;
                },
            };
            if frac == 0 {
                LitResult::Abort
            } else {
                LitResult::Lit(Literal::Float(int_part as i64, frac), f)
            }
        } else {
            LitResult::Lit(Literal::Number(int_part as i64), d)
        }
    }
}

/// End of an identifier starting at `p`: an optional `_`, a character with
/// XID_Start, then characters with XID_Continue.
pub open spec fn spec_ident_end(s: Seq<char>, p: int) -> Option<int> {
    let a = if 0 <= p < s.len() && s[p] == '_' {
        p + 1
    } else {
        p
    };
    if 0 <= a < s.len() && xid_start(s[a]) {
        Some(run_end(s, a + 1, xid_continue_pred()))
    } else {
        None
    }
}

pub fn ident_end(s: &Vec<char>, p: usize) -> (r: Option<usize>)
    requires
        p <= s.len(),
    ensures
        match r {
            Some(e) => spec_ident_end(s@, p as int) == Some(e as int) && p < e <= s.len(),
            None => spec_ident_end(s@, p as int) is None,
        },
{
    let a = if p < s.len() && s[p] == '_' {
        p + 1
    } else {
        p
    };
    if a < s.len() && is_xid_start(s[a]) {
        let e = skip_xid_continue(s, a + 1);
        Some(e)
    } else {
        None
    }
}

// ---------------------------------------------------------------------------
// Operators and tokens
// ---------------------------------------------------------------------------

pub open spec fn spec_two_char_op(a: char, b: char) -> Option<BinOp> {
    if a == '>' && b == '=' {
        Some(BinOp::GreaterEqual)
    } else if a == '<' && b == '=' {
        Some(BinOp::LessEqual)
    } else if a == '=' && b == '=' {
        Some(BinOp::Equal)
    } else if a == '|' && b == '|' {
        Some(BinOp::Or)
    } else if a == '&' && b == '&' {
        Some(BinOp::And)
    } else if a == '<' && b == '<' {
        Some(BinOp::LeftShift)
    } else if a == '>' && b == '>' {
        Some(BinOp::RightShift)
    } else {
        None
    }
}

pub open spec fn spec_one_char_op(a: char) -> Option<BinOp> {
    if a == '>' {
        Some(BinOp::Greater)
    } else if a == '<' {
        Some(BinOp::Less)
    } else if a == '+' {
        Some(BinOp::Add)
    } else if a == '-' {
        Some(BinOp::Subtract)
    } else if a == '*' {
        Some(BinOp::Multiply)
    } else if a == '/' {
        Some(BinOp::Divide)
    } else if a == '(' {
        Some(BinOp::LeftParentheses)
    } else if a == ')' {
        Some(BinOp::RightParentheses)
    } else {
        None
    }
}

pub open spec fn spec_unary_op(a: char) -> Option<UnaryOp> {
    if a == '!' {
        Some(UnaryOp::Not)
    } else if a == '-' {
        Some(UnaryOp::Subtract)
    } else {
        None
    }
}

/// Two characters read as the operator they spell: a binary operator is
/// read from exactly the two characters it is written with, and every
/// two-character operator is read.
pub proof fn lemma_two_char_op_spelling(a: char, b: char, op: BinOp)
    ensures
        spec_two_char_op(a, b) == Some(op) <==> op_text(op) == seq![a, b],
{
    if spec_two_char_op(a, b) == Some(op) {
        assert(op_text(op) =~= seq![a, b]);
    }
    if op_text(op) == seq![a, b] {
        assert(op_text(op).len() == 2 && op_text(op)[0] == a && op_text(op)[1] == b);
        match op {
            BinOp::GreaterEqual => assert(seq!['>', '='][0] == a && seq!['>', '='][1] == b),
            BinOp::LessEqual => assert(seq!['<', '='][0] == a && seq!['<', '='][1] == b),
            BinOp::Equal => assert(seq!['=', '='][0] == a && seq!['=', '='][1] == b),
            BinOp::Or => assert(seq!['|', '|'][0] == a && seq!['|', '|'][1] == b),
            BinOp::And => assert(seq!['&', '&'][0] == a && seq!['&', '&'][1] == b),
            BinOp::LeftShift => assert(seq!['<', '<'][0] == a && seq!['<', '<'][1] == b),
            BinOp::RightShift => assert(seq!['>', '>'][0] == a && seq!['>', '>'][1] == b),
            _ => {},
        }
    }
}

/// One character read as the operator it spells: a binary operator is
/// read from exactly the character it is written with, and every
/// one-character operator is read.
pub proof fn lemma_one_char_op_spelling(a: char, op: BinOp)
    ensures
        spec_one_char_op(a) == Some(op) <==> op_text(op) == seq![a],
{
    if spec_one_char_op(a) == Some(op) {
        assert(op_text(op) =~= seq![a]);
    }
    if op_text(op) == seq![a] {
        assert(op_text(op).len() == 1 && op_text(op)[0] == a);
    }
}

/// A prefix operator is read from exactly the character it is written
/// with.
pub proof fn lemma_unary_op_spelling(a: char, op: UnaryOp)
    ensures
        spec_unary_op(a) == Some(op) <==> unary_text(op) == a,
{
}

fn two_char_op(a: char, b: char) -> (r: Option<BinOp>)
    ensures
        r == spec_two_char_op(a, b),
{
    if a == '>' && b == '=' {
        Some(BinOp::GreaterEqual)
    } else if a == '<' && b == '=' {
        Some(BinOp::LessEqual)
    } else if a == '=' && b == '=' {
        Some(BinOp::Equal)
    } else if a == '|' && b == '|' {
        Some(BinOp::Or)
    } else if a == '&' && b == '&' {
        Some(BinOp::And)
    } else if a == '<' && b == '<' {
        Some(BinOp::LeftShift)
    } else if a == '>' && b == '>' {
        Some(BinOp::RightShift)
    } else {
        None
    }
}

fn one_char_op(a: char) -> (r: Option<BinOp>)
    ensures
        r == spec_one_char_op(a),
{
    if a == '>' {
        Some(BinOp::Greater)
    } else if a == '<' {
        Some(BinOp::Less)
    } else if a == '+' {
        Some(BinOp::Add)
    } else if a == '-' {
        Some(BinOp::Subtract)
    } else if a == '*' {
        Some(BinOp::Multiply)
    } else if a == '/' {
        Some(BinOp::Divide)
    } else if a == '(' {
        Some(BinOp::LeftParentheses)
    } else if a == ')' {
        Some(BinOp::RightParentheses)
    } else {
        None
    }
}

fn unary_op(a: char) -> (r: Option<UnaryOp>)
    ensures
        r == spec_unary_op(a),
{
    if a == '!' {
        Some(UnaryOp::Not)
    } else if a == '-' {
        Some(UnaryOp::Subtract)
    } else {
        None
    }
}

/// A token of a directive expression.
pub enum Token {
    Ident(Vec<char>),
    Lit(Literal),
    Bin(BinOp),
    Un(UnaryOp),
    /// End of the expression: end of input, or a character that starts no token.
    Eof,
}

pub enum TokenV {
    Ident(Seq<char>),
    Lit(LiteralV),
    Bin(BinOp),
    Un(UnaryOp),
    Eof,
}

impl Token {
    pub open spec fn view(&self) -> TokenV {
        match self {
            Token::Ident(n) => TokenV::Ident(n@),
            Token::Lit(l) => TokenV::Lit(l.view()),
            Token::Bin(b) => TokenV::Bin(*b),
            Token::Un(u) => TokenV::Un(*u),
            Token::Eof => TokenV::Eof,
        }
    }
}

/// Outcome of reading a token: the token and the position after it, or an
/// input on which preprocessing aborts. Operators are read by slicing the
/// UTF-8 text at byte offsets two and one, which aborts when such an offset
/// falls inside a multi-byte character.
pub enum TokOutcome {
    Tok(TokenV, int),
    Abort,
}

/// The operator token at `q`, after identifiers and literals were ruled out.
pub open spec fn spec_operator(s: Seq<char>, q: int) -> TokOutcome {
    if !is_ascii_char(s[q]) {
        TokOutcome::Abort
    } else if q + 1 >= s.len() {
        // a single byte is left: the two byte probe stops the search
        TokOutcome::Tok(TokenV::Eof, q)
    } else if !is_ascii_char(s[q + 1]) {
        TokOutcome::Abort
    } else {
        match spec_two_char_op(s[q], s[q + 1]) {
            Some(b) => TokOutcome::Tok(TokenV::Bin(b), q + 2),
            None => match spec_one_char_op(s[q]) {
                Some(b) => TokOutcome::Tok(TokenV::Bin(b), q + 1),
                None => match spec_unary_op(s[q]) {
                    Some(u) => TokOutcome::Tok(TokenV::Un(u), q + 1),
                    None => TokOutcome::Tok(TokenV::Eof, q),
                },
            },
        }
    }
}

/// The token that starts at `p`, after spaces and tabs.
pub open spec fn spec_next_token(s: Seq<char>, p: int) -> TokOutcome {
    let q = run_end(s, p, blank_pred());
    if q >= s.len() {
        TokOutcome::Tok(TokenV::Eof, q)
    } else {
        match spec_ident_end(s, q) {
            Some(e) => TokOutcome::Tok(TokenV::Ident(s.subrange(q, e)), e),
            None => match spec_literal(s, q) {
                LitOutcome::Lit(l, e) => TokOutcome::Tok(TokenV::Lit(l), e),
                LitOutcome::Abort => TokOutcome::Abort,
                LitOutcome::NoLit => spec_operator(s, q),
            },
        }
    }
}

pub enum TokResult {
    Tok(Token, usize),
    Abort,
}

impl TokResult {
    pub open spec fn view(&self) -> TokOutcome {
        match self {
            TokResult::Tok(t, p) => TokOutcome::Tok(t.view(), *p as int),
            TokResult::Abort => TokOutcome::Abort,
        }
    }
}

/// Reads the token that starts at `p`. Every token but `Eof` ends after `p`.
pub fn next_token(s: &Vec<char>, p: usize) -> (r: TokResult)
    requires
        p <= s.len(),
    ensures
        r.view() == spec_next_token(s@, p as int),
        r matches TokResult::Tok(t, e) ==> p <= e <= s.len() && (!(t is Eof) ==> p < e),
{
    let q = skip_blanks(s, p);
    if q >= s.len() {
        return TokResult::Tok(Token::Eof, q);
    }
    match ident_end(s, q) {
        Some(e) => {
            let name = slice_chars(s, q, e);
            return TokResult::Tok(Token::Ident(name), e);
        },
        None => {},
    }
    match literal(s, q) {
        LitResult::Lit(l, e) => {
            return TokResult::Tok(Token::Lit(l), e);
        },
        LitResult::Abort => {
            return TokResult::Abort;
        },
        LitResult::NoLit => {},
    }
    let c0 = s[q];
    if (c0 as u32) >= 128 {
        return TokResult::Abort;
    }
    if q + 1 >= s.len() {
        return TokResult::Tok(Token::Eof, q);
    }
    let c1 = s[q + 1];
    if (c1 as u32) >= 128 {
        return TokResult::Abort;
    }
    match two_char_op(c0, c1) {
        Some(b) => TokResult::Tok(Token::Bin(b), q + 2),
        None => match one_char_op(c0) {
            Some(b) => TokResult::Tok(Token::Bin(b), q + 1),
            None => match unary_op(c0) {
                Some(u) => TokResult::Tok(Token::Un(u), q + 1),
                None => TokResult::Tok(Token::Eof, q),
            },
        },
    }
}

} // verus!
