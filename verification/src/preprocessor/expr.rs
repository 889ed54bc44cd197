use vstd::prelude::*;
use crate::preprocessor::lexer::{
    blank_pred, next_token, run_end, skip_blanks, spec_next_token, TokOutcome, TokResult, Token,
    TokenV,
};
use crate::preprocessor::syntax::{exprs_view, BinOp, Expr, ExprV, UnaryOp};

verus! {

/// Outcome of a parser: a value and the position after it, no match, or an
/// input on which preprocessing aborts.
pub enum PRes<T> {
    Done(T, int),
    Fail,
    Abort,
}

/// Binding powers `(left, right)` of an infix operator. `(` binds tightest
/// (a parenthesis after an expression that is not a name), then `*` and `/`,
/// `+` and `-`, `&&`, `||`, the shifts (right associative) and the
/// comparisons. `)` is no infix operator.
pub open spec fn spec_infix_power(op: BinOp) -> Option<(int, int)> {
    match op {
        BinOp::Add | BinOp::Subtract => Some((100, 101)),
        BinOp::Multiply | BinOp::Divide => Some((150, 151)),
        BinOp::LeftParentheses => Some((10000, 10001)),
        BinOp::Greater | BinOp::GreaterEqual | BinOp::Less | BinOp::LessEqual | BinOp::Equal => Some(
            (10, 11),
        ),
        BinOp::And => Some((90, 91)),
        BinOp::Or => Some((80, 81)),
        BinOp::LeftShift | BinOp::RightShift => Some((71, 70)),
        BinOp::RightParentheses => None,
    }
}

/// Binding power of the prefix operators.
pub open spec fn prefix_power() -> int {
    1000
}

fn infix_power(op: BinOp) -> (r: Option<(i32, i32)>)
    ensures
        match r {
            Some((l, rp)) => spec_infix_power(op) == Some((l as int, rp as int)),
            None => spec_infix_power(op) is None,
        },
{
    match op {
        BinOp::Add | BinOp::Subtract => Some((100, 101)),
        BinOp::Multiply | BinOp::Divide => Some((150, 151)),
        BinOp::LeftParentheses => Some((10000, 10001)),
        BinOp::Greater | BinOp::GreaterEqual | BinOp::Less | BinOp::LessEqual | BinOp::Equal => Some(
            (10, 11),
        ),
        BinOp::And => Some((90, 91)),
        BinOp::Or => Some((80, 81)),
        BinOp::LeftShift | BinOp::RightShift => Some((71, 70)),
        BinOp::RightParentheses => None,
    }
}

/// An expression starting at `p` whose infix operators bind at least as
/// tightly as `prec` (a Pratt parser).
pub open spec fn spec_expr(s: Seq<char>, p: int, prec: int) -> PRes<ExprV>
    decreases s.len() - p, 3int,
{
    if !(0 <= p <= s.len()) {
        PRes::Fail
    } else {
        match spec_next_token(s, p) {
            TokOutcome::Abort => PRes::Abort,
            TokOutcome::Tok(t, p1) => {
                if !(p < p1 <= s.len()) {
                    PRes::Fail
                } else {
                    match t {
                        TokenV::Ident(n) => spec_infix(s, p1, prec, ExprV::Ident(n)),
                        TokenV::Lit(l) => spec_infix(s, p1, prec, ExprV::Lit(l)),
                        TokenV::Un(u) => match spec_expr(s, p1, prefix_power()) {
                            PRes::Done(e, p2) => if p1 < p2 <= s.len() {
                                spec_infix(s, p2, prec, ExprV::Unary(u, Box::new(e)))
                            } else {
                                PRes::Fail
                            },
                            PRes::Fail => PRes::Fail,
                            PRes::Abort => PRes::Abort,
                        },
                        TokenV::Bin(BinOp::LeftParentheses) => match spec_expr(s, p1, prec) {
                            PRes::Done(e, p2) => if p1 < p2 <= s.len() {
                                match spec_next_token(s, p2) {
                                    TokOutcome::Abort => PRes::Abort,
                                    TokOutcome::Tok(TokenV::Bin(BinOp::RightParentheses), p3) => if p2
                                        < p3 <= s.len() {
                                        spec_infix(s, p3, prec, e)
                                    } else {
                                        PRes::Fail
                                    },
                                    TokOutcome::Tok(_, _) => PRes::Fail,
                                }
                            } else {
                                PRes::Fail
                            },
                            PRes::Fail => PRes::Fail,
                            PRes::Abort => PRes::Abort,
                        },
                        TokenV::Bin(_) => PRes::Fail,
                        TokenV::Eof => PRes::Fail,
                    }
                }
            },
        }
    }
}

/// Extends `lhs` with the infix operators and calls that follow it at `p`.
pub open spec fn spec_infix(s: Seq<char>, p: int, prec: int, lhs: ExprV) -> PRes<ExprV>
    decreases s.len() - p, 2int,
{
    if !(0 <= p <= s.len()) {
        PRes::Fail
    } else {
        match spec_next_token(s, p) {
            TokOutcome::Abort => PRes::Abort,
            TokOutcome::Tok(TokenV::Eof, _) => PRes::Done(lhs, p),
            TokOutcome::Tok(TokenV::Bin(op), p1) => {
                if op == BinOp::LeftParentheses && lhs is Ident {
                    match spec_call(s, p) {
                        PRes::Done(args, p2) => if p < p2 <= s.len() {
                            spec_infix(s, p2, prec, ExprV::Call(lhs->Ident_0, args))
                        } else {
                            PRes::Fail
                        },
                        PRes::Fail => PRes::Fail,
                        PRes::Abort => PRes::Abort,
                    }
                } else if op == BinOp::RightParentheses {
                    PRes::Done(lhs, p)
                } else {
                    let (lp, rp) = spec_infix_power(op).unwrap();
                    if lp < prec {
                        PRes::Done(lhs, p)
                    } else if !(p < p1 <= s.len()) {
                        PRes::Fail
                    } else {
                        match spec_expr(s, p1, rp) {
                            PRes::Done(r, p2) => if p1 < p2 <= s.len() {
                                spec_infix(
                                    s,
                                    p2,
                                    prec,
                                    ExprV::Binary(Box::new(lhs), op, Box::new(r)),
                                )
                            } else {
                                PRes::Fail
                            },
                            PRes::Fail => PRes::Fail,
                            PRes::Abort => PRes::Abort,
                        }
                    }
                }
            },
            TokOutcome::Tok(_, _) => PRes::Fail,
        }
    }
}

/// The argument list `( expr, ... )` of a call, starting at `p` (blanks first).
pub open spec fn spec_call(s: Seq<char>, p: int) -> PRes<Seq<ExprV>>
    decreases s.len() - p, 1int,
{
    let q = run_end(s, p, blank_pred());
    if !(0 <= p <= q && q < s.len() && s[q] == '(') {
        PRes::Fail
    } else {
        match spec_expr(s, q + 1, 0) {
            PRes::Abort => PRes::Abort,
            PRes::Fail => spec_close(s, q + 1, Seq::empty()),
            PRes::Done(e, p1) => if q + 1 < p1 <= s.len() {
                spec_more_args(s, p1, seq![e])
            } else {
                PRes::Fail
            },
        }
    }
}

/// Further `, expr` arguments after those in `acc`.
pub open spec fn spec_more_args(s: Seq<char>, p: int, acc: Seq<ExprV>) -> PRes<Seq<ExprV>>
    decreases s.len() - p, 0int,
{
    let q = run_end(s, p, blank_pred());
    if 0 <= p <= q && q < s.len() && s[q] == ',' {
        match spec_expr(s, q + 1, 0) {
            PRes::Abort => PRes::Abort,
            PRes::Fail => spec_close(s, p, acc),
            PRes::Done(e, p2) => if q + 1 < p2 <= s.len() {
                spec_more_args(s, p2, acc.push(e))
            } else {
                PRes::Fail
            },
        }
    } else {
        spec_close(s, p, acc)
    }
}

/// The closing parenthesis of an argument list.
pub open spec fn spec_close(s: Seq<char>, p: int, acc: Seq<ExprV>) -> PRes<Seq<ExprV>> {
    let q = run_end(s, p, blank_pred());
    if 0 <= q < s.len() && s[q] == ')' {
        PRes::Done(acc, q + 1)
    } else {
        PRes::Fail
    }
}

pub enum ExprResult {
    Done(Expr, usize),
    Fail,
    Abort,
}

impl ExprResult {
    pub open spec fn view(&self) -> PRes<ExprV> {
        match self {
            ExprResult::Done(e, p) => PRes::Done(e.view(), *p as int),
            ExprResult::Fail => PRes::Fail,
            ExprResult::Abort => PRes::Abort,
        }
    }
}

pub enum ArgsResult {
    Done(Vec<Expr>, usize),
    Fail,
    Abort,
}

impl ArgsResult {
    pub open spec fn view(&self) -> PRes<Seq<ExprV>> {
        match self {
            ArgsResult::Done(v, p) => PRes::Done(exprs_view(v@), *p as int),
            ArgsResult::Fail => PRes::Fail,
            ArgsResult::Abort => PRes::Abort,
        }
    }
}

proof fn lemma_exprs_view_push(v: Seq<Expr>, e: Expr)
    ensures
        exprs_view(v.push(e)) == exprs_view(v).push(e.view()),
{
    assert(v.push(e).drop_last() =~= v);
}

/// Parses an expression at `p` (see [`spec_expr`]).
pub fn parse_expr(s: &Vec<char>, p: usize, prec: i32) -> (r: ExprResult)
    requires
        p <= s.len(),
    ensures
        r.view() == spec_expr(s@, p as int, prec as int),
        r matches ExprResult::Done(_, e) ==> p < e <= s.len(),
    decreases s.len() - p, 3int,
{
    match next_token(s, p) {
        TokResult::Abort => ExprResult::Abort,
        TokResult::Tok(t, p1) => {
            match t {
                Token::Ident(n) => parse_infix(s, p1, prec, Expr::Ident(n)),
                Token::Lit(l) => parse_infix(s, p1, prec, Expr::Lit(l)),
                Token::Un(u) => match parse_expr(s, p1, 1000) {
                    ExprResult::Done(e, p2) => parse_infix(s, p2, prec, Expr::Unary(u, Box::new(e))),
                    ExprResult::Fail => ExprResult::Fail,
                    ExprResult::Abort => ExprResult::Abort,
                },
                Token::Bin(BinOp::LeftParentheses) => match parse_expr(s, p1, prec) {
                    ExprResult::Done(e, p2) => match next_token(s, p2) {
                        TokResult::Abort => ExprResult::Abort,
                        TokResult::Tok(Token::Bin(BinOp::RightParentheses), p3) => parse_infix(
                            s,
                            p3,
                            prec,
                            e,
                        ),
                        TokResult::Tok(_, _) => ExprResult::Fail,
                    },
                    ExprResult::Fail => ExprResult::Fail,
                    ExprResult::Abort => ExprResult::Abort,
                },
                Token::Bin(_) => ExprResult::Fail,
                Token::Eof => ExprResult::Fail,
            }
        },
    }
}

/// Extends `lhs` with what follows at `p` (see [`spec_infix`]).
pub fn parse_infix(s: &Vec<char>, p: usize, prec: i32, lhs: Expr) -> (r: ExprResult)
    requires
        p <= s.len(),
    ensures
        r.view() == spec_infix(s@, p as int, prec as int, lhs.view()),
        r matches ExprResult::Done(_, e) ==> p <= e <= s.len(),
    decreases s.len() - p, 2int,
{
    match next_token(s, p) {
        TokResult::Abort => ExprResult::Abort,
        TokResult::Tok(Token::Eof, _) => ExprResult::Done(lhs, p),
        TokResult::Tok(Token::Bin(op), p1) => {
            let lhs_is_name = match &lhs {
                Expr::Ident(_) => true,
                _ => false,
            };
            if op == BinOp::LeftParentheses && lhs_is_name {
                match parse_call(s, p) {
                    ArgsResult::Done(args, p2) => {
                        let name = match lhs {
                            Expr::Ident(n) => n,
                            _ => {
                                proof {
                                    assert(false);
                                }
                                Vec::new()
                            },
                        };
                        parse_infix(s, p2, prec, Expr::Call(name, args))
                    },
                    ArgsResult::Fail => ExprResult::Fail,
                    ArgsResult::Abort => ExprResult::Abort,
                }
            } else if op == BinOp::RightParentheses {
                ExprResult::Done(lhs, p)
            } else {
                let (lp, rp) = match infix_power(op) {
                    Some(x) => x,
                    None => {
                        proof {
                            assert(false);
                        }
                        (0, 0)
                    },
                };
                if lp < prec {
                    ExprResult::Done(lhs, p)
                } else {
                    match parse_expr(s, p1, rp) {
                        ExprResult::Done(r, p2) => parse_infix(
                            s,
                            p2,
                            prec,
                            Expr::Binary(Box::new(lhs), op, Box::new(r)),
                        ),
                        ExprResult::Fail => ExprResult::Fail,
                        ExprResult::Abort => ExprResult::Abort,
                    }
                }
            }
        },
        TokResult::Tok(_, _) => ExprResult::Fail,
    }
}

/// Parses the argument list of a call at `p` (see [`spec_call`]).
pub fn parse_call(s: &Vec<char>, p: usize) -> (r: ArgsResult)
    requires
        p <= s.len(),
    ensures
        r.view() == spec_call(s@, p as int),
        r matches ArgsResult::Done(_, e) ==> p < e <= s.len(),
    decreases s.len() - p, 1int,
{
    let q = skip_blanks(s, p);
    if !(q < s.len() && s[q] == '(') {
        return ArgsResult::Fail;
    }
    match parse_expr(s, q + 1, 0) {
        ExprResult::Abort => ArgsResult::Abort,
        ExprResult::Fail => close_args(s, q + 1, Vec::new()),
        ExprResult::Done(e, p1) => {
            let mut acc: Vec<Expr> = Vec::new();
            acc.push(e);
            proof {
                lemma_exprs_view_push(Seq::empty(), acc@[0]);
                assert(acc@ =~= Seq::<Expr>::empty().push(acc@[0]));
                assert(exprs_view(Seq::<Expr>::empty()) =~= Seq::<ExprV>::empty());
            }
            parse_more_args(s, p1, acc)
        },
    }
}

/// Parses further `, expr` arguments at `p` (see [`spec_more_args`]).
pub fn parse_more_args(s: &Vec<char>, p: usize, acc: Vec<Expr>) -> (r: ArgsResult)
    requires
        p <= s.len(),
    ensures
        r.view() == spec_more_args(s@, p as int, exprs_view(acc@)),
        r matches ArgsResult::Done(_, e) ==> p < e <= s.len(),
    decreases s.len() - p, 0int,
{
    let q = skip_blanks(s, p);
    if q < s.len() && s[q] == ',' {
        match parse_expr(s, q + 1, 0) {
            ExprResult::Abort => ArgsResult::Abort,
            ExprResult::Fail => close_args(s, p, acc),
            ExprResult::Done(e, p2) => {
                let mut acc = acc;
                let ghost old_acc = acc@;
                acc.push(e);
                proof {
                    lemma_exprs_view_push(old_acc, acc@.last());
                    assert(acc@ =~= old_acc.push(acc@.last()));
                }
                parse_more_args(s, p2, acc)
            },
        }
    } else {
        close_args(s, p, acc)
    }
}

fn close_args(s: &Vec<char>, p: usize, acc: Vec<Expr>) -> (r: ArgsResult)
    requires
        p <= s.len(),
    ensures
        r.view() == spec_close(s@, p as int, exprs_view(acc@)),
        r matches ArgsResult::Done(_, e) ==> p < e <= s.len(),
{
    let q = skip_blanks(s, p);
    if q < s.len() && s[q] == ')' {
        ArgsResult::Done(acc, q + 1)
    } else {
        ArgsResult::Fail
    }
}

} // verus!
