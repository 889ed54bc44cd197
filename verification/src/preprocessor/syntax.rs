use vstd::prelude::*;

verus! {

/// Binary operators of directive expressions, with the text each one is
/// written as.
#[derive(Debug, Clone, Copy, PartialEq, Eq, Structural)]
pub enum BinOp {
    /// `>`
    Greater,
    /// `>=`
    GreaterEqual,
    /// `<`
    Less,
    /// `<=`
    LessEqual,
    /// `==`
    Equal,
    /// `||`
    Or,
    /// `&&`
    And,
    /// `+`
    Add,
    /// `-`
    Subtract,
    /// `*`
    Multiply,
    /// `/`
    Divide,
    /// `<<`
    LeftShift,
    /// `>>`
    RightShift,
    /// `(`
    LeftParentheses,
    /// `)`
    RightParentheses,
}

/// How a binary operator is written.
pub open spec fn op_text(op: BinOp) -> Seq<char> {
    match op {
        BinOp::Greater => seq!['>'],
        BinOp::GreaterEqual => seq!['>', '='],
        BinOp::Less => seq!['<'],
        BinOp::LessEqual => seq!['<', '='],
        BinOp::Equal => seq!['=', '='],
        BinOp::Or => seq!['|', '|'],
        BinOp::And => seq!['&', '&'],
        BinOp::Add => seq!['+'],
        BinOp::Subtract => seq!['-'],
        BinOp::Multiply => seq!['*'],
        BinOp::Divide => seq!['/'],
        BinOp::LeftShift => seq!['<', '<'],
        BinOp::RightShift => seq!['>', '>'],
        BinOp::LeftParentheses => seq!['('],
        BinOp::RightParentheses => seq![')'],
    }
}

/// Prefix operators: `!` and `-`.
#[derive(Debug, Clone, Copy, PartialEq, Eq, Structural)]
pub enum UnaryOp {
    Not,
    Subtract,
}

/// How a prefix operator is written.
pub open spec fn unary_text(op: UnaryOp) -> char {
    match op {
        UnaryOp::Not => '!',
        UnaryOp::Subtract => '-',
    }
}

/// A literal as written in a directive: `"text"`, `123` or `1.25`.
/// A decimal literal keeps its integer part and the integer spelled by its
/// fraction digits, from which its floating point value is derived.
#[derive(Debug)]
pub enum Literal {
    Float(i64, u64),
    Number(i64),
    Str(Vec<char>),
}

/// Mathematical model of [`Literal`].
pub enum LiteralV {
    Float(i64, u64),
    Number(i64),
    Str(Seq<char>),
}

impl Literal {
    pub open spec fn view(&self) -> LiteralV {
        match self {
            Literal::Float(i, f) => LiteralV::Float(*i, *f),
            Literal::Number(n) => LiteralV::Number(*n),
            Literal::Str(s) => LiteralV::Str(s@),
        }
    }
}

/// A directive expression.
#[derive(Debug)]
pub enum Expr {
    Binary(Box<Expr>, BinOp, Box<Expr>),
    Unary(UnaryOp, Box<Expr>),
    Ident(Vec<char>),
    Lit(Literal),
    /// A call `name(arg, ...)`; the callee is always a plain identifier.
    Call(Vec<char>, Vec<Expr>),
}

/// Mathematical model of [`Expr`].
pub enum ExprV {
    Binary(Box<ExprV>, BinOp, Box<ExprV>),
    Unary(UnaryOp, Box<ExprV>),
    Ident(Seq<char>),
    Lit(LiteralV),
    Call(Seq<char>, Seq<ExprV>),
}

impl Expr {
    pub open spec fn view(&self) -> ExprV
        decreases self,
    {
        match self {
            Expr::Binary(l, op, r) => ExprV::Binary(Box::new(l.view()), *op, Box::new(r.view())),
            Expr::Unary(op, e) => ExprV::Unary(*op, Box::new(e.view())),
            Expr::Ident(n) => ExprV::Ident(n@),
            Expr::Lit(l) => ExprV::Lit(l.view()),
            Expr::Call(n, args) => ExprV::Call(n@, exprs_view(args@)),
        }
    }
}

/// The models of a sequence of expressions.
pub open spec fn exprs_view(es: Seq<Expr>) -> Seq<ExprV>
    decreases es,
{
    if es.len() == 0 {
        Seq::empty()
    } else {
        exprs_view(es.drop_last()).push(es.last().view())
    }
}

/// One command of a parsed shader file.
#[derive(Debug)]
pub enum Command {
    /// `///#include "path"`
    Include(Vec<char>),
    /// `///#if expr`
    If(Expr),
    /// `///#elseif expr`
    ElseIf(Expr),
    /// `///#else`
    Else,
    /// `///#endif`
    EndIf,
    /// Text copied to the output.
    Raw(Vec<char>),
    /// `///#decl name` or `///#decl name = expr`
    Decl(Vec<char>, Option<Expr>),
    /// `///#assign name` or `///#assign name = expr`
    Assign(Vec<char>, Option<Expr>),
    /// `#{name}`
    Reference(Vec<char>),
}

/// Mathematical model of [`Command`].
pub enum CommandV {
    Include(Seq<char>),
    If(ExprV),
    ElseIf(ExprV),
    Else,
    EndIf,
    Raw(Seq<char>),
    Decl(Seq<char>, Option<ExprV>),
    Assign(Seq<char>, Option<ExprV>),
    Reference(Seq<char>),
}

pub open spec fn opt_expr_view(e: Option<Expr>) -> Option<ExprV> {
    match e {
        Some(e) => Some(e.view()),
        None => None,
    }
}

impl Command {
    pub open spec fn view(&self) -> CommandV {
        match self {
            Command::Include(p) => CommandV::Include(p@),
            Command::If(e) => CommandV::If(e.view()),
            Command::ElseIf(e) => CommandV::ElseIf(e.view()),
            Command::Else => CommandV::Else,
            Command::EndIf => CommandV::EndIf,
            Command::Raw(t) => CommandV::Raw(t@),
            Command::Decl(n, e) => CommandV::Decl(n@, opt_expr_view(*e)),
            Command::Assign(n, e) => CommandV::Assign(n@, opt_expr_view(*e)),
            Command::Reference(n) => CommandV::Reference(n@),
        }
    }
}

pub open spec fn commands_view(cs: Seq<Command>) -> Seq<CommandV> {
    Seq::new(cs.len(), |i: int| cs[i].view())
}

} // verus!
