use vstd::prelude::*;
use crate::preprocessor::error::PreprocessError;
use crate::preprocessor::lexer::slice_chars;
use crate::preprocessor::syntax::{exprs_view, BinOp, Expr, ExprV, Literal, LiteralV, UnaryOp};

verus! {

// ---------------------------------------------------------------------------
// Values
// ---------------------------------------------------------------------------

/// The value of a directive expression or variable.
#[derive(Debug)]
pub enum Value {
    Number(i64),
    /// A decimal value, kept as the literal that wrote it.
    Float(i64, u64),
    Str(Vec<char>),
    Bool(bool),
    /// The value of unknown names and of `None`.
    Nothing,
    /// A counter made by `_atomic_counter`: the hidden variable that holds its
    /// next value, and its step.
    Counter(Vec<char>, i64),
}

pub enum ValueV {
    Number(i64),
    Float(i64, u64),
    Str(Seq<char>),
    Bool(bool),
    Nothing,
    Counter(Seq<char>, i64),
}

impl Value {
    pub open spec fn view(&self) -> ValueV {
        match self {
            Value::Number(n) => ValueV::Number(*n),
            Value::Float(i, f) => ValueV::Float(*i, *f),
            Value::Str(s) => ValueV::Str(s@),
            Value::Bool(b) => ValueV::Bool(*b),
            Value::Nothing => ValueV::Nothing,
            Value::Counter(k, s) => ValueV::Counter(k@, *s),
        }
    }

    /// A copy of the value.
    pub fn copy(&self) -> (r: Value)
        ensures
            r.view() == self.view(),
    {
        match self {
            Value::Number(n) => Value::Number(*n),
            Value::Float(i, f) => Value::Float(*i, *f),
            Value::Str(s) => Value::Str(copy_chars(s)),
            Value::Bool(b) => Value::Bool(*b),
            Value::Nothing => Value::Nothing,
            Value::Counter(k, s) => Value::Counter(copy_chars(k), *s),
        }
    }
}

pub fn copy_chars(s: &Vec<char>) -> (r: Vec<char>)
    ensures
        r@ == s@,
{
    slice_chars(s, 0, s.len())
}

pub fn chars_eq(a: &Vec<char>, b: &Vec<char>) -> (r: bool)
    ensures
        r == (a@ == b@),
{
    if a.len() != b.len() {
        return false;
    }
    let mut i: usize = 0;
    while i < a.len()
        invariant
            i <= a.len() == b.len(),
            forall|j: int| 0 <= j < i ==> a@[j] == b@[j],
        decreases a.len() - i,
    {
        if a[i] != b[i] {
            return false;
        }
        i = i + 1;
    }
    proof {
        assert(a@ =~= b@);
    }
    true
}

pub fn str_eq(a: &Vec<char>, b: &[char]) -> (r: bool)
    ensures
        r == (a@ == b@),
{
    if a.len() != b.len() {
        return false;
    }
    let mut i: usize = 0;
    while i < a.len()
        invariant
            i <= a.len() == b.len(),
            forall|j: int| 0 <= j < i ==> a@[j] == b@[j],
        decreases a.len() - i,
    {
        if a[i] != b[i] {
            return false;
        }
        i = i + 1;
    }
    proof {
        assert(a@ =~= b@);
    }
    true
}

/// The value a literal denotes.
pub open spec fn literal_value(l: LiteralV) -> ValueV {
    match l {
        LiteralV::Float(i, f) => ValueV::Float(i, f),
        LiteralV::Number(n) => ValueV::Number(n),
        LiteralV::Str(s) => ValueV::Str(s),
    }
}

pub fn literal_to_value(l: &Literal) -> (r: Value)
    ensures
        r.view() == literal_value(l.view()),
{
    match l {
        Literal::Float(i, f) => Value::Float(*i, *f),
        Literal::Number(n) => Value::Number(*n),
        Literal::Str(s) => Value::Str(copy_chars(s)),
    }
}

// ---------------------------------------------------------------------------
// Variables
// ---------------------------------------------------------------------------

/// Variables: a sequence of bindings, the latest binding of a name wins.
pub type Bindings = Vec<(Vec<char>, Value)>;

pub open spec fn bindings_view(b: Seq<(Vec<char>, Value)>) -> Seq<(Seq<char>, ValueV)> {
    Seq::new(b.len(), |i: int| (b[i].0@, b[i].1.view()))
}

/// The value bound to `k`, if any.
pub open spec fn lookup(vars: Seq<(Seq<char>, ValueV)>, k: Seq<char>) -> Option<ValueV>
    decreases vars.len(),
{
    if vars.len() == 0 {
        None
    } else if vars.last().0 == k {
        Some(vars.last().1)
    } else {
        lookup(vars.drop_last(), k)
    }
}

/// Index of the binding of `k` that is in force.
pub fn find_binding(vars: &Bindings, k: &Vec<char>) -> (r: Option<usize>)
    ensures
        match r {
            Some(i) => i < vars.len() && vars@[i as int].0@ == k@ && lookup(
                bindings_view(vars@),
                k@,
            ) == Some(vars@[i as int].1.view()),
            None => lookup(bindings_view(vars@), k@) is None,
        },
{
    let ghost bv = bindings_view(vars@);
    let mut i = vars.len();
    proof {
        assert(bv.subrange(0, i as int) =~= bv);
    }
    while i > 0
        invariant
            i <= vars.len(),
            bv == bindings_view(vars@),
            lookup(bv, k@) == lookup(bv.subrange(0, i as int), k@),
        decreases i,
    {
        proof {
            assert(bv.subrange(0, i as int).drop_last() =~= bv.subrange(0, i - 1));
        }
        if chars_eq(&vars[i - 1].0, k) {
            return Some(i - 1);
        }
        i = i - 1;
    }
    proof {
        assert(bv.subrange(0, 0) =~= Seq::<(Seq<char>, ValueV)>::empty());
    }
    None
}

// ---------------------------------------------------------------------------
// Printing
// ---------------------------------------------------------------------------

pub open spec fn digit_chars() -> Seq<char> {
    seq!['0', '1', '2', '3', '4', '5', '6', '7', '8', '9']
}

/// Decimal digits of `n`.
pub open spec fn nat_text(n: nat) -> Seq<char>
    decreases n,
{
    if n < 10 {
        seq![digit_chars()[n as int]]
    } else {
        nat_text(n / 10).push(digit_chars()[(n % 10) as int])
    }
}

/// Decimal text of `n`, with a leading `-` when negative.
pub open spec fn int_text(n: int) -> Seq<char> {
    if n < 0 {
        seq!['-'] + nat_text((-n) as nat)
    } else {
        nat_text(n as nat)
    }
}

fn push_nat(out: &mut Vec<char>, n: u64)
    ensures
        final(out)@ == old(out)@ + nat_text(n as nat),
    decreases n,
{
    let digits = ['0', '1', '2', '3', '4', '5', '6', '7', '8', '9'];
    proof {
        assert(digits@ =~= digit_chars());
    }
    if n >= 10 {
        push_nat(out, n / 10);
    }
    let ghost mid = out@;
    out.push(digits[(n % 10) as usize]);
    proof {
        if n >= 10 {
            assert(out@ =~= old(out)@ + nat_text(n as nat));
        } else {
            assert(n % 10 == n);
            assert(out@ =~= old(out)@ + nat_text(n as nat));
        }
    }
}

/// Appends the decimal text of `n`.
pub fn push_int(out: &mut Vec<char>, n: i64)
    ensures
        final(out)@ == old(out)@ + int_text(n as int),
{
    if n < 0 {
        out.push('-');
        let m: u64 = if n == i64::MIN {
            9223372036854775808u64
        } else {
            (-n) as u64
        };
        let ghost mid = out@;
        push_nat(out, m);
        proof {
            assert(out@ =~= old(out)@ + int_text(n as int));
        }
    } else {
        push_nat(out, n as u64);
    }
}

/// How a value prints when referenced.
pub open spec fn display(v: ValueV) -> Result<Seq<char>, PreprocessError> {
    match v {
        ValueV::Number(n) => Ok(int_text(n as int)),
        ValueV::Float(_, _) => Err(PreprocessError::FloatValue),
        ValueV::Str(s) => Ok(seq!['"'] + s + seq!['"']),
        ValueV::Bool(b) => Ok(
            if b {
                seq!['t', 'r', 'u', 'e']
            } else {
                seq!['f', 'a', 'l', 's', 'e']
            },
        ),
        ValueV::Nothing => Ok(seq!['N', 'o', 'n', 'e']),
        ValueV::Counter(_, _) => Ok(seq!['f', 'n']),
    }
}

pub fn push_all(out: &mut Vec<char>, t: &[char])
    ensures
        final(out)@ == old(out)@ + t@,
{
    let mut i: usize = 0;
    while i < t.len()
        invariant
            i <= t.len(),
            out@ == old(out)@ + t@.subrange(0, i as int),
        decreases t.len() - i,
    {
        out.push(t[i]);
        i = i + 1;
        proof {
            assert(out@ =~= old(out)@ + t@.subrange(0, i as int));
        }
    }
    proof {
        assert(t@.subrange(0, t@.len() as int) =~= t@);
    }
}

/// Appends the printed form of `v` to `out`.
pub fn write_value(out: &mut Vec<char>, v: &Value) -> (r: Result<(), PreprocessError>)
    ensures
        match display(v.view()) {
            Ok(t) => r is Ok && final(out)@ == old(out)@ + t,
            Err(e) => r == Err::<(), PreprocessError>(e) && final(out)@ == old(out)@,
        },
{
    match v {
        Value::Number(n) => {
            push_int(out, *n);
        },
        Value::Float(_, _) => {
            return Err(PreprocessError::FloatValue);
        },
        Value::Str(s) => {
            out.push('"');
            push_all(out, s.as_slice());
            out.push('"');
            proof {
                assert(out@ =~= old(out)@ + (seq!['"'] + s@ + seq!['"']));
            }
        },
        Value::Bool(b) => {
            if *b {
                let t = ['t', 'r', 'u', 'e'];
                proof {
                    assert(t@ =~= seq!['t', 'r', 'u', 'e']);
                }
                push_all(out, &t);
            } else {
                let t = ['f', 'a', 'l', 's', 'e'];
                proof {
                    assert(t@ =~= seq!['f', 'a', 'l', 's', 'e']);
                }
                push_all(out, &t);
            }
        },
        Value::Nothing => {
            let t = ['N', 'o', 'n', 'e'];
            proof {
                assert(t@ =~= seq!['N', 'o', 'n', 'e']);
            }
            push_all(out, &t);
        },
        Value::Counter(_, _) => {
            let t = ['f', 'n'];
            proof {
                assert(t@ =~= seq!['f', 'n']);
            }
            push_all(out, &t);
        },
    }
    Ok(())
}

// ---------------------------------------------------------------------------
// Operators
// ---------------------------------------------------------------------------

/// Integer arithmetic of a binary operator; `None` where preprocessing
/// aborts (overflow, division by zero, shift out of range).
pub open spec fn int_binop(op: BinOp, a: i64, b: i64) -> Option<Result<ValueV, PreprocessError>> {
    match op {
        BinOp::Greater => Some(Ok(ValueV::Bool(a > b))),
        BinOp::GreaterEqual => Some(Ok(ValueV::Bool(a >= b))),
        BinOp::Less => Some(Ok(ValueV::Bool(a < b))),
        BinOp::LessEqual => Some(Ok(ValueV::Bool(a <= b))),
        BinOp::Equal => Some(Ok(ValueV::Bool(a == b))),
        BinOp::Add => if i64::MIN <= a + b <= i64::MAX {
            Some(Ok(ValueV::Number((a + b) as i64)))
        } else {
            None
        },
        BinOp::Subtract => if i64::MIN <= a - b <= i64::MAX {
            Some(Ok(ValueV::Number((a - b) as i64)))
        } else {
            None
        },
        BinOp::Multiply => if i64::MIN <= a * b <= i64::MAX {
            Some(Ok(ValueV::Number((a * b) as i64)))
        } else {
            None
        },
        BinOp::Divide => match i64::checked_div(a, b) {
            Some(q) => Some(Ok(ValueV::Number(q))),
            None => None,
        },
        BinOp::LeftShift => if 0 <= b < 64 {
            Some(Ok(ValueV::Number(i64::wrapping_shl(a, b as u32))))
        } else {
            None
        },
        BinOp::RightShift => if 0 <= b < 64 {
            Some(Ok(ValueV::Number(i64::wrapping_shr(a, b as u32))))
        } else {
            None
        },
        _ => Some(Err(PreprocessError::OpNotSupported)),
    }
}

/// The truth an integer comparison gives, if it gives one.
pub open spec fn int_truth(op: BinOp, a: i64, b: i64) -> Option<bool> {
    match int_binop(op, a, b) {
        Some(Ok(ValueV::Bool(x))) => Some(x),
        _ => None,
    }
}

/// The number an integer operator gives, if it gives one.
pub open spec fn int_number(op: BinOp, a: i64, b: i64) -> Option<i64> {
    match int_binop(op, a, b) {
        Some(Ok(ValueV::Number(x))) => Some(x),
        _ => None,
    }
}

/// Integer comparisons order numbers: each gives a truth; exactly one of
/// less, equal and greater holds; "or equal" adds equality; less is greater
/// with the sides swapped; equality is symmetric; and greater means a
/// positive difference.
pub proof fn lemma_int_comparisons(a: i64, b: i64)
    ensures
        int_truth(BinOp::Greater, a, b) is Some,
        int_truth(BinOp::GreaterEqual, a, b) is Some,
        int_truth(BinOp::Less, a, b) is Some,
        int_truth(BinOp::LessEqual, a, b) is Some,
        int_truth(BinOp::Equal, a, b) is Some,
        (int_truth(BinOp::Less, a, b) == Some(true)) as int + (int_truth(BinOp::Equal, a, b) == Some(true)) as int
            + (int_truth(BinOp::Greater, a, b) == Some(true)) as int == 1,
        int_truth(BinOp::GreaterEqual, a, b) == Some(
            int_truth(BinOp::Greater, a, b) == Some(true) || int_truth(BinOp::Equal, a, b) == Some(true),
        ),
        int_truth(BinOp::LessEqual, a, b) == Some(
            int_truth(BinOp::Less, a, b) == Some(true) || int_truth(BinOp::Equal, a, b) == Some(true),
        ),
        int_truth(BinOp::Less, a, b) == int_truth(BinOp::Greater, b, a),
        int_truth(BinOp::Equal, a, b) == int_truth(BinOp::Equal, b, a),
        int_truth(BinOp::Equal, a, a) == Some(true),
        int_number(BinOp::Subtract, a, b) matches Some(d) ==> (int_truth(BinOp::Greater, a, b) == Some(d > 0)),
{
}

/// Integer arithmetic: addition and multiplication commute, zero and one
/// are neutral, subtraction undoes addition, doubling is adding a number to
/// itself, and division undoes an exact multiplication.
pub proof fn lemma_int_arithmetic(a: i64, b: i64)
    ensures
        int_number(BinOp::Add, a, b) == int_number(BinOp::Add, b, a),
        int_number(BinOp::Multiply, a, b) == int_number(BinOp::Multiply, b, a),
        int_number(BinOp::Add, a, 0) == Some(a),
        int_number(BinOp::Subtract, a, 0) == Some(a),
        int_number(BinOp::Multiply, a, 1) == Some(a),
        int_number(BinOp::Add, a, b) matches Some(c) ==> int_number(BinOp::Subtract, c, b) == Some(a),
        int_number(BinOp::Multiply, a, 2) == int_number(BinOp::Add, a, a),
{
    assert(a * b == b * a) by (nonlinear_arith);
}

/// A binary operator applied to two values.
pub open spec fn spec_binop(op: BinOp, l: ValueV, r: ValueV) -> Result<ValueV, PreprocessError> {
    match l {
        ValueV::Number(a) => match r {
            ValueV::Number(b) => match int_binop(op, a, b) {
                Some(res) => res,
                None => Err(PreprocessError::Aborted),
            },
            ValueV::Nothing => Ok(ValueV::Number(a)),
            _ => Err(PreprocessError::TypeMismatch),
        },
        ValueV::Float(_, _) => match r {
            ValueV::Float(_, _) => match op {
                BinOp::Greater | BinOp::GreaterEqual | BinOp::Less | BinOp::LessEqual
                | BinOp::Equal | BinOp::Add | BinOp::Subtract | BinOp::Multiply
                | BinOp::Divide => Err(PreprocessError::FloatValue),
                _ => Err(PreprocessError::OpNotSupported),
            },
            ValueV::Nothing => Ok(l),
            _ => Err(PreprocessError::TypeMismatch),
        },
        ValueV::Bool(a) => match r {
            ValueV::Bool(b) => match op {
                BinOp::Equal => Ok(ValueV::Bool(a == b)),
                BinOp::Or => Ok(ValueV::Bool(a || b)),
                BinOp::And => Ok(ValueV::Bool(a && b)),
                _ => Err(PreprocessError::OpNotSupported),
            },
            ValueV::Nothing => Ok(ValueV::Bool(a)),
            _ => Err(PreprocessError::TypeMismatch),
        },
        ValueV::Nothing => match r {
            ValueV::Nothing => match op {
                BinOp::Equal | BinOp::Or | BinOp::And => Ok(ValueV::Nothing),
                _ => Err(PreprocessError::OpNotSupported),
            },
            _ => Ok(r),
        },
        _ => Err(PreprocessError::TypeMismatch),
    }
}

/// A prefix operator applied to a value.
pub open spec fn spec_unop(op: UnaryOp, v: ValueV) -> Result<ValueV, PreprocessError> {
    match op {
        UnaryOp::Subtract => match v {
            ValueV::Number(n) => if n == i64::MIN {
                Err(PreprocessError::Aborted)
            } else {
                Ok(ValueV::Number((-n) as i64))
            },
            ValueV::Float(_, _) => Err(PreprocessError::FloatValue),
            ValueV::Nothing => Ok(ValueV::Nothing),
            _ => Err(PreprocessError::TypeMismatch),
        },
        UnaryOp::Not => match v {
            ValueV::Bool(b) => Ok(ValueV::Bool(!b)),
            ValueV::Nothing => Ok(ValueV::Nothing),
            _ => Err(PreprocessError::TypeMismatch),
        },
    }
}

/// Logic on truths: "or" and "and" commute, are dual through "not" (De
/// Morgan), have false and true as their neutral values, and "not" undoes
/// itself; so does negating a number.
pub proof fn lemma_logic_laws(x: bool, y: bool, n: i64)
    ensures
        spec_binop(BinOp::Or, ValueV::Bool(x), ValueV::Bool(y)) == spec_binop(BinOp::Or, ValueV::Bool(y), ValueV::Bool(x)),
        spec_binop(BinOp::And, ValueV::Bool(x), ValueV::Bool(y)) == spec_binop(BinOp::And, ValueV::Bool(y), ValueV::Bool(x)),
        spec_binop(BinOp::Or, ValueV::Bool(false), ValueV::Bool(x)) == Ok::<ValueV, PreprocessError>(ValueV::Bool(x)),
        spec_binop(BinOp::And, ValueV::Bool(true), ValueV::Bool(x)) == Ok::<ValueV, PreprocessError>(ValueV::Bool(x)),
        spec_binop(BinOp::Equal, ValueV::Bool(x), ValueV::Bool(x)) == Ok::<ValueV, PreprocessError>(ValueV::Bool(true)),
        spec_unop(UnaryOp::Not, ValueV::Bool(x)) matches Ok(nx) ==> spec_unop(UnaryOp::Not, nx) == Ok::<
            ValueV,
            PreprocessError,
        >(ValueV::Bool(x)),
        spec_unop(UnaryOp::Not, ValueV::Bool(x)) != Ok::<ValueV, PreprocessError>(ValueV::Bool(x)),
        ({
            let nx = match spec_unop(UnaryOp::Not, ValueV::Bool(x)) {
                Ok(ValueV::Bool(v)) => v,
                _ => x,
            };
            let ny = match spec_unop(UnaryOp::Not, ValueV::Bool(y)) {
                Ok(ValueV::Bool(v)) => v,
                _ => y,
            };
            spec_binop(BinOp::And, ValueV::Bool(x), ValueV::Bool(y)) == Ok::<ValueV, PreprocessError>(
                ValueV::Bool(!(nx || ny)),
            )
        }),
        n != i64::MIN ==> (spec_unop(UnaryOp::Subtract, ValueV::Number(n)) matches Ok(m) && spec_unop(
            UnaryOp::Subtract,
            m,
        ) == Ok::<ValueV, PreprocessError>(ValueV::Number(n))),
        n != i64::MIN ==> (spec_unop(UnaryOp::Subtract, ValueV::Number(n)) matches Ok(ValueV::Number(m)) && int_number(
            BinOp::Add,
            n,
            m,
        ) == Some(0i64)),
{
}

fn int_op(op: BinOp, a: i64, b: i64) -> (r: Result<Value, PreprocessError>)
    ensures
        match int_binop(op, a, b) {
            Some(res) => match res {
                Ok(v) => r matches Ok(x) && x.view() == v,
                Err(e) => r == Err::<Value, PreprocessError>(e),
            },
            None => r == Err::<Value, PreprocessError>(PreprocessError::Aborted),
        },
{
    match op {
        BinOp::Greater => Ok(Value::Bool(a > b)),
        BinOp::GreaterEqual => Ok(Value::Bool(a >= b)),
        BinOp::Less => Ok(Value::Bool(a < b)),
        BinOp::LessEqual => Ok(Value::Bool(a <= b)),
        BinOp::Equal => Ok(Value::Bool(a == b)),
        BinOp::Add => match a.checked_add(b) {
            Some(x) => Ok(Value::Number(x)),
            None => Err(PreprocessError::Aborted),
        },
        BinOp::Subtract => match a.checked_sub(b) {
            Some(x) => Ok(Value::Number(x)),
            None => Err(PreprocessError::Aborted),
        },
        BinOp::Multiply => match a.checked_mul(b) {
            Some(x) => Ok(Value::Number(x)),
            None => Err(PreprocessError::Aborted),
        },
        BinOp::Divide => match a.checked_div(b) {
            Some(x) => Ok(Value::Number(x)),
            None => Err(PreprocessError::Aborted),
        },
        BinOp::LeftShift => if 0 <= b && b < 64 {
            Ok(Value::Number(a.wrapping_shl(b as u32)))
        } else {
            Err(PreprocessError::Aborted)
        },
        BinOp::RightShift => if 0 <= b && b < 64 {
            Ok(Value::Number(a.wrapping_shr(b as u32)))
        } else {
            Err(PreprocessError::Aborted)
        },
        _ => Err(PreprocessError::OpNotSupported),
    }
}

pub open spec fn result_view(r: Result<Value, PreprocessError>) -> Result<ValueV, PreprocessError> {
    match r {
        Ok(v) => Ok(v.view()),
        Err(e) => Err(e),
    }
}

/// Applies a binary operator (see [`spec_binop`]).
pub fn binop(op: BinOp, l: &Value, r: &Value) -> (res: Result<Value, PreprocessError>)
    ensures
        result_view(res) == spec_binop(op, l.view(), r.view()),
{
    match l {
        Value::Number(a) => match r {
            Value::Number(b) => int_op(op, *a, *b),
            Value::Nothing => Ok(Value::Number(*a)),
            _ => Err(PreprocessError::TypeMismatch),
        },
        Value::Float(i, f) => match r {
            Value::Float(_, _) => match op {
                BinOp::Greater | BinOp::GreaterEqual | BinOp::Less | BinOp::LessEqual
                | BinOp::Equal | BinOp::Add | BinOp::Subtract | BinOp::Multiply
                | BinOp::Divide => Err(PreprocessError::FloatValue),
                _ => Err(PreprocessError::OpNotSupported),
            },
            Value::Nothing => Ok(Value::Float(*i, *f)),
            _ => Err(PreprocessError::TypeMismatch),
        },
        Value::Bool(a) => match r {
            Value::Bool(b) => match op {
                BinOp::Equal => Ok(Value::Bool(*a == *b)),
                BinOp::Or => Ok(Value::Bool(*a || *b)),
                BinOp::And => Ok(Value::Bool(*a && *b)),
                _ => Err(PreprocessError::OpNotSupported),
            },
            Value::Nothing => Ok(Value::Bool(*a)),
            _ => Err(PreprocessError::TypeMismatch),
        },
        Value::Nothing => match r {
            Value::Nothing => match op {
                BinOp::Equal | BinOp::Or | BinOp::And => Ok(Value::Nothing),
                _ => Err(PreprocessError::OpNotSupported),
            },
            _ => Ok(r.copy()),
        },
        _ => Err(PreprocessError::TypeMismatch),
    }
}

/// Applies a prefix operator (see [`spec_unop`]).
pub fn unop(op: UnaryOp, v: &Value) -> (res: Result<Value, PreprocessError>)
    ensures
        result_view(res) == spec_unop(op, v.view()),
{
    match op {
        UnaryOp::Subtract => match v {
            Value::Number(n) => if *n == i64::MIN {
                Err(PreprocessError::Aborted)
            } else {
                Ok(Value::Number(-*n))
            },
            Value::Float(_, _) => Err(PreprocessError::FloatValue),
            Value::Nothing => Ok(Value::Nothing),
            _ => Err(PreprocessError::TypeMismatch),
        },
        UnaryOp::Not => match v {
            Value::Bool(b) => Ok(Value::Bool(!*b)),
            Value::Nothing => Ok(Value::Nothing),
            _ => Err(PreprocessError::TypeMismatch),
        },
    }
}


/// Reading a variable after binding it gives the bound value; other
/// variables keep theirs.
pub proof fn lemma_lookup_bind(vars: Seq<(Seq<char>, ValueV)>, k: Seq<char>, v: ValueV, k2: Seq<char>)
    ensures
        lookup(vars.push((k, v)), k2) == if k2 == k {
            Some(v)
        } else {
            lookup(vars, k2)
        },
{
    assert(vars.push((k, v)).drop_last() =~= vars);
}

} // verus!
