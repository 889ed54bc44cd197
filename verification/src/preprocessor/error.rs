use vstd::prelude::*;

verus! {

/// Why preprocessing failed.
#[derive(Debug, Clone, Copy, PartialEq, Eq, Structural)]
pub enum PreprocessError {
    /// A file (by its index among the loaded files) does not parse.
    Parse(usize),
    /// The input is one on which preprocessing aborts: an
    /// arithmetic overflow, a division by zero, a shift by 64 or more bits,
    /// a decimal literal whose fraction spells zero, an operator character
    /// next to a multi-byte character, or a counter whose state vanished.
    Aborted,
    /// Floating point arithmetic, comparison or printing was asked for.
    FloatValue,
    /// Operands of different types.
    TypeMismatch,
    /// An operator that the operand type does not support.
    OpNotSupported,
    /// `_atomic_counter` got an argument that is not a number.
    InvalidParameterType,
    /// `_atomic_counter` did not get exactly two arguments.
    InvalidParameterCount,
    /// A counter's state is not a number.
    CounterInvalidType,
    /// An `if` or `elseif` condition is neither a boolean nor `None`.
    ConditionType,
    /// `elseif` without an open `if`.
    UnexpectedElseIf,
    /// `else` without an open `if`.
    UnexpectedElse,
    /// `endif` without an open `if`.
    UnexpectedEndIf,
    /// An include (by the index of the including file) names no existing file.
    IncludeNotFound(usize),
    /// A file (by its index) could not be read.
    ReadFailed(usize),
    /// The include graph has a cycle.
    CyclicInclude,
    /// A define's value is neither empty, a known name nor a literal.
    InvalidDefine,
}

} // verus!
