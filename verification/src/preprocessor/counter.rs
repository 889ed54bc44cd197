use vstd::prelude::*;
use rand::distributions::Alphanumeric;
use rand::Rng;
use crate::preprocessor::error::PreprocessError;
use crate::preprocessor::eval::{bindings_view, copy_chars, Bindings, Value, ValueV};

verus! {

/// Whether `c` is an ASCII letter or digit.
pub open spec fn is_ascii_alnum(c: char) -> bool {
    ('a' <= c && c <= 'z') || ('A' <= c && c <= 'Z') || ('0' <= c && c <= '9')
}

/// The prefix of the hidden variables that hold counter states.
pub open spec fn hidden_prefix() -> Seq<char> {
    seq!['_', '_', 'H', 'I', 'D', 'D', 'E', 'N', '_', '_']
}

/// Whether `n` can name the hidden variable of a counter: the hidden prefix
/// followed by twelve ASCII letters or digits.
pub open spec fn is_hidden_name(n: Seq<char>) -> bool {
    &&& n.len() == 22
    &&& n.subrange(0, 10) == hidden_prefix()
    &&& forall|i: int| 10 <= i < 22 ==> is_ascii_alnum(#[trigger] n[i])
}

/// Whether every name of `names` can name a hidden variable.
pub open spec fn all_hidden_names(names: Seq<Seq<char>>) -> bool {
    forall|i: int| 0 <= i < names.len() ==> is_hidden_name(#[trigger] names[i])
}

/// Characters drawn with `rand::thread_rng().sample_iter(&Alphanumeric)`;
/// the distribution yields ASCII letters and digits only. Which ones is left
/// to chance.
#[verifier::external_body]
fn random_alphanumeric(n: usize) -> (r: Vec<char>)
    ensures
        r@.len() == n,
        forall|i: int| 0 <= i < n ==> is_ascii_alnum(#[trigger] r@[i]),
{
    rand::thread_rng().sample_iter(&Alphanumeric).take(n).map(char::from).collect()
}

/// A fresh name for the hidden variable of a counter: the hidden prefix and
/// twelve random letters or digits.
pub fn fresh_hidden_name() -> (r: Vec<char>)
    ensures
        is_hidden_name(r@),
{
    let mut name: Vec<char> = vec!['_', '_', 'H', 'I', 'D', 'D', 'E', 'N', '_', '_'];
    let tail = random_alphanumeric(12);
    let mut i: usize = 0;
    while i < 12
        invariant
            i <= 12,
            tail@.len() == 12,
            forall|j: int| 0 <= j < 12 ==> is_ascii_alnum(#[trigger] tail@[j]),
            name@.len() == 10 + i,
            name@.subrange(0, 10) == hidden_prefix(),
            forall|j: int| 10 <= j < 10 + i ==> name@[j] == tail@[j - 10],
        decreases 12 - i,
    {
        name.push(tail[i]);
        i = i + 1;
        proof {
            assert(name@.subrange(0, 10) =~= hidden_prefix());
        }
    }
    proof {
        assert forall|j: int| 10 <= j < 22 implies is_ascii_alnum(#[trigger] name@[j]) by {
            assert(name@[j] == tail@[j - 10]);
        }
    }
    name
}

/// What `_atomic_counter` makes of its arguments: its start and step, or why
/// they are refused.
pub open spec fn spec_counter_args(args: Seq<ValueV>) -> Result<(i64, i64), PreprocessError> {
    if args.len() >= 1 && !(args[0] is Number) {
        Err(PreprocessError::InvalidParameterType)
    } else if args.len() != 2 {
        Err(PreprocessError::InvalidParameterCount)
    } else if !(args[1] is Number) {
        Err(PreprocessError::InvalidParameterType)
    } else {
        Ok((args[0]->Number_0, args[1]->Number_0))
    }
}

pub open spec fn values_view(vs: Seq<Value>) -> Seq<ValueV> {
    Seq::new(vs.len(), |i: int| vs[i].view())
}

/// Checks the arguments of `_atomic_counter` (see [`spec_counter_args`]).
pub fn counter_args(args: &Vec<Value>) -> (r: Result<(i64, i64), PreprocessError>)
    ensures
        r == spec_counter_args(values_view(args@)),
{
    let ghost av = values_view(args@);
    let mut beg: i64 = 0;
    if args.len() >= 1 {
        match &args[0] {
            Value::Number(n) => {
                beg = *n;
            },
            _ => {
                return Err(PreprocessError::InvalidParameterType);
            },
        }
    }
    if args.len() != 2 {
        return Err(PreprocessError::InvalidParameterCount);
    }
    match &args[1] {
        Value::Number(n) => Ok((beg, *n)),
        _ => Err(PreprocessError::InvalidParameterType),
    }
}

/// Starts a counter whose state lives in the variable `name`: binds `name`
/// to `beg` and returns the counter.
pub fn start_counter(vars: &mut Bindings, name: Vec<char>, beg: i64, step: i64) -> (r: Value)
    ensures
        r.view() == ValueV::Counter(name@, step),
        bindings_view(final(vars)@) == bindings_view(old(vars)@).push((name@, ValueV::Number(beg))),
{
    let key = copy_chars(&name);
    vars.push((key, Value::Number(beg)));
    proof {
        assert(bindings_view(vars@) =~= bindings_view(old(vars)@).push(
            (name@, ValueV::Number(beg)),
        ));
    }
    Value::Counter(name, step)
}

} // verus!
