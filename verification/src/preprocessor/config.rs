use vstd::prelude::*;
use crate::preprocessor::error::PreprocessError;
use crate::preprocessor::eval::{
    bindings_view, chars_eq, copy_chars, find_binding, literal_to_value, literal_value, lookup,
    Bindings, Value, ValueV,
};
use crate::preprocessor::interp::VarsV;
use crate::preprocessor::lexer::{literal, spec_literal, LitOutcome, LitResult};

verus! {

/// Where includes are looked for and which names are defined before the
/// root file is read.
pub struct PreprocessorConfig {
    /// Directories searched, in order, after the root file's own directory.
    pub includes: Vec<String>,
    /// Defined names and their values as written; each name once, in the
    /// order of first definition.
    pub defines: Vec<(String, String)>,
}

pub open spec fn pairs_view(v: Seq<(String, String)>) -> Seq<(Seq<char>, Seq<char>)> {
    Seq::new(v.len(), |i: int| (v[i].0@, v[i].1@))
}

/// Whether no name occurs twice.
pub open spec fn keys_unique(d: Seq<(Seq<char>, Seq<char>)>) -> bool {
    forall|i: int, j: int| 0 <= i < j < d.len() ==> d[i].0 != d[j].0
}

/// The defines after defining `key` as `value`: a new name is added at the
/// end, a known one gets the new value in place.
pub open spec fn define_update(d: Seq<(Seq<char>, Seq<char>)>, key: Seq<char>, value: Seq<char>) -> Seq<
    (Seq<char>, Seq<char>),
> {
    if exists|i: int| 0 <= i < d.len() && d[i].0 == key {
        let i = choose|i: int| 0 <= i < d.len() && d[i].0 == key;
        d.update(i, (key, value))
    } else {
        d.push((key, value))
    }
}

impl PreprocessorConfig {
    pub open spec fn includes_view(&self) -> Seq<Seq<char>> {
        Seq::new(self.includes@.len(), |i: int| self.includes@[i]@)
    }

    pub open spec fn defines_view(&self) -> Seq<(Seq<char>, Seq<char>)> {
        pairs_view(self.defines@)
    }

    /// Each defined name occurs once.
    pub open spec fn wf(&self) -> bool {
        keys_unique(self.defines_view())
    }

    /// A configuration with no include directory and no define.
    pub fn new() -> (r: Self)
        ensures
            r.wf(),
            r.includes_view() == Seq::<Seq<char>>::empty(),
            r.defines_view() == Seq::<(Seq<char>, Seq<char>)>::empty(),
    {
        let r = PreprocessorConfig { includes: Vec::new(), defines: Vec::new() };
        proof {
            assert(r.includes_view() =~= Seq::<Seq<char>>::empty());
            assert(r.defines_view() =~= Seq::<(Seq<char>, Seq<char>)>::empty());
        }
        r
    }

    /// Adds an include directory, searched after those added before.
    pub fn with_include(self, path: String) -> (r: Self)
        ensures
            r.includes_view() == self.includes_view().push(path@),
            r.defines_view() == self.defines_view(),
            self.wf() ==> r.wf(),
    {
        let mut r = self;
        let ghost p = path@;
        r.includes.push(path);
        proof {
            assert(r.includes_view() =~= self.includes_view().push(p));
            assert(r.defines_view() =~= self.defines_view());
        }
        r
    }

    /// Defines `key` as `value`, replacing an earlier value of `key`.
    pub fn with_define(self, key: String, value: String) -> (r: Self)
        requires
            self.wf(),
        ensures
            r.wf(),
            r.defines_view() == define_update(self.defines_view(), key@, value@),
            r.includes_view() == self.includes_view(),
    {
        let mut r = self;
        let ghost d0 = r.defines_view();
        let mut i: usize = 0;
        while i < r.defines.len()
            invariant
                i <= r.defines@.len(),
                r.defines_view() == d0,
                d0 == self.defines_view(),
                r.includes_view() == self.includes_view(),
                keys_unique(d0),
                forall|j: int| 0 <= j < i ==> d0[j].0 != key@,
            decreases r.defines@.len() - i,
        {
            if r.defines[i].0 == key {
                let ghost kv = key@;
                let ghost vv = value@;
                proof {
                    assert(d0[i as int].0 == kv);
                    assert(exists|c: int| 0 <= c < d0.len() && d0[c].0 == kv);
                    let c = choose|c: int| 0 <= c < d0.len() && d0[c].0 == kv;
                    assert(c == i);
                    assert(define_update(d0, kv, vv) == d0.update(i as int, (kv, vv)));
                }
                r.defines.set(i, (key, value));
                proof {
                    assert(r.defines_view() =~= d0.update(i as int, (kv, vv)));
                }
                return r;
            }
            i = i + 1;
        }
        let ghost kv = key@;
        let ghost vv = value@;
        r.defines.push((key, value));
        proof {
            assert(r.defines_view() =~= d0.push((kv, vv)));
        }
        r
    }
}

// ---------------------------------------------------------------------------
// Initial variables
// ---------------------------------------------------------------------------

/// The variables every expansion starts with: `True`, `False` and `None`.
pub open spec fn base_vars() -> VarsV {
    seq![
        (seq!['T', 'r', 'u', 'e'], ValueV::Bool(true)),
        (seq!['F', 'a', 'l', 's', 'e'], ValueV::Bool(false)),
        (seq!['N', 'o', 'n', 'e'], ValueV::Nothing),
    ]
}

/// The variables after defining `key` as `value`: the value of a known name
/// is copied, an empty value is `None`, anything else must be a literal as a
/// whole.
pub open spec fn spec_define(vars: VarsV, key: Seq<char>, value: Seq<char>) -> Result<
    VarsV,
    PreprocessError,
> {
    match lookup(vars, value) {
        Some(v) => Ok(vars.push((key, v))),
        None => if value.len() == 0 {
            Ok(vars.push((key, ValueV::Nothing)))
        } else {
            match spec_literal(value, 0) {
                LitOutcome::Lit(l, e) => if e == value.len() {
                    Ok(vars.push((key, literal_value(l))))
                } else {
                    Err(PreprocessError::InvalidDefine)
                },
                LitOutcome::NoLit => Err(PreprocessError::InvalidDefine),
                LitOutcome::Abort => Err(PreprocessError::Aborted),
            }
        },
    }
}

/// The variables an expansion starts with, the defines taken in order.
pub open spec fn spec_initial_vars(defs: Seq<(Seq<char>, Seq<char>)>) -> Result<
    VarsV,
    PreprocessError,
>
    decreases defs.len(),
{
    if defs.len() == 0 {
        Ok(base_vars())
    } else {
        match spec_initial_vars(defs.drop_last()) {
            Err(e) => Err(e),
            Ok(v) => spec_define(v, defs.last().0, defs.last().1),
        }
    }
}

pub open spec fn vars_result(r: Result<Bindings, PreprocessError>) -> Result<VarsV, PreprocessError> {
    match r {
        Ok(b) => Ok(bindings_view(b@)),
        Err(e) => Err(e),
    }
}

/// Applies one define to `vars` (see [`spec_define`]).
pub fn define(vars: &mut Bindings, key: &Vec<char>, value: &Vec<char>) -> (r: Result<
    (),
    PreprocessError,
>)
    ensures
        match spec_define(bindings_view(old(vars)@), key@, value@) {
            Ok(v) => r is Ok && bindings_view(final(vars)@) == v,
            Err(e) => r == Err::<(), PreprocessError>(e),
        },
{
    let ghost v0 = bindings_view(vars@);
    let val = match find_binding(vars, value) {
        Some(i) => vars[i].1.copy(),
        None => {
            if value.len() == 0 {
                Value::Nothing
            } else {
                match literal(value, 0) {
                    LitResult::Lit(l, e) => {
                        if e == value.len() {
                            literal_to_value(&l)
                        } else {
                            return Err(PreprocessError::InvalidDefine);
                        }
                    },
                    LitResult::NoLit => {
                        return Err(PreprocessError::InvalidDefine);
                    },
                    LitResult::Abort => {
                        return Err(PreprocessError::Aborted);
                    },
                }
            }
        },
    };
    let ghost vv = val.view();
    vars.push((copy_chars(key), val));
    proof {
        assert(bindings_view(vars@) =~= v0.push((key@, vv)));
    }
    Ok(())
}

/// The variables an expansion starts with (see [`spec_initial_vars`]).
pub fn initial_vars(defines: &Vec<(String, String)>) -> (r: Result<Bindings, PreprocessError>)
    ensures
        vars_result(r) == spec_initial_vars(pairs_view(defines@)),
{
    let mut vars: Bindings = Vec::new();
    vars.push((vec!['T', 'r', 'u', 'e'], Value::Bool(true)));
    vars.push((vec!['F', 'a', 'l', 's', 'e'], Value::Bool(false)));
    vars.push((vec!['N', 'o', 'n', 'e'], Value::Nothing));
    let ghost dv = pairs_view(defines@);
    proof {
        assert(bindings_view(vars@) =~= base_vars());
        assert(dv.subrange(0, 0) =~= Seq::<(Seq<char>, Seq<char>)>::empty());
    }
    let mut i: usize = 0;
    while i < defines.len()
        invariant
            i <= defines@.len(),
            dv == pairs_view(defines@),
            spec_initial_vars(dv.subrange(0, i as int)) == Ok::<VarsV, PreprocessError>(
                bindings_view(vars@),
            ),
        decreases defines@.len() - i,
    {
        proof {
            assert(dv.subrange(0, i + 1).drop_last() =~= dv.subrange(0, i as int));
        }
        let key = crate::text::str_chars(defines[i].0.as_str());
        let value = crate::text::str_chars(defines[i].1.as_str());
        match define(&mut vars, &key, &value) {
            Err(e) => {
                proof {
                    assert(dv.subrange(0, i + 1).drop_last() =~= dv.subrange(0, i as int));
                    lemma_initial_vars_fail(dv, i as int + 1, e);
                }
                return Err(e);
            },
            Ok(()) => {},
        }
        i = i + 1;
    }
    proof {
        assert(dv.subrange(0, i as int) =~= dv);
    }
    Ok(vars)
}

/// A failing define fails the whole.
proof fn lemma_initial_vars_fail(dv: Seq<(Seq<char>, Seq<char>)>, i: int, e: PreprocessError)
    requires
        0 <= i <= dv.len(),
        spec_initial_vars(dv.subrange(0, i)) == Err::<VarsV, PreprocessError>(e),
    ensures
        spec_initial_vars(dv) == Err::<VarsV, PreprocessError>(e),
    decreases dv.len() - i,
{
    if i == dv.len() {
        assert(dv.subrange(0, i) =~= dv);
    } else {
        assert(dv.subrange(0, i + 1).drop_last() =~= dv.subrange(0, i));
        lemma_initial_vars_fail(dv, i + 1, e);
    }
}


/// The preprocessor: a configuration applied to each file it processes.
pub struct Preprocessor {
    pub config: PreprocessorConfig,
}

impl Preprocessor {
    pub fn new(config: PreprocessorConfig) -> (r: Self)
        ensures
            r.config == config,
    {
        Preprocessor { config }
    }

    /// The variables each expansion starts with (see [`spec_initial_vars`]).
    pub fn initial_vars(&self) -> (r: Result<Bindings, PreprocessError>)
        ensures
            vars_result(r) == spec_initial_vars(self.config.defines_view()),
    {
        initial_vars(&self.config.defines)
    }
}


/// After defining `key` as `value`, `key` has that value once, and every
/// other name keeps its value.
pub proof fn lemma_define_update(d: Seq<(Seq<char>, Seq<char>)>, key: Seq<char>, value: Seq<char>)
    requires
        keys_unique(d),
    ensures
        keys_unique(define_update(d, key, value)),
        exists|i: int| 0 <= i < define_update(d, key, value).len() && #[trigger] define_update(d, key, value)[i] == (key, value),
        forall|i: int| 0 <= i < d.len() && d[i].0 != key ==> define_update(d, key, value).contains(#[trigger] d[i]),
{
    let u = define_update(d, key, value);
    if exists|i: int| 0 <= i < d.len() && d[i].0 == key {
        let i = choose|i: int| 0 <= i < d.len() && d[i].0 == key;
        assert(u[i] == (key, value));
        assert forall|j: int| 0 <= j < d.len() && d[j].0 != key implies u.contains(#[trigger] d[j]) by {
            assert(u[j] == d[j]);
        }
    } else {
        assert(u[d.len() as int] == (key, value));
        assert forall|j: int| 0 <= j < d.len() && d[j].0 != key implies u.contains(#[trigger] d[j]) by {
            assert(u[j] == d[j]);
        }
    }
}

} // verus!
