use vstd::prelude::*;
use crate::preprocessor::counter::{
    counter_args, fresh_hidden_name, is_hidden_name, spec_counter_args, start_counter, values_view,
};
use crate::preprocessor::error::PreprocessError;
use crate::preprocessor::eval::{
    binop, bindings_view, find_binding, literal_to_value, literal_value, lookup, result_view,
    spec_binop, spec_unop, str_eq, copy_chars, unop, Bindings, Value, ValueV,
};
use crate::preprocessor::syntax::{exprs_view, Expr, ExprV};

verus! {

/// Variables as the model sees them: bindings, the latest of a name wins.
pub type VarsV = Seq<(Seq<char>, ValueV)>;

/// The name of the built-in counter function.
pub open spec fn counter_fn_name() -> Seq<char> {
    seq!['_', 'a', 't', 'o', 'm', 'i', 'c', '_', 'c', 'o', 'u', 'n', 't', 'e', 'r']
}

/// The value a name denotes: its binding, or `None` when it has none.
pub open spec fn ident_value(vars: VarsV, n: Seq<char>) -> ValueV {
    match lookup(vars, n) {
        Some(v) => v,
        None => ValueV::Nothing,
    }
}

/// Evaluation of an expression. `d` is the sequence of names that counters
/// get for their hidden variables, `k` the number of them used so far. The
/// result is the value or error, the variables afterwards and the number of
/// names used afterwards.
pub open spec fn spec_eval(vars: VarsV, e: ExprV, d: Seq<Seq<char>>, k: nat) -> (
    Result<ValueV, PreprocessError>,
    VarsV,
    nat,
)
    decreases e, 0nat,
{
    match e {
        ExprV::Binary(l, op, r) => {
            let (lr, v1, k1) = spec_eval(vars, *l, d, k);
            match lr {
                Err(err) => (Err(err), v1, k1),
                Ok(lv) => {
                    let (rr, v2, k2) = spec_eval(v1, *r, d, k1);
                    match rr {
                        Err(err) => (Err(err), v2, k2),
                        Ok(rv) => (spec_binop(op, lv, rv), v2, k2),
                    }
                },
            }
        },
        ExprV::Unary(op, x) => {
            let (xr, v1, k1) = spec_eval(vars, *x, d, k);
            match xr {
                Err(err) => (Err(err), v1, k1),
                Ok(xv) => (spec_unop(op, xv), v1, k1),
            }
        },
        ExprV::Ident(n) => (Ok(ident_value(vars, n)), vars, k),
        ExprV::Lit(l) => (Ok(literal_value(l)), vars, k),
        ExprV::Call(n, args) => {
            let (ar, v1, k1) = spec_eval_args(vars, args, 0, Seq::empty(), d, k);
            match ar {
                Err(err) => (Err(err), v1, k1),
                Ok(vals) => if n == counter_fn_name() {
                    match spec_counter_args(vals) {
                        Err(err) => (Err(err), v1, k1),
                        Ok((beg, step)) => (
                            Ok(ValueV::Counter(d[k1 as int], step)),
                            v1.push((d[k1 as int], ValueV::Number(beg))),
                            k1 + 1,
                        ),
                    }
                } else {
                    (Ok(ValueV::Nothing), v1, k1)
                },
            }
        },
    }
}

/// Evaluation of the arguments `args[i..]` from left to right, after the
/// values `acc` of those before.
pub open spec fn spec_eval_args(
    vars: VarsV,
    args: Seq<ExprV>,
    i: int,
    acc: Seq<ValueV>,
    d: Seq<Seq<char>>,
    k: nat,
) -> (Result<Seq<ValueV>, PreprocessError>, VarsV, nat)
    decreases args, args.len() - i,
{
    if i < 0 || i >= args.len() {
        (Ok(acc), vars, k)
    } else {
        let (r, v1, k1) = spec_eval(vars, args[i], d, k);
        match r {
            Err(err) => (Err(err), v1, k1),
            Ok(v) => spec_eval_args(v1, args, i + 1, acc.push(v), d, k1),
        }
    }
}

/// The names of a list of drawn names.
pub open spec fn names_view(v: Seq<Vec<char>>) -> Seq<Seq<char>> {
    Seq::new(v.len(), |i: int| v[i]@)
}

/// Whether `d` starts with `s`.
pub open spec fn extends(d: Seq<Seq<char>>, s: Seq<Seq<char>>) -> bool {
    &&& s.len() <= d.len()
    &&& forall|i: int| 0 <= i < s.len() ==> d[i] == s[i]
}

/// Whether `new` is `old` followed by hidden variable names.
pub open spec fn drawn_more(old: Seq<Seq<char>>, new: Seq<Seq<char>>) -> bool {
    &&& extends(new, old)
    &&& forall|i: int| old.len() <= i < new.len() ==> is_hidden_name(#[trigger] new[i])
}

/// Whether evaluating `e` from `vars0` with `k0` names used gives `res`,
/// `vars1` and all of `drawn1`, whatever names are drawn after those.
pub open spec fn eval_agrees(
    vars0: VarsV,
    e: ExprV,
    k0: nat,
    res: Result<ValueV, PreprocessError>,
    vars1: VarsV,
    drawn1: Seq<Seq<char>>,
) -> bool {
    forall|d: Seq<Seq<char>>|
        extends(d, drawn1) ==> #[trigger] spec_eval(vars0, e, d, k0) == (res, vars1, drawn1.len())
}

pub proof fn lemma_extends_trans(a: Seq<Seq<char>>, b: Seq<Seq<char>>, c: Seq<Seq<char>>)
    requires
        extends(a, b),
        extends(b, c),
    ensures
        extends(a, c),
{
}

pub proof fn lemma_drawn_more_trans(a: Seq<Seq<char>>, b: Seq<Seq<char>>, c: Seq<Seq<char>>)
    requires
        drawn_more(a, b),
        drawn_more(b, c),
    ensures
        drawn_more(a, c),
{
    assert forall|i: int| a.len() <= i < c.len() implies is_hidden_name(#[trigger] c[i]) by {
        if i < b.len() {
            assert(c[i] == b[i]);
        }
    }
}

/// The models of a sequence of expressions are those of its elements.
pub proof fn lemma_exprs_view(es: Seq<Expr>)
    ensures
        exprs_view(es).len() == es.len(),
        forall|i: int| 0 <= i < es.len() ==> #[trigger] exprs_view(es)[i] == es[i].view(),
    decreases es.len(),
{
    if es.len() > 0 {
        lemma_exprs_view(es.drop_last());
    }
}

/// The value bound to `n`, or `None` when it has no binding.
pub fn ident_lookup(vars: &Bindings, n: &Vec<char>) -> (r: Value)
    ensures
        r.view() == ident_value(bindings_view(vars@), n@),
{
    match find_binding(vars, n) {
        Some(i) => vars[i].1.copy(),
        None => Value::Nothing,
    }
}

fn copy_name(n: &Vec<char>) -> (r: Vec<char>)
    ensures
        r@ == n@,
{
    copy_chars(n)
}

/// Whether `n` names the built-in counter function.
fn is_counter_fn(n: &Vec<char>) -> (r: bool)
    ensures
        r == (n@ == counter_fn_name()),
{
    let name = ['_', 'a', 't', 'o', 'm', 'i', 'c', '_', 'c', 'o', 'u', 'n', 't', 'e', 'r'];
    proof {
        assert(name@ =~= counter_fn_name());
    }
    str_eq(n, &name)
}

/// Evaluates `e`, updating `vars` as the evaluation does (counters bind their
/// hidden variables) and appending to `drawn` the names drawn for them.
pub fn eval_expr(vars: &mut Bindings, e: &Expr, drawn: &mut Vec<Vec<char>>) -> (r: Result<
    Value,
    PreprocessError,
>)
    ensures
        drawn_more(names_view(old(drawn)@), names_view(final(drawn)@)),
        eval_agrees(
            bindings_view(old(vars)@),
            e.view(),
            old(drawn)@.len() as nat,
            result_view(r),
            bindings_view(final(vars)@),
            names_view(final(drawn)@),
        ),
    decreases e,
{
    let ghost v0 = bindings_view(vars@);
    let ghost n0 = names_view(drawn@);
    let ghost k0 = drawn@.len() as nat;
    match e {
        Expr::Binary(l, op, r) => {
            let lr = eval_expr(vars, l, drawn);
            let ghost v1 = bindings_view(vars@);
            let ghost n1 = names_view(drawn@);
            match lr {
                Err(err) => {
                    proof {
                        assert forall|d: Seq<Seq<char>>| extends(d, n1) implies #[trigger] spec_eval(
                            v0,
                            e.view(),
                            d,
                            k0,
                        ) == (result_view(Err(err)), v1, n1.len()) by {
                            assert(spec_eval(v0, l.view(), d, k0) == (Err::<
                                ValueV,
                                PreprocessError,
                            >(err), v1, n1.len()));
                        }
                    }
                    Err(err)
                },
                Ok(lv) => {
                    let rr = eval_expr(vars, r, drawn);
                    let ghost n2 = names_view(drawn@);
                    proof {
                        lemma_drawn_more_trans(n0, n1, n2);
                    }
                    match rr {
                        Err(err) => {
                            proof {
                                assert forall|d: Seq<Seq<char>>| extends(d, n2) implies #[trigger] spec_eval(
                                    v0,
                                    e.view(),
                                    d,
                                    k0,
                                ) == (result_view(Err(err)), bindings_view(vars@), n2.len()) by {
                                    lemma_extends_trans(d, n2, n1);
                                    assert(spec_eval(v0, l.view(), d, k0) == (Ok::<
                                        ValueV,
                                        PreprocessError,
                                    >(lv.view()), v1, n1.len()));
                                    assert(spec_eval(v1, r.view(), d, n1.len()) == (Err::<
                                        ValueV,
                                        PreprocessError,
                                    >(err), bindings_view(vars@), n2.len()));
                                }
                            }
                            Err(err)
                        },
                        Ok(rv) => {
                            let res = binop(*op, &lv, &rv);
                            proof {
                                assert forall|d: Seq<Seq<char>>| extends(d, n2) implies #[trigger] spec_eval(
                                    v0,
                                    e.view(),
                                    d,
                                    k0,
                                ) == (result_view(res), bindings_view(vars@), n2.len()) by {
                                    lemma_extends_trans(d, n2, n1);
                                    assert(spec_eval(v0, l.view(), d, k0) == (Ok::<
                                        ValueV,
                                        PreprocessError,
                                    >(lv.view()), v1, n1.len()));
                                    assert(spec_eval(v1, r.view(), d, n1.len()) == (Ok::<
                                        ValueV,
                                        PreprocessError,
                                    >(rv.view()), bindings_view(vars@), n2.len()));
                                }
                            }
                            res
                        },
                    }
                },
            }
        },
        Expr::Unary(op, x) => {
            let xr = eval_expr(vars, x, drawn);
            match xr {
                Err(err) => {
                    proof {
                        let n1 = names_view(drawn@);
                        assert forall|d: Seq<Seq<char>>| extends(d, n1) implies #[trigger] spec_eval(
                            v0,
                            e.view(),
                            d,
                            k0,
                        ) == (result_view(Err(err)), bindings_view(vars@), n1.len()) by {
                            assert(spec_eval(v0, x.view(), d, k0) == (Err::<
                                ValueV,
                                PreprocessError,
                            >(err), bindings_view(vars@), n1.len()));
                        }
                    }
                    Err(err)
                },
                Ok(xv) => {
                    let res = unop(*op, &xv);
                    proof {
                        let n1 = names_view(drawn@);
                        assert forall|d: Seq<Seq<char>>| extends(d, n1) implies #[trigger] spec_eval(
                            v0,
                            e.view(),
                            d,
                            k0,
                        ) == (result_view(res), bindings_view(vars@), n1.len()) by {
                            assert(spec_eval(v0, x.view(), d, k0) == (Ok::<
                                ValueV,
                                PreprocessError,
                            >(xv.view()), bindings_view(vars@), n1.len()));
                        }
                    }
                    res
                },
            }
        },
        Expr::Ident(n) => Ok(ident_lookup(vars, n)),
        Expr::Lit(l) => Ok(literal_to_value(l)),
        Expr::Call(n, args) => {
            let ghost av = exprs_view(args@);
            proof {
                lemma_exprs_view(args@);
            }
            let mut vals: Vec<Value> = Vec::new();
            let mut i: usize = 0;
            proof {
                assert(values_view(vals@) =~= Seq::<ValueV>::empty());
            }
            while i < args.len()
                invariant
                    i <= args.len(),
                    *e == Expr::Call(*n, *args),
                    v0 == bindings_view(old(vars)@),
                    n0 == names_view(old(drawn)@),
                    k0 == old(drawn)@.len(),
                    av == exprs_view(args@),
                    av.len() == args@.len(),
                    forall|j: int| 0 <= j < args@.len() ==> #[trigger] av[j] == args@[j].view(),
                    drawn_more(n0, names_view(drawn@)),
                    forall|d: Seq<Seq<char>>|
                        extends(d, names_view(drawn@)) ==> #[trigger] spec_eval_args(
                            v0,
                            av,
                            0,
                            Seq::empty(),
                            d,
                            k0,
                        ) == spec_eval_args(
                            bindings_view(vars@),
                            av,
                            i as int,
                            values_view(vals@),
                            d,
                            drawn@.len() as nat,
                        ),
                decreases args.len() - i,
            {
                let ghost vi = bindings_view(vars@);
                let ghost ni = names_view(drawn@);
                let ghost vals_i = values_view(vals@);
                proof {
                    assert(decreases_to!(*e => (*e)->Call_1));
                    assert((*e)->Call_1 == *args);
                    assert(decreases_to!(*args => args@));
                    assert(decreases_to!(args@ => args@[i as int]));
                }
                let x = eval_expr(vars, &args[i], drawn);
                let ghost nx = names_view(drawn@);
                proof {
                    lemma_drawn_more_trans(n0, ni, nx);
                }
                match x {
                    Err(err) => {
                        proof {
                            assert forall|d: Seq<Seq<char>>| extends(d, nx) implies #[trigger] spec_eval(
                                v0,
                                e.view(),
                                d,
                                k0,
                            ) == (result_view(Err(err)), bindings_view(vars@), nx.len()) by {
                                lemma_extends_trans(d, nx, ni);
                                assert(spec_eval(vi, av[i as int], d, ni.len()) == (Err::<
                                    ValueV,
                                    PreprocessError,
                                >(err), bindings_view(vars@), nx.len()));
                                assert(spec_eval_args(v0, av, 0, Seq::empty(), d, k0)
                                    == spec_eval_args(vi, av, i as int, vals_i, d, ni.len()));
                            }
                        }
                        return Err(err);
                    },
                    Ok(v) => {
                        let ghost xv = v.view();
                        vals.push(v);
                        proof {
                            assert(values_view(vals@) =~= vals_i.push(xv));
                            assert forall|d: Seq<Seq<char>>| extends(d, nx) implies #[trigger] spec_eval_args(
                                v0,
                                av,
                                0,
                                Seq::empty(),
                                d,
                                k0,
                            ) == spec_eval_args(
                                bindings_view(vars@),
                                av,
                                i + 1,
                                values_view(vals@),
                                d,
                                nx.len(),
                            ) by {
                                lemma_extends_trans(d, nx, ni);
                                assert(spec_eval(vi, av[i as int], d, ni.len()) == (Ok::<
                                    ValueV,
                                    PreprocessError,
                                >(xv), bindings_view(vars@), nx.len()));
                                assert(spec_eval_args(v0, av, 0, Seq::empty(), d, k0)
                                    == spec_eval_args(vi, av, i as int, vals_i, d, ni.len()));
                            }
                        }
                    },
                }
                i = i + 1;
            }
            let ghost va = bindings_view(vars@);
            let ghost na = names_view(drawn@);
            let ghost vals_v = values_view(vals@);
            if !is_counter_fn(n) {
                proof {
                    assert forall|d: Seq<Seq<char>>| extends(d, na) implies #[trigger] spec_eval(
                        v0,
                        e.view(),
                        d,
                        k0,
                    ) == (result_view(Ok(Value::Nothing)), va, na.len()) by {
                        assert(spec_eval_args(v0, av, 0, Seq::empty(), d, k0)
                            == spec_eval_args(va, av, i as int, vals_v, d, na.len()));
                    }
                }
                return Ok(Value::Nothing);
            }
            match counter_args(&vals) {
                Err(err) => {
                    proof {
                        assert forall|d: Seq<Seq<char>>| extends(d, na) implies #[trigger] spec_eval(
                            v0,
                            e.view(),
                            d,
                            k0,
                        ) == (result_view(Err(err)), va, na.len()) by {
                            assert(spec_eval_args(v0, av, 0, Seq::empty(), d, k0)
                                == spec_eval_args(va, av, i as int, vals_v, d, na.len()));
                        }
                    }
                    Err(err)
                },
                Ok((beg, step)) => {
                    let name = fresh_hidden_name();
                    let ghost nm = name@;
                    drawn.push(copy_name(&name));
                    let res = start_counter(vars, name, beg, step);
                    proof {
                        let nb = names_view(drawn@);
                        assert(nb =~= na.push(nm));
                        assert forall|d: Seq<Seq<char>>| extends(d, nb) implies #[trigger] spec_eval(
                            v0,
                            e.view(),
                            d,
                            k0,
                        ) == (result_view(Ok(res)), bindings_view(vars@), nb.len()) by {
                            lemma_extends_trans(d, nb, na);
                            assert(spec_eval_args(v0, av, 0, Seq::empty(), d, k0)
                                == spec_eval_args(va, av, i as int, vals_v, d, na.len()));
                            assert(d[na.len() as int] == nm);
                        }
                        assert forall|j: int| n0.len() <= j < nb.len() implies is_hidden_name(
                            #[trigger] nb[j],
                        ) by {
                            if j < na.len() {
                                assert(nb[j] == na[j]);
                            }
                        }
                    }
                    Ok(res)
                },
            }
        },
    }
}

} // verus!
