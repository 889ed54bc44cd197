use vstd::prelude::*;
use crate::preprocessor::counter::all_hidden_names;
use crate::preprocessor::error::PreprocessError;
use crate::preprocessor::eval::{
    bindings_view, display, find_binding, int_text, lookup, push_int, write_value, Bindings,
    Value, ValueV,
};
use crate::preprocessor::interp::{
    drawn_more, eval_expr, extends, lemma_extends_trans, names_view, spec_eval, VarsV,
};
use crate::preprocessor::syntax::{commands_view, Command, CommandV, Expr, ExprV};
use crate::preprocessor::command::{spec_parse_file, FileOutcome};

verus! {

// ---------------------------------------------------------------------------
// References
// ---------------------------------------------------------------------------

/// What a reference `#{n}` prints, and the variables afterwards. An unbound
/// name prints nothing; a counter prints its current value and advances.
pub open spec fn spec_reference_text(vars: VarsV, n: Seq<char>) -> Result<
    (VarsV, Seq<char>),
    PreprocessError,
> {
    match lookup(vars, n) {
        None => Ok((vars, Seq::empty())),
        Some(v) => match v {
            ValueV::Counter(key, step) => match lookup(vars, key) {
                None => Err(PreprocessError::Aborted),
                Some(state) => match state {
                    ValueV::Number(c) => if i64::MIN <= c + step <= i64::MAX {
                        Ok((vars.push((key, ValueV::Number((c + step) as i64))), int_text(c as int)))
                    } else {
                        Err(PreprocessError::Aborted)
                    },
                    _ => Err(PreprocessError::CounterInvalidType),
                },
            },
            _ => match display(v) {
                Ok(t) => Ok((vars, t)),
                Err(e) => Err(e),
            },
        },
    }
}

/// Prints the reference `#{n}` to `out` (see [`spec_reference_text`]).
pub fn expand_reference(vars: &mut Bindings, n: &Vec<char>, out: &mut Vec<char>) -> (r: Result<
    (),
    PreprocessError,
>)
    ensures
        match spec_reference_text(bindings_view(old(vars)@), n@) {
            Ok((v, t)) => r is Ok && bindings_view(final(vars)@) == v && final(out)@ == old(out)@ + t,
            Err(e) => r == Err::<(), PreprocessError>(e),
        },
{
    match find_binding(vars, n) {
        None => {
            proof {
                assert(out@ =~= old(out)@ + Seq::<char>::empty());
            }
            Ok(())
        },
        Some(i) => {
            let (key, step) = match &vars[i].1 {
                Value::Counter(key, step) => (crate::preprocessor::eval::copy_chars(key), *step),
                _ => {
                    return write_value(out, &vars[i].1);
                },
            };
            match find_binding(vars, &key) {
                None => Err(PreprocessError::Aborted),
                Some(j) => {
                    let c = match &vars[j].1 {
                        Value::Number(c) => *c,
                        _ => {
                            return Err(PreprocessError::CounterInvalidType);
                        },
                    };
                    match c.checked_add(step) {
                        None => Err(PreprocessError::Aborted),
                        Some(next) => {
                            let ghost v0 = bindings_view(vars@);
                            vars.push((key, Value::Number(next)));
                            proof {
                                assert(bindings_view(vars@) =~= v0.push(
                                    (key@, ValueV::Number(next)),
                                ));
                            }
                            push_int(out, c);
                            Ok(())
                        },
                    }
                },
            }
        },
    }
}

// ---------------------------------------------------------------------------
// Visited files
// ---------------------------------------------------------------------------

/// The number of files not visited yet.
pub open spec fn count_false(v: Seq<bool>) -> nat
    decreases v.len(),
{
    if v.len() == 0 {
        0
    } else {
        count_false(v.drop_last()) + if v.last() {
            0nat
        } else {
            1nat
        }
    }
}

/// Whether `b` marks at least the files that `a` marks.
pub open spec fn visited_grows(a: Seq<bool>, b: Seq<bool>) -> bool {
    &&& a.len() == b.len()
    &&& forall|i: int| 0 <= i < a.len() && a[i] ==> b[i]
}

pub proof fn lemma_count_false_mark(v: Seq<bool>, j: int)
    requires
        0 <= j < v.len(),
        !v[j],
    ensures
        count_false(v.update(j, true)) + 1 == count_false(v),
    decreases v.len(),
{
    let u = v.update(j, true);
    if j == v.len() - 1 {
        assert(u.drop_last() =~= v.drop_last());
    } else {
        assert(u.drop_last() =~= v.drop_last().update(j, true));
        lemma_count_false_mark(v.drop_last(), j);
    }
}

pub proof fn lemma_count_false_grows(a: Seq<bool>, b: Seq<bool>)
    requires
        visited_grows(a, b),
    ensures
        count_false(b) <= count_false(a),
    decreases a.len(),
{
    if a.len() > 0 {
        assert(visited_grows(a.drop_last(), b.drop_last()));
        lemma_count_false_grows(a.drop_last(), b.drop_last());
    }
}

// ---------------------------------------------------------------------------
// Files and the expansion
// ---------------------------------------------------------------------------

/// A loaded shader file: its canonical path, its commands and, for each
/// `include` command in order, the index of the file it names.
pub struct IncludeNode {
    pub path: Vec<char>,
    pub commands: Vec<Command>,
    pub includes: Vec<usize>,
}

/// Mathematical model of a loaded file.
pub struct NodeV {
    pub commands: Seq<CommandV>,
    pub includes: Seq<usize>,
}

impl IncludeNode {
    pub open spec fn view(&self) -> NodeV {
        NodeV { commands: commands_view(self.commands@), includes: self.includes@ }
    }
}

pub open spec fn graph_view(g: Seq<IncludeNode>) -> Seq<NodeV> {
    Seq::new(g.len(), |i: int| g[i].view())
}

/// The state of an expansion: variables, output so far, files already
/// expanded and the number of counter names used.
pub struct ExpandState {
    pub vars: VarsV,
    pub out: Seq<char>,
    pub visited: Seq<bool>,
    pub k: nat,
}

/// Whether text and definitions are in force under the open conditionals.
pub open spec fn active(stack: Seq<(bool, bool)>) -> bool {
    stack.len() == 0 || stack.last().0
}

/// The truth of a condition's value.
pub open spec fn cond_value(v: ValueV) -> Result<bool, PreprocessError> {
    match v {
        ValueV::Bool(b) => Ok(b),
        ValueV::Nothing => Ok(false),
        _ => Err(PreprocessError::ConditionType),
    }
}

/// The conditional stack after `elseif` or `else` with condition `b`: a
/// branch is entered only if no branch of that conditional was.
pub open spec fn switch_branch(stack: Seq<(bool, bool)>, b: bool) -> Seq<(bool, bool)> {
    if stack.last().1 {
        stack
    } else {
        stack.update(stack.len() - 1, (b, b))
    }
}

pub open spec fn with_vars(st: ExpandState, vars: VarsV, k: nat) -> ExpandState {
    ExpandState { vars: vars, out: st.out, visited: st.visited, k: k }
}

pub open spec fn with_out(st: ExpandState, out: Seq<char>) -> ExpandState {
    ExpandState { vars: st.vars, out: out, visited: st.visited, k: st.k }
}

pub open spec fn with_visited(st: ExpandState, visited: Seq<bool>) -> ExpandState {
    ExpandState { vars: st.vars, out: st.out, visited: visited, k: st.k }
}

/// Expansion of the commands of file `node` from the `i`-th on, with `inc`
/// includes of the file met so far and the conditional stack `stack`
/// (for each open conditional: whether its current branch is entered, and
/// whether one of its branches was). Each file is expanded at its first
/// include only, followed by a newline; includes are followed whatever the
/// conditionals say.
pub open spec fn spec_expand_from(
    g: Seq<NodeV>,
    node: int,
    i: int,
    inc: int,
    stack: Seq<(bool, bool)>,
    st: ExpandState,
    d: Seq<Seq<char>>,
) -> Result<ExpandState, PreprocessError>
    decreases count_false(st.visited), g[node].commands.len() - i,
{
    if node < 0 || node >= g.len() || i < 0 || i >= g[node].commands.len() {
        Ok(st)
    } else {
        match g[node].commands[i] {
            CommandV::Include(_) => {
                if inc < 0 || inc >= g[node].includes.len() || g[node].includes[inc] >= g.len() {
                    Err(PreprocessError::Aborted)
                } else {
                    let child = g[node].includes[inc] as int;
                    if st.visited[child] {
                        spec_expand_from(g, node, i + 1, inc + 1, stack, st, d)
                    } else {
                        let st1 = with_visited(st, st.visited.update(child, true));
                        if count_false(st1.visited) < count_false(st.visited) {
                            match spec_expand_from(g, child, 0, 0, Seq::empty(), st1, d) {
                                Err(e) => Err(e),
                                Ok(st2) => {
                                    let st3 = with_out(st2, st2.out.push('\n'));
                                    if count_false(st3.visited) <= count_false(st.visited) {
                                        spec_expand_from(g, node, i + 1, inc + 1, stack, st3, d)
                                    } else {
                                        Ok(st3)
                                    }
                                },
                            }
                        } else {
                            Ok(st1)
                        }
                    }
                }
            },
            CommandV::If(e) => {
                let (r, v1, k1) = spec_eval(st.vars, e, d, st.k);
                match r {
                    Err(err) => Err(err),
                    Ok(v) => match cond_value(v) {
                        Err(err) => Err(err),
                        Ok(b) => spec_expand_from(
                            g,
                            node,
                            i + 1,
                            inc,
                            stack.push((b, b)),
                            with_vars(st, v1, k1),
                            d,
                        ),
                    },
                }
            },
            CommandV::ElseIf(e) => {
                let (r, v1, k1) = spec_eval(st.vars, e, d, st.k);
                match r {
                    Err(err) => Err(err),
                    Ok(v) => match cond_value(v) {
                        Err(err) => Err(err),
                        Ok(b) => if stack.len() == 0 {
                            Err(PreprocessError::UnexpectedElseIf)
                        } else {
                            spec_expand_from(
                                g,
                                node,
                                i + 1,
                                inc,
                                switch_branch(stack, b),
                                with_vars(st, v1, k1),
                                d,
                            )
                        },
                    },
                }
            },
            CommandV::Else => {
                if stack.len() == 0 {
                    Err(PreprocessError::UnexpectedElse)
                } else {
                    spec_expand_from(g, node, i + 1, inc, switch_branch(stack, true), st, d)
                }
            },
            CommandV::EndIf => {
                if stack.len() == 0 {
                    Err(PreprocessError::UnexpectedEndIf)
                } else {
                    spec_expand_from(g, node, i + 1, inc, stack.drop_last(), st, d)
                }
            },
            CommandV::Raw(t) => {
                if active(stack) {
                    spec_expand_from(g, node, i + 1, inc, stack, with_out(st, st.out + t), d)
                } else {
                    spec_expand_from(g, node, i + 1, inc, stack, st, d)
                }
            },
            CommandV::Decl(n, o) => {
                if !active(stack) {
                    spec_expand_from(g, node, i + 1, inc, stack, st, d)
                } else {
                    match o {
                        None => spec_expand_from(
                            g,
                            node,
                            i + 1,
                            inc,
                            stack,
                            with_vars(st, st.vars.push((n, ValueV::Bool(true))), st.k),
                            d,
                        ),
                        Some(e) => {
                            let (r, v1, k1) = spec_eval(st.vars, e, d, st.k);
                            match r {
                                Err(err) => Err(err),
                                Ok(v) => spec_expand_from(
                                    g,
                                    node,
                                    i + 1,
                                    inc,
                                    stack,
                                    with_vars(st, v1.push((n, v)), k1),
                                    d,
                                ),
                            }
                        },
                    }
                }
            },
            CommandV::Assign(n, o) => {
                if !active(stack) {
                    spec_expand_from(g, node, i + 1, inc, stack, st, d)
                } else {
                    match o {
                        None => spec_expand_from(
                            g,
                            node,
                            i + 1,
                            inc,
                            stack,
                            with_vars(st, st.vars.push((n, ValueV::Bool(true))), st.k),
                            d,
                        ),
                        Some(e) => {
                            let (r, v1, k1) = spec_eval(st.vars, e, d, st.k);
                            match r {
                                Err(err) => Err(err),
                                Ok(v) => spec_expand_from(
                                    g,
                                    node,
                                    i + 1,
                                    inc,
                                    stack,
                                    with_vars(st, v1.push((n, v)), k1),
                                    d,
                                ),
                            }
                        },
                    }
                }
            },
            CommandV::Reference(n) => {
                if !active(stack) {
                    spec_expand_from(g, node, i + 1, inc, stack, st, d)
                } else {
                    match spec_reference_text(st.vars, n) {
                        Err(err) => Err(err),
                        Ok((v, t)) => spec_expand_from(
                            g,
                            node,
                            i + 1,
                            inc,
                            stack,
                            ExpandState { vars: v, out: st.out + t, visited: st.visited, k: st.k },
                            d,
                        ),
                    }
                }
            },
        }
    }
}

/// The exec state as the model sees it.
pub open spec fn state_of(
    vars: Seq<(Vec<char>, Value)>,
    out: Seq<char>,
    visited: Seq<bool>,
    drawn: Seq<Vec<char>>,
) -> ExpandState {
    ExpandState { vars: bindings_view(vars), out: out, visited: visited, k: drawn.len() }
}


/// Whether expanding file `node` from `st0` gives `res`, whatever names are
/// drawn after `drawn1`.
pub open spec fn expand_agrees(
    g: Seq<NodeV>,
    node: int,
    st0: ExpandState,
    res: Result<ExpandState, PreprocessError>,
    drawn1: Seq<Seq<char>>,
) -> bool {
    forall|d: Seq<Seq<char>>|
        extends(d, drawn1) ==> #[trigger] spec_expand_from(g, node, 0, 0, Seq::empty(), st0, d)
            == res
}

/// Whether the rest of file `node`, from command `i` in state `st`, expands as
/// all of it does from `st0`, whatever names are drawn after `drawn1`.
pub open spec fn rest_agrees(
    g: Seq<NodeV>,
    node: int,
    st0: ExpandState,
    i: int,
    inc: int,
    stack: Seq<(bool, bool)>,
    st: ExpandState,
    drawn1: Seq<Seq<char>>,
) -> bool {
    forall|d: Seq<Seq<char>>|
        extends(d, drawn1) ==> #[trigger] spec_expand_from(g, node, 0, 0, Seq::empty(), st0, d)
            == spec_expand_from(g, node, i, inc, stack, st, d)
}

/// Whether one step of file `node` leads from (`i`, `inc`, `stack`, `st`) to
/// (`j`, `inc2`, `stack2`, `st2`), whatever names are drawn after `drawn1`.
pub open spec fn step_agrees(
    g: Seq<NodeV>,
    node: int,
    i: int,
    inc: int,
    stack: Seq<(bool, bool)>,
    st: ExpandState,
    inc2: int,
    stack2: Seq<(bool, bool)>,
    st2: ExpandState,
    drawn1: Seq<Seq<char>>,
) -> bool {
    forall|d: Seq<Seq<char>>|
        extends(d, drawn1) ==> #[trigger] spec_expand_from(g, node, i, inc, stack, st, d)
            == spec_expand_from(g, node, i + 1, inc2, stack2, st2, d)
}

/// Whether the step from command `i` ends the expansion of the file with
/// error `e`, whatever names are drawn after `drawn1`.
pub open spec fn step_fails(
    g: Seq<NodeV>,
    node: int,
    i: int,
    inc: int,
    stack: Seq<(bool, bool)>,
    st: ExpandState,
    e: PreprocessError,
    drawn1: Seq<Seq<char>>,
) -> bool {
    forall|d: Seq<Seq<char>>|
        extends(d, drawn1) ==> #[trigger] spec_expand_from(g, node, i, inc, stack, st, d) == Err::<
            ExpandState,
            PreprocessError,
        >(e)
}

proof fn lemma_rest_step(
    g: Seq<NodeV>,
    node: int,
    st0: ExpandState,
    i: int,
    inc: int,
    stack: Seq<(bool, bool)>,
    st: ExpandState,
    n1: Seq<Seq<char>>,
    inc2: int,
    stack2: Seq<(bool, bool)>,
    st2: ExpandState,
    n2: Seq<Seq<char>>,
)
    requires
        rest_agrees(g, node, st0, i, inc, stack, st, n1),
        extends(n2, n1),
        step_agrees(g, node, i, inc, stack, st, inc2, stack2, st2, n2),
    ensures
        rest_agrees(g, node, st0, i + 1, inc2, stack2, st2, n2),
{
    assert forall|d: Seq<Seq<char>>| extends(d, n2) implies #[trigger] spec_expand_from(
        g,
        node,
        0,
        0,
        Seq::empty(),
        st0,
        d,
    ) == spec_expand_from(g, node, i + 1, inc2, stack2, st2, d) by {
        lemma_extends_trans(d, n2, n1);
        assert(spec_expand_from(g, node, i, inc, stack, st, d) == spec_expand_from(
            g,
            node,
            i + 1,
            inc2,
            stack2,
            st2,
            d,
        ));
    }
}

proof fn lemma_rest_fails(
    g: Seq<NodeV>,
    node: int,
    st0: ExpandState,
    i: int,
    inc: int,
    stack: Seq<(bool, bool)>,
    st: ExpandState,
    n1: Seq<Seq<char>>,
    e: PreprocessError,
    n2: Seq<Seq<char>>,
)
    requires
        rest_agrees(g, node, st0, i, inc, stack, st, n1),
        extends(n2, n1),
        step_fails(g, node, i, inc, stack, st, e, n2),
    ensures
        expand_agrees(g, node, st0, Err(e), n2),
{
    assert forall|d: Seq<Seq<char>>| extends(d, n2) implies #[trigger] spec_expand_from(
        g,
        node,
        0,
        0,
        Seq::empty(),
        st0,
        d,
    ) == Err::<ExpandState, PreprocessError>(e) by {
        lemma_extends_trans(d, n2, n1);
        assert(spec_expand_from(g, node, i, inc, stack, st, d) == Err::<
            ExpandState,
            PreprocessError,
        >(e));
    }
}

/// The truth of a condition's value (see [`cond_value`]).
pub fn condition(v: &Value) -> (r: Result<bool, PreprocessError>)
    ensures
        r == cond_value(v.view()),
{
    match v {
        Value::Bool(b) => Ok(*b),
        Value::Nothing => Ok(false),
        _ => Err(PreprocessError::ConditionType),
    }
}

fn is_active(stack: &Vec<(bool, bool)>) -> (r: bool)
    ensures
        r == active(stack@),
{
    stack.len() == 0 || stack[stack.len() - 1].0
}

fn switch_top(stack: &mut Vec<(bool, bool)>, b: bool)
    requires
        old(stack)@.len() > 0,
    ensures
        final(stack)@ == switch_branch(old(stack)@, b),
{
    let last = stack.len() - 1;
    if !stack[last].1 {
        stack.set(last, (b, b));
    }
}


/// Binds `n` to `v` (a declaration or assignment).
fn bind(vars: &mut Bindings, n: &Vec<char>, v: Value)
    ensures
        bindings_view(final(vars)@) == bindings_view(old(vars)@).push((n@, v.view())),
{
    let ghost v0 = bindings_view(vars@);
    let ghost vv = v.view();
    vars.push((crate::preprocessor::eval::copy_chars(n), v));
    proof {
        assert(bindings_view(vars@) =~= v0.push((n@, vv)));
    }
}

/// Expands file `node` into `out`, following its includes (see
/// [`spec_expand_from`]).
fn expand_node(
    g: &Vec<IncludeNode>,
    node: usize,
    vars: &mut Bindings,
    out: &mut Vec<char>,
    visited: &mut Vec<bool>,
    drawn: &mut Vec<Vec<char>>,
) -> (r: Result<(), PreprocessError>)
    requires
        node < g.len(),
        old(visited)@.len() == g.len(),
    ensures
        drawn_more(names_view(old(drawn)@), names_view(final(drawn)@)),
        final(visited)@.len() == g.len(),
        r is Ok ==> visited_grows(old(visited)@, final(visited)@),
        expand_agrees(
            graph_view(g@),
            node as int,
            state_of(old(vars)@, old(out)@, old(visited)@, old(drawn)@),
            match r {
                Ok(_) => Ok(state_of(final(vars)@, final(out)@, final(visited)@, final(drawn)@)),
                Err(e) => Err(e),
            },
            names_view(final(drawn)@),
        ),
    decreases count_false(old(visited)@),
{
    let ghost gv = graph_view(g@);
    let ghost st0 = state_of(vars@, out@, visited@, drawn@);
    let ghost n0 = names_view(drawn@);
    let ghost vis0 = visited@;
    let mut i: usize = 0;
    let mut inc: usize = 0;
    let mut stack: Vec<(bool, bool)> = Vec::new();
    proof {
        assert(rest_agrees(gv, node as int, st0, 0, 0, stack@, st0, n0)) by {
            assert(stack@ =~= Seq::<(bool, bool)>::empty());
        }
    }
    while i < g[node].commands.len()
        invariant
            node < g.len(),
            gv == graph_view(g@),
            i <= g@[node as int].commands@.len(),
            inc <= i,
            visited@.len() == g.len(),
            visited_grows(vis0, visited@),
            vis0 == old(visited)@,
            n0 == names_view(old(drawn)@),
            st0 == state_of(old(vars)@, old(out)@, old(visited)@, old(drawn)@),
            drawn_more(n0, names_view(drawn@)),
            rest_agrees(
                gv,
                node as int,
                st0,
                i as int,
                inc as int,
                stack@,
                state_of(vars@, out@, visited@, drawn@),
                names_view(drawn@),
            ),
        decreases g@[node as int].commands@.len() - i,
    {
        let ghost sti = state_of(vars@, out@, visited@, drawn@);
        let ghost ni = names_view(drawn@);
        let ghost stack_i = stack@;
        let ghost inc_i = inc as int;
        let ghost visi = visited@;
        proof {
            assert(gv[node as int].commands[i as int] == g@[node as int].commands@[i as int].view());
        }
        match &g[node].commands[i] {
            Command::Include(_) => {
                if inc >= g[node].includes.len() {
                    proof {
                        assert(step_fails(gv, node as int, i as int, inc_i, stack_i, sti, PreprocessError::Aborted, ni));
                        lemma_rest_fails(gv, node as int, st0, i as int, inc_i, stack_i, sti, ni, PreprocessError::Aborted, ni);
                    }
                    return Err(PreprocessError::Aborted);
                }
                let child = g[node].includes[inc];
                if child >= g.len() {
                    proof {
                        assert(step_fails(gv, node as int, i as int, inc_i, stack_i, sti, PreprocessError::Aborted, ni));
                        lemma_rest_fails(gv, node as int, st0, i as int, inc_i, stack_i, sti, ni, PreprocessError::Aborted, ni);
                    }
                    return Err(PreprocessError::Aborted);
                }
                if visited[child] {
                    proof {
                        assert(step_agrees(gv, node as int, i as int, inc_i, stack_i, sti, inc_i + 1, stack@, sti, ni));
                        lemma_rest_step(gv, node as int, st0, i as int, inc_i, stack_i, sti, ni, inc_i + 1, stack@, sti, ni);
                    }
                } else {
                    proof {
                        lemma_count_false_mark(visited@, child as int);
                        lemma_count_false_grows(vis0, visited@);
                    }
                    visited.set(child, true);
                    let ghost vis_mark = visited@;
                    let ghost st1 = state_of(vars@, out@, visited@, drawn@);
                    let res = expand_node(g, child, vars, out, visited, drawn);
                    let ghost nc = names_view(drawn@);
                    proof {
                        lemma_extends_trans(nc, ni, n0);
                        assert(drawn_more(n0, nc)) by {
                            assert forall|j: int| n0.len() <= j < nc.len() implies crate::preprocessor::counter::is_hidden_name(#[trigger] nc[j]) by {
                                if j < ni.len() {
                                    assert(nc[j] == ni[j]);
                                }
                            }
                        }
                    }
                    match res {
                        Err(e) => {
                            proof {
                                assert(step_fails(gv, node as int, i as int, inc_i, stack_i, sti, e, nc)) by {
                                    assert forall|d: Seq<Seq<char>>| extends(d, nc) implies #[trigger] spec_expand_from(gv, node as int, i as int, inc_i, stack_i, sti, d) == Err::<ExpandState, PreprocessError>(e) by {
                                        assert(spec_expand_from(gv, child as int, 0, 0, Seq::empty(), st1, d) == Err::<ExpandState, PreprocessError>(e));
                                    }
                                }
                                lemma_rest_fails(gv, node as int, st0, i as int, inc_i, stack_i, sti, ni, e, nc);
                            }
                            return Err(e);
                        },
                        Ok(()) => {},
                    }
                    let ghost st2 = state_of(vars@, out@, visited@, drawn@);
                    out.push('\n');
                    proof {
                        lemma_count_false_grows(vis_mark, visited@);
                        let st3 = state_of(vars@, out@, visited@, drawn@);
                        assert(st3 == with_out(st2, st2.out.push('\n')));
                        assert(step_agrees(gv, node as int, i as int, inc_i, stack_i, sti, inc_i + 1, stack@, st3, nc)) by {
                            assert forall|d: Seq<Seq<char>>| extends(d, nc) implies #[trigger] spec_expand_from(gv, node as int, i as int, inc_i, stack_i, sti, d) == spec_expand_from(gv, node as int, i + 1, inc_i + 1, stack_i, st3, d) by {
                                assert(spec_expand_from(gv, child as int, 0, 0, Seq::empty(), st1, d) == Ok::<ExpandState, PreprocessError>(st2));
                            }
                        }
                        lemma_rest_step(gv, node as int, st0, i as int, inc_i, stack_i, sti, ni, inc_i + 1, stack@, st3, nc);
                    }
                }
                inc = inc + 1;
            },
            Command::If(e) => {
                let r = eval_expr(vars, e, drawn);
                let ghost n1 = names_view(drawn@);
                proof {
                    crate::preprocessor::interp::lemma_drawn_more_trans(n0, ni, n1);
                }
                match r {
                    Err(err) => {
                        proof {
                            assert(step_fails(gv, node as int, i as int, inc_i, stack_i, sti, err, n1)) by {
                                assert forall|d: Seq<Seq<char>>| extends(d, n1) implies #[trigger] spec_expand_from(gv, node as int, i as int, inc_i, stack_i, sti, d) == Err::<ExpandState, PreprocessError>(err) by {
                                    assert(spec_eval(sti.vars, e.view(), d, sti.k) == (Err::<ValueV, PreprocessError>(err), bindings_view(vars@), n1.len()));
                                }
                            }
                            lemma_rest_fails(gv, node as int, st0, i as int, inc_i, stack_i, sti, ni, err, n1);
                        }
                        return Err(err);
                    },
                    Ok(v) => {
                        match condition(&v) {
                            Err(err) => {
                                proof {
                                    assert(step_fails(gv, node as int, i as int, inc_i, stack_i, sti, err, n1)) by {
                                        assert forall|d: Seq<Seq<char>>| extends(d, n1) implies #[trigger] spec_expand_from(gv, node as int, i as int, inc_i, stack_i, sti, d) == Err::<ExpandState, PreprocessError>(err) by {
                                            assert(spec_eval(sti.vars, e.view(), d, sti.k) == (Ok::<ValueV, PreprocessError>(v.view()), bindings_view(vars@), n1.len()));
                                        }
                                    }
                                    lemma_rest_fails(gv, node as int, st0, i as int, inc_i, stack_i, sti, ni, err, n1);
                                }
                                return Err(err);
                            },
                            Ok(b) => {
                                stack.push((b, b));
                                proof {
                                    let st1 = state_of(vars@, out@, visited@, drawn@);
                                    assert(step_agrees(gv, node as int, i as int, inc_i, stack_i, sti, inc_i, stack@, st1, n1)) by {
                                        assert forall|d: Seq<Seq<char>>| extends(d, n1) implies #[trigger] spec_expand_from(gv, node as int, i as int, inc_i, stack_i, sti, d) == spec_expand_from(gv, node as int, i + 1, inc_i, stack@, st1, d) by {
                                            assert(spec_eval(sti.vars, e.view(), d, sti.k) == (Ok::<ValueV, PreprocessError>(v.view()), bindings_view(vars@), n1.len()));
                                        }
                                    }
                                    lemma_rest_step(gv, node as int, st0, i as int, inc_i, stack_i, sti, ni, inc_i, stack@, st1, n1);
                                }
                            },
                        }
                    },
                }
            },
            Command::ElseIf(e) => {
                let r = eval_expr(vars, e, drawn);
                let ghost n1 = names_view(drawn@);
                proof {
                    crate::preprocessor::interp::lemma_drawn_more_trans(n0, ni, n1);
                }
                match r {
                    Err(err) => {
                        proof {
                            assert(step_fails(gv, node as int, i as int, inc_i, stack_i, sti, err, n1)) by {
                                assert forall|d: Seq<Seq<char>>| extends(d, n1) implies #[trigger] spec_expand_from(gv, node as int, i as int, inc_i, stack_i, sti, d) == Err::<ExpandState, PreprocessError>(err) by {
                                    assert(spec_eval(sti.vars, e.view(), d, sti.k) == (Err::<ValueV, PreprocessError>(err), bindings_view(vars@), n1.len()));
                                }
                            }
                            lemma_rest_fails(gv, node as int, st0, i as int, inc_i, stack_i, sti, ni, err, n1);
                        }
                        return Err(err);
                    },
                    Ok(v) => {
                        let c = condition(&v);
                        let fail = match c {
                            Err(err) => Some(err),
                            Ok(_) => if stack.len() == 0 {
                                Some(PreprocessError::UnexpectedElseIf)
                            } else {
                                None
                            },
                        };
                        match fail {
                            Some(err) => {
                                proof {
                                    assert(step_fails(gv, node as int, i as int, inc_i, stack_i, sti, err, n1)) by {
                                        assert forall|d: Seq<Seq<char>>| extends(d, n1) implies #[trigger] spec_expand_from(gv, node as int, i as int, inc_i, stack_i, sti, d) == Err::<ExpandState, PreprocessError>(err) by {
                                            assert(spec_eval(sti.vars, e.view(), d, sti.k) == (Ok::<ValueV, PreprocessError>(v.view()), bindings_view(vars@), n1.len()));
                                        }
                                    }
                                    lemma_rest_fails(gv, node as int, st0, i as int, inc_i, stack_i, sti, ni, err, n1);
                                }
                                return Err(err);
                            },
                            None => {
                                let b = match c {
                                    Ok(b) => b,
                                    Err(_) => false,
                                };
                                switch_top(&mut stack, b);
                                proof {
                                    let st1 = state_of(vars@, out@, visited@, drawn@);
                                    assert(step_agrees(gv, node as int, i as int, inc_i, stack_i, sti, inc_i, stack@, st1, n1)) by {
                                        assert forall|d: Seq<Seq<char>>| extends(d, n1) implies #[trigger] spec_expand_from(gv, node as int, i as int, inc_i, stack_i, sti, d) == spec_expand_from(gv, node as int, i + 1, inc_i, stack@, st1, d) by {
                                            assert(spec_eval(sti.vars, e.view(), d, sti.k) == (Ok::<ValueV, PreprocessError>(v.view()), bindings_view(vars@), n1.len()));
                                        }
                                    }
                                    lemma_rest_step(gv, node as int, st0, i as int, inc_i, stack_i, sti, ni, inc_i, stack@, st1, n1);
                                }
                            },
                        }
                    },
                }
            },
            Command::Else => {
                if stack.len() == 0 {
                    proof {
                        assert(step_fails(gv, node as int, i as int, inc_i, stack_i, sti, PreprocessError::UnexpectedElse, ni));
                        lemma_rest_fails(gv, node as int, st0, i as int, inc_i, stack_i, sti, ni, PreprocessError::UnexpectedElse, ni);
                    }
                    return Err(PreprocessError::UnexpectedElse);
                }
                switch_top(&mut stack, true);
                proof {
                    assert(step_agrees(gv, node as int, i as int, inc_i, stack_i, sti, inc_i, stack@, sti, ni));
                    lemma_rest_step(gv, node as int, st0, i as int, inc_i, stack_i, sti, ni, inc_i, stack@, sti, ni);
                }
            },
            Command::EndIf => {
                if stack.len() == 0 {
                    proof {
                        assert(step_fails(gv, node as int, i as int, inc_i, stack_i, sti, PreprocessError::UnexpectedEndIf, ni));
                        lemma_rest_fails(gv, node as int, st0, i as int, inc_i, stack_i, sti, ni, PreprocessError::UnexpectedEndIf, ni);
                    }
                    return Err(PreprocessError::UnexpectedEndIf);
                }
                stack.pop();
                proof {
                    assert(stack@ =~= stack_i.drop_last());
                    assert(step_agrees(gv, node as int, i as int, inc_i, stack_i, sti, inc_i, stack@, sti, ni));
                    lemma_rest_step(gv, node as int, st0, i as int, inc_i, stack_i, sti, ni, inc_i, stack@, sti, ni);
                }
            },
            Command::Raw(t) => {
                if is_active(&stack) {
                    crate::preprocessor::eval::push_all(out, t.as_slice());
                }
                proof {
                    let st1 = state_of(vars@, out@, visited@, drawn@);
                    assert(step_agrees(gv, node as int, i as int, inc_i, stack_i, sti, inc_i, stack@, st1, ni));
                    lemma_rest_step(gv, node as int, st0, i as int, inc_i, stack_i, sti, ni, inc_i, stack@, st1, ni);
                }
            },
            Command::Decl(n, o) | Command::Assign(n, o) => {
                if is_active(&stack) {
                    match o {
                        None => {
                            bind(vars, n, Value::Bool(true));
                            proof {
                                let st1 = state_of(vars@, out@, visited@, drawn@);
                                assert(step_agrees(gv, node as int, i as int, inc_i, stack_i, sti, inc_i, stack@, st1, ni));
                                lemma_rest_step(gv, node as int, st0, i as int, inc_i, stack_i, sti, ni, inc_i, stack@, st1, ni);
                            }
                        },
                        Some(e) => {
                            let r = eval_expr(vars, e, drawn);
                            let ghost n1 = names_view(drawn@);
                            let ghost v1 = bindings_view(vars@);
                            proof {
                                crate::preprocessor::interp::lemma_drawn_more_trans(n0, ni, n1);
                            }
                            match r {
                                Err(err) => {
                                    proof {
                                        assert(step_fails(gv, node as int, i as int, inc_i, stack_i, sti, err, n1)) by {
                                            assert forall|d: Seq<Seq<char>>| extends(d, n1) implies #[trigger] spec_expand_from(gv, node as int, i as int, inc_i, stack_i, sti, d) == Err::<ExpandState, PreprocessError>(err) by {
                                                assert(spec_eval(sti.vars, e.view(), d, sti.k) == (Err::<ValueV, PreprocessError>(err), v1, n1.len()));
                                            }
                                        }
                                        lemma_rest_fails(gv, node as int, st0, i as int, inc_i, stack_i, sti, ni, err, n1);
                                    }
                                    return Err(err);
                                },
                                Ok(v) => {
                                    let ghost vv = v.view();
                                    bind(vars, n, v);
                                    proof {
                                        let st1 = state_of(vars@, out@, visited@, drawn@);
                                        assert(step_agrees(gv, node as int, i as int, inc_i, stack_i, sti, inc_i, stack@, st1, n1)) by {
                                            assert forall|d: Seq<Seq<char>>| extends(d, n1) implies #[trigger] spec_expand_from(gv, node as int, i as int, inc_i, stack_i, sti, d) == spec_expand_from(gv, node as int, i + 1, inc_i, stack@, st1, d) by {
                                                assert(spec_eval(sti.vars, e.view(), d, sti.k) == (Ok::<ValueV, PreprocessError>(vv), v1, n1.len()));
                                            }
                                        }
                                        lemma_rest_step(gv, node as int, st0, i as int, inc_i, stack_i, sti, ni, inc_i, stack@, st1, n1);
                                    }
                                },
                            }
                        },
                    }
                } else {
                    proof {
                        assert(step_agrees(gv, node as int, i as int, inc_i, stack_i, sti, inc_i, stack@, sti, ni));
                        lemma_rest_step(gv, node as int, st0, i as int, inc_i, stack_i, sti, ni, inc_i, stack@, sti, ni);
                    }
                }
            },
            Command::Reference(n) => {
                if is_active(&stack) {
                    match expand_reference(vars, n, out) {
                        Err(err) => {
                            proof {
                                assert(step_fails(gv, node as int, i as int, inc_i, stack_i, sti, err, ni));
                                lemma_rest_fails(gv, node as int, st0, i as int, inc_i, stack_i, sti, ni, err, ni);
                            }
                            return Err(err);
                        },
                        Ok(()) => {},
                    }
                }
                proof {
                    let st1 = state_of(vars@, out@, visited@, drawn@);
                    assert(step_agrees(gv, node as int, i as int, inc_i, stack_i, sti, inc_i, stack@, st1, ni));
                    lemma_rest_step(gv, node as int, st0, i as int, inc_i, stack_i, sti, ni, inc_i, stack@, st1, ni);
                }
            },
        }
        i = i + 1;
    }
    proof {
        let stn = state_of(vars@, out@, visited@, drawn@);
        let nn = names_view(drawn@);
        assert forall|d: Seq<Seq<char>>| extends(d, nn) implies #[trigger] spec_expand_from(
            gv,
            node as int,
            0,
            0,
            Seq::empty(),
            st0,
            d,
        ) == Ok::<ExpandState, PreprocessError>(stn) by {
            assert(spec_expand_from(gv, node as int, i as int, inc as int, stack@, stn, d) == Ok::<
                ExpandState,
                PreprocessError,
            >(stn));
        }
    }
    Ok(())
}


/// The state an expansion starts in: the given variables, no output, no file
/// visited, no counter name used.
pub open spec fn initial_state(n: nat, vars: VarsV) -> ExpandState {
    ExpandState { vars: vars, out: Seq::empty(), visited: Seq::new(n, |i: int| false), k: 0 }
}

/// The text that the loaded files `g` expand to, starting with the root file
/// (index 0) and the variables `vars`, when counters get the names `d`.
pub open spec fn spec_expand(g: Seq<NodeV>, vars: VarsV, d: Seq<Seq<char>>) -> Result<
    Seq<char>,
    PreprocessError,
> {
    match spec_expand_from(g, 0, 0, 0, Seq::empty(), initial_state(g.len(), vars), d) {
        Ok(st) => Ok(st.out),
        Err(e) => Err(e),
    }
}

pub open spec fn text_result(r: Result<Vec<char>, PreprocessError>) -> Result<
    Seq<char>,
    PreprocessError,
> {
    match r {
        Ok(t) => Ok(t@),
        Err(e) => Err(e),
    }
}

/// Expands the loaded files `g` from the root file (index 0) with the
/// variables `vars`. Counters get random hidden names: the result is the
/// expansion for some sequence of such names.
pub fn expand(g: &Vec<IncludeNode>, vars: Bindings) -> (r: Result<Vec<char>, PreprocessError>)
    ensures
        exists|d: Seq<Seq<char>>|
            all_hidden_names(d) && #[trigger] spec_expand(graph_view(g@), bindings_view(vars@), d)
                == text_result(r),
{
    let ghost gv = graph_view(g@);
    let ghost v0 = bindings_view(vars@);
    let mut vars = vars;
    let mut out: Vec<char> = Vec::new();
    let mut drawn: Vec<Vec<char>> = Vec::new();
    let mut visited: Vec<bool> = Vec::new();
    let mut j: usize = 0;
    while j < g.len()
        invariant
            j <= g.len(),
            visited@.len() == j,
            forall|x: int| 0 <= x < j ==> !visited@[x],
        decreases g.len() - j,
    {
        visited.push(false);
        j = j + 1;
    }
    let ghost st0 = state_of(vars@, out@, visited@, drawn@);
    proof {
        assert(st0 == initial_state(gv.len(), v0)) by {
            assert(visited@ =~= Seq::new(gv.len(), |i: int| false));
            assert(out@ =~= Seq::<char>::empty());
        }
        assert(names_view(drawn@) =~= Seq::<Seq<char>>::empty());
    }
    if g.len() == 0 {
        proof {
            let d = Seq::<Seq<char>>::empty();
            assert(spec_expand(gv, v0, d) == text_result(Ok(out)));
        }
        return Ok(out);
    }
    let res = expand_node(g, 0, &mut vars, &mut out, &mut visited, &mut drawn);
    let ghost d = names_view(drawn@);
    proof {
        assert(extends(d, d));
        assert(all_hidden_names(d)) by {
            assert forall|i: int| 0 <= i < d.len() implies crate::preprocessor::counter::is_hidden_name(#[trigger] d[i]) by {
            }
        }
        assert(spec_expand_from(gv, 0, 0, 0, Seq::empty(), st0, d) == match res {
            Ok(_) => Ok(state_of(vars@, out@, visited@, drawn@)),
            Err(e) => Err(e),
        });
    }
    match res {
        Ok(()) => {
            proof {
                assert(spec_expand(gv, v0, d) == text_result(Ok(out)));
            }
            Ok(out)
        },
        Err(e) => {
            proof {
                assert(spec_expand(gv, v0, d) == text_result(Err(e)));
            }
            Err(e)
        },
    }
}


/// A counter prints its state and advances by its step: two references to
/// it in a row print `c` and then `c + step`, and leave `c + 2 * step`.
pub proof fn lemma_counter_references(vars: VarsV, x: Seq<char>, key: Seq<char>, step: i64, c: i64)
    requires
        lookup(vars, x) == Some(ValueV::Counter(key, step)),
        lookup(vars, key) == Some(ValueV::Number(c)),
        i64::MIN <= c + step <= i64::MAX,
        i64::MIN <= c + 2 * step <= i64::MAX,
    ensures
        ({
            &&& spec_reference_text(vars, x) matches Ok((v1, t1))
            &&& t1 == int_text(c as int)
            &&& spec_reference_text(v1, x) matches Ok((v2, t2))
            &&& t2 == int_text(c + step)
            &&& lookup(v2, key) == Some(ValueV::Number((c + 2 * step) as i64))
        }),
{
    let n1 = (c + step) as i64;
    let v1 = vars.push((key, ValueV::Number(n1)));
    assert(x != key);
    crate::preprocessor::eval::lemma_lookup_bind(vars, key, ValueV::Number(n1), x);
    crate::preprocessor::eval::lemma_lookup_bind(vars, key, ValueV::Number(n1), key);
    let n2 = (n1 + step) as i64;
    let v2 = v1.push((key, ValueV::Number(n2)));
    crate::preprocessor::eval::lemma_lookup_bind(v1, key, ValueV::Number(n2), key);
}

/// A file without `#` expands to its own text.
pub proof fn lemma_plain_file_expands(s: Seq<char>, vars: VarsV, d: Seq<Seq<char>>)
    requires
        forall|i: int| 0 <= i < s.len() ==> s[i] != '#',
    ensures
        ({
            &&& spec_parse_file(s) matches FileOutcome::Parsed(cs)
            &&& spec_expand(seq![NodeV { commands: cs, includes: Seq::empty() }], vars, d)
                == Ok::<Seq<char>, PreprocessError>(s)
        }),
{
    crate::preprocessor::command::lemma_plain_text_parses(s);
    let cs = if s.len() == 0 {
        Seq::<CommandV>::empty()
    } else {
        seq![CommandV::Raw(s)]
    };
    let g = seq![NodeV { commands: cs, includes: Seq::empty() }];
    let st0 = initial_state(g.len(), vars);
    if s.len() > 0 {
        let st1 = with_out(st0, st0.out + s);
        assert(st0.out + s =~= s);
        assert(spec_expand_from(g, 0, 1, 0, Seq::empty(), st1, d) == Ok::<ExpandState, PreprocessError>(st1));
        assert(spec_expand_from(g, 0, 0, 0, Seq::empty(), st0, d) == Ok::<ExpandState, PreprocessError>(st1));
        assert(spec_expand(g, vars, d) == Ok::<Seq<char>, PreprocessError>(s));
    } else {
        assert(st0.out =~= s);
        assert(spec_expand(g, vars, d) == Ok::<Seq<char>, PreprocessError>(s));
    }
}

} // verus!
