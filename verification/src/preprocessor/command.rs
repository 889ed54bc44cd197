use vstd::prelude::*;
use crate::preprocessor::expr::{parse_expr, spec_expr, ExprResult, PRes};
use crate::preprocessor::lexer::{
    blank_pred, ident_end, lemma_run_end, run_end, skip_blanks, slice_chars, spec_ident_end,
};
use crate::preprocessor::syntax::{commands_view, opt_expr_view, Command, CommandV, Expr, ExprV};

verus! {

// ---------------------------------------------------------------------------
// Small scanners
// ---------------------------------------------------------------------------

/// Whether `s[p..]` starts with `t`.
pub open spec fn starts_with(s: Seq<char>, p: int, t: Seq<char>) -> bool {
    0 <= p && p + t.len() <= s.len() && s.subrange(p, p + t.len()) == t
}

fn has_prefix(s: &Vec<char>, p: usize, t: &[char]) -> (b: bool)
    requires
        p <= s.len(),
    ensures
        b == starts_with(s@, p as int, t@),
{
    if t.len() > s.len() - p {
        return false;
    }
    let mut i: usize = 0;
    while i < t.len()
        invariant
            i <= t.len(),
            p + t.len() <= s.len(),
            forall|j: int| 0 <= j < i ==> s@[p + j] == t@[j],
        decreases t.len() - i,
    {
        if s[p + i] != t[i] {
            proof {
                assert(s@.subrange(p as int, p + t@.len())[i as int] != t@[i as int]);
            }
            return false;
        }
        i = i + 1;
    }
    proof {
        assert(s@.subrange(p as int, p + t@.len()) =~= t@);
    }
    true
}

pub open spec fn newline_pred() -> spec_fn(char) -> bool {
    |c: char| c == '\r' || c == '\n'
}

/// Blanks, then line breaks: what follows a directive up to the next line.
pub open spec fn spec_line_rest_end(s: Seq<char>, p: int) -> int {
    run_end(s, run_end(s, p, blank_pred()), newline_pred())
}

fn line_rest_end(s: &Vec<char>, p: usize) -> (e: usize)
    requires
        p <= s.len(),
    ensures
        e == spec_line_rest_end(s@, p as int),
        p <= e <= s.len(),
{
    let q = skip_blanks(s, p);
    proof {
        lemma_run_end(s@, q as int, newline_pred());
    }
    let mut i = q;
    while i < s.len() && (s[i] == '\r' || s[i] == '\n')
        invariant
            q <= i <= s.len(),
            run_end(s@, i as int, newline_pred()) == run_end(s@, q as int, newline_pred()),
        decreases s.len() - i,
    {
        i = i + 1;
    }
    i
}

pub open spec fn path_char_pred() -> spec_fn(char) -> bool {
    |c: char| c != '"' && (c as u32) >= 0x20 && (c as u32) != 0x7f && c != '\n'
}

fn path_end(s: &Vec<char>, p: usize) -> (e: usize)
    requires
        p <= s.len(),
    ensures
        e == run_end(s@, p as int, path_char_pred()),
        p <= e <= s.len(),
{
    proof {
        lemma_run_end(s@, p as int, path_char_pred());
    }
    let mut i = p;
    while i < s.len() && s[i] != '"' && (s[i] as u32) >= 0x20 && (s[i] as u32) != 0x7f && s[i]
        != '\n'
        invariant
            p <= i <= s.len(),
            run_end(s@, i as int, path_char_pred()) == run_end(s@, p as int, path_char_pred()),
        decreases s.len() - i,
    {
        i = i + 1;
    }
    i
}

/// End of a text run: the first `#`, or the first `/` that starts `///#`.
pub open spec fn spec_raw_end(s: Seq<char>, p: int) -> int
    decreases s.len() - p,
{
    if !(0 <= p < s.len()) {
        p
    } else if s[p] == '#' || (s[p] == '/' && starts_with(s, p + 1, seq!['/', '/', '#'])) {
        p
    } else {
        spec_raw_end(s, p + 1)
    }
}

proof fn lemma_raw_end(s: Seq<char>, p: int)
    requires
        0 <= p <= s.len(),
    ensures
        p <= spec_raw_end(s, p) <= s.len(),
    decreases s.len() - p,
{
    if p < s.len() && !(s[p] == '#' || (s[p] == '/' && starts_with(s, p + 1, seq!['/', '/', '#']))) {
        lemma_raw_end(s, p + 1);
    }
}

fn raw_end(s: &Vec<char>, p: usize) -> (e: usize)
    requires
        p <= s.len(),
    ensures
        e == spec_raw_end(s@, p as int),
        p <= e <= s.len(),
{
    proof {
        lemma_raw_end(s@, p as int);
    }
    let slash_slash_hash = ['/', '/', '#'];
    proof {
        assert(slash_slash_hash@ =~= seq!['/', '/', '#']);
    }
    let mut i = p;
    while i < s.len()
        invariant
            p <= i <= s.len(),
            slash_slash_hash@ == seq!['/', '/', '#'],
            spec_raw_end(s@, i as int) == spec_raw_end(s@, p as int),
        ensures
            i == spec_raw_end(s@, p as int),
        decreases s.len() - i,
    {
        if s[i] == '#' {
            break;
        }
        if s[i] == '/' && has_prefix(s, i + 1, &slash_slash_hash) {
            break;
        }
        i = i + 1;
    }
    i
}

// ---------------------------------------------------------------------------
// Commands
// ---------------------------------------------------------------------------

/// The directive marker `///#`.
pub open spec fn marker() -> Seq<char> {
    seq!['/', '/', '/', '#']
}

pub open spec fn kw_include() -> Seq<char> {
    seq!['i', 'n', 'c', 'l', 'u', 'd', 'e']
}

pub open spec fn kw_if() -> Seq<char> {
    seq!['i', 'f']
}

pub open spec fn kw_elseif() -> Seq<char> {
    seq!['e', 'l', 's', 'e', 'i', 'f']
}

pub open spec fn kw_else() -> Seq<char> {
    seq!['e', 'l', 's', 'e']
}

pub open spec fn kw_endif() -> Seq<char> {
    seq!['e', 'n', 'd', 'i', 'f']
}

pub open spec fn kw_decl() -> Seq<char> {
    seq!['d', 'e', 'c', 'l']
}

pub open spec fn kw_assign() -> Seq<char> {
    seq!['a', 's', 's', 'i', 'g', 'n']
}

/// `#{ name }`
pub open spec fn spec_reference(s: Seq<char>, p: int) -> Option<(Seq<char>, int)> {
    if starts_with(s, p, seq!['#', '{']) {
        let q = run_end(s, p + 2, blank_pred());
        match spec_ident_end(s, q) {
            Some(e) => {
                let r = run_end(s, e, blank_pred());
                if 0 <= r < s.len() && s[r] == '}' {
                    Some((s.subrange(q, e), r + 1))
                } else {
                    None
                }
            },
            None => None,
        }
    } else {
        None
    }
}

/// `include "path"` after the marker at `p`.
pub open spec fn spec_include(s: Seq<char>, p: int) -> Option<(Seq<char>, int)> {
    if starts_with(s, p, kw_include()) {
        let a = p + 7;
        let b = run_end(s, a, blank_pred());
        if b > a && 0 <= b < s.len() && s[b] == '"' {
            let c = run_end(s, b + 1, path_char_pred());
            if 0 <= c < s.len() && s[c] == '"' {
                Some((s.subrange(b + 1, c), c + 1))
            } else {
                None
            }
        } else {
            None
        }
    } else {
        None
    }
}

/// A keyword, at least one blank, then an expression.
pub open spec fn spec_cond(s: Seq<char>, p: int, kw: Seq<char>) -> PRes<ExprV> {
    if starts_with(s, p, kw) {
        let a = p + kw.len();
        let b = run_end(s, a, blank_pred());
        if b > a {
            spec_expr(s, b, 0)
        } else {
            PRes::Fail
        }
    } else {
        PRes::Fail
    }
}

/// An optional `= expr` after a declared name. When the expression does not
/// parse, nothing is consumed and there is no value.
pub open spec fn spec_assign_value(s: Seq<char>, p: int) -> PRes<Option<ExprV>> {
    if 0 <= p < s.len() && s[p] == '=' {
        match spec_expr(s, run_end(s, p + 1, blank_pred()), 0) {
            PRes::Done(e, q) => PRes::Done(Some(e), q),
            PRes::Fail => PRes::Done(None, p),
            PRes::Abort => PRes::Abort,
        }
    } else {
        PRes::Done(None, p)
    }
}

/// A keyword, at least one blank, a name, blanks and an optional value.
pub open spec fn spec_binding(s: Seq<char>, p: int, kw: Seq<char>) -> PRes<
    (Seq<char>, Option<ExprV>),
> {
    if starts_with(s, p, kw) {
        let a = p + kw.len();
        let b = run_end(s, a, blank_pred());
        if b > a {
            match spec_ident_end(s, b) {
                Some(e) => match spec_assign_value(s, run_end(s, e, blank_pred())) {
                    PRes::Done(v, q) => PRes::Done((s.subrange(b, e), v), q),
                    PRes::Fail => PRes::Fail,
                    PRes::Abort => PRes::Abort,
                },
                None => PRes::Fail,
            }
        } else {
            PRes::Fail
        }
    } else {
        PRes::Fail
    }
}

/// The directives that end with the rest of their line: the first of
/// `if`, `elseif`, `else`, `endif`, `decl`, `assign` that matches at `p`.
pub open spec fn spec_line_directive(s: Seq<char>, p: int) -> PRes<CommandV> {
    match spec_cond(s, p, kw_if()) {
        PRes::Abort => PRes::Abort,
        PRes::Done(e, q) => PRes::Done(CommandV::If(e), q),
        PRes::Fail => match spec_cond(s, p, kw_elseif()) {
            PRes::Abort => PRes::Abort,
            PRes::Done(e, q) => PRes::Done(CommandV::ElseIf(e), q),
            PRes::Fail => if starts_with(s, p, kw_else()) {
                PRes::Done(CommandV::Else, p + 4)
            } else if starts_with(s, p, kw_endif()) {
                PRes::Done(CommandV::EndIf, p + 5)
            } else {
                match spec_binding(s, p, kw_decl()) {
                    PRes::Abort => PRes::Abort,
                    PRes::Done((n, v), q) => PRes::Done(CommandV::Decl(n, v), q),
                    PRes::Fail => match spec_binding(s, p, kw_assign()) {
                        PRes::Abort => PRes::Abort,
                        PRes::Done((n, v), q) => PRes::Done(CommandV::Assign(n, v), q),
                        PRes::Fail => PRes::Fail,
                    },
                }
            },
        },
    }
}

/// One command at `p` (with `p` before the end of the input): a reference,
/// a directive after the marker `///#`, or a run of text.
pub open spec fn spec_command(s: Seq<char>, p: int) -> PRes<CommandV> {
    match spec_reference(s, p) {
        Some((n, q)) => PRes::Done(CommandV::Reference(n), q),
        None => if starts_with(s, p, marker()) {
            match spec_include(s, p + 4) {
                Some((path, q)) => PRes::Done(CommandV::Include(path), q),
                None => match spec_line_directive(s, p + 4) {
                    PRes::Done(c, q) => PRes::Done(c, spec_line_rest_end(s, q)),
                    PRes::Fail => PRes::Fail,
                    PRes::Abort => PRes::Abort,
                },
            }
        } else {
            PRes::Done(CommandV::Raw(s.subrange(p, spec_raw_end(s, p))), spec_raw_end(s, p))
        },
    }
}

/// Outcome of parsing a whole file.
pub enum FileOutcome {
    Parsed(Seq<CommandV>),
    Fail,
    Abort,
}

/// The commands from `p` to the end of the input. Parsing fails when a
/// directive after the marker does not parse, or when a `#` starts no
/// reference.
pub open spec fn spec_commands_from(s: Seq<char>, p: int) -> FileOutcome
    decreases s.len() - p,
{
    if !(0 <= p < s.len()) {
        FileOutcome::Parsed(Seq::empty())
    } else {
        match spec_command(s, p) {
            PRes::Done(c, q) => if p < q <= s.len() {
                match spec_commands_from(s, q) {
                    FileOutcome::Parsed(rest) => FileOutcome::Parsed(seq![c] + rest),
                    FileOutcome::Fail => FileOutcome::Fail,
                    FileOutcome::Abort => FileOutcome::Abort,
                }
            } else {
                FileOutcome::Fail
            },
            PRes::Fail => FileOutcome::Fail,
            PRes::Abort => FileOutcome::Abort,
        }
    }
}

/// The commands of a whole file.
pub open spec fn spec_parse_file(s: Seq<char>) -> FileOutcome {
    spec_commands_from(s, 0)
}

pub enum CommandResult {
    Done(Command, usize),
    Fail,
    Abort,
}

impl CommandResult {
    pub open spec fn view(&self) -> PRes<CommandV> {
        match self {
            CommandResult::Done(c, p) => PRes::Done(c.view(), *p as int),
            CommandResult::Fail => PRes::Fail,
            CommandResult::Abort => PRes::Abort,
        }
    }
}

fn reference(s: &Vec<char>, p: usize) -> (r: Option<(Vec<char>, usize)>)
    requires
        p <= s.len(),
    ensures
        match r {
            Some((n, q)) => spec_reference(s@, p as int) == Some((n@, q as int)) && p < q
                <= s.len(),
            None => spec_reference(s@, p as int) is None,
        },
{
    let open_brace = ['#', '{'];
    proof {
        assert(open_brace@ =~= seq!['#', '{']);
    }
    if !has_prefix(s, p, &open_brace) {
        return None;
    }
    let q = skip_blanks(s, p + 2);
    match ident_end(s, q) {
        Some(e) => {
            let r = skip_blanks(s, e);
            if r < s.len() && s[r] == '}' {
                let name = slice_chars(s, q, e);
                Some((name, r + 1))
            } else {
                None
            }
        },
        None => None,
    }
}

fn include_directive(s: &Vec<char>, p: usize) -> (r: Option<(Vec<char>, usize)>)
    requires
        p <= s.len(),
    ensures
        match r {
            Some((path, q)) => spec_include(s@, p as int) == Some((path@, q as int)) && p < q
                <= s.len(),
            None => spec_include(s@, p as int) is None,
        },
{
    let kw = ['i', 'n', 'c', 'l', 'u', 'd', 'e'];
    proof {
        assert(kw@ =~= kw_include());
    }
    if !has_prefix(s, p, &kw) {
        return None;
    }
    let a = p + 7;
    let b = skip_blanks(s, a);
    if b > a && b < s.len() && s[b] == '"' {
        let c = path_end(s, b + 1);
        if c < s.len() && s[c] == '"' {
            let path = slice_chars(s, b + 1, c);
            Some((path, c + 1))
        } else {
            None
        }
    } else {
        None
    }
}

fn cond(s: &Vec<char>, p: usize, kw: &[char]) -> (r: ExprResult)
    requires
        p <= s.len(),
    ensures
        r.view() == spec_cond(s@, p as int, kw@),
        r matches ExprResult::Done(_, e) ==> p < e <= s.len(),
{
    if !has_prefix(s, p, kw) {
        return ExprResult::Fail;
    }
    let a = p + kw.len();
    let b = skip_blanks(s, a);
    if b > a {
        parse_expr(s, b, 0)
    } else {
        ExprResult::Fail
    }
}

enum BindingResult {
    Done(Vec<char>, Option<Expr>, usize),
    Fail,
    Abort,
}

impl BindingResult {
    spec fn view(&self) -> PRes<(Seq<char>, Option<ExprV>)> {
        match self {
            BindingResult::Done(n, v, p) => PRes::Done((n@, opt_expr_view(*v)), *p as int),
            BindingResult::Fail => PRes::Fail,
            BindingResult::Abort => PRes::Abort,
        }
    }
}

fn binding(s: &Vec<char>, p: usize, kw: &[char]) -> (r: BindingResult)
    requires
        p <= s.len(),
    ensures
        r.view() == spec_binding(s@, p as int, kw@),
        r matches BindingResult::Done(_, _, e) ==> p < e <= s.len(),
{
    if !has_prefix(s, p, kw) {
        return BindingResult::Fail;
    }
    let a = p + kw.len();
    let b = skip_blanks(s, a);
    if b <= a {
        return BindingResult::Fail;
    }
    let e = match ident_end(s, b) {
        Some(e) => e,
        None => {
            return BindingResult::Fail;
        },
    };
    let name = slice_chars(s, b, e);
    let v = skip_blanks(s, e);
    if v < s.len() && s[v] == '=' {
        let w = skip_blanks(s, v + 1);
        match parse_expr(s, w, 0) {
            ExprResult::Done(x, q) => BindingResult::Done(name, Some(x), q),
            ExprResult::Fail => BindingResult::Done(name, None, v),
            ExprResult::Abort => BindingResult::Abort,
        }
    } else {
        BindingResult::Done(name, None, v)
    }
}

fn line_directive(s: &Vec<char>, p: usize) -> (r: CommandResult)
    requires
        p <= s.len(),
    ensures
        r.view() == spec_line_directive(s@, p as int),
        r matches CommandResult::Done(_, e) ==> p < e <= s.len(),
{
    let w_if = ['i', 'f'];
    let w_elseif = ['e', 'l', 's', 'e', 'i', 'f'];
    let w_else = ['e', 'l', 's', 'e'];
    let w_endif = ['e', 'n', 'd', 'i', 'f'];
    let w_decl = ['d', 'e', 'c', 'l'];
    let w_assign = ['a', 's', 's', 'i', 'g', 'n'];
    proof {
        assert(w_if@ =~= kw_if());
        assert(w_elseif@ =~= kw_elseif());
        assert(w_else@ =~= kw_else());
        assert(w_endif@ =~= kw_endif());
        assert(w_decl@ =~= kw_decl());
        assert(w_assign@ =~= kw_assign());
    }
    match cond(s, p, &w_if) {
        ExprResult::Abort => {
            return CommandResult::Abort;
        },
        ExprResult::Done(e, q) => {
            return CommandResult::Done(Command::If(e), q);
        },
        ExprResult::Fail => {},
    }
    match cond(s, p, &w_elseif) {
        ExprResult::Abort => {
            return CommandResult::Abort;
        },
        ExprResult::Done(e, q) => {
            return CommandResult::Done(Command::ElseIf(e), q);
        },
        ExprResult::Fail => {},
    }
    if has_prefix(s, p, &w_else) {
        return CommandResult::Done(Command::Else, p + 4);
    }
    if has_prefix(s, p, &w_endif) {
        return CommandResult::Done(Command::EndIf, p + 5);
    }
    match binding(s, p, &w_decl) {
        BindingResult::Abort => {
            return CommandResult::Abort;
        },
        BindingResult::Done(n, v, q) => {
            return CommandResult::Done(Command::Decl(n, v), q);
        },
        BindingResult::Fail => {},
    }
    match binding(s, p, &w_assign) {
        BindingResult::Abort => CommandResult::Abort,
        BindingResult::Done(n, v, q) => CommandResult::Done(Command::Assign(n, v), q),
        BindingResult::Fail => CommandResult::Fail,
    }
}

/// Parses one command at `p` (see [`spec_command`]).
pub fn parse_command(s: &Vec<char>, p: usize) -> (r: CommandResult)
    requires
        p < s.len(),
    ensures
        r.view() == spec_command(s@, p as int),
        r matches CommandResult::Done(_, e) ==> p <= e <= s.len(),
{
    match reference(s, p) {
        Some((n, q)) => {
            return CommandResult::Done(Command::Reference(n), q);
        },
        None => {},
    }
    let mark = ['/', '/', '/', '#'];
    proof {
        assert(mark@ =~= marker());
    }
    if has_prefix(s, p, &mark) {
        match include_directive(s, p + 4) {
            Some((path, q)) => CommandResult::Done(Command::Include(path), q),
            None => match line_directive(s, p + 4) {
                CommandResult::Done(c, q) => {
                    let e = line_rest_end(s, q);
                    CommandResult::Done(c, e)
                },
                CommandResult::Fail => CommandResult::Fail,
                CommandResult::Abort => CommandResult::Abort,
            },
        }
    } else {
        let e = raw_end(s, p);
        let text = slice_chars(s, p, e);
        CommandResult::Done(Command::Raw(text), e)
    }
}

pub enum FileParse {
    Parsed(Vec<Command>),
    Fail,
    Abort,
}

impl FileParse {
    pub open spec fn view(&self) -> FileOutcome {
        match self {
            FileParse::Parsed(cs) => FileOutcome::Parsed(commands_view(cs@)),
            FileParse::Fail => FileOutcome::Fail,
            FileParse::Abort => FileOutcome::Abort,
        }
    }
}

/// `acc` followed by the outcome `o`.
pub open spec fn after(acc: Seq<CommandV>, o: FileOutcome) -> FileOutcome {
    match o {
        FileOutcome::Parsed(rest) => FileOutcome::Parsed(acc + rest),
        FileOutcome::Fail => FileOutcome::Fail,
        FileOutcome::Abort => FileOutcome::Abort,
    }
}

/// Parses a whole file into commands (see [`spec_parse_file`]).
pub fn parse_commands(s: &Vec<char>) -> (r: FileParse)
    ensures
        r.view() == spec_parse_file(s@),
{
    let mut acc: Vec<Command> = Vec::new();
    let mut p: usize = 0;
    while p < s.len()
        invariant
            p <= s.len(),
            spec_parse_file(s@) == after(commands_view(acc@), spec_commands_from(s@, p as int)),
        decreases s.len() - p,
    {
        match parse_command(s, p) {
            CommandResult::Done(c, q) => {
                if q <= p {
                    return FileParse::Fail;
                }
                let ghost old_acc = acc@;
                let ghost cv = c.view();
                acc.push(c);
                proof {
                    let rest = spec_commands_from(s@, q as int);
                    assert(commands_view(acc@) =~= commands_view(old_acc) + seq![cv]);
                    match rest {
                        FileOutcome::Parsed(r) => {
                            assert(commands_view(old_acc) + (seq![cv] + r) =~= commands_view(
                                acc@,
                            ) + r);
                        },
                        _ => {},
                    }
                }
                p = q;
            },
            CommandResult::Fail => {
                return FileParse::Fail;
            },
            CommandResult::Abort => {
                return FileParse::Abort;
            },
        }
    }
    proof {
        assert(commands_view(acc@) + Seq::<CommandV>::empty() =~= commands_view(acc@));
    }
    FileParse::Parsed(acc)
}


proof fn lemma_raw_end_plain(s: Seq<char>, p: int)
    requires
        0 <= p <= s.len(),
        forall|i: int| 0 <= i < s.len() ==> s[i] != '#',
    ensures
        spec_raw_end(s, p) == s.len(),
    decreases s.len() - p,
{
    if p < s.len() {
        if starts_with(s, p + 1, seq!['/', '/', '#']) {
            assert(s.subrange(p + 1, p + 4)[2] == '#');
            assert(s[p + 3] == '#');
        }
        lemma_raw_end_plain(s, p + 1);
    }
}

/// Text without `#` is a single run of text: it holds no directive and no
/// reference.
pub proof fn lemma_plain_text_parses(s: Seq<char>)
    requires
        forall|i: int| 0 <= i < s.len() ==> s[i] != '#',
    ensures
        spec_parse_file(s) == FileOutcome::Parsed(
            if s.len() == 0 {
                Seq::<CommandV>::empty()
            } else {
                seq![CommandV::Raw(s)]
            },
        ),
{
    if s.len() > 0 {
        if starts_with(s, 0, seq!['#', '{']) {
            assert(s.subrange(0, 2)[0] == '#');
        }
        if starts_with(s, 0, marker()) {
            assert(s.subrange(0, 4)[3] == '#');
        }
        lemma_raw_end_plain(s, 0);
        assert(s.subrange(0, s.len() as int) =~= s);
        assert(spec_commands_from(s, s.len() as int) == FileOutcome::Parsed(Seq::<CommandV>::empty()));
        assert(seq![CommandV::Raw(s)] + Seq::<CommandV>::empty() =~= seq![CommandV::Raw(s)]);
    }
}

} // verus!
