use vstd::prelude::*;
use crate::preprocessor::command::{parse_commands, spec_parse_file, FileOutcome, FileParse};
use crate::preprocessor::error::PreprocessError;
use crate::preprocessor::eval::chars_eq;
use crate::preprocessor::expand::{graph_view, IncludeNode, NodeV};
use crate::preprocessor::include_graph::{
    graph_add_edge, graph_add_node, graph_edges, graph_is_cyclic, graph_new, graph_node_count,
    has_cycle, has_edge, is_cycle, IncludeGraph,
};
use crate::preprocessor::syntax::{Command, CommandV};

verus! {

/// Whether file `a` includes file `b`.
pub open spec fn includes_file(files: Seq<NodeV>, a: int, b: int) -> bool {
    &&& 0 <= a < files.len()
    &&& exists|j: int| 0 <= j < files[a].includes.len() && files[a].includes[j] == b
}

/// Whether `p` is a closed chain of includes of at least one step.
pub open spec fn is_include_cycle(files: Seq<NodeV>, p: Seq<int>) -> bool {
    &&& p.len() >= 2
    &&& p[0] == p[p.len() - 1]
    &&& forall|i: int| 0 <= i < p.len() - 1 ==> #[trigger] includes_file(files, p[i], p[i + 1])
}

/// Whether some file includes itself, directly or through others.
pub open spec fn include_cycle(files: Seq<NodeV>) -> bool {
    exists|p: Seq<int>| is_include_cycle(files, p)
}

/// Whether the command at (`h`, `c`) is an include.
pub open spec fn is_include_at(files: Seq<NodeV>, h: int, c: int) -> bool {
    files[h].commands[c] is Include
}

/// Whether no include stands at a position from (`h0`, `c0`) up to, not
/// including, (`h1`, `c1`), files taken in load order.
pub open spec fn no_include_between(files: Seq<NodeV>, h0: int, c0: int, h1: int, c1: int) -> bool {
    forall|h: int, c: int|
        0 <= h < files.len() && 0 <= c < files[h].commands.len() && (h0 < h || (h0 == h && c0
            <= c)) && (h < h1 || (h == h1 && c < c1)) ==> !#[trigger] is_include_at(files, h, c)
}

/// Loads the files of an expansion: the root file, then the files its
/// includes name, breadth first, each file once. The caller resolves and
/// reads files: [`IncludeLoader::next_include`] names the next include to
/// resolve, [`IncludeLoader::find_file`] tells whether its file is loaded,
/// [`IncludeLoader::link_include`] or [`IncludeLoader::load_include`] record
/// it, and [`IncludeLoader::finish`] refuses cyclic includes.
pub struct IncludeLoader {
    nodes: Vec<IncludeNode>,
    graph: IncludeGraph,
    edge_count: usize,
    head: usize,
    cursor: usize,
}

impl IncludeLoader {
    /// The loaded files, in load order.
    pub closed spec fn files(&self) -> Seq<NodeV> {
        graph_view(self.nodes@)
    }

    /// The paths of the loaded files, in load order.
    pub closed spec fn paths(&self) -> Seq<Seq<char>> {
        Seq::new(self.nodes@.len(), |i: int| self.nodes@[i].path@)
    }

    /// The file whose includes are being resolved.
    pub closed spec fn head(&self) -> int {
        self.head as int
    }

    /// The command of that file reached so far.
    pub closed spec fn cursor(&self) -> int {
        self.cursor as int
    }

    /// The edges of the include graph.
    pub closed spec fn edges(&self) -> Seq<(usize, usize)> {
        graph_edges(self.graph)
    }

    /// The loader's invariant.
    pub closed spec fn wf(&self) -> bool {
        &&& self.nodes@.len() >= 1
        &&& graph_node_count(self.graph) == self.nodes@.len()
        &&& graph_edges(self.graph).len() == self.edge_count
        &&& self.head <= self.nodes@.len()
        &&& self.head < self.nodes@.len() ==> self.cursor <= self.nodes@[self.head as int].commands@.len()
        &&& forall|a: int, b: int| #[trigger] has_edge(graph_edges(self.graph), a, b) <==> includes_file(self.files(), a, b)
        &&& forall|i: int, j: int| 0 <= i < self.nodes@.len() && 0 <= j < self.nodes@[i].includes@.len() ==> #[trigger] self.nodes@[i].includes@[j] < self.nodes@.len()
        &&& forall|i: int, j: int| 0 <= i < j < self.nodes@.len() ==> self.paths()[i] != self.paths()[j]
    }

    /// Whether an include waits to be resolved.
    pub open spec fn pending(&self) -> bool {
        &&& 0 <= self.head() < self.files().len()
        &&& 0 <= self.cursor() < self.files()[self.head()].commands.len()
        &&& is_include_at(self.files(), self.head(), self.cursor())
    }

    /// The files after the pending include was resolved to file `t`.
    pub open spec fn linked(&self, files: Seq<NodeV>, t: int) -> Seq<NodeV> {
        files.update(
            self.head(),
            NodeV {
                commands: files[self.head()].commands,
                includes: files[self.head()].includes.push(t as usize),
            },
        )
    }
}


pub proof fn lemma_has_edge_push(edges: Seq<(usize, usize)>, x: (usize, usize), a: int, b: int)
    ensures
        has_edge(edges.push(x), a, b) == (has_edge(edges, a, b) || (x.0 == a && x.1 == b)),
{
    let e2 = edges.push(x);
    if has_edge(edges, a, b) {
        let j = choose|j: int| 0 <= j < edges.len() && edges[j].0 == a && edges[j].1 == b;
        assert(e2[j] == edges[j]);
    }
    if x.0 == a && x.1 == b {
        assert(e2[edges.len() as int] == x);
    }
    if has_edge(e2, a, b) {
        let j = choose|j: int| 0 <= j < e2.len() && e2[j].0 == a && e2[j].1 == b;
        if j < edges.len() {
            assert(e2[j] == edges[j]);
        }
    }
}

pub proof fn lemma_includes_file_link(files: Seq<NodeV>, h: int, t: int, a: int, b: int)
    requires
        0 <= h < files.len(),
        0 <= t,
        t <= usize::MAX,
    ensures
        includes_file(
            files.update(
                h,
                NodeV { commands: files[h].commands, includes: files[h].includes.push(t as usize) },
            ),
            a,
            b,
        ) == (includes_file(files, a, b) || (a == h && b == t)),
{
    let f2 = files.update(
        h,
        NodeV { commands: files[h].commands, includes: files[h].includes.push(t as usize) },
    );
    if a == h {
        let inc = files[h].includes;
        let inc2 = f2[h].includes;
        assert(inc2 == inc.push(t as usize));
        if includes_file(files, a, b) {
            let j = choose|j: int| 0 <= j < inc.len() && inc[j] == b;
            assert(inc2[j] == inc[j]);
        }
        if b == t {
            assert(inc2[inc.len() as int] == t);
        }
        if includes_file(f2, a, b) {
            let j = choose|j: int| 0 <= j < inc2.len() && inc2[j] == b;
            if j < inc.len() {
                assert(inc2[j] == inc[j]);
            }
        }
    } else if 0 <= a < files.len() {
        assert(f2[a] == files[a]);
    }
}

pub proof fn lemma_includes_file_push(files: Seq<NodeV>, n: NodeV, a: int, b: int)
    requires
        n.includes.len() == 0,
    ensures
        includes_file(files.push(n), a, b) == includes_file(files, a, b),
{
    let f2 = files.push(n);
    if 0 <= a < files.len() {
        assert(f2[a] == files[a]);
    }
}

impl IncludeLoader {
    /// Starts loading with the root file: its canonical path and content.
    pub fn new(root_path: Vec<char>, root: &Vec<char>) -> (r: Result<IncludeLoader, PreprocessError>)
        ensures
            match spec_parse_file(root@) {
                FileOutcome::Parsed(cs) => r matches Ok(l) && l.wf() && l.files() == seq![
                    NodeV { commands: cs, includes: Seq::empty() },
                ] && l.paths() == seq![root_path@] && l.head() == 0 && l.cursor() == 0,
                FileOutcome::Fail => r matches Err(e) && e == PreprocessError::Parse(0),
                FileOutcome::Abort => r matches Err(e) && e == PreprocessError::Aborted,
            },
    {
        match parse_commands(root) {
            FileParse::Parsed(commands) => {
                let mut graph = graph_new();
                let _ = graph_add_node(&mut graph);
                let mut nodes: Vec<IncludeNode> = Vec::new();
                nodes.push(IncludeNode { path: root_path, commands, includes: Vec::new() });
                let l = IncludeLoader { nodes, graph, edge_count: 0, head: 0, cursor: 0 };
                proof {
                    assert(l.files() =~= seq![
                        NodeV { commands: l.files()[0].commands, includes: Seq::empty() },
                    ]);
                    assert(l.paths() =~= seq![l.nodes@[0].path@]);
                    assert forall|a: int, b: int| #[trigger] has_edge(graph_edges(l.graph), a, b) <==> includes_file(l.files(), a, b) by {
                        assert(!includes_file(l.files(), a, b));
                    }
                }
                Ok(l)
            },
            FileParse::Fail => Err(PreprocessError::Parse(0)),
            FileParse::Abort => Err(PreprocessError::Aborted),
        }
    }

    /// The index of the file whose includes are being resolved.
    pub fn current_file(&self) -> (r: usize)
        ensures
            r == self.head(),
    {
        self.head
    }

    /// The number of files loaded.
    pub fn file_count(&self) -> (r: usize)
        ensures
            r == self.files().len(),
    {
        self.nodes.len()
    }

    /// Whether an include waits to be resolved.
    pub fn is_pending(&self) -> (r: bool)
        requires
            self.wf(),
        ensures
            r == self.pending(),
    {
        self.head < self.nodes.len() && self.cursor < self.nodes[self.head].commands.len()
            && match &self.nodes[self.head].commands[self.cursor] {
            Command::Include(_) => true,
            _ => false,
        }
    }

    /// Moves to the next include, files taken in load order and commands in
    /// order; returns the path it names, or `None` when all are resolved.
    pub fn next_include(&mut self) -> (r: Option<Vec<char>>)
        requires
            old(self).wf(),
        ensures
            final(self).wf(),
            final(self).files() == old(self).files(),
            final(self).paths() == old(self).paths(),
            final(self).edges() == old(self).edges(),
            old(self).head() < final(self).head() || (old(self).head() == final(self).head()
                && old(self).cursor() <= final(self).cursor()),
            no_include_between(
                old(self).files(),
                old(self).head(),
                old(self).cursor(),
                final(self).head(),
                final(self).cursor(),
            ),
            match r {
                Some(src) => final(self).pending() && final(self).files()[final(self).head()].commands[final(self).cursor()]
                    == CommandV::Include(src@),
                None => final(self).head() == final(self).files().len(),
            },
    {
        let ghost files = self.files();
        let ghost h0 = self.head as int;
        let ghost c0 = self.cursor as int;
        while self.head < self.nodes.len()
            invariant
                self.wf(),
                self.files() == files,
                self.paths() == old(self).paths(),
                self.edges() == old(self).edges(),
                files == old(self).files(),
                h0 == old(self).head(),
                c0 == old(self).cursor(),
                h0 < self.head || (h0 == self.head && c0 <= self.cursor),
                no_include_between(files, h0, c0, self.head as int, self.cursor as int),
            decreases self.nodes@.len() - self.head, self.nodes@[self.head as int].commands@.len() - self.cursor,
        {
            let h = self.head;
            if self.cursor >= self.nodes[h].commands.len() {
                self.head = h + 1;
                self.cursor = 0;
            } else {
                proof {
                    assert(files[h as int].commands[self.cursor as int] == self.nodes@[h as int].commands@[self.cursor as int].view());
                }
                match &self.nodes[h].commands[self.cursor] {
                    Command::Include(src) => {
                        return Some(crate::preprocessor::eval::copy_chars(src));
                    },
                    _ => {
                        self.cursor = self.cursor + 1;
                    },
                }
            }
        }
        None
    }

    /// The index of the loaded file with path `path`, if any.
    pub fn find_file(&self, path: &Vec<char>) -> (r: Option<usize>)
        ensures
            match r {
                Some(i) => i < self.paths().len() && self.paths()[i as int] == path@,
                None => forall|i: int| 0 <= i < self.paths().len() ==> self.paths()[i] != path@,
            },
    {
        let mut i: usize = 0;
        while i < self.nodes.len()
            invariant
                i <= self.nodes@.len(),
                forall|j: int| 0 <= j < i ==> self.paths()[j] != path@,
            decreases self.nodes@.len() - i,
        {
            if chars_eq(&self.nodes[i].path, path) {
                return Some(i);
            }
            i = i + 1;
        }
        None
    }

    /// Appends `t` to the includes of the current file and records the edge.
    fn add_link(&mut self, t: usize)
        requires
            old(self).wf(),
            old(self).head() < old(self).files().len(),
            t < old(self).files().len(),
            old(self).edges().len() + 2 < u32::MAX,
        ensures
            final(self).wf(),
            final(self).files() == old(self).linked(old(self).files(), t as int),
            final(self).paths() == old(self).paths(),
            final(self).head() == old(self).head(),
            final(self).cursor() == old(self).cursor(),
            final(self).edges() == old(self).edges().push((old(self).head as usize, t)),
    {
        let h = self.head;
        let ghost files0 = self.files();
        let ghost paths0 = self.paths();
        let ghost edges0 = graph_edges(self.graph);
        graph_add_edge(&mut self.graph, h, t);
        self.edge_count = self.edge_count + 1;
        let mut tmp = IncludeNode { path: Vec::new(), commands: Vec::new(), includes: Vec::new() };
        self.nodes.set_and_swap(h, &mut tmp);
        tmp.includes.push(t);
        self.nodes.set_and_swap(h, &mut tmp);
        proof {
            assert(self.files() =~= self.linked(files0, t as int));
            assert(self.paths() =~= paths0);
            assert forall|a: int, b: int| #[trigger] has_edge(graph_edges(self.graph), a, b) <==> includes_file(self.files(), a, b) by {
                lemma_has_edge_push(edges0, (h, t), a, b);
                lemma_includes_file_link(files0, h as int, t as int, a, b);
                assert(has_edge(edges0, a, b) <==> includes_file(files0, a, b));
            }
            assert forall|i: int, j: int| 0 <= i < self.nodes@.len() && 0 <= j < self.nodes@[i].includes@.len() implies #[trigger] self.nodes@[i].includes@[j] < self.nodes@.len() by {
                if i == h {
                    if j < old(self).nodes@[i].includes@.len() {
                        assert(self.nodes@[i].includes@[j] == old(self).nodes@[i].includes@[j]);
                    }
                } else {
                    assert(self.nodes@[i] == old(self).nodes@[i]);
                }
            }
        }
    }

    /// Resolves the pending include to the loaded file `target`.
    pub fn link_include(&mut self, target: usize) -> (r: Result<(), PreprocessError>)
        requires
            old(self).wf(),
            old(self).pending(),
            target < old(self).files().len(),
        ensures
            final(self).wf(),
            old(self).edges().len() + 2 < u32::MAX ==> r is Ok,
            r is Ok ==> {
                &&& final(self).files() == old(self).linked(old(self).files(), target as int)
                &&& final(self).paths() == old(self).paths()
                &&& final(self).head() == old(self).head()
                &&& final(self).cursor() == old(self).cursor() + 1
            },
            r matches Err(e) ==> e == PreprocessError::Aborted,
    {
        if self.edge_count >= 4294967293 {
            return Err(PreprocessError::Aborted);
        }
        self.add_link(target);
        proof {
            assert(self.files()[self.head()].commands == old(self).files()[old(self).head()].commands);
            assert(self.head() < self.files().len());
            assert(self.files()[self.head()] == self.nodes@[self.head as int].view());
            assert(self.nodes@[self.head as int].commands@.len() == self.files()[self.head()].commands.len());
            assert(self.cursor < self.nodes@[self.head as int].commands@.len());
        }
        let _len = self.nodes[self.head].commands.len();
        self.cursor = self.cursor + 1;
        Ok(())
    }

    /// Resolves the pending include to a file not loaded yet, with path
    /// `path` and content `content`: the file is parsed and loaded.
    pub fn load_include(&mut self, path: Vec<char>, content: &Vec<char>) -> (r: Result<
        (),
        PreprocessError,
    >)
        requires
            old(self).wf(),
            old(self).pending(),
            forall|i: int| 0 <= i < old(self).paths().len() ==> old(self).paths()[i] != path@,
        ensures
            final(self).wf(),
            match spec_parse_file(content@) {
                FileOutcome::Parsed(cs) => {
                    &&& (old(self).files().len() + 2 < u32::MAX && old(self).edges().len() + 2 < u32::MAX) ==> r is Ok
                    &&& r is Ok ==> {
                        &&& final(self).files() == old(self).linked(
                            old(self).files().push(NodeV { commands: cs, includes: Seq::empty() }),
                            old(self).files().len() as int,
                        )
                        &&& final(self).paths() == old(self).paths().push(path@)
                        &&& final(self).head() == old(self).head()
                        &&& final(self).cursor() == old(self).cursor() + 1
                    }
                    &&& r matches Err(e) ==> e == PreprocessError::Aborted
                },
                FileOutcome::Fail => r matches Err(e) && e == PreprocessError::Parse(
                    old(self).files().len() as usize,
                ),
                FileOutcome::Abort => r matches Err(e) && e == PreprocessError::Aborted,
            },
    {
        let commands = match parse_commands(content) {
            FileParse::Parsed(cs) => cs,
            FileParse::Fail => {
                return Err(PreprocessError::Parse(self.nodes.len()));
            },
            FileParse::Abort => {
                return Err(PreprocessError::Aborted);
            },
        };
        if self.nodes.len() >= 4294967293 || self.edge_count >= 4294967293 {
            return Err(PreprocessError::Aborted);
        }
        let ghost files0 = self.files();
        let ghost paths0 = self.paths();
        let ghost pv = path@;
        let ghost cv = crate::preprocessor::syntax::commands_view(commands@);
        let t = graph_add_node(&mut self.graph);
        self.nodes.push(IncludeNode { path, commands, includes: Vec::new() });
        proof {
            assert(self.files() =~= files0.push(NodeV { commands: cv, includes: Seq::empty() }));
            assert(self.paths() =~= paths0.push(pv));
            assert forall|a: int, b: int| #[trigger] has_edge(graph_edges(self.graph), a, b) <==> includes_file(self.files(), a, b) by {
                lemma_includes_file_push(files0, NodeV { commands: cv, includes: Seq::empty() }, a, b);
                assert(has_edge(graph_edges(old(self).graph), a, b) <==> includes_file(files0, a, b));
            }
            assert forall|i: int, j: int| 0 <= i < self.nodes@.len() && 0 <= j < self.nodes@[i].includes@.len() implies #[trigger] self.nodes@[i].includes@[j] < self.nodes@.len() by {
                if i < files0.len() {
                    assert(self.nodes@[i] == old(self).nodes@[i]);
                }
            }
            assert forall|i: int, j: int| 0 <= i < j < self.nodes@.len() implies self.paths()[i] != self.paths()[j] by {
                if j < files0.len() {
                    assert(paths0[i] != paths0[j]);
                }
            }
        }
        self.add_link(t);
        proof {
            assert(self.files()[self.head()].commands == old(self).files()[old(self).head()].commands);
            assert(self.head() < self.files().len());
            assert(self.files()[self.head()] == self.nodes@[self.head as int].view());
            assert(self.nodes@[self.head as int].commands@.len() == self.files()[self.head()].commands.len());
            assert(self.cursor < self.nodes@[self.head as int].commands@.len());
        }
        let _len = self.nodes[self.head].commands.len();
        self.cursor = self.cursor + 1;
        Ok(())
    }

    /// Ends loading: the loaded files, unless their includes form a cycle.
    pub fn finish(self) -> (r: Result<Vec<IncludeNode>, PreprocessError>)
        requires
            self.wf(),
        ensures
            match r {
                Ok(nodes) => {
                    &&& !include_cycle(self.files())
                    &&& graph_view(nodes@) == self.files()
                    &&& nodes@.len() == self.paths().len()
                    &&& forall|i: int| 0 <= i < nodes@.len() ==> (#[trigger] nodes@[i]).path@ == self.paths()[i]
                },
                Err(e) => e == PreprocessError::CyclicInclude && include_cycle(self.files()),
            },
    {
        let cyclic = graph_is_cyclic(&self.graph);
        proof {
            lemma_cycles_agree(graph_edges(self.graph), self.files());
        }
        if cyclic {
            Err(PreprocessError::CyclicInclude)
        } else {
            Ok(self.nodes)
        }
    }
}

/// Edges that are exactly the includes have exactly their cycles.
pub proof fn lemma_cycles_agree(edges: Seq<(usize, usize)>, files: Seq<NodeV>)
    requires
        forall|a: int, b: int| #[trigger] has_edge(edges, a, b) <==> includes_file(files, a, b),
    ensures
        has_cycle(edges) == include_cycle(files),
{
    if has_cycle(edges) {
        let p = choose|p: Seq<int>| is_cycle(edges, p);
        assert forall|i: int| 0 <= i < p.len() - 1 implies #[trigger] includes_file(files, p[i], p[i + 1]) by {
            assert(has_edge(edges, p[i], p[i + 1]));
        }
        assert(is_include_cycle(files, p));
    }
    if include_cycle(files) {
        let p = choose|p: Seq<int>| is_include_cycle(files, p);
        assert forall|i: int| 0 <= i < p.len() - 1 implies #[trigger] has_edge(edges, p[i], p[i + 1]) by {
            assert(includes_file(files, p[i], p[i + 1]));
        }
        assert(is_cycle(edges, p));
    }
}


/// Each file is loaded once: no two loaded files share a path.
pub proof fn lemma_files_loaded_once(l: IncludeLoader)
    requires
        l.wf(),
    ensures
        forall|i: int, j: int| 0 <= i < j < l.paths().len() ==> l.paths()[i] != l.paths()[j],
{
}

} // verus!
