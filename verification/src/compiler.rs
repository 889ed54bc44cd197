//! Shader technique descriptions and the choice of how each pass is
//! preprocessed.

use vstd::prelude::*;
use crate::preprocessor::config::{define_update, Preprocessor, PreprocessorConfig};

verus! {

/// The technique's metadata.
#[derive(Debug)]
pub struct Tech {
    pub author: String,
}

/// The camera a pass is drawn with.
#[derive(Debug, Clone, Copy, PartialEq, Eq, Structural)]
pub enum CameraType {
    D2,
    D2ScreenSize,
    D3,
}

/// The variants a pass may be compiled with.
#[derive(Debug)]
pub struct Variants {
    pub unit: Vec<String>,
    pub excludes: Vec<String>,
    pub exclusives: Vec<String>,
}

/// One pass of a technique, as its description file writes it.
#[derive(Debug)]
pub struct Pass {
    pub name: String,
    pub index: i32,
    pub source: String,
    pub binding: Vec<String>,
    pub variants: Option<Variants>,
    pub camera: CameraType,
    pub shaders: Vec<String>,
}

/// A technique description: its metadata and its passes.
#[derive(Debug)]
pub struct Config {
    pub tech: Tech,
    pub pass: Vec<Pass>,
}

/// A shader stage, written `vs`, `fs` or `cs`.
#[derive(Debug, Clone, Copy, PartialEq, Eq, Structural)]
pub enum Shader {
    Vertex,
    Fragment,
    Compute,
}

/// Why a pass cannot be compiled.
#[derive(Debug)]
pub enum CompileError {
    /// A variant (the name) that the pass (the index) does not offer.
    UnknownVariant(String, usize),
    /// A shader stage name that is none of `vs`, `fs`, `cs`.
    UnknownShader(String),
}

// ---------------------------------------------------------------------------
// Ordering passes
// ---------------------------------------------------------------------------

/// Whether (`ka`, `pa`) comes before (`kb`, `pb`): by key, then by position.
pub open spec fn lex_lt(ka: i32, pa: int, kb: i32, pb: int) -> bool {
    ka < kb || (ka == kb && pa < pb)
}

/// Whether `out` holds the passes of `input` ordered by their index, passes
/// of equal index in the order they came in: `out[j]` is `input[pos[j]]`.
pub open spec fn sorted_by_index(input: Seq<Pass>, out: Seq<Pass>, pos: Seq<int>) -> bool {
    &&& out.len() == input.len()
    &&& pos.len() == input.len()
    &&& forall|j: int| 0 <= j < out.len() ==> 0 <= #[trigger] pos[j] < input.len() && out[j] == input[pos[j]]
    &&& forall|a: int, b: int|
        0 <= a < b < out.len() ==> lex_lt(input[pos[a]].index, pos[a], input[pos[b]].index, pos[b])
}

/// Orders passes by their index; passes of equal index keep their order.
pub fn sort_passes(passes: Vec<Pass>) -> (r: Vec<Pass>)
    ensures
        exists|pos: Seq<int>| sorted_by_index(passes@, r@, pos),
{
    let ghost input = passes@;
    let n = passes.len();
    let mut v = passes;
    let ghost mut pos: Seq<int> = Seq::new(n as nat, |j: int| j);
    let mut i: usize = 0;
    while i < n
        invariant
            i <= n,
            n == input.len(),
            v@.len() == n,
            pos.len() == n,
            forall|j: int| 0 <= j < n ==> 0 <= #[trigger] pos[j] < n && v@[j] == input[pos[j]],
            forall|j: int| i <= j < n ==> #[trigger] pos[j] == j,
            forall|j: int| 0 <= j < i ==> #[trigger] pos[j] < i,
            forall|a: int, b: int|
                0 <= a < b < i ==> lex_lt(input[pos[a]].index, pos[a], input[pos[b]].index, pos[b]),
        decreases n - i,
    {
        let x = v.remove(i);
        let ghost xi = pos[i as int];
        assert(xi == i);
        let mut j = i;
        while j > 0 && v[j - 1].index > x.index
            invariant
                j <= i,
                i < n,
                v@.len() == n - 1,
                forall|t: int| 0 <= t < i ==> v@[t] == input[pos[t]],
                forall|t: int| j <= t < i ==> input[pos[t]].index > x.index,
            decreases j,
        {
            j = j - 1;
        }
        let ghost old_pos = pos;
        proof {
            pos = old_pos.subrange(0, j as int).push(i as int) + old_pos.subrange(j as int, i as int)
                + old_pos.subrange(i + 1, n as int);
            assert(pos.len() == n);
            assert forall|t: int| 0 <= t < n implies 0 <= #[trigger] pos[t] < n && v@.insert(
                j as int,
                x,
            )[t] == input[pos[t]] by {
                if t < j {
                    assert(pos[t] == old_pos[t]);
                } else if t == j {
                } else if t <= i {
                    assert(pos[t] == old_pos[t - 1]);
                } else {
                    assert(pos[t] == old_pos[t]);
                }
            }
            assert forall|t: int| i + 1 <= t < n implies #[trigger] pos[t] == t by {
                assert(pos[t] == old_pos[t]);
            }
            assert forall|t: int| 0 <= t < i + 1 implies #[trigger] pos[t] < i + 1 by {
                if t < j {
                    assert(pos[t] == old_pos[t]);
                } else if t > j {
                    assert(pos[t] == old_pos[t - 1]);
                }
            }
            assert forall|a: int, b: int| 0 <= a < b < i + 1 implies lex_lt(
                input[pos[a]].index,
                pos[a],
                input[pos[b]].index,
                pos[b],
            ) by {
                let pa = if a < j {
                    old_pos[a]
                } else if a == j {
                    i as int
                } else {
                    old_pos[a - 1]
                };
                let pb = if b < j {
                    old_pos[b]
                } else if b == j {
                    i as int
                } else {
                    old_pos[b - 1]
                };
                assert(pos[a] == pa);
                assert(pos[b] == pb);
                if a == j {
                    assert(input[pb].index > x.index);
                } else if b == j {
                    if j > 0 {
                        assert(input[old_pos[j - 1]].index <= x.index);
                        if a < j - 1 {
                            assert(lex_lt(
                                input[old_pos[a]].index,
                                old_pos[a],
                                input[old_pos[j - 1]].index,
                                old_pos[j - 1],
                            ));
                        }
                    }
                    assert(old_pos[a] < i);
                } else {
                    let oa = if a < j {
                        a
                    } else {
                        a - 1
                    };
                    let ob = if b < j {
                        b
                    } else {
                        b - 1
                    };
                    assert(oa < ob);
                }
            }
        }
        v.insert(j, x);
        i = i + 1;
    }
    proof {
        assert(sorted_by_index(input, v@, pos));
    }
    v
}

// ---------------------------------------------------------------------------
// Shader stages
// ---------------------------------------------------------------------------

pub open spec fn spec_shader(s: Seq<char>) -> Option<Shader> {
    if s == seq!['v', 's'] {
        Some(Shader::Vertex)
    } else if s == seq!['f', 's'] {
        Some(Shader::Fragment)
    } else if s == seq!['c', 's'] {
        Some(Shader::Compute)
    } else {
        None
    }
}

/// The name a stage is written with in a technique: the initial of its
/// stage followed by `s`.
pub open spec fn stage_name(sh: Shader) -> Seq<char> {
    let initial = match sh {
        Shader::Vertex => 'v',
        Shader::Fragment => 'f',
        Shader::Compute => 'c',
    };
    seq![initial, 's']
}

/// A stage name is read as the stage it names and nothing else: a name is
/// read as a stage exactly when it is that stage's name, so distinct stages
/// have distinct names and each stage is read back from its own.
pub proof fn lemma_shader_names(s: Seq<char>, sh: Shader)
    ensures
        spec_shader(s) == Some(sh) <==> s == stage_name(sh),
        spec_shader(stage_name(sh)) == Some(sh),
{
    assert(seq!['v', 's'] != seq!['f', 's']) by {
        assert(seq!['v', 's'][0] != seq!['f', 's'][0]);
    }
    assert(seq!['v', 's'] != seq!['c', 's']) by {
        assert(seq!['v', 's'][0] != seq!['c', 's'][0]);
    }
    assert(seq!['f', 's'] != seq!['c', 's']) by {
        assert(seq!['f', 's'][0] != seq!['c', 's'][0]);
    }
    if spec_shader(s) == Some(sh) {
        assert(s =~= stage_name(sh));
    }
}

impl Shader {
    /// The stage written `s`, if any.
    pub fn from_name(s: &String) -> (r: Option<Shader>)
        ensures
            r == spec_shader(s@),
    {
        let vs = String::from_str("vs");
        let fs = String::from_str("fs");
        let cs = String::from_str("cs");
        proof {
            reveal_strlit("vs");
            reveal_strlit("fs");
            reveal_strlit("cs");
            assert(vs@ =~= seq!['v', 's']);
            assert(fs@ =~= seq!['f', 's']);
            assert(cs@ =~= seq!['c', 's']);
        }
        if *s == vs {
            Some(Shader::Vertex)
        } else if *s == fs {
            Some(Shader::Fragment)
        } else if *s == cs {
            Some(Shader::Compute)
        } else {
            None
        }
    }
}


// ---------------------------------------------------------------------------
// The compiler
// ---------------------------------------------------------------------------

pub open spec fn strings_view(v: Seq<String>) -> Seq<Seq<char>> {
    Seq::new(v.len(), |i: int| v[i]@)
}

/// The variants a pass offers.
pub open spec fn pass_units(p: Pass) -> Seq<Seq<char>> {
    match p.variants {
        Some(v) => strings_view(v.unit@),
        None => Seq::empty(),
    }
}

pub open spec fn true_text() -> Seq<char> {
    seq!['T', 'r', 'u', 'e']
}

/// The defines for the variants `vs`: each defined as `True`.
pub open spec fn variant_defines(vs: Seq<Seq<char>>) -> Seq<(Seq<char>, Seq<char>)>
    decreases vs.len(),
{
    if vs.len() == 0 {
        Seq::empty()
    } else {
        define_update(variant_defines(vs.drop_last()), vs.last(), true_text())
    }
}

/// The stages named by `names`, or the first name that names none.
pub open spec fn spec_shaders(names: Seq<Seq<char>>) -> Result<Seq<Shader>, int>
    decreases names.len(),
{
    if names.len() == 0 {
        Ok(Seq::empty())
    } else {
        match spec_shaders(names.drop_last()) {
            Err(i) => Err(i),
            Ok(s) => match spec_shader(names.last()) {
                Some(x) => Ok(s.push(x)),
                None => Err(names.len() - 1),
            },
        }
    }
}

/// A pass ready for its shader module: its name, preprocessed source and
/// stages.
pub struct PassShaderSourceDescriptor {
    pub name: String,
    pub source: String,
    pub entries: Vec<Shader>,
}

/// Compiles the passes of a technique.
#[derive(Debug)]
pub struct ShaderTechCompiler {
    config: Config,
    base_path: String,
    include_base_path: String,
    source: String,
}

impl ShaderTechCompiler {
    /// The passes, ordered by index.
    pub closed spec fn passes(&self) -> Seq<Pass> {
        self.config.pass@
    }

    /// The directory of the description file.
    pub closed spec fn base_path_view(&self) -> Seq<char> {
        self.base_path@
    }

    /// The directory descriptions are looked up in.
    pub closed spec fn include_base_path_view(&self) -> Seq<char> {
        self.include_base_path@
    }

    /// A compiler for the technique described by `config`, read from the file
    /// `source` in directory `base_path`, found in `include_base_path`. The
    /// passes are ordered by their index.
    pub fn from_config(config: Config, source: String, base_path: String, include_base_path: String) -> (r: Self)
        ensures
            exists|pos: Seq<int>| sorted_by_index(config.pass@, r.passes(), pos),
            r.base_path_view() == base_path@,
            r.include_base_path_view() == include_base_path@,
    {
        let ghost input = config.pass@;
        let Config { tech, pass } = config;
        let pass = sort_passes(pass);
        let r = ShaderTechCompiler { config: Config { tech, pass }, base_path, include_base_path, source };
        proof {
            let pos = choose|pos: Seq<int>| sorted_by_index(input, r.config.pass@, pos);
            assert(sorted_by_index(input, r.passes(), pos));
        }
        r
    }

    /// The number of passes.
    pub fn total_pass(&self) -> (r: usize)
        ensures
            r == self.passes().len(),
    {
        self.config.pass.len()
    }

    /// The number of passes.
    pub fn npass(&self) -> (r: usize)
        ensures
            r == self.passes().len(),
    {
        self.config.pass.len()
    }

    /// The source file of pass `pass_index`, relative to the base path.
    pub fn pass_source(&self, pass_index: usize) -> (r: &String)
        requires
            pass_index < self.passes().len(),
        ensures
            *r == self.passes()[pass_index as int].source,
    {
        &self.config.pass[pass_index].source
    }

    /// The directory of the description file.
    pub fn base_path(&self) -> (r: &String)
        ensures
            r@ == self.base_path_view(),
    {
        &self.base_path
    }

    /// The preprocessor for pass `pass_index` with `variants`: each variant
    /// defined as `True`, includes searched in the base path, then in the
    /// include base path. Refused when a variant is not one the pass offers.
    pub fn pass_preprocessor(&self, pass_index: usize, variants: &Vec<String>) -> (r: Result<
        Preprocessor,
        CompileError,
    >)
        requires
            pass_index < self.passes().len(),
        ensures
            match r {
                Ok(pre) => {
                    &&& pre.config.wf()
                    &&& forall|i: int| 0 <= i < variants@.len() ==> pass_units(self.passes()[pass_index as int]).contains(#[trigger] variants@[i]@)
                    &&& pre.config.defines_view() == variant_defines(strings_view(variants@))
                    &&& pre.config.includes_view() == seq![self.base_path_view(), self.include_base_path_view()]
                },
                Err(CompileError::UnknownVariant(n, p)) => {
                    &&& p == pass_index
                    &&& exists|i: int| {
                        &&& 0 <= i < variants@.len()
                        &&& !pass_units(self.passes()[pass_index as int]).contains(variants@[i]@)
                        &&& n@ == variants@[i]@
                        &&& forall|j: int| 0 <= j < i ==> pass_units(self.passes()[pass_index as int]).contains(#[trigger] variants@[j]@)
                    }
                },
                Err(_) => false,
            },
    {
        let pass = &self.config.pass[pass_index];
        let ghost units = pass_units(*pass);
        let ghost vs = strings_view(variants@);
        let empty: Vec<String> = Vec::new();
        let unit: &Vec<String> = match &pass.variants {
            Some(v) => &v.unit,
            None => &empty,
        };
        proof {
            assert(strings_view(unit@) =~= units);
        }
        let mut cfg = PreprocessorConfig::new();
        let mut i: usize = 0;
        proof {
            assert(vs.subrange(0, 0) =~= Seq::<Seq<char>>::empty());
        }
        while i < variants.len()
            invariant
                i <= variants@.len(),
                vs == strings_view(variants@),
                strings_view(unit@) == units,
                units == pass_units(self.passes()[pass_index as int]),
                cfg.wf(),
                cfg.includes_view() == Seq::<Seq<char>>::empty(),
                cfg.defines_view() == variant_defines(vs.subrange(0, i as int)),
                forall|j: int| 0 <= j < i ==> units.contains(#[trigger] variants@[j]@),
            decreases variants@.len() - i,
        {
            let mut found = false;
            let mut k: usize = 0;
            while k < unit.len()
                invariant
                    k <= unit@.len(),
                    strings_view(unit@) == units,
                    found == exists|t: int| 0 <= t < k && units[t] == variants@[i as int]@,
                    i < variants@.len(),
                decreases unit@.len() - k,
            {
                if unit[k] == variants[i] {
                    found = true;
                }
                proof {
                    if units[k as int] == variants@[i as int]@ {
                        assert(exists|t: int| 0 <= t < k + 1 && units[t] == variants@[i as int]@);
                    }
                    if found {
                        let t = choose|t: int| 0 <= t < k + 1 && units[t] == variants@[i as int]@;
                        assert(units[t] == variants@[i as int]@);
                    }
                }
                k = k + 1;
            }
            if !found {
                proof {
                    assert(!units.contains(variants@[i as int]@));
                }
                let name = variants[i].clone();
                return Err(CompileError::UnknownVariant(name, pass_index));
            }
            proof {
                let t = choose|t: int| 0 <= t < unit@.len() && units[t] == variants@[i as int]@;
                assert(units.contains(variants@[i as int]@));
            }
            let ghost d0 = cfg.defines_view();
            let t = String::from_str("True");
            proof {
                reveal_strlit("True");
                assert(t@ =~= true_text());
                assert(vs.subrange(0, i + 1).drop_last() =~= vs.subrange(0, i as int));
                assert(vs.subrange(0, i + 1).last() == variants@[i as int]@);
            }
            cfg = cfg.with_define(variants[i].clone(), t);
            proof {
                assert(cfg.defines_view() == define_update(d0, variants@[i as int]@, true_text()));
            }
            i = i + 1;
        }
        proof {
            assert(vs.subrange(0, variants@.len() as int) =~= vs);
        }
        cfg = cfg.with_include(self.base_path.clone());
        cfg = cfg.with_include(self.include_base_path.clone());
        proof {
            assert(cfg.includes_view() =~= seq![self.base_path_view(), self.include_base_path_view()]);
        }
        Ok(Preprocessor::new(cfg))
    }

    /// The descriptor of pass `pass_index` once its source is preprocessed
    /// into `source`: refused when a stage name is none of `vs`, `fs`, `cs`.
    pub fn describe_pass(&self, pass_index: usize, source: String) -> (r: Result<
        PassShaderSourceDescriptor,
        CompileError,
    >)
        requires
            pass_index < self.passes().len(),
        ensures
            match spec_shaders(strings_view(self.passes()[pass_index as int].shaders@)) {
                Ok(entries) => r matches Ok(d) && d.entries@ == entries && d.source == source && d.name == self.passes()[pass_index as int].name,
                Err(i) => r matches Err(CompileError::UnknownShader(n)) && n@ == self.passes()[pass_index as int].shaders@[i]@,
            },
    {
        let pass = &self.config.pass[pass_index];
        let ghost names = strings_view(pass.shaders@);
        let mut entries: Vec<Shader> = Vec::new();
        let mut i: usize = 0;
        proof {
            assert(names.subrange(0, 0) =~= Seq::<Seq<char>>::empty());
        }
        while i < pass.shaders.len()
            invariant
                i <= pass.shaders@.len(),
                pass_index < self.passes().len(),
                *pass == self.passes()[pass_index as int],
                names == strings_view(pass.shaders@),
                spec_shaders(names.subrange(0, i as int)) == Ok::<Seq<Shader>, int>(entries@),
            decreases pass.shaders@.len() - i,
        {
            proof {
                assert(names.subrange(0, i + 1).drop_last() =~= names.subrange(0, i as int));
            }
            match Shader::from_name(&pass.shaders[i]) {
                Some(x) => {
                    entries.push(x);
                },
                None => {
                    proof {
                        let sub = names.subrange(0, i + 1);
                        assert(sub.last() == names[i as int]);
                        assert(sub.len() - 1 == i);
                        assert(spec_shaders(sub) == Err::<Seq<Shader>, int>(i as int));
                        lemma_shaders_fail(names, i as int + 1, i as int);
                        assert(*pass == self.passes()[pass_index as int]);
                    }
                    return Err(CompileError::UnknownShader(pass.shaders[i].clone()));
                },
            }
            i = i + 1;
        }
        proof {
            assert(names.subrange(0, pass.shaders@.len() as int) =~= names);
        }
        Ok(PassShaderSourceDescriptor { name: pass.name.clone(), source, entries })
    }
}

proof fn lemma_shaders_fail(names: Seq<Seq<char>>, k: int, i: int)
    requires
        0 <= k <= names.len(),
        spec_shaders(names.subrange(0, k)) == Err::<Seq<Shader>, int>(i),
    ensures
        spec_shaders(names) == Err::<Seq<Shader>, int>(i),
    decreases names.len() - k,
{
    if k == names.len() {
        assert(names.subrange(0, k) =~= names);
    } else {
        assert(names.subrange(0, k + 1).drop_last() =~= names.subrange(0, k));
        lemma_shaders_fail(names, k + 1, i);
    }
}

} // verus!
