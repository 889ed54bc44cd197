//! The layout of a render pipeline, planned from what shader reflection
//! reports: the vertex buffers with their attributes, and the bind group
//! layouts with their entries. The GPU objects are created by the caller
//! from the plan.

use vstd::prelude::*;
use crate::tshader::tech::{view_is_array, view_is_cube, view_rank, TextureSampleType, TextureViewDimension};

verus! {

/// A scalar as reflection reports it, with its width in bytes.
#[derive(Debug, Clone, Copy, PartialEq, Eq, Structural)]
pub enum ScalarType {
    Signed(u32),
    Unsigned(u32),
    Float(u32),
    Boolean,
}

/// The format of a vertex attribute in a vertex buffer.
#[derive(Debug, Clone, Copy, PartialEq, Eq, Structural)]
pub enum AttributeFormat {
    Sint8x2,
    Sint8x4,
    Sint16x2,
    Sint16x4,
    Sint32,
    Sint32x2,
    Sint32x3,
    Sint32x4,
    Uint8x2,
    Uint8x4,
    Uint16x2,
    Uint16x4,
    Uint32,
    Uint32x2,
    Uint32x3,
    Uint32x4,
    Float16x2,
    Float16x4,
    Float32,
    Float32x2,
    Float32x3,
    Float32x4,
    Float64,
    Float64x2,
    Float64x3,
    Float64x4,
}

/// The kind of component of a format: 0 signed, 1 unsigned, 2 float.
pub open spec fn component_kind(f: AttributeFormat) -> int {
    match f {
        AttributeFormat::Sint8x2 | AttributeFormat::Sint8x4 | AttributeFormat::Sint16x2
        | AttributeFormat::Sint16x4 | AttributeFormat::Sint32 | AttributeFormat::Sint32x2
        | AttributeFormat::Sint32x3 | AttributeFormat::Sint32x4 => 0,
        AttributeFormat::Uint8x2 | AttributeFormat::Uint8x4 | AttributeFormat::Uint16x2
        | AttributeFormat::Uint16x4 | AttributeFormat::Uint32 | AttributeFormat::Uint32x2
        | AttributeFormat::Uint32x3 | AttributeFormat::Uint32x4 => 1,
        _ => 2,
    }
}

/// The width of a component of a format, in bytes.
pub open spec fn component_bytes(f: AttributeFormat) -> int {
    match f {
        AttributeFormat::Sint8x2 | AttributeFormat::Sint8x4 | AttributeFormat::Uint8x2
        | AttributeFormat::Uint8x4 => 1,
        AttributeFormat::Sint16x2 | AttributeFormat::Sint16x4 | AttributeFormat::Uint16x2
        | AttributeFormat::Uint16x4 | AttributeFormat::Float16x2
        | AttributeFormat::Float16x4 => 2,
        AttributeFormat::Float64 | AttributeFormat::Float64x2 | AttributeFormat::Float64x3
        | AttributeFormat::Float64x4 => 8,
        _ => 4,
    }
}

/// The number of components of a format.
pub open spec fn component_count(f: AttributeFormat) -> int {
    match f {
        AttributeFormat::Sint32 | AttributeFormat::Uint32 | AttributeFormat::Float32
        | AttributeFormat::Float64 => 1,
        AttributeFormat::Sint8x2 | AttributeFormat::Sint16x2 | AttributeFormat::Sint32x2
        | AttributeFormat::Uint8x2 | AttributeFormat::Uint16x2 | AttributeFormat::Uint32x2
        | AttributeFormat::Float16x2 | AttributeFormat::Float32x2
        | AttributeFormat::Float64x2 => 2,
        AttributeFormat::Sint32x3 | AttributeFormat::Uint32x3 | AttributeFormat::Float32x3
        | AttributeFormat::Float64x3 => 3,
        _ => 4,
    }
}

/// The size of an attribute of format `f`, in bytes.
pub open spec fn format_size(f: AttributeFormat) -> int {
    component_bytes(f) * component_count(f)
}

/// The kind code and width of a scalar, where it has a vertex format.
pub open spec fn scalar_kind(s: ScalarType) -> Option<(int, int)> {
    match s {
        ScalarType::Signed(b) => Some((0, b as int)),
        ScalarType::Unsigned(b) => Some((1, b as int)),
        ScalarType::Float(b) => Some((2, b as int)),
        ScalarType::Boolean => None,
    }
}

/// Whether a vector of `n` scalars of kind `kind` and width `bytes` has a
/// vertex format: integers of one or two bytes in pairs or quadruples, floats
/// of two bytes the same, and four-byte scalars (and eight-byte floats) one
/// to four at a time.
pub open spec fn has_format(kind: int, bytes: int, n: int) -> bool {
    ||| (bytes == 1 && kind != 2 && (n == 2 || n == 4))
    ||| (bytes == 2 && (n == 2 || n == 4))
    ||| (bytes == 4 && 1 <= n <= 4)
    ||| (bytes == 8 && kind == 2 && 1 <= n <= 4)
}

/// The format of `n` components of kind `kind` and width `bytes`.
pub open spec fn format_with(kind: int, bytes: int, n: int) -> AttributeFormat {
    choose|f: AttributeFormat|
        component_kind(f) == kind && component_bytes(f) == bytes && component_count(f) == n
}

/// The format of `n` scalars of type `s`.
pub open spec fn format_for(s: ScalarType, n: u32) -> AttributeFormat {
    let kind_bytes = scalar_kind(s)->0;
    format_with(kind_bytes.0, kind_bytes.1, n as int)
}

/// A format is fixed by the kind, width and number of its components.
pub proof fn lemma_format_unique(f: AttributeFormat, g: AttributeFormat)
    requires
        component_kind(f) == component_kind(g),
        component_bytes(f) == component_bytes(g),
        component_count(f) == component_count(g),
    ensures
        f == g,
{
}

/// The vertex format of `n` scalars of type `s`, where one exists.
pub fn scalar_format(s: &ScalarType, n: u32) -> (r: Option<AttributeFormat>)
    ensures
        r == if scalar_kind(*s) matches Some((kind, bytes)) && has_format(kind, bytes, n as int) {
            Some(format_for(*s, n))
        } else {
            None::<AttributeFormat>
        },
        match scalar_kind(*s) {
            Some((kind, bytes)) => match r {
                Some(f) => has_format(kind, bytes, n as int) && component_kind(f) == kind
                    && component_bytes(f) == bytes && component_count(f) == n,
                None => !has_format(kind, bytes, n as int),
            },
            None => r is None,
        },
{
    let r = match *s {
        ScalarType::Signed(b) => {
            if b == 1 && n == 2 {
                Some(AttributeFormat::Sint8x2)
            } else if b == 1 && n == 4 {
                Some(AttributeFormat::Sint8x4)
            } else if b == 2 && n == 2 {
                Some(AttributeFormat::Sint16x2)
            } else if b == 2 && n == 4 {
                Some(AttributeFormat::Sint16x4)
            } else if b == 4 && n == 1 {
                Some(AttributeFormat::Sint32)
            } else if b == 4 && n == 2 {
                Some(AttributeFormat::Sint32x2)
            } else if b == 4 && n == 3 {
                Some(AttributeFormat::Sint32x3)
            } else if b == 4 && n == 4 {
                Some(AttributeFormat::Sint32x4)
            } else {
                None
            }
        },
        ScalarType::Unsigned(b) => {
            if b == 1 && n == 2 {
                Some(AttributeFormat::Uint8x2)
            } else if b == 1 && n == 4 {
                Some(AttributeFormat::Uint8x4)
            } else if b == 2 && n == 2 {
                Some(AttributeFormat::Uint16x2)
            } else if b == 2 && n == 4 {
                Some(AttributeFormat::Uint16x4)
            } else if b == 4 && n == 1 {
                Some(AttributeFormat::Uint32)
            } else if b == 4 && n == 2 {
                Some(AttributeFormat::Uint32x2)
            } else if b == 4 && n == 3 {
                Some(AttributeFormat::Uint32x3)
            } else if b == 4 && n == 4 {
                Some(AttributeFormat::Uint32x4)
            } else {
                None
            }
        },
        ScalarType::Float(b) => {
            if b == 2 && n == 2 {
                Some(AttributeFormat::Float16x2)
            } else if b == 2 && n == 4 {
                Some(AttributeFormat::Float16x4)
            } else if b == 4 && n == 1 {
                Some(AttributeFormat::Float32)
            } else if b == 4 && n == 2 {
                Some(AttributeFormat::Float32x2)
            } else if b == 4 && n == 3 {
                Some(AttributeFormat::Float32x3)
            } else if b == 4 && n == 4 {
                Some(AttributeFormat::Float32x4)
            } else if b == 8 && n == 1 {
                Some(AttributeFormat::Float64)
            } else if b == 8 && n == 2 {
                Some(AttributeFormat::Float64x2)
            } else if b == 8 && n == 3 {
                Some(AttributeFormat::Float64x3)
            } else if b == 8 && n == 4 {
                Some(AttributeFormat::Float64x4)
            } else {
                None
            }
        },
        ScalarType::Boolean => None,
    };
    proof {
        if let Some(f) = r {
            let g = format_for(*s, n);
            assert(component_kind(g) == component_kind(f) && component_bytes(g)
                == component_bytes(f) && component_count(g) == component_count(f));
            lemma_format_unique(f, g);
        }
    }
    r
}

impl AttributeFormat {
    /// The size of an attribute of this format, in bytes.
    pub fn size(&self) -> (r: u64)
        ensures
            r == format_size(*self),
            1 <= r <= 32,
    {
        match *self {
            AttributeFormat::Sint8x2 | AttributeFormat::Uint8x2 => 2,
            AttributeFormat::Sint8x4 | AttributeFormat::Uint8x4 | AttributeFormat::Sint16x2
            | AttributeFormat::Uint16x2 | AttributeFormat::Float16x2 | AttributeFormat::Sint32
            | AttributeFormat::Uint32 | AttributeFormat::Float32 => 4,
            AttributeFormat::Sint16x4 | AttributeFormat::Uint16x4 | AttributeFormat::Float16x4
            | AttributeFormat::Sint32x2 | AttributeFormat::Uint32x2 | AttributeFormat::Float32x2
            | AttributeFormat::Float64 => 8,
            AttributeFormat::Sint32x3 | AttributeFormat::Uint32x3
            | AttributeFormat::Float32x3 => 12,
            AttributeFormat::Sint32x4 | AttributeFormat::Uint32x4 | AttributeFormat::Float32x4
            | AttributeFormat::Float64x2 => 16,
            AttributeFormat::Float64x3 => 24,
            AttributeFormat::Float64x4 => 32,
        }
    }
}

/// The dimensionality of an image as reflection reports it.
#[derive(Debug, Clone, Copy, PartialEq, Eq, Structural)]
pub enum ImageDim {
    Dim1D,
    Dim2D,
    Dim3D,
    Cube,
    Rect,
    Buffer,
    SubpassData,
}

/// Whether an image of dimensionality `dim` can be viewed: rectangles,
/// buffers and subpass data cannot, nor arrays of 1D or 3D images.
pub open spec fn view_supported(dim: ImageDim, is_array: bool) -> bool {
    match dim {
        ImageDim::Dim1D | ImageDim::Dim3D => !is_array,
        ImageDim::Dim2D | ImageDim::Cube => true,
        _ => false,
    }
}

pub open spec fn spec_view_dimension(dim: ImageDim, is_array: bool) -> TextureViewDimension {
    match dim {
        ImageDim::Dim1D => TextureViewDimension::D1,
        ImageDim::Dim2D => if is_array {
            TextureViewDimension::D2Array
        } else {
            TextureViewDimension::D2
        },
        ImageDim::Dim3D => TextureViewDimension::D3,
        _ => if is_array {
            TextureViewDimension::CubeArray
        } else {
            TextureViewDimension::Cube
        },
    }
}

/// The number of coordinates of an image of dimensionality `dim`, where it
/// can be viewed.
pub open spec fn image_dim_rank(dim: ImageDim) -> int {
    match dim {
        ImageDim::Dim1D => 1,
        ImageDim::Dim3D => 3,
        _ => 2,
    }
}

/// An image is viewed with its own shape: as many coordinates, a cube as a
/// cube, and an array as an array.
pub proof fn lemma_view_keeps_shape(dim: ImageDim, is_array: bool)
    requires
        view_supported(dim, is_array),
    ensures
        view_rank(spec_view_dimension(dim, is_array)) == image_dim_rank(dim),
        view_is_cube(spec_view_dimension(dim, is_array)) == (dim == ImageDim::Cube),
        view_is_array(spec_view_dimension(dim, is_array)) == is_array,
{
}

/// How an image of dimensionality `dim` is viewed.
pub fn image_view_dimension(dim: ImageDim, is_array: bool) -> (r: TextureViewDimension)
    requires
        view_supported(dim, is_array),
    ensures
        r == spec_view_dimension(dim, is_array),
{
    match dim {
        ImageDim::Dim1D => TextureViewDimension::D1,
        ImageDim::Dim2D => if is_array {
            TextureViewDimension::D2Array
        } else {
            TextureViewDimension::D2
        },
        ImageDim::Dim3D => TextureViewDimension::D3,
        _ => if is_array {
            TextureViewDimension::CubeArray
        } else {
            TextureViewDimension::Cube
        },
    }
}

/// Positions `(set, binding)` in their order: by set, then by binding.
pub open spec fn key_lt(a: (u32, u32), b: (u32, u32)) -> bool {
    a.0 < b.0 || (a.0 == b.0 && a.1 < b.1)
}

/// Entries sorted by position, each position at most once.
pub open spec fn sorted_keys<V>(s: Seq<((u32, u32), V)>) -> bool {
    forall|i: int, j: int| 0 <= i < j < s.len() ==> key_lt(#[trigger] s[i].0, #[trigger] s[j].0)
}

/// The number of entries of `s` placed before position `k`.
pub open spec fn slot<V>(s: Seq<((u32, u32), V)>, k: (u32, u32)) -> int
    decreases s.len(),
{
    if s.len() == 0 {
        0
    } else if key_lt(s.last().0, k) {
        s.len() as int
    } else {
        slot(s.drop_last(), k)
    }
}

/// The entry at position `k`, if there is one.
pub open spec fn lookup<V>(s: Seq<((u32, u32), V)>, k: (u32, u32)) -> Option<V> {
    let i = slot(s, k);
    if i < s.len() && s[i].0 == k {
        Some(s[i].1)
    } else {
        None
    }
}

/// `s` with `v` at position `k`, in place of an entry there.
pub open spec fn seq_insert<V>(s: Seq<((u32, u32), V)>, k: (u32, u32), v: V) -> Seq<((u32, u32), V)> {
    let i = slot(s, k);
    if i < s.len() && s[i].0 == k {
        s.update(i, (k, v))
    } else {
        s.insert(i, (k, v))
    }
}

/// In sorted entries, the entries before the slot of `k` lie before `k` and
/// the others do not.
proof fn lemma_slot<V>(s: Seq<((u32, u32), V)>, k: (u32, u32))
    requires
        sorted_keys(s),
    ensures
        0 <= slot(s, k) <= s.len(),
        forall|j: int| 0 <= j < slot(s, k) ==> key_lt(#[trigger] s[j].0, k),
        forall|j: int| slot(s, k) <= j < s.len() ==> !key_lt(#[trigger] s[j].0, k),
    decreases s.len(),
{
    if s.len() > 0 {
        let t = s.drop_last();
        assert(sorted_keys(t)) by {
            assert forall|i: int, j: int| 0 <= i < j < t.len() implies key_lt(
                #[trigger] t[i].0,
                #[trigger] t[j].0,
            ) by {
                assert(t[i] == s[i] && t[j] == s[j]);
            }
        }
        lemma_slot(t, k);
        if !key_lt(s.last().0, k) {
            assert forall|j: int| slot(s, k) <= j < s.len() implies !key_lt(#[trigger] s[j].0, k) by {
                if j < s.len() - 1 {
                    assert(t[j] == s[j]);
                }
            }
            assert forall|j: int| 0 <= j < slot(s, k) implies key_lt(#[trigger] s[j].0, k) by {
                assert(t[j] == s[j]);
            }
        } else {
            assert forall|j: int| 0 <= j < slot(s, k) implies key_lt(#[trigger] s[j].0, k) by {
                if j < s.len() - 1 {
                    assert(key_lt(s[j].0, s[s.len() - 1].0));
                }
            }
        }
    }
}

/// An index that splits sorted entries into those before `k` and the
/// others is the slot of `k`.
proof fn lemma_slot_unique<V>(s: Seq<((u32, u32), V)>, k: (u32, u32), i: int)
    requires
        sorted_keys(s),
        0 <= i <= s.len(),
        forall|j: int| 0 <= j < i ==> key_lt(#[trigger] s[j].0, k),
        forall|j: int| i <= j < s.len() ==> !key_lt(#[trigger] s[j].0, k),
    ensures
        slot(s, k) == i,
{
    lemma_slot(s, k);
    let m = slot(s, k);
    if m < i {
        assert(key_lt(s[m].0, k));
    } else if i < m {
        assert(key_lt(s[i].0, k));
    }
}

/// Inserting keeps entries sorted.
proof fn lemma_insert_sorted<V>(s: Seq<((u32, u32), V)>, k: (u32, u32), v: V)
    requires
        sorted_keys(s),
    ensures
        sorted_keys(seq_insert(s, k, v)),
{
    lemma_slot(s, k);
    let i = slot(s, k);
    let t = seq_insert(s, k, v);
    let found = i < s.len() && s[i].0 == k;
    assert forall|a: int, b: int| 0 <= a < b < t.len() implies key_lt(
        #[trigger] t[a].0,
        #[trigger] t[b].0,
    ) by {
        if found {
            if b == i {
                assert(key_lt(s[a].0, s[i].0));
            } else if a == i {
                assert(key_lt(s[i].0, s[b].0));
            } else {
                assert(t[a] == s[a] && t[b] == s[b]);
                assert(key_lt(s[a].0, s[b].0));
            }
        } else {
            if a < i && b == i {
                assert(t[a] == s[a]);
            } else if a == i {
                assert(t[b] == s[b - 1]);
                assert(!key_lt(s[b - 1].0, k));
                assert(s[b - 1].0 != k) by {
                    if b - 1 > i {
                        assert(key_lt(s[i].0, s[b - 1].0));
                    }
                }
            } else if a < i {
                assert(t[a] == s[a]);
                if b < i {
                    assert(t[b] == s[b]);
                    assert(key_lt(s[a].0, s[b].0));
                } else {
                    assert(t[b] == s[b - 1]);
                    assert(key_lt(s[a].0, s[b - 1].0));
                }
            } else {
                assert(t[a] == s[a - 1] && t[b] == s[b - 1]);
                assert(key_lt(s[a - 1].0, s[b - 1].0));
            }
        }
    }
}

/// After inserting at `k`, a lookup of `k2` finds the new entry at `k` and
/// the old ones elsewhere.
proof fn lemma_insert_lookup<V>(s: Seq<((u32, u32), V)>, k: (u32, u32), v: V, k2: (u32, u32))
    requires
        sorted_keys(s),
    ensures
        lookup(seq_insert(s, k, v), k2) == if k2 == k {
            Some(v)
        } else {
            lookup(s, k2)
        },
{
    lemma_slot(s, k);
    lemma_insert_sorted(s, k, v);
    let i = slot(s, k);
    let t = seq_insert(s, k, v);
    let found = i < s.len() && s[i].0 == k;
    lemma_slot(s, k2);
    let j = slot(s, k2);
    if k2 == k {
        assert forall|x: int| i <= x < t.len() implies !key_lt(#[trigger] t[x].0, k2) by {
            if x > i {
                if found {
                    assert(t[x] == s[x]);
                } else {
                    assert(t[x] == s[x - 1]);
                }
            }
        }
        assert forall|x: int| 0 <= x < i implies key_lt(#[trigger] t[x].0, k2) by {
            assert(t[x] == s[x]);
        }
        lemma_slot_unique(t, k2, i);
    } else if key_lt(k2, k) {
        assert(j <= i) by {
            if j > i {
                assert(key_lt(s[i].0, k2));
            }
        }
        assert forall|x: int| j <= x < t.len() implies !key_lt(#[trigger] t[x].0, k2) by {
            if x < i {
                assert(t[x] == s[x]);
            } else if x == i {
            } else if found {
                assert(t[x] == s[x]);
            } else {
                assert(t[x] == s[x - 1]);
            }
        }
        assert forall|x: int| 0 <= x < j implies key_lt(#[trigger] t[x].0, k2) by {
            assert(t[x] == s[x]);
        }
        lemma_slot_unique(t, k2, j);
        if j < s.len() && s[j].0 == k2 {
            assert(j < i);
            assert(t[j] == s[j]);
        }
        if j < t.len() && t[j].0 == k2 {
            assert(j != i);
            assert(t[j] == s[j]);
        }
    } else {
        let jt = if found {
            j
        } else {
            j + 1
        };
        assert(j >= i) by {
            if j < i {
                assert(!key_lt(s[j].0, k2));
            }
        }
        assert(found ==> j > i) by {
            if found && j == i {
                assert(!key_lt(s[i].0, k2));
            }
        }
        assert forall|x: int| jt <= x < t.len() implies !key_lt(#[trigger] t[x].0, k2) by {
            if found {
                assert(t[x] == s[x]);
            } else {
                assert(t[x] == s[x - 1]);
            }
        }
        assert forall|x: int| 0 <= x < jt implies key_lt(#[trigger] t[x].0, k2) by {
            if x < i {
                assert(t[x] == s[x]);
            } else if x == i {
            } else if found {
                assert(t[x] == s[x]);
            } else {
                assert(t[x] == s[x - 1]);
            }
        }
        lemma_slot_unique(t, k2, jt);
        if found && j < s.len() {
            assert(t[j] == s[j]);
        } else if !found && jt < t.len() {
            assert(t[jt] == s[j]);
        }
    }
}

/// Inserting keeps entries sorted, and a lookup then finds the new entry at
/// its position and the old ones elsewhere.
pub proof fn lemma_seq_insert<V>(s: Seq<((u32, u32), V)>, k: (u32, u32), v: V)
    requires
        sorted_keys(s),
    ensures
        sorted_keys(seq_insert(s, k, v)),
        forall|k2: (u32, u32)| #[trigger] lookup(seq_insert(s, k, v), k2) == if k2 == k {
            Some(v)
        } else {
            lookup(s, k2)
        },
{
    lemma_insert_sorted(s, k, v);
    assert forall|k2: (u32, u32)| #[trigger] lookup(seq_insert(s, k, v), k2) == if k2 == k {
        Some(v)
    } else {
        lookup(s, k2)
    } by {
        lemma_insert_lookup(s, k, v, k2);
    }
}

/// The slot of position `k` in sorted entries.
fn find_slot<V>(v: &Vec<((u32, u32), V)>, k: (u32, u32)) -> (r: usize)
    requires
        sorted_keys(v@),
    ensures
        r == slot(v@, k),
{
    let mut i: usize = 0;
    while i < v.len() && (v[i].0.0 < k.0 || (v[i].0.0 == k.0 && v[i].0.1 < k.1))
        invariant
            i <= v@.len(),
            sorted_keys(v@),
            forall|j: int| 0 <= j < i ==> key_lt(#[trigger] v@[j].0, k),
        decreases v@.len() - i,
    {
        i = i + 1;
    }
    proof {
        assert forall|j: int| i <= j < v@.len() implies !key_lt(#[trigger] v@[j].0, k) by {
            if j > i {
                assert(key_lt(v@[i as int].0, v@[j].0));
            }
        }
        lemma_slot_unique(v@, k, i as int);
    }
    i
}

/// Puts `val` at position `k`, in place of an entry there.
fn insert_entry<V>(v: &mut Vec<((u32, u32), V)>, k: (u32, u32), val: V)
    requires
        sorted_keys(old(v)@),
    ensures
        final(v)@ == seq_insert(old(v)@, k, val),
        sorted_keys(final(v)@),
{
    proof {
        lemma_seq_insert(v@, k, val);
        lemma_slot(v@, k);
    }
    let i = find_slot(v, k);
    if i < v.len() && v[i].0.0 == k.0 && v[i].0.1 == k.1 {
        v.set(i, (k, val));
    } else {
        v.insert(i, (k, val));
    }
}

/// The entry at position `k`, if there is one.
fn find_entry<V>(v: &Vec<((u32, u32), V)>, k: (u32, u32)) -> (r: Option<&V>)
    requires
        sorted_keys(v@),
    ensures
        match lookup(v@, k) {
            Some(x) => r == Some(&x),
            None => r is None,
        },
{
    let i = find_slot(v, k);
    if i < v.len() && v[i].0.0 == k.0 && v[i].0.1 == k.1 {
        Some(&v[i].1)
    } else {
        None
    }
}

/// The stage a shader runs in; a binding is visible to that stage.
#[derive(Debug, Clone, Copy, PartialEq, Eq, Structural)]
pub enum ShaderStage {
    Vertex,
    Fragment,
    Compute,
}

/// An image type as reflection reports it.
#[derive(Debug, Clone, Copy, PartialEq, Eq, Structural)]
pub struct ImageInfo {
    pub dim: ImageDim,
    pub is_array: bool,
    pub is_multisampled: bool,
    pub is_depth: Option<bool>,
}

/// The type of a reflected variable.
#[derive(Debug, Clone, Copy, PartialEq, Eq, Structural)]
pub enum ReflectedType {
    Scalar(ScalarType),
    /// A vector of the scalar, with its number of components.
    Vector(ScalarType, u32),
    Struct,
    Image(ImageInfo),
    SampledImage(ImageInfo),
    Other,
}

/// What a descriptor binds.
#[derive(Debug, Clone, Copy, PartialEq, Eq, Structural)]
pub enum DescriptorKind {
    UniformBuffer,
    SampledImage,
    Sampler,
    InputAttachment,
    AccelStruct,
    Other,
}

/// A variable of a shader entry point, as reflection reports it.
#[derive(Debug, Clone, Copy, PartialEq, Eq, Structural)]
pub enum ReflectedVariable {
    Input { component: u32, location: u32, ty: ReflectedType },
    Output { component: u32, location: u32, ty: ReflectedType },
    Descriptor { set: u32, binding: u32, kind: DescriptorKind, ty: ReflectedType },
    PushConstant { ty: ReflectedType },
    SpecConstant { ty: ReflectedType },
}

/// What a bind group entry binds: a uniform buffer with a dynamic offset, a
/// texture, or a non-filtering sampler.
#[derive(Debug, Clone, Copy, PartialEq, Eq, Structural)]
pub enum BindingKind {
    UniformBuffer,
    Texture {
        multisampled: bool,
        view_dimension: TextureViewDimension,
        sample_type: TextureSampleType,
    },
    Sampler,
}

/// An entry of a bind group layout.
#[derive(Debug, Clone, Copy, PartialEq, Eq, Structural)]
pub struct LayoutEntry {
    pub binding: u32,
    pub visibility: ShaderStage,
    pub kind: BindingKind,
}

/// Why a pipeline layout is refused: a binding is declared by two stages
/// with different types.
#[derive(Debug, Clone, Copy, PartialEq, Eq, Structural)]
pub enum LayoutError {
    RepeatedBinding(u32),
}

pub open spec fn var_type(v: ReflectedVariable) -> ReflectedType {
    match v {
        ReflectedVariable::Input { ty, .. } => ty,
        ReflectedVariable::Output { ty, .. } => ty,
        ReflectedVariable::Descriptor { ty, .. } => ty,
        ReflectedVariable::PushConstant { ty } => ty,
        ReflectedVariable::SpecConstant { ty } => ty,
    }
}

/// The scalar and component count of a scalar or vector type.
pub open spec fn type_components(t: ReflectedType) -> Option<(ScalarType, u32)> {
    match t {
        ReflectedType::Scalar(sc) => Some((sc, 1u32)),
        ReflectedType::Vector(sc, n) => Some((sc, n)),
        _ => None,
    }
}

/// Whether a scalar or vector type has a vertex format (other types need
/// none).
pub open spec fn type_formattable(t: ReflectedType) -> bool {
    match type_components(t) {
        Some((sc, n)) => scalar_kind(sc) matches Some((kind, bytes)) && has_format(
            kind,
            bytes,
            n as int,
        ),
        None => true,
    }
}

/// Every scalar or vector variable has a vertex format.
pub open spec fn inputs_formattable(vars: Seq<ReflectedVariable>) -> bool {
    forall|i: int| 0 <= i < vars.len() ==> type_formattable(var_type(#[trigger] vars[i]))
}

/// The vertex attributes `s` after the inputs among `vars` are placed, each
/// at `(component, location)`.
pub open spec fn inputs_after(
    s: Seq<((u32, u32), AttributeFormat)>,
    vars: Seq<ReflectedVariable>,
) -> Seq<((u32, u32), AttributeFormat)>
    decreases vars.len(),
{
    if vars.len() == 0 {
        s
    } else {
        let next = match vars[0] {
            ReflectedVariable::Input { component, location, ty } => match type_components(ty) {
                Some((sc, n)) => seq_insert(s, (component, location), format_for(sc, n)),
                None => s,
            },
            _ => s,
        };
        inputs_after(next, vars.skip(1))
    }
}

/// Whether a descriptor of kind `kind` and type `ty` can be bound.
pub open spec fn descriptor_supported(kind: DescriptorKind, ty: ReflectedType) -> bool {
    match kind {
        DescriptorKind::UniformBuffer => ty is Struct,
        DescriptorKind::SampledImage => match ty {
            ReflectedType::Image(img) => view_supported(img.dim, img.is_array),
            ReflectedType::SampledImage(img) => view_supported(img.dim, img.is_array),
            _ => false,
        },
        DescriptorKind::Sampler => true,
        _ => false,
    }
}

/// The layout entry of a descriptor: an image is sampled as depth where it
/// is a depth image, and as unfilterable floats otherwise.
pub open spec fn spec_descriptor_entry(
    binding: u32,
    stage: ShaderStage,
    kind: DescriptorKind,
    ty: ReflectedType,
) -> LayoutEntry {
    let k = match kind {
        DescriptorKind::UniformBuffer => BindingKind::UniformBuffer,
        DescriptorKind::Sampler => BindingKind::Sampler,
        _ => match ty {
            ReflectedType::Image(img) => BindingKind::Texture {
                multisampled: img.is_multisampled,
                view_dimension: spec_view_dimension(img.dim, img.is_array),
                sample_type: if img.is_depth == Some(true) {
                    TextureSampleType::Depth
                } else {
                    TextureSampleType::Float { filterable: false }
                },
            },
            ReflectedType::SampledImage(img) => BindingKind::Texture {
                multisampled: img.is_multisampled,
                view_dimension: spec_view_dimension(img.dim, img.is_array),
                sample_type: TextureSampleType::Float { filterable: false },
            },
            _ => BindingKind::Sampler,
        },
    };
    LayoutEntry { binding, visibility: stage, kind: k }
}

/// Whether an entry already at a position and a new one conflict: they are
/// seen by different stages and bind different things.
pub open spec fn conflicts(old_entry: LayoutEntry, new_entry: LayoutEntry) -> bool {
    old_entry.visibility != new_entry.visibility && old_entry.kind != new_entry.kind
}

/// The entries `s` after the descriptors among `vars` of a shader of stage
/// `stage` are placed at `(set, binding)`, and the binding that stopped it
/// where two stages declare it differently. A position that is taken keeps
/// its first entry.
pub open spec fn bindings_after(
    s: Seq<((u32, u32), LayoutEntry)>,
    vars: Seq<ReflectedVariable>,
    stage: ShaderStage,
) -> (Seq<((u32, u32), LayoutEntry)>, Option<u32>)
    decreases vars.len(),
{
    if vars.len() == 0 {
        (s, None)
    } else {
        match vars[0] {
            ReflectedVariable::Descriptor { set, binding, kind, ty } => {
                let e = spec_descriptor_entry(binding, stage, kind, ty);
                match lookup(s, (set, binding)) {
                    Some(old_entry) => if conflicts(old_entry, e) {
                        (s, Some(binding))
                    } else {
                        bindings_after(s, vars.skip(1), stage)
                    },
                    None => bindings_after(seq_insert(s, (set, binding), e), vars.skip(1), stage),
                }
            },
            _ => bindings_after(s, vars.skip(1), stage),
        }
    }
}

/// Every descriptor that is reached before a conflict stops the placing can
/// be bound.
pub open spec fn bindings_supported(
    s: Seq<((u32, u32), LayoutEntry)>,
    vars: Seq<ReflectedVariable>,
    stage: ShaderStage,
) -> bool
    decreases vars.len(),
{
    if vars.len() == 0 {
        true
    } else {
        match vars[0] {
            ReflectedVariable::Descriptor { set, binding, kind, ty } => {
                &&& descriptor_supported(kind, ty)
                &&& {
                    let e = spec_descriptor_entry(binding, stage, kind, ty);
                    match lookup(s, (set, binding)) {
                        Some(old_entry) => conflicts(old_entry, e) || bindings_supported(
                            s,
                            vars.skip(1),
                            stage,
                        ),
                        None => bindings_supported(
                            seq_insert(s, (set, binding), e),
                            vars.skip(1),
                            stage,
                        ),
                    }
                }
            },
            _ => bindings_supported(s, vars.skip(1), stage),
        }
    }
}

/// The layout entry of a descriptor at binding `binding` of a shader of
/// stage `stage`.
pub fn descriptor_entry(binding: u32, stage: ShaderStage, kind: DescriptorKind, ty: &ReflectedType) -> (r: LayoutEntry)
    requires
        descriptor_supported(kind, *ty),
    ensures
        r == spec_descriptor_entry(binding, stage, kind, *ty),
{
    let k = match kind {
        DescriptorKind::UniformBuffer => BindingKind::UniformBuffer,
        DescriptorKind::Sampler => BindingKind::Sampler,
        _ => match *ty {
            ReflectedType::Image(img) => {
                let sample_type = match img.is_depth {
                    Some(true) => TextureSampleType::Depth,
                    _ => TextureSampleType::Float { filterable: false },
                };
                BindingKind::Texture {
                    multisampled: img.is_multisampled,
                    view_dimension: image_view_dimension(img.dim, img.is_array),
                    sample_type,
                }
            },
            ReflectedType::SampledImage(img) => BindingKind::Texture {
                multisampled: img.is_multisampled,
                view_dimension: image_view_dimension(img.dim, img.is_array),
                sample_type: TextureSampleType::Float { filterable: false },
            },
            _ => BindingKind::Sampler,
        },
    };
    LayoutEntry { binding, visibility: stage, kind: k }
}

/// The layout of a render pipeline being gathered from its shaders: the
/// vertex attributes by `(component, location)` and the bind group entries
/// by `(set, binding)`, and the last refusal.
pub struct PipelineReflector {
    vertex_attrs: Vec<((u32, u32), AttributeFormat)>,
    entries: Vec<((u32, u32), LayoutEntry)>,
    err: Option<LayoutError>,
}

impl PipelineReflector {
    pub closed spec fn attrs(&self) -> Seq<((u32, u32), AttributeFormat)> {
        self.vertex_attrs@
    }

    pub closed spec fn entries(&self) -> Seq<((u32, u32), LayoutEntry)> {
        self.entries@
    }

    pub closed spec fn error(&self) -> Option<LayoutError> {
        self.err
    }

    pub closed spec fn wf(&self) -> bool {
        sorted_keys(self.vertex_attrs@) && sorted_keys(self.entries@)
    }

    /// Nothing gathered yet.
    pub fn new() -> (r: Self)
        ensures
            r.wf(),
            r.attrs() == Seq::<((u32, u32), AttributeFormat)>::empty(),
            r.entries() == Seq::<((u32, u32), LayoutEntry)>::empty(),
            r.error() is None,
    {
        PipelineReflector { vertex_attrs: Vec::new(), entries: Vec::new(), err: None }
    }

    /// Places the vertex inputs among `vars`.
    fn build_vertex_input(&mut self, vars: &Vec<ReflectedVariable>)
        requires
            old(self).wf(),
            inputs_formattable(vars@),
        ensures
            final(self).wf(),
            final(self).attrs() == inputs_after(old(self).attrs(), vars@),
            final(self).entries() == old(self).entries(),
            final(self).error() == old(self).error(),
    {
        let mut i: usize = 0;
        proof {
            assert(vars@.skip(0) =~= vars@);
        }
        while i < vars.len()
            invariant
                self.wf(),
                i <= vars@.len(),
                inputs_formattable(vars@),
                inputs_after(self.vertex_attrs@, vars@.skip(i as int)) == inputs_after(
                    old(self).attrs(),
                    vars@,
                ),
                self.entries@ == old(self).entries(),
                self.err == old(self).error(),
            decreases vars@.len() - i,
        {
            let ghost before = self.vertex_attrs@;
            let v = vars[i];
            assert(type_formattable(var_type(vars@[i as int])));
            let comps: Option<(ScalarType, u32)> = match v {
                ReflectedVariable::Input { ty, .. } | ReflectedVariable::Output { ty, .. }
                | ReflectedVariable::Descriptor { ty, .. } | ReflectedVariable::PushConstant {
                    ty,
                } | ReflectedVariable::SpecConstant { ty } => match ty {
                    ReflectedType::Scalar(sc) => Some((sc, 1u32)),
                    ReflectedType::Vector(sc, n) => Some((sc, n)),
                    _ => None,
                },
            };
            if let Some((sc, n)) = comps {
                let format = match scalar_format(&sc, n) {
                    Some(f) => f,
                    None => {
                        proof {
                            assert(false);
                        }
                        AttributeFormat::Float32
                    },
                };
                if let ReflectedVariable::Input { component, location, .. } = v {
                    insert_entry(&mut self.vertex_attrs, (component, location), format);
                }
            }
            proof {
                assert(vars@.skip(i as int).skip(1) =~= vars@.skip(i + 1));
                assert(vars@.skip(i as int)[0] == v);
            }
            i = i + 1;
        }
        proof {
            assert(vars@.skip(i as int) =~= Seq::<ReflectedVariable>::empty());
        }
    }

    /// Places the descriptors among `vars` of a shader of stage `stage`; a
    /// binding that another stage declares differently stops it.
    fn build_bind_group_layout(&mut self, vars: &Vec<ReflectedVariable>, stage: ShaderStage) -> (r: Result<(), LayoutError>)
        requires
            old(self).wf(),
            bindings_supported(old(self).entries(), vars@, stage),
        ensures
            final(self).wf(),
            final(self).entries() == bindings_after(old(self).entries(), vars@, stage).0,
            match bindings_after(old(self).entries(), vars@, stage).1 {
                Some(b) => r == Err::<(), LayoutError>(LayoutError::RepeatedBinding(b)),
                None => r is Ok,
            },
            final(self).attrs() == old(self).attrs(),
            final(self).error() == old(self).error(),
    {
        let mut i: usize = 0;
        proof {
            assert(vars@.skip(0) =~= vars@);
        }
        while i < vars.len()
            invariant
                self.wf(),
                i <= vars@.len(),
                bindings_after(self.entries@, vars@.skip(i as int), stage) == bindings_after(
                    old(self).entries(),
                    vars@,
                    stage,
                ),
                bindings_supported(self.entries@, vars@.skip(i as int), stage),
                self.vertex_attrs@ == old(self).attrs(),
                self.err == old(self).error(),
            decreases vars@.len() - i,
        {
            let v = vars[i];
            proof {
                assert(vars@.skip(i as int).skip(1) =~= vars@.skip(i + 1));
                assert(vars@.skip(i as int)[0] == v);
            }
            if let ReflectedVariable::Descriptor { set, binding, kind, ty } = v {
                let e = descriptor_entry(binding, stage, kind, &ty);
                let conflict = match find_entry(&self.entries, (set, binding)) {
                    Some(old_entry) => {
                        if old_entry.visibility != e.visibility && old_entry.kind != e.kind {
                            Some(true)
                        } else {
                            Some(false)
                        }
                    },
                    None => None,
                };
                match conflict {
                    Some(true) => {
                        return Err(LayoutError::RepeatedBinding(binding));
                    },
                    Some(false) => {},
                    None => {
                        insert_entry(&mut self.entries, (set, binding), e);
                    },
                }
            }
            i = i + 1;
        }
        proof {
            assert(vars@.skip(i as int) =~= Seq::<ReflectedVariable>::empty());
        }
        Ok(())
    }
}

/// An attribute of a vertex buffer: its format, its offset in the buffer
/// and the shader location it feeds.
#[derive(Debug, Clone, Copy, PartialEq, Eq, Structural)]
pub struct VertexAttribute {
    pub format: AttributeFormat,
    pub offset: u64,
    pub shader_location: u32,
}

/// A vertex buffer: the distance between its vertices and its attributes.
#[derive(Debug, Clone)]
pub struct VertexBufferLayout {
    pub array_stride: u64,
    pub attributes: Vec<VertexAttribute>,
}

/// The planned layout of a render pipeline: its vertex buffers and its bind
/// group layouts, each the list of its entries.
#[derive(Debug, Clone)]
pub struct PipelineLayout {
    pub vertex_buffers: Vec<VertexBufferLayout>,
    pub bind_group_layouts: Vec<Vec<LayoutEntry>>,
}

pub open spec fn attribute_view(x: VertexAttribute) -> (AttributeFormat, int, u32) {
    (x.format, x.offset as int, x.shader_location)
}

pub open spec fn buffer_view(b: VertexBufferLayout) -> (int, Seq<(AttributeFormat, int, u32)>) {
    (b.array_stride as int, b.attributes@.map_values(|x: VertexAttribute| attribute_view(x)))
}

/// The vertex buffers of attributes sorted by `(component, location)`: one
/// buffer for each run of attributes of one component, the attributes packed
/// in order from offset 0, the stride their total size.
pub open spec fn vertex_buffers(a: Seq<((u32, u32), AttributeFormat)>) -> Seq<(int, Seq<(AttributeFormat, int, u32)>)>
    decreases a.len(),
{
    if a.len() == 0 {
        Seq::empty()
    } else {
        let prev = vertex_buffers(a.drop_last());
        let key = a.last().0;
        let f = a.last().1;
        let prev_key = a[a.len() - 2].0;
        if a.len() >= 2 && prev_key.0 == key.0 && prev.len() > 0 {
            let g = prev.last();
            prev.drop_last().push((g.0 + format_size(f), g.1.push((f, g.0, key.1))))
        } else {
            prev.push((format_size(f), seq![(f, 0int, key.1)]))
        }
    }
}

/// Every vertex buffer's stride fits in 64 bits.
pub open spec fn strides_fit(a: Seq<((u32, u32), AttributeFormat)>) -> bool {
    forall|j: int| 0 <= j < vertex_buffers(a).len() ==> #[trigger] vertex_buffers(a)[j].0 <= u64::MAX
}

/// The bind group layouts of entries sorted by `(set, binding)`: one layout
/// for each run of entries of one set, in order.
pub open spec fn bind_groups(e: Seq<((u32, u32), LayoutEntry)>) -> Seq<Seq<LayoutEntry>>
    decreases e.len(),
{
    if e.len() == 0 {
        Seq::empty()
    } else {
        let prev = bind_groups(e.drop_last());
        let key = e.last().0;
        let prev_key = e[e.len() - 2].0;
        if e.len() >= 2 && prev_key.0 == key.0 && prev.len() > 0 {
            prev.drop_last().push(prev.last().push(e.last().1))
        } else {
            prev.push(seq![e.last().1])
        }
    }
}

/// The buffers of a prefix of the attributes are no more, nor wider, than
/// those of all of them.
proof fn lemma_prefix_strides(a: Seq<((u32, u32), AttributeFormat)>, k: int)
    requires
        0 <= k <= a.len(),
    ensures
        vertex_buffers(a.take(k)).len() <= vertex_buffers(a).len(),
        forall|j: int|
            0 <= j < vertex_buffers(a.take(k)).len() ==> #[trigger] vertex_buffers(a.take(k))[j].0
                <= vertex_buffers(a)[j].0,
    decreases a.len(),
{
    if k == a.len() {
        assert(a.take(k) =~= a);
    } else {
        let t = a.drop_last();
        lemma_prefix_strides(t, k);
        assert(t.take(k) =~= a.take(k));
        let prev = vertex_buffers(t);
        let vb = vertex_buffers(a);
        assert forall|j: int| 0 <= j < prev.len() implies #[trigger] prev[j].0 <= vb[j].0 by {
            let f = a.last().1;
            assert(format_size(f) >= 1) by {
                assert(component_bytes(f) >= 1 && component_count(f) >= 1);
                assert(component_bytes(f) * component_count(f) >= 1) by (nonlinear_arith)
                    requires
                        component_bytes(f) >= 1 && component_count(f) >= 1,
                ;
            }
        }
    }
}

impl PipelineReflector {
    /// Gathers the layout of a vertex shader with variables `vars`: its
    /// inputs and its descriptors. A refusal is kept for `build`.
    pub fn add_vs(self, vars: &Vec<ReflectedVariable>) -> (r: Self)
        requires
            self.wf(),
            inputs_formattable(vars@),
            bindings_supported(self.entries(), vars@, ShaderStage::Vertex),
        ensures
            r.wf(),
            r.attrs() == inputs_after(self.attrs(), vars@),
            r.entries() == bindings_after(self.entries(), vars@, ShaderStage::Vertex).0,
            r.error() == match bindings_after(self.entries(), vars@, ShaderStage::Vertex).1 {
                Some(b) => Some(LayoutError::RepeatedBinding(b)),
                None => self.error(),
            },
    {
        let mut s = self;
        s.build_vertex_input(vars);
        if let Err(e) = s.build_bind_group_layout(vars, ShaderStage::Vertex) {
            s.err = Some(e);
        }
        s
    }

    /// Gathers the layout of a fragment shader with variables `vars`: its
    /// descriptors. A refusal is kept for `build`.
    pub fn add_fs(self, vars: &Vec<ReflectedVariable>) -> (r: Self)
        requires
            self.wf(),
            bindings_supported(self.entries(), vars@, ShaderStage::Fragment),
        ensures
            r.wf(),
            r.attrs() == self.attrs(),
            r.entries() == bindings_after(self.entries(), vars@, ShaderStage::Fragment).0,
            r.error() == match bindings_after(self.entries(), vars@, ShaderStage::Fragment).1 {
                Some(b) => Some(LayoutError::RepeatedBinding(b)),
                None => self.error(),
            },
    {
        let mut s = self;
        if let Err(e) = s.build_bind_group_layout(vars, ShaderStage::Fragment) {
            s.err = Some(e);
        }
        s
    }

    /// The planned layout, or the refusal that was kept.
    pub fn build(self) -> (r: Result<PipelineLayout, LayoutError>)
        requires
            self.wf(),
            self.error() is None ==> strides_fit(self.attrs()),
        ensures
            match self.error() {
                Some(e) => r == Err::<PipelineLayout, LayoutError>(e),
                None => r matches Ok(layout) && layout.vertex_buffers@.map_values(
                    |b: VertexBufferLayout| buffer_view(b),
                ) == vertex_buffers(self.attrs()) && layout.bind_group_layouts@.map_values(
                    |g: Vec<LayoutEntry>| g@,
                ) == bind_groups(self.entries()),
            },
    {
        if let Some(e) = self.err {
            return Err(e);
        }
        let vertex_buffers = plan_vertex_buffers(&self.vertex_attrs);
        let bind_group_layouts = plan_bind_groups(&self.entries);
        Ok(PipelineLayout { vertex_buffers, bind_group_layouts })
    }
}

/// The vertex buffers of attributes sorted by position.
fn plan_vertex_buffers(attrs: &Vec<((u32, u32), AttributeFormat)>) -> (r: Vec<VertexBufferLayout>)
    requires
        strides_fit(attrs@),
    ensures
        r@.map_values(|b: VertexBufferLayout| buffer_view(b)) == vertex_buffers(attrs@),
{
    let ghost a = attrs@;
    let mut buffers: Vec<VertexBufferLayout> = Vec::new();
    let mut cur: Vec<VertexAttribute> = Vec::new();
    let mut stride: u64 = 0;
    let mut cur_set: u32 = 0;
    let mut i: usize = 0;
    while i < attrs.len()
        invariant
            a == attrs@,
            strides_fit(a),
            i <= a.len(),
            i == 0 ==> buffers@.len() == 0,
            i > 0 ==> {
                let key = a[i - 1].0;
                &&& cur_set == key.0
                &&& buffers@.map_values(|b: VertexBufferLayout| buffer_view(b)).push(
                    (stride as int, cur@.map_values(|x: VertexAttribute| attribute_view(x))),
                ) == vertex_buffers(a.take(i as int))
            },
        decreases a.len() - i,
    {
        let key = attrs[i].0;
        let f = attrs[i].1;
        let size = f.size();
        let ghost old_buffers = buffers@.map_values(|b: VertexBufferLayout| buffer_view(b));
        let ghost old_cur = (stride as int, cur@.map_values(|x: VertexAttribute| attribute_view(x)));
        proof {
            let t = a.take(i + 1);
            assert(t.drop_last() =~= a.take(i as int));
            assert(t.last() == a[i as int]);
            if i > 0 {
                assert(t[t.len() - 2] == a[i - 1]);
            }
            lemma_prefix_strides(a, i + 1);
        }
        let extend = i > 0 && cur_set == key.0;
        if extend {
            proof {
                let vb = vertex_buffers(a.take(i + 1));
                assert(vb.len() == old_buffers.len() + 1);
                assert(vb[vb.len() - 1].0 == stride + format_size(f));
                assert(vb[vb.len() - 1].0 <= vertex_buffers(a)[vb.len() - 1].0);
            }
            cur.push(VertexAttribute { format: f, offset: stride, shader_location: key.1 });
            stride = stride + size;
        } else {
            if i > 0 {
                buffers.push(VertexBufferLayout { array_stride: stride, attributes: cur });
            }
            cur = Vec::new();
            cur.push(VertexAttribute { format: f, offset: 0, shader_location: key.1 });
            stride = size;
            cur_set = key.0;
        }
        proof {
            let nb = buffers@.map_values(|b: VertexBufferLayout| buffer_view(b));
            let nc = cur@.map_values(|x: VertexAttribute| attribute_view(x));
            if extend {
                assert(nb =~= old_buffers);
                assert(nc =~= old_cur.1.push((f, old_cur.0, key.1)));
            } else if i > 0 {
                assert(nb =~= old_buffers.push(old_cur));
                assert(nc =~= seq![(f, 0int, key.1)]);
            } else {
                assert(nb =~= Seq::<(int, Seq<(AttributeFormat, int, u32)>)>::empty());
                assert(nc =~= seq![(f, 0int, key.1)]);
            }
            let t = a.take(i + 1);
            let prev = vertex_buffers(t.drop_last());
            let g = prev.last();
            assert(vertex_buffers(t) == if t.len() >= 2 && t[t.len() - 2].0.0 == t.last().0.0
                && prev.len() > 0 {
                prev.drop_last().push(
                    (g.0 + format_size(f), g.1.push((f, g.0, t.last().0.1))),
                )
            } else {
                prev.push((format_size(f), seq![(f, 0int, t.last().0.1)]))
            });
            if i > 0 {
                assert(prev == old_buffers.push(old_cur));
                assert(prev.drop_last() =~= old_buffers);
                assert(g == old_cur);
            }
            assert(nb.push((stride as int, nc)) =~= vertex_buffers(a.take(i + 1)));
        }
        i = i + 1;
    }
    if i > 0 {
        buffers.push(VertexBufferLayout { array_stride: stride, attributes: cur });
    }
    proof {
        assert(a.take(i as int) =~= a);
        if i == 0 {
            assert(buffers@.map_values(|b: VertexBufferLayout| buffer_view(b)) =~= Seq::<
                (int, Seq<(AttributeFormat, int, u32)>),
            >::empty());
        }
    }
    buffers
}

/// The bind group layouts of entries sorted by position.
fn plan_bind_groups(entries: &Vec<((u32, u32), LayoutEntry)>) -> (r: Vec<Vec<LayoutEntry>>)
    ensures
        r@.map_values(|g: Vec<LayoutEntry>| g@) == bind_groups(entries@),
{
    let ghost e = entries@;
    let mut groups: Vec<Vec<LayoutEntry>> = Vec::new();
    let mut cur: Vec<LayoutEntry> = Vec::new();
    let mut cur_set: u32 = 0;
    let mut i: usize = 0;
    while i < entries.len()
        invariant
            e == entries@,
            i <= e.len(),
            i == 0 ==> groups@.len() == 0,
            i > 0 ==> {
                let key = e[i - 1].0;
                &&& cur_set == key.0
                &&& groups@.map_values(|g: Vec<LayoutEntry>| g@).push(cur@) == bind_groups(
                    e.take(i as int),
                )
            },
        decreases e.len() - i,
    {
        let key = entries[i].0;
        let x = entries[i].1;
        let ghost old_groups = groups@.map_values(|g: Vec<LayoutEntry>| g@);
        let ghost old_cur = cur@;
        proof {
            let t = e.take(i + 1);
            assert(t.drop_last() =~= e.take(i as int));
            assert(t.last() == e[i as int]);
            if i > 0 {
                assert(t[t.len() - 2] == e[i - 1]);
            }
        }
        let extend = i > 0 && cur_set == key.0;
        if extend {
            cur.push(x);
        } else {
            if i > 0 {
                groups.push(cur);
            }
            cur = Vec::new();
            cur.push(x);
            cur_set = key.0;
        }
        proof {
            let ng = groups@.map_values(|g: Vec<LayoutEntry>| g@);
            if extend {
                assert(ng =~= old_groups);
            } else if i > 0 {
                assert(ng =~= old_groups.push(old_cur));
            } else {
                assert(ng =~= Seq::<Seq<LayoutEntry>>::empty());
            }
            assert(cur@ =~= if extend {
                old_cur.push(x)
            } else {
                seq![x]
            });
            let t = e.take(i + 1);
            let prev = bind_groups(t.drop_last());
            assert(bind_groups(t) == if t.len() >= 2 && t[t.len() - 2].0.0 == t.last().0.0
                && prev.len() > 0 {
                prev.drop_last().push(prev.last().push(t.last().1))
            } else {
                prev.push(seq![t.last().1])
            });
            if i > 0 {
                assert(prev == old_groups.push(old_cur));
                assert(prev.drop_last() =~= old_groups);
                assert(prev.last() == old_cur);
            }
            assert(ng.push(cur@) =~= bind_groups(e.take(i + 1)));
        }
        i = i + 1;
    }
    if i > 0 {
        groups.push(cur);
    }
    proof {
        assert(e.take(i as int) =~= e);
        if i == 0 {
            assert(groups@.map_values(|g: Vec<LayoutEntry>| g@) =~= Seq::<Seq<LayoutEntry>>::empty());
        }
    }
    groups
}

/// A position that holds a bind group entry keeps that entry, whatever
/// descriptors of later shaders are placed: a later declaration is either
/// accepted as the same binding or refused.
pub proof fn lemma_first_entry_kept(
    s: Seq<((u32, u32), LayoutEntry)>,
    vars: Seq<ReflectedVariable>,
    stage: ShaderStage,
    p: (u32, u32),
)
    requires
        sorted_keys(s),
        lookup(s, p) is Some,
    ensures
        lookup(bindings_after(s, vars, stage).0, p) == lookup(s, p),
    decreases vars.len(),
{
    if vars.len() > 0 {
        match vars[0] {
            ReflectedVariable::Descriptor { set, binding, kind, ty } => {
                let e = spec_descriptor_entry(binding, stage, kind, ty);
                match lookup(s, (set, binding)) {
                    Some(old_entry) => {
                        if !conflicts(old_entry, e) {
                            lemma_first_entry_kept(s, vars.skip(1), stage, p);
                        }
                    },
                    None => {
                        lemma_seq_insert(s, (set, binding), e);
                        let t = seq_insert(s, (set, binding), e);
                        assert(lookup(t, p) == lookup(s, p));
                        lemma_first_entry_kept(t, vars.skip(1), stage, p);
                    },
                }
            },
            _ => {
                lemma_first_entry_kept(s, vars.skip(1), stage, p);
            },
        }
    }
}

/// A vertex buffer whose attributes are packed: the first at offset 0, each
/// next one right after the one before it, and the stride just past the
/// last.
pub open spec fn packed(g: (int, Seq<(AttributeFormat, int, u32)>)) -> bool {
    &&& g.1.len() > 0
    &&& g.1[0].1 == 0
    &&& forall|k: int|
        1 <= k < g.1.len() ==> #[trigger] g.1[k].1 == g.1[k - 1].1 + format_size(g.1[k - 1].0)
    &&& g.0 == g.1.last().1 + format_size(g.1.last().0)
}

/// Every planned vertex buffer holds its attributes packed.
pub proof fn lemma_buffers_packed(a: Seq<((u32, u32), AttributeFormat)>)
    ensures
        forall|j: int|
            0 <= j < vertex_buffers(a).len() ==> packed(#[trigger] vertex_buffers(a)[j]),
    decreases a.len(),
{
    if a.len() > 0 {
        let t = a.drop_last();
        lemma_buffers_packed(t);
        let prev = vertex_buffers(t);
        let vb = vertex_buffers(a);
        let key = a.last().0;
        let f = a.last().1;
        let prev_key = a[a.len() - 2].0;
        if a.len() >= 2 && prev_key.0 == key.0 && prev.len() > 0 {
            let g = prev.last();
            assert(packed(prev[prev.len() - 1]));
            let ng = (g.0 + format_size(f), g.1.push((f, g.0, key.1)));
            assert(packed(ng)) by {
                assert forall|k: int| 1 <= k < ng.1.len() implies #[trigger] ng.1[k].1 == ng.1[k
                    - 1].1 + format_size(ng.1[k - 1].0) by {
                    if k < g.1.len() {
                        assert(ng.1[k] == g.1[k] && ng.1[k - 1] == g.1[k - 1]);
                    }
                }
            }
            assert forall|j: int| 0 <= j < vb.len() implies packed(#[trigger] vb[j]) by {
                if j < vb.len() - 1 {
                    assert(vb[j] == prev[j]);
                }
            }
        } else {
            assert forall|j: int| 0 <= j < vb.len() implies packed(#[trigger] vb[j]) by {
                if j < vb.len() - 1 {
                    assert(vb[j] == prev[j]);
                }
            }
        }
    }
}

} // verus!
