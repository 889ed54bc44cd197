use vstd::prelude::*;
use vstd::arithmetic::power2::{lemma2_to64, pow2};
use crate::tshader::tech::{
    view_is_array, view_is_cube, view_rank,
    GlobalVariable, PushConstant, TextureSampleType, TextureViewDimension, UniformSampler, UniformStruct,
    UniformSubVariable, UniformTexture, VertexFormat,
};

verus! {

/// Reads the resources and inputs of a pass from its shader module.
#[derive(Debug, Default)]
pub struct ShaderPassReflection {}

// ---------------------------------------------------------------------------
// Shader types, as reflection reads them
// ---------------------------------------------------------------------------

#[derive(Debug, Clone, Copy, PartialEq, Eq, Structural)]
pub enum ScalarKind {
    Sint,
    Uint,
    Float,
    Bool,
    AbstractInt,
    AbstractFloat,
}

/// A scalar type: its kind and width in bytes.
#[derive(Debug, Clone, Copy, PartialEq, Eq, Structural)]
pub struct Scalar {
    pub kind: ScalarKind,
    pub width: u8,
}

/// The number of components of a vector, or of rows or columns of a matrix.
#[derive(Debug, Clone, Copy, PartialEq, Eq, Structural)]
pub enum VectorSize {
    Bi,
    Tri,
    Quad,
}

#[derive(Debug, Clone, Copy, PartialEq, Eq, Structural)]
pub enum ImageDimension {
    D1,
    D2,
    D3,
    Cube,
}

#[derive(Debug, Clone, Copy, PartialEq, Eq, Structural)]
pub enum ImageClass {
    Sampled { kind: ScalarKind, multi: bool },
    Depth { multi: bool },
    Storage,
}

/// A member of a struct type: its name and the index of its type.
#[derive(Debug, Clone)]
pub struct StructMember {
    pub name: Option<String>,
    pub ty: usize,
}

/// A type of a shader module. Types refer to others by their index in the
/// module's type list.
#[derive(Debug, Clone)]
pub enum TypeInner {
    Scalar(Scalar),
    Vector { size: VectorSize, scalar: Scalar },
    Matrix { columns: VectorSize, rows: VectorSize, scalar: Scalar },
    Atomic(Scalar),
    Array { base: usize, stride: u32 },
    Struct { members: Vec<StructMember>, span: u32 },
    Image { dim: ImageDimension, arrayed: bool, class: ImageClass },
    Sampler { comparison: bool },
    Other,
}

/// Whether every type refers only to types listed before it, as in a shader
/// module's type arena.
pub open spec fn types_wf(types: Seq<TypeInner>) -> bool {
    forall|i: int| 0 <= i < types.len() ==> match #[trigger] types[i] {
        TypeInner::Array { base, .. } => base < i,
        TypeInner::Struct { members, .. } => forall|j: int|
            0 <= j < members@.len() ==> #[trigger] members@[j].ty < i,
        _ => true,
    }
}

/// Why reflection refuses a type.
#[derive(Debug, Clone, Copy, PartialEq, Eq, Structural)]
pub enum ReflectError {
    /// A one-dimensional texture array.
    D1Array,
    /// A three-dimensional texture array.
    D3Array,
    /// A storage texture.
    StorageImage,
    /// A scalar of a width that vertex inputs do not take.
    ScalarWidth(u8),
    /// A scalar kind that vertex inputs do not take.
    ScalarKindUnsupported,
    /// A vector whose components give no vertex format.
    VertexFormatUnsupported,
    /// A struct as a vertex input.
    StructInput,
    /// A type that vertex inputs do not take.
    VertexTypeUnsupported,
    /// A handle to a global variable or type that the module does not have.
    BadHandle,
    /// A global variable without a name.
    UnnamedGlobal,
    /// A global variable whose name has no group name.
    NoGroupName,
    /// A uniform, texture or sampler without a binding.
    NoBinding,
}

// ---------------------------------------------------------------------------
// Textures and vertex formats
// ---------------------------------------------------------------------------

pub open spec fn spec_image_dimension(dim: ImageDimension, array: bool) -> Result<
    TextureViewDimension,
    ReflectError,
> {
    match dim {
        ImageDimension::D1 => if array {
            Err(ReflectError::D1Array)
        } else {
            Ok(TextureViewDimension::D1)
        },
        ImageDimension::D2 => Ok(
            if array {
                TextureViewDimension::D2Array
            } else {
                TextureViewDimension::D2
            },
        ),
        ImageDimension::D3 => if array {
            Err(ReflectError::D3Array)
        } else {
            Ok(TextureViewDimension::D3)
        },
        ImageDimension::Cube => Ok(
            if array {
                TextureViewDimension::CubeArray
            } else {
                TextureViewDimension::Cube
            },
        ),
    }
}

pub open spec fn spec_image_sample_type(class: ImageClass) -> Result<
    (TextureSampleType, bool),
    ReflectError,
> {
    match class {
        ImageClass::Sampled { multi, .. } => Ok((TextureSampleType::Float { filterable: true }, multi)),
        ImageClass::Depth { multi } => Ok((TextureSampleType::Depth, multi)),
        ImageClass::Storage => Err(ReflectError::StorageImage),
    }
}

pub open spec fn spec_scalar_format(kind: ScalarKind, width: u8) -> Result<VertexFormat, ReflectError> {
    match kind {
        ScalarKind::Sint => if width == 4 {
            Ok(VertexFormat::Sint32)
        } else {
            Err(ReflectError::ScalarWidth(width))
        },
        ScalarKind::Uint => if width == 4 {
            Ok(VertexFormat::Uint32)
        } else {
            Err(ReflectError::ScalarWidth(width))
        },
        ScalarKind::Float => if width == 4 {
            Ok(VertexFormat::Float32)
        } else if width == 8 {
            Ok(VertexFormat::Float64)
        } else {
            Err(ReflectError::ScalarWidth(width))
        },
        _ => Err(ReflectError::ScalarKindUnsupported),
    }
}

/// The vertex format of a vector of `size` components of format `f`. Two
/// component integer vectors get the three component format.
pub open spec fn spec_vector_format(f: VertexFormat, size: VectorSize) -> Result<
    VertexFormat,
    ReflectError,
> {
    match f {
        VertexFormat::Float32 => Ok(
            match size {
                VectorSize::Bi => VertexFormat::Float32x2,
                VectorSize::Tri => VertexFormat::Float32x3,
                VectorSize::Quad => VertexFormat::Float32x4,
            },
        ),
        VertexFormat::Uint32 => Ok(
            match size {
                VectorSize::Bi => VertexFormat::Uint32x3,
                VectorSize::Tri => VertexFormat::Uint32x3,
                VectorSize::Quad => VertexFormat::Uint32x4,
            },
        ),
        VertexFormat::Sint32 => Ok(
            match size {
                VectorSize::Bi => VertexFormat::Sint32x3,
                VectorSize::Tri => VertexFormat::Sint32x3,
                VectorSize::Quad => VertexFormat::Sint32x4,
            },
        ),
        VertexFormat::Float64 => Ok(
            match size {
                VectorSize::Bi => VertexFormat::Float64x2,
                VectorSize::Tri => VertexFormat::Float64x3,
                VectorSize::Quad => VertexFormat::Float64x4,
            },
        ),
        _ => Err(ReflectError::VertexFormatUnsupported),
    }
}

pub open spec fn spec_vertex_format(ty: TypeInner) -> Result<VertexFormat, ReflectError> {
    match ty {
        TypeInner::Scalar(s) => spec_scalar_format(s.kind, s.width),
        TypeInner::Vector { size, scalar } => match spec_scalar_format(scalar.kind, scalar.width) {
            Ok(f) => spec_vector_format(f, size),
            Err(e) => Err(e),
        },
        TypeInner::Struct { .. } => Err(ReflectError::StructInput),
        _ => Err(ReflectError::VertexTypeUnsupported),
    }
}

/// The kind of number each component of a vertex format holds.
pub open spec fn format_kind(f: VertexFormat) -> ScalarKind {
    match f {
        VertexFormat::Sint32 | VertexFormat::Sint32x3 | VertexFormat::Sint32x4 => ScalarKind::Sint,
        VertexFormat::Uint32 | VertexFormat::Uint32x3 | VertexFormat::Uint32x4 => ScalarKind::Uint,
        _ => ScalarKind::Float,
    }
}

/// The width in bytes of each component of a vertex format.
pub open spec fn format_width(f: VertexFormat) -> int {
    match f {
        VertexFormat::Float64 | VertexFormat::Float64x2 | VertexFormat::Float64x3
        | VertexFormat::Float64x4 => 8,
        _ => 4,
    }
}

/// The number of components of a vertex format.
pub open spec fn format_count(f: VertexFormat) -> int {
    match f {
        VertexFormat::Sint32 | VertexFormat::Uint32 | VertexFormat::Float32 | VertexFormat::Float64 => 1,
        VertexFormat::Float32x2 | VertexFormat::Float64x2 => 2,
        VertexFormat::Float32x3 | VertexFormat::Uint32x3 | VertexFormat::Sint32x3
        | VertexFormat::Float64x3 => 3,
        _ => 4,
    }
}

/// Whether a scalar of this kind and width can be a vertex input: 32-bit
/// integers, and 32- or 64-bit floats.
pub open spec fn vertex_scalar(kind: ScalarKind, width: u8) -> bool {
    ((kind == ScalarKind::Sint || kind == ScalarKind::Uint) && width == 4) || (kind == ScalarKind::Float
        && (width == 4 || width == 8))
}

/// A vertex input is read with a format whose components are its own: the
/// same kind of number, the same width, and one component for a scalar and
/// one per coordinate for a vector, except that a two-coordinate integer
/// vector is given the three-component format. Exactly the scalars and
/// vectors of supported numbers have a format.
pub proof fn lemma_vertex_format_components(ty: TypeInner)
    ensures
        ty matches TypeInner::Scalar(s) ==> {
            &&& spec_vertex_format(ty) is Ok <==> vertex_scalar(s.kind, s.width)
            &&& spec_vertex_format(ty) matches Ok(f) ==> {
                &&& format_kind(f) == s.kind
                &&& format_width(f) == s.width
                &&& format_count(f) == 1
            }
        },
        ty matches TypeInner::Vector { size, scalar } ==> {
            &&& spec_vertex_format(ty) is Ok <==> vertex_scalar(scalar.kind, scalar.width)
            &&& spec_vertex_format(ty) matches Ok(f) ==> {
                &&& format_kind(f) == scalar.kind
                &&& format_width(f) == scalar.width
                &&& format_count(f) == if scalar.kind != ScalarKind::Float && size == VectorSize::Bi {
                    3
                } else {
                    vector_count(size) as int
                }
            }
        },
        !(ty is Scalar || ty is Vector) ==> spec_vertex_format(ty) is Err,
{
}

// ---------------------------------------------------------------------------
// Sizes and alignments
// ---------------------------------------------------------------------------

/// `value` rounded up to a multiple of `alignment`.
pub open spec fn align_up(value: int, alignment: int) -> int {
    if value % alignment == 0 {
        value
    } else {
        value + alignment - value % alignment
    }
}

/// Whether `wgpu::util::align_to(value, alignment)` returns: the alignment
/// is not zero, and `value + alignment` does not overflow unless `value` is
/// already aligned.
pub open spec fn align_ok(value: int, alignment: int) -> bool {
    alignment > 0 && (value % alignment == 0 || value + alignment <= u32::MAX)
}

/// Rounds `value` up to a multiple of `alignment`, as `wgpu::util::align_to`.
pub fn align_to(value: u32, alignment: u32) -> (r: u32)
    requires
        align_ok(value as int, alignment as int),
    ensures
        r == align_up(value as int, alignment as int),
{
    let remainder = value % alignment;
    if remainder == 0 {
        value
    } else {
        value + (alignment - remainder)
    }
}

/// `align_to` gives the least multiple of the alignment that is not below
/// the value.
pub proof fn lemma_align_up(value: int, alignment: int)
    requires
        value >= 0,
        alignment > 0,
    ensures
        align_up(value, alignment) % alignment == 0,
        value <= align_up(value, alignment) < value + alignment,
{
    let r = value % alignment;
    if r != 0 {
        assert((value + alignment - r) % alignment == 0) by (nonlinear_arith)
            requires
                r == value % alignment,
                alignment > 0,
        {
            assert(value == alignment * (value / alignment) + r) by (nonlinear_arith)
                requires
                    r == value % alignment,
                    alignment > 0,
            ;
            assert(value + alignment - r == alignment * (value / alignment + 1));
        }
    }
}

/// Size and alignment of a scalar of `width` bytes; `(0, 0)` for a width
/// that has none.
pub open spec fn scalar_layout(width: u8) -> (u32, u32) {
    if width == 2 {
        (2, 2)
    } else if width == 4 {
        (4, 4)
    } else if width == 8 {
        (8, 8)
    } else {
        (0, 0)
    }
}

/// Size and alignment of a vector; `(0, 0)` for one without a layout.
pub open spec fn vector_layout(size: VectorSize, scalar: Scalar) -> (u32, u32) {
    let numeric = scalar.kind == ScalarKind::Uint || scalar.kind == ScalarKind::Sint || scalar.kind
        == ScalarKind::Float;
    if scalar.width == 4 {
        if numeric {
            match size {
                VectorSize::Bi => (8, 8),
                VectorSize::Tri => (12, 16),
                VectorSize::Quad => (16, 16),
            }
        } else {
            (0, 0)
        }
    } else if scalar.width == 2 {
        if scalar.kind == ScalarKind::Float {
            match size {
                VectorSize::Bi => (4, 4),
                VectorSize::Tri => (6, 8),
                VectorSize::Quad => (8, 8),
            }
        } else {
            (0, 0)
        }
    } else {
        (0, 0)
    }
}

pub open spec fn vector_count(size: VectorSize) -> u32 {
    match size {
        VectorSize::Bi => 2,
        VectorSize::Tri => 3,
        VectorSize::Quad => 4,
    }
}

/// Size and alignment of type `i`; `(0, 0)` for a type without a layout
/// (structs, images, samplers and the like).
pub open spec fn type_layout(types: Seq<TypeInner>, i: int) -> (u32, u32)
    decreases i,
{
    if !(0 <= i < types.len()) {
        (0, 0)
    } else {
        match types[i] {
            TypeInner::Scalar(s) => scalar_layout(s.width),
            TypeInner::Vector { size, scalar } => vector_layout(size, scalar),
            TypeInner::Matrix { columns, rows, scalar } => {
                let (s, a) = vector_layout(rows, scalar);
                let (fs, fa) = scalar_layout(scalar.width);
                if s == 0 || fs == 0 {
                    (0, 0)
                } else {
                    ((s * vector_count(columns) * align_up(fs as int, fa as int)) as u32, a)
                }
            },
            TypeInner::Atomic(_) => (4, 4),
            TypeInner::Array { base, .. } => if base < i {
                let (s, a) = type_layout(types, base as int);
                if s == 0 {
                    (0, 0)
                } else {
                    (s, a)
                }
            } else {
                (0, 0)
            },
            _ => (0, 0),
        }
    }
}

proof fn lemma_vector_layout_bounds(size: VectorSize, scalar: Scalar)
    ensures
        vector_layout(size, scalar).0 <= 16,
        vector_layout(size, scalar).1 <= 16,
        vector_layout(size, scalar).0 == 0 ==> vector_layout(size, scalar).1 == 0,
{
}

/// The number of coordinates of an image of dimensionality `dim`.
pub open spec fn image_rank(dim: ImageDimension) -> int {
    match dim {
        ImageDimension::D1 => 1,
        ImageDimension::D2 => 2,
        ImageDimension::D3 => 3,
        ImageDimension::Cube => 2,
    }
}

/// An image is viewed with its own shape: as many coordinates, a cube as a
/// cube, and an array as an array; only arrays of 1D and 3D images have no
/// view.
pub proof fn lemma_image_dimension_shape(dim: ImageDimension, array: bool)
    ensures
        spec_image_dimension(dim, array) is Err <==> array && (dim == ImageDimension::D1 || dim
            == ImageDimension::D3),
        spec_image_dimension(dim, array) matches Ok(v) ==> {
            &&& view_rank(v) == image_rank(dim)
            &&& view_is_cube(v) == (dim == ImageDimension::Cube)
            &&& view_is_array(v) == array
        },
{
}

/// A scalar is laid out by its width: its size and alignment are its width
/// in bytes, for the widths that have a layout (2, 4 and 8).
pub proof fn lemma_scalar_layout_by_width(width: u8)
    ensures
        (width == 2 || width == 4 || width == 8) ==> scalar_layout(width) == (width as u32, width as u32),
        !(width == 2 || width == 4 || width == 8) ==> scalar_layout(width) == (0u32, 0u32),
{
}

/// Vectors of 4-byte numbers and of 2-byte floats are laid out as uniform
/// buffers require: the size is the components' sizes added up, and the
/// alignment is the least power of two not below the size (so a vector of
/// three is aligned as one of four). Other vectors have no layout.
pub proof fn lemma_vector_layout_rule(size: VectorSize, scalar: Scalar)
    ensures
        ({
            let (s, a) = vector_layout(size, scalar);
            let numeric = scalar.kind == ScalarKind::Uint || scalar.kind == ScalarKind::Sint || scalar.kind
                == ScalarKind::Float;
            let laid_out = (scalar.width == 4 && numeric) || (scalar.width == 2 && scalar.kind == ScalarKind::Float);
            &&& laid_out ==> {
                &&& s == vector_count(size) * scalar_layout(scalar.width).0
                &&& exists|k: nat| k <= 4 && a == pow2(k)
                &&& s <= a < 2 * s
            }
            &&& !laid_out ==> s == 0 && a == 0
        }),
{
    lemma2_to64();
}

/// The layout of a vector (see [`vector_layout`]).
pub fn size_alignment_of_vec_scalar(size: VectorSize, scalar: &Scalar) -> (r: (u32, u32))
    ensures
        r == vector_layout(size, *scalar),
{
    if scalar.width == 4 {
        match scalar.kind {
            ScalarKind::Uint | ScalarKind::Sint | ScalarKind::Float => match size {
                VectorSize::Bi => (8, 8),
                VectorSize::Tri => (12, 16),
                VectorSize::Quad => (16, 16),
            },
            _ => (0, 0),
        }
    } else if scalar.width == 2 {
        match scalar.kind {
            ScalarKind::Float => match size {
                VectorSize::Bi => (4, 4),
                VectorSize::Tri => (6, 8),
                VectorSize::Quad => (8, 8),
            },
            _ => (0, 0),
        }
    } else {
        (0, 0)
    }
}

fn scalar_size_alignment(width: u8) -> (r: (u32, u32))
    ensures
        r == scalar_layout(width),
{
    if width == 2 {
        (2, 2)
    } else if width == 4 {
        (4, 4)
    } else if width == 8 {
        (8, 8)
    } else {
        (0, 0)
    }
}

/// Size and alignment of type `i` (see [`type_layout`]).
pub fn size_alignment_of(types: &Vec<TypeInner>, i: usize) -> (r: (u32, u32))
    requires
        i < types.len(),
        types_wf(types@),
    ensures
        r == type_layout(types@, i as int),
    decreases i,
{
    match &types[i] {
        TypeInner::Scalar(s) => scalar_size_alignment(s.width),
        TypeInner::Vector { size, scalar } => size_alignment_of_vec_scalar(*size, scalar),
        TypeInner::Matrix { columns, rows, scalar } => {
            let (s, a) = size_alignment_of_vec_scalar(*rows, scalar);
            proof {
                lemma_vector_layout_bounds(*rows, *scalar);
            }
            if s == 0 {
                return (0, 0);
            }
            let c: u32 = match columns {
                VectorSize::Bi => 2,
                VectorSize::Tri => 3,
                VectorSize::Quad => 4,
            };
            let (fs, fa) = scalar_size_alignment(scalar.width);
            if fs == 0 {
                return (0, 0);
            }
            assert(fs == fa && fa > 0);
            assert(fs % fa == 0) by (nonlinear_arith)
                requires
                    fs == fa,
                    fa > 0,
            ;
            let al = align_to(fs, fa);
            assert(s * c * al <= 16 * 4 * 8) by (nonlinear_arith)
                requires
                    s <= 16,
                    c <= 4,
                    al <= 8,
            ;
            (s * c * al, a)
        },
        TypeInner::Atomic(_) => (4, 4),
        TypeInner::Array { base, .. } => {
            proof {
                assert(types@[i as int] is Array);
            }
            let (s, a) = size_alignment_of(types, *base);
            if s == 0 {
                (0, 0)
            } else {
                (s, a)
            }
        },
        _ => (0, 0),
    }
}

/// The texture view dimension of an image (see [`spec_image_dimension`]).
pub fn image_to_dimension(image: ImageDimension, array: bool) -> (r: Result<
    TextureViewDimension,
    ReflectError,
>)
    ensures
        r == spec_image_dimension(image, array),
{
    match image {
        ImageDimension::D1 => if array {
            Err(ReflectError::D1Array)
        } else {
            Ok(TextureViewDimension::D1)
        },
        ImageDimension::D2 => if array {
            Ok(TextureViewDimension::D2Array)
        } else {
            Ok(TextureViewDimension::D2)
        },
        ImageDimension::D3 => if array {
            Err(ReflectError::D3Array)
        } else {
            Ok(TextureViewDimension::D3)
        },
        ImageDimension::Cube => if array {
            Ok(TextureViewDimension::CubeArray)
        } else {
            Ok(TextureViewDimension::Cube)
        },
    }
}

/// The sample type of an image and whether it is multisampled (see
/// [`spec_image_sample_type`]).
pub fn image_to_sample_type(class: ImageClass) -> (r: Result<(TextureSampleType, bool), ReflectError>)
    ensures
        r == spec_image_sample_type(class),
{
    match class {
        ImageClass::Sampled { kind: _, multi } => Ok((TextureSampleType::Float { filterable: true }, multi)),
        ImageClass::Depth { multi } => Ok((TextureSampleType::Depth, multi)),
        ImageClass::Storage => Err(ReflectError::StorageImage),
    }
}

/// The vertex format of a scalar (see [`spec_scalar_format`]).
pub fn to_vertex_format2(ty: &ScalarKind, width: u8) -> (r: Result<VertexFormat, ReflectError>)
    ensures
        r == spec_scalar_format(*ty, width),
{
    match ty {
        ScalarKind::Sint => if width == 4 {
            Ok(VertexFormat::Sint32)
        } else {
            Err(ReflectError::ScalarWidth(width))
        },
        ScalarKind::Uint => if width == 4 {
            Ok(VertexFormat::Uint32)
        } else {
            Err(ReflectError::ScalarWidth(width))
        },
        ScalarKind::Float => if width == 4 {
            Ok(VertexFormat::Float32)
        } else if width == 8 {
            Ok(VertexFormat::Float64)
        } else {
            Err(ReflectError::ScalarWidth(width))
        },
        _ => Err(ReflectError::ScalarKindUnsupported),
    }
}

/// The vertex format of a type (see [`spec_vertex_format`]).
pub fn to_vertex_format(ty: &TypeInner) -> (r: Result<VertexFormat, ReflectError>)
    ensures
        r == spec_vertex_format(*ty),
{
    match ty {
        TypeInner::Scalar(s) => to_vertex_format2(&s.kind, s.width),
        TypeInner::Vector { size, scalar } => {
            let f = match to_vertex_format2(&scalar.kind, scalar.width) {
                Ok(f) => f,
                Err(e) => {
                    return Err(e);
                },
            };
            match f {
                VertexFormat::Float32 => Ok(
                    match size {
                        VectorSize::Bi => VertexFormat::Float32x2,
                        VectorSize::Tri => VertexFormat::Float32x3,
                        VectorSize::Quad => VertexFormat::Float32x4,
                    },
                ),
                VertexFormat::Uint32 => Ok(
                    match size {
                        VectorSize::Bi => VertexFormat::Uint32x3,
                        VectorSize::Tri => VertexFormat::Uint32x3,
                        VectorSize::Quad => VertexFormat::Uint32x4,
                    },
                ),
                VertexFormat::Sint32 => Ok(
                    match size {
                        VectorSize::Bi => VertexFormat::Sint32x3,
                        VectorSize::Tri => VertexFormat::Sint32x3,
                        VectorSize::Quad => VertexFormat::Sint32x4,
                    },
                ),
                VertexFormat::Float64 => Ok(
                    match size {
                        VectorSize::Bi => VertexFormat::Float64x2,
                        VectorSize::Tri => VertexFormat::Float64x3,
                        VectorSize::Quad => VertexFormat::Float64x4,
                    },
                ),
                _ => Err(ReflectError::VertexFormatUnsupported),
            }
        },
        TypeInner::Struct { .. } => Err(ReflectError::StructInput),
        _ => Err(ReflectError::VertexTypeUnsupported),
    }
}


// ---------------------------------------------------------------------------
// Uniform struct layout
// ---------------------------------------------------------------------------

/// Members of a uniform struct by name, in order of first appearance.
pub type SubVars = Seq<(Seq<char>, UniformSubVariable)>;

pub open spec fn sub_vars_view(v: Seq<(String, UniformSubVariable)>) -> SubVars {
    Seq::new(v.len(), |i: int| (v[i].0@, v[i].1))
}

/// Whether no name occurs twice.
pub open spec fn names_unique(vars: SubVars) -> bool {
    forall|i: int, j: int| 0 <= i < j < vars.len() ==> vars[i].0 != vars[j].0
}

/// `vars` with `k` bound to `v`: a known name gets the new value in place, a
/// new one is added at the end.
pub open spec fn assoc_insert(vars: SubVars, k: Seq<char>, v: UniformSubVariable) -> SubVars {
    if exists|i: int| 0 <= i < vars.len() && vars[i].0 == k {
        let i = choose|i: int| 0 <= i < vars.len() && vars[i].0 == k;
        vars.update(i, (k, v))
    } else {
        vars.push((k, v))
    }
}

/// Binds `name` to `v` among `vars` (see [`assoc_insert`]).
pub fn insert_sub_variable(vars: &mut Vec<(String, UniformSubVariable)>, name: String, v: UniformSubVariable)
    requires
        names_unique(sub_vars_view(old(vars)@)),
    ensures
        names_unique(sub_vars_view(final(vars)@)),
        sub_vars_view(final(vars)@) == assoc_insert(sub_vars_view(old(vars)@), name@, v),
{
    let ghost s0 = sub_vars_view(vars@);
    let ghost k = name@;
    let mut i: usize = 0;
    while i < vars.len()
        invariant
            i <= vars@.len(),
            s0 == sub_vars_view(vars@),
            s0 == sub_vars_view(old(vars)@),
            names_unique(s0),
            k == name@,
            forall|j: int| 0 <= j < i ==> s0[j].0 != k,
        decreases vars@.len() - i,
    {
        if vars[i].0 == name {
            proof {
                assert(s0[i as int].0 == k);
                assert(exists|c: int| 0 <= c < s0.len() && s0[c].0 == k);
                let c = choose|c: int| 0 <= c < s0.len() && s0[c].0 == k;
                assert(c == i);
                assert(assoc_insert(s0, k, v) == s0.update(i as int, (k, v)));
            }
            vars.set(i, (name, v));
            proof {
                assert(sub_vars_view(vars@) =~= s0.update(i as int, (k, v)));
            }
            return;
        }
        i = i + 1;
    }
    vars.push((name, v));
    proof {
        assert(sub_vars_view(vars@) =~= s0.push((k, v)));
    }
}

/// Laying out type `ty`, named `name`, at `offset` with the largest
/// alignment so far `maxa`: the offset after it, the largest alignment and
/// the members found; `None` where the layout cannot be computed (a member
/// without a name or of a kind without a layout, an alignment of zero, an
/// overflow).
pub open spec fn spec_search(
    types: Seq<TypeInner>,
    name: Seq<char>,
    ty: int,
    offset: u32,
    maxa: u32,
    vars: SubVars,
) -> Option<(u32, u32, SubVars)>
    decreases ty, 1int, 0int,
{
    if !(0 <= ty < types.len()) {
        None
    } else {
        let (ssize, al) = type_layout(types, ty);
        let maxa1 = if maxa >= al {
            maxa
        } else {
            al
        };
        if al != 0 && (offset + ssize > u32::MAX || !align_ok(offset + ssize, al as int)) {
            None
        } else {
            let off1: u32 = if al != 0 {
                align_up(offset + ssize, al as int) as u32
            } else {
                offset
            };
            match types[ty] {
                TypeInner::Scalar(_) => Some(
                    (off1, maxa1, assoc_insert(vars, name, UniformSubVariable { size: ssize, offset })),
                ),
                TypeInner::Vector { .. } => Some(
                    (off1, maxa1, assoc_insert(vars, name, UniformSubVariable { size: ssize, offset })),
                ),
                TypeInner::Matrix { .. } => Some(
                    (off1, maxa1, assoc_insert(vars, name, UniformSubVariable { size: ssize, offset })),
                ),
                TypeInner::Struct { members, .. } => spec_members(types, ty, members@, 0, off1, maxa1, vars),
                _ => None,
            }
        }
    }
}

/// Laying out the members `members[j..]` of struct type `parent`, each
/// followed by padding to the largest alignment so far.
pub open spec fn spec_members(
    types: Seq<TypeInner>,
    parent: int,
    members: Seq<StructMember>,
    j: int,
    offset: u32,
    maxa: u32,
    vars: SubVars,
) -> Option<(u32, u32, SubVars)>
    decreases parent, 0int, members.len() - j,
{
    if !(0 <= j < members.len()) {
        Some((offset, maxa, vars))
    } else {
        match members[j].name {
            None => None,
            Some(n) => if !(members[j].ty < parent) {
                None
            } else {
                match spec_search(types, n@, members[j].ty as int, offset, maxa, vars) {
                    None => None,
                    Some((o, a, v)) => if !align_ok(o as int, a as int) {
                        None
                    } else {
                        spec_members(types, parent, members, j + 1, align_up(o as int, a as int) as u32, a, v)
                    },
                }
            },
        }
    }
}

/// Lays out type `ty`, named `var_name`, from `*offset_ptr`, adding its
/// scalar, vector and matrix parts to `variables` (see [`spec_search`]).
pub fn search_sub_variable(
    var_name: &str,
    types: &Vec<TypeInner>,
    ty: usize,
    offset_ptr: &mut u32,
    max_alignment: &mut u32,
    variables: &mut Vec<(String, UniformSubVariable)>,
)
    requires
        types_wf(types@),
        names_unique(sub_vars_view(old(variables)@)),
        spec_search(types@, var_name@, ty as int, *old(offset_ptr), *old(max_alignment), sub_vars_view(old(variables)@)) is Some,
    ensures
        names_unique(sub_vars_view(final(variables)@)),
        spec_search(types@, var_name@, ty as int, *old(offset_ptr), *old(max_alignment), sub_vars_view(old(variables)@))
            == Some((*final(offset_ptr), *final(max_alignment), sub_vars_view(final(variables)@))),
    decreases ty,
{
    let (ssize, alignment) = size_alignment_of(types, ty);
    if *max_alignment < alignment {
        *max_alignment = alignment;
    }
    let offset = *offset_ptr;
    if alignment != 0 {
        *offset_ptr = align_to(*offset_ptr + ssize, alignment);
    }
    let v = match &types[ty] {
        TypeInner::Scalar(_) => UniformSubVariable { size: ssize, offset },
        TypeInner::Vector { .. } => UniformSubVariable { size: ssize, offset },
        TypeInner::Matrix { .. } => UniformSubVariable { size: ssize, offset },
        TypeInner::Struct { members, .. } => {
            let ghost target = spec_search(types@, var_name@, ty as int, *old(offset_ptr), *old(max_alignment), sub_vars_view(old(variables)@));
            let mut j: usize = 0;
            while j < members.len()
                invariant
                    j <= members@.len(),
                    types_wf(types@),
                    ty < types@.len(),
                    types@[ty as int] is Struct,
                    members@ == types@[ty as int]->Struct_members@,
                    names_unique(sub_vars_view(variables@)),
                    target == spec_members(types@, ty as int, members@, j as int, *offset_ptr, *max_alignment, sub_vars_view(variables@)),
                    target is Some,
                decreases members@.len() - j,
            {
                proof {
                    assert(members@[j as int].ty < ty);
                }
                let var_name = members[j].name.as_ref().unwrap().as_str();
                search_sub_variable(var_name, types, members[j].ty, offset_ptr, max_alignment, variables);
                *offset_ptr = align_to(*offset_ptr, *max_alignment);
                j = j + 1;
            }
            return ;
        },
        _ => {
            proof {
                assert(false);
            }
            return ;
        },
    };
    insert_sub_variable(variables, var_name.to_owned(), v);
}

/// The size and members of a uniform struct of type `ty` named `name`:
/// laid out from offset 0, the size padded to the largest alignment.
pub open spec fn spec_uniform_layout(types: Seq<TypeInner>, name: Seq<char>, ty: int) -> Option<
    (u32, SubVars),
> {
    match spec_search(types, name, ty, 0, 0, Seq::empty()) {
        None => None,
        Some((o, a, v)) => if align_ok(o as int, a as int) {
            Some((align_up(o as int, a as int) as u32, v))
        } else {
            None
        },
    }
}

/// The size and members of a uniform struct (see [`spec_uniform_layout`]).
pub fn uniform_layout(types: &Vec<TypeInner>, name: &str, ty: usize) -> (r: (u32, Vec<(String, UniformSubVariable)>))
    requires
        types_wf(types@),
        spec_uniform_layout(types@, name@, ty as int) is Some,
    ensures
        spec_uniform_layout(types@, name@, ty as int) == Some((r.0, sub_vars_view(r.1@))),
        names_unique(sub_vars_view(r.1@)),
{
    let mut offset: u32 = 0;
    let mut max_alignment: u32 = 0;
    let mut variables: Vec<(String, UniformSubVariable)> = Vec::new();
    proof {
        assert(sub_vars_view(variables@) =~= Seq::<(Seq<char>, UniformSubVariable)>::empty());
    }
    search_sub_variable(name, types, ty, &mut offset, &mut max_alignment, &mut variables);
    let size = align_to(offset, max_alignment);
    (size, variables)
}

// ---------------------------------------------------------------------------
// Global variables a shader entry point refers to
// ---------------------------------------------------------------------------

/// Where a global variable of a shader module lives.
#[derive(Debug, Clone, Copy, PartialEq, Eq, Structural)]
pub enum AddressSpace {
    Uniform,
    Handle,
    PushConstant,
    Other,
}

/// A global variable of a shader module: its name, where it lives, its
/// binding as `(group, binding)` and the index of its type.
#[derive(Debug, Clone)]
pub struct ReflectedGlobal {
    pub name: Option<String>,
    pub space: AddressSpace,
    pub binding: Option<(u32, u32)>,
    pub ty: usize,
}

pub open spec fn global_ref_view(g: ReflectedGlobal) -> (Option<Seq<char>>, AddressSpace, Option<(u32, u32)>, usize) {
    (
        match g.name {
            Some(n) => Some(n@),
            None => None,
        },
        g.space,
        g.binding,
        g.ty,
    )
}

/// The mathematical model of a resource of a pass.
pub enum GlobalV {
    Struct { group: u32, binding: u32, size: u32, group_name: Seq<char>, sub_variables: SubVars },
    Texture {
        group: u32,
        binding: u32,
        group_name: Seq<char>,
        dimension: TextureViewDimension,
        multisampled: bool,
        sample_type: TextureSampleType,
    },
    Sampler { group: u32, binding: u32, group_name: Seq<char>, comparison: bool },
    PushConstant { size: u32, group_name: Seq<char> },
}

pub open spec fn global_view(g: GlobalVariable) -> GlobalV {
    match g {
        GlobalVariable::Struct(u) => GlobalV::Struct {
            group: u.group,
            binding: u.binding,
            size: u.size,
            group_name: u.group_name@,
            sub_variables: sub_vars_view(u.sub_variables@),
        },
        GlobalVariable::Texture(t) => GlobalV::Texture {
            group: t.group,
            binding: t.binding,
            group_name: t.group_name@,
            dimension: t.dimension,
            multisampled: t.multisampled,
            sample_type: t.sample_type,
        },
        GlobalVariable::Sampler(x) => GlobalV::Sampler {
            group: x.group,
            binding: x.binding,
            group_name: x.group_name@,
            comparison: x.comparison,
        },
        GlobalVariable::PushConstant(c) => GlobalV::PushConstant { size: c.size, group_name: c.group_name@ },
    }
}

pub open spec fn globals_view(v: Seq<(String, GlobalVariable)>) -> Seq<(Seq<char>, GlobalV)> {
    Seq::new(v.len(), |i: int| (v[i].0@, global_view(v[i].1)))
}

pub open spec fn pairs_of_strings(v: Seq<(String, String)>) -> Seq<(Seq<char>, Seq<char>)> {
    Seq::new(v.len(), |i: int| (v[i].0@, v[i].1@))
}

/// The group name of variable `n`: that of the first pair naming it.
pub open spec fn group_of(groups: Seq<(Seq<char>, Seq<char>)>, n: Seq<char>) -> Option<Seq<char>>
    decreases groups.len(),
{
    if groups.len() == 0 {
        None
    } else if groups[0].0 == n {
        Some(groups[0].1)
    } else {
        group_of(groups.skip(1), n)
    }
}

/// The resource that global `g` is, named by the variable: a uniform struct
/// laid out by [`spec_uniform_layout`], a texture or sampler, or a push
/// constant of the size `sizes` gives its type. Other globals (and images or
/// samplers of other types) are none; a missing name, group name, binding
/// or type is refused, in the order they are read.
pub open spec fn spec_reference(
    types: Seq<TypeInner>,
    sizes: Seq<u32>,
    groups: Seq<(Seq<char>, Seq<char>)>,
    g: (Option<Seq<char>>, AddressSpace, Option<(u32, u32)>, usize),
) -> Result<Option<(Seq<char>, GlobalV)>, ReflectError> {
    match g.0 {
        None => Err(ReflectError::UnnamedGlobal),
        Some(n) => match group_of(groups, n) {
            None => Err(ReflectError::NoGroupName),
            Some(group_name) => match g.1 {
                AddressSpace::Uniform => if g.3 >= types.len() {
                    Err(ReflectError::BadHandle)
                } else {
                    match g.2 {
                        None => Err(ReflectError::NoBinding),
                        Some((group, binding)) => match spec_uniform_layout(types, n, g.3 as int) {
                            Some((size, sub_variables)) => Ok(
                                Some((n, GlobalV::Struct { group, binding, size, group_name, sub_variables })),
                            ),
                            None => Ok(None),
                        },
                    }
                },
                AddressSpace::Handle => match g.2 {
                    None => Err(ReflectError::NoBinding),
                    Some((group, binding)) => if g.3 >= types.len() {
                        Err(ReflectError::BadHandle)
                    } else {
                        match types[g.3 as int] {
                            TypeInner::Image { dim, arrayed, class } => match spec_image_dimension(dim, arrayed) {
                                Err(e) => Err(e),
                                Ok(dimension) => match spec_image_sample_type(class) {
                                    Err(e) => Err(e),
                                    Ok((sample_type, multisampled)) => Ok(
                                        Some(
                                            (
                                                n,
                                                GlobalV::Texture {
                                                    group,
                                                    binding,
                                                    group_name,
                                                    dimension,
                                                    multisampled,
                                                    sample_type,
                                                },
                                            ),
                                        ),
                                    ),
                                },
                            },
                            TypeInner::Sampler { comparison } => Ok(
                                Some((n, GlobalV::Sampler { group, binding, group_name, comparison })),
                            ),
                            _ => Ok(None),
                        }
                    },
                },
                AddressSpace::PushConstant => if g.3 >= types.len() {
                    Err(ReflectError::BadHandle)
                } else {
                    Ok(Some((n, GlobalV::PushConstant { size: sizes[g.3 as int], group_name })))
                },
                AddressSpace::Other => Ok(None),
            },
        },
    }
}

/// Whether reading global `g` reaches the layout of a uniform struct that
/// cannot be laid out (a member without a name or of a kind without a
/// layout, or an overflow), where reflection does not return.
pub open spec fn reference_stalls(
    types: Seq<TypeInner>,
    groups: Seq<(Seq<char>, Seq<char>)>,
    g: (Option<Seq<char>>, AddressSpace, Option<(u32, u32)>, usize),
) -> bool {
    &&& g.0 is Some
    &&& group_of(groups, g.0->0) is Some
    &&& g.1 == AddressSpace::Uniform
    &&& g.3 < types.len()
    &&& g.2 is Some
    &&& spec_uniform_layout(types, g.0->0, g.3 as int) is None
}

/// The global that a reference (by index among `globals`) reads, or a bad
/// handle.
pub open spec fn spec_reference_at(
    types: Seq<TypeInner>,
    sizes: Seq<u32>,
    groups: Seq<(Seq<char>, Seq<char>)>,
    globals: Seq<ReflectedGlobal>,
    r: usize,
) -> Result<Option<(Seq<char>, GlobalV)>, ReflectError> {
    if r >= globals.len() {
        Err(ReflectError::BadHandle)
    } else {
        spec_reference(types, sizes, groups, global_ref_view(globals[r as int]))
    }
}

/// Every reference reached before a refusal can be read.
pub open spec fn references_readable(
    types: Seq<TypeInner>,
    sizes: Seq<u32>,
    groups: Seq<(Seq<char>, Seq<char>)>,
    globals: Seq<ReflectedGlobal>,
    refs: Seq<usize>,
) -> bool {
    forall|i: int|
        0 <= i < refs.len() && (forall|j: int|
            0 <= j < i ==> #[trigger] spec_reference_at(types, sizes, groups, globals, refs[j]) is Ok)
            ==> !(refs[i] < globals.len() && reference_stalls(
            types,
            groups,
            global_ref_view(#[trigger] globals[refs[i] as int]),
        ))
}

/// `s` with `k` bound to `v`: a known name gets the new value in place, a
/// new one is added at the end.
pub open spec fn put_global(s: Seq<(Seq<char>, GlobalV)>, k: Seq<char>, v: GlobalV) -> Seq<(Seq<char>, GlobalV)> {
    if exists|i: int| 0 <= i < s.len() && s[i].0 == k {
        let i = choose|i: int| 0 <= i < s.len() && s[i].0 == k;
        s.update(i, (k, v))
    } else {
        s.push((k, v))
    }
}

/// `s` with name `k`, where it is not there yet.
pub open spec fn add_name(s: Seq<Seq<char>>, k: Seq<char>) -> Seq<Seq<char>> {
    if s.contains(k) {
        s
    } else {
        s.push(k)
    }
}

/// The resources `res` and the names found `found` after the references
/// `refs`, in order, and the refusal that stopped them, if any.
pub open spec fn references_after(
    types: Seq<TypeInner>,
    sizes: Seq<u32>,
    groups: Seq<(Seq<char>, Seq<char>)>,
    globals: Seq<ReflectedGlobal>,
    res: Seq<(Seq<char>, GlobalV)>,
    found: Seq<Seq<char>>,
    refs: Seq<usize>,
) -> (Seq<(Seq<char>, GlobalV)>, Seq<Seq<char>>, Option<ReflectError>)
    decreases refs.len(),
{
    if refs.len() == 0 {
        (res, found, None)
    } else {
        match spec_reference_at(types, sizes, groups, globals, refs[0]) {
            Err(e) => (res, found, Some(e)),
            Ok(None) => references_after(types, sizes, groups, globals, res, found, refs.skip(1)),
            Ok(Some((n, v))) => references_after(
                types,
                sizes,
                groups,
                globals,
                put_global(res, n, v),
                add_name(found, n),
                refs.skip(1),
            ),
        }
    }
}

pub open spec fn global_names_unique(s: Seq<(Seq<char>, GlobalV)>) -> bool {
    forall|i: int, j: int| 0 <= i < j < s.len() ==> s[i].0 != s[j].0
}

/// The group name of variable `n` (see [`group_of`]).
fn find_group(groups: &Vec<(String, String)>, n: &String) -> (r: Option<String>)
    ensures
        match group_of(pairs_of_strings(groups@), n@) {
            Some(g) => r matches Some(x) && x@ == g,
            None => r is None,
        },
{
    let ghost gs = pairs_of_strings(groups@);
    let mut i: usize = 0;
    proof {
        assert(gs.skip(0) =~= gs);
    }
    while i < groups.len()
        invariant
            i <= groups@.len(),
            gs == pairs_of_strings(groups@),
            group_of(gs, n@) == group_of(gs.skip(i as int), n@),
        decreases groups@.len() - i,
    {
        proof {
            assert(gs.skip(i as int)[0] == gs[i as int]);
            assert(gs.skip(i as int).skip(1) =~= gs.skip(i + 1));
        }
        if groups[i].0 == *n {
            return Some(groups[i].1.clone());
        }
        i = i + 1;
    }
    proof {
        assert(gs.skip(i as int).len() == 0);
    }
    None
}

/// Binds `name` to `v` among the resources `res` (see [`put_global`]).
fn insert_global(res: &mut Vec<(String, GlobalVariable)>, name: String, v: GlobalVariable)
    requires
        global_names_unique(globals_view(old(res)@)),
    ensures
        global_names_unique(globals_view(final(res)@)),
        globals_view(final(res)@) == put_global(globals_view(old(res)@), name@, global_view(v)),
{
    let ghost s0 = globals_view(res@);
    let ghost k = name@;
    let ghost gv = global_view(v);
    let mut i: usize = 0;
    while i < res.len()
        invariant
            i <= res@.len(),
            s0 == globals_view(res@),
            s0 == globals_view(old(res)@),
            global_names_unique(s0),
            k == name@,
            gv == global_view(v),
            forall|j: int| 0 <= j < i ==> s0[j].0 != k,
        decreases res@.len() - i,
    {
        if res[i].0 == name {
            proof {
                assert(s0[i as int].0 == k);
                let c = choose|c: int| 0 <= c < s0.len() && s0[c].0 == k;
                assert(c == i);
            }
            res.set(i, (name, v));
            proof {
                assert(globals_view(res@) =~= s0.update(i as int, (k, gv)));
            }
            return;
        }
        i = i + 1;
    }
    res.push((name, v));
    proof {
        assert(globals_view(res@) =~= s0.push((k, gv)));
    }
}

/// Adds name `n` to `found` where it is not there yet.
fn add_found(found: &mut Vec<String>, n: String)
    ensures
        final(found)@.map_values(|x: String| x@) == add_name(old(found)@.map_values(|x: String| x@), n@),
{
    let ghost s0 = found@.map_values(|x: String| x@);
    let mut i: usize = 0;
    while i < found.len()
        invariant
            i <= found@.len(),
            s0 == found@.map_values(|x: String| x@),
            s0 == old(found)@.map_values(|x: String| x@),
            forall|j: int| 0 <= j < i ==> s0[j] != n@,
        decreases found@.len() - i,
    {
        if found[i] == n {
            proof {
                assert(s0[i as int] == n@);
                assert(s0.contains(n@));
            }
            return;
        }
        i = i + 1;
    }
    proof {
        assert(!s0.contains(n@));
    }
    found.push(n);
    proof {
        assert(found@.map_values(|x: String| x@) =~= s0.push(n@));
    }
}

/// The resource that reference `r` reads (see [`spec_reference_at`]).
fn reference_at(
    types: &Vec<TypeInner>,
    sizes: &Vec<u32>,
    groups: &Vec<(String, String)>,
    globals: &Vec<ReflectedGlobal>,
    r: usize,
) -> (out: Result<Option<(String, GlobalVariable)>, ReflectError>)
    requires
        types_wf(types@),
        sizes@.len() == types@.len(),
        !(r < globals@.len() && reference_stalls(
            types@,
            pairs_of_strings(groups@),
            global_ref_view(globals@[r as int]),
        )),
    ensures
        match spec_reference_at(types@, sizes@, pairs_of_strings(groups@), globals@, r) {
            Err(e) => out == Err::<Option<(String, GlobalVariable)>, ReflectError>(e),
            Ok(None) => out matches Ok(None),
            Ok(Some((n, v))) => out matches Ok(Some((m, w))) && m@ == n && global_view(w) == v,
        },
{
    if r >= globals.len() {
        return Err(ReflectError::BadHandle);
    }
    let g = &globals[r];
    let name = match &g.name {
        Some(n) => n.clone(),
        None => {
            return Err(ReflectError::UnnamedGlobal);
        },
    };
    let group_name = match find_group(groups, &name) {
        Some(x) => x,
        None => {
            return Err(ReflectError::NoGroupName);
        },
    };
    match g.space {
        AddressSpace::Uniform => {
            if g.ty >= types.len() {
                return Err(ReflectError::BadHandle);
            }
            let (group, binding) = match g.binding {
                Some(b) => b,
                None => {
                    return Err(ReflectError::NoBinding);
                },
            };
            let (size, sub_variables) = uniform_layout(types, name.as_str(), g.ty);
            Ok(Some((name, GlobalVariable::Struct(UniformStruct { group, binding, size, group_name, sub_variables }))))
        },
        AddressSpace::Handle => {
            let (group, binding) = match g.binding {
                Some(b) => b,
                None => {
                    return Err(ReflectError::NoBinding);
                },
            };
            if g.ty >= types.len() {
                return Err(ReflectError::BadHandle);
            }
            match &types[g.ty] {
                TypeInner::Image { dim, arrayed, class } => {
                    let dimension = match image_to_dimension(*dim, *arrayed) {
                        Ok(d) => d,
                        Err(e) => {
                            return Err(e);
                        },
                    };
                    let (sample_type, multisampled) = match image_to_sample_type(*class) {
                        Ok(x) => x,
                        Err(e) => {
                            return Err(e);
                        },
                    };
                    Ok(
                        Some(
                            (
                                name,
                                GlobalVariable::Texture(
                                    UniformTexture { group, binding, group_name, dimension, multisampled, sample_type },
                                ),
                            ),
                        ),
                    )
                },
                TypeInner::Sampler { comparison } => Ok(
                    Some(
                        (
                            name,
                            GlobalVariable::Sampler(
                                UniformSampler { group, binding, group_name, comparison: *comparison },
                            ),
                        ),
                    ),
                ),
                _ => Ok(None),
            }
        },
        AddressSpace::PushConstant => {
            if g.ty >= types.len() {
                return Err(ReflectError::BadHandle);
            }
            let size = sizes[g.ty];
            Ok(Some((name, GlobalVariable::PushConstant(PushConstant { size, group_name }))))
        },
        AddressSpace::Other => Ok(None),
    }
}

impl ShaderPassReflection {
    /// Reads the resources a shader entry point refers to. `refs` are the
    /// entry point's references to globals, in order, by index among
    /// `globals`; `sizes` gives the size of each type; `groups` pairs each
    /// variable with its group name. Each resource is bound in `res` under
    /// its variable's name; the names found are returned, each once. The
    /// first refusal stops the reading, keeping what was bound before it.
    pub fn take_reference(
        refs: &Vec<usize>,
        globals: &Vec<ReflectedGlobal>,
        types: &Vec<TypeInner>,
        sizes: &Vec<u32>,
        groups: &Vec<(String, String)>,
        res: &mut Vec<(String, GlobalVariable)>,
    ) -> (r: Result<Vec<String>, ReflectError>)
        requires
            types_wf(types@),
            sizes@.len() == types@.len(),
            global_names_unique(globals_view(old(res)@)),
            references_readable(types@, sizes@, pairs_of_strings(groups@), globals@, refs@),
        ensures
            ({
                let after = references_after(
                    types@,
                    sizes@,
                    pairs_of_strings(groups@),
                    globals@,
                    globals_view(old(res)@),
                    Seq::empty(),
                    refs@,
                );
                &&& globals_view(final(res)@) == after.0
                &&& global_names_unique(globals_view(final(res)@))
                &&& match after.2 {
                    Some(e) => r == Err::<Vec<String>, ReflectError>(e),
                    None => r matches Ok(found) && found@.map_values(|x: String| x@) == after.1,
                }
            }),
    {
        let ghost gs = pairs_of_strings(groups@);
        let ghost whole = references_after(types@, sizes@, gs, globals@, globals_view(res@), Seq::empty(), refs@);
        let mut found: Vec<String> = Vec::new();
        let mut i: usize = 0;
        proof {
            assert(refs@.skip(0) =~= refs@);
            assert(found@.map_values(|x: String| x@) =~= Seq::<Seq<char>>::empty());
        }
        while i < refs.len()
            invariant
                i <= refs@.len(),
                gs == pairs_of_strings(groups@),
                types_wf(types@),
                sizes@.len() == types@.len(),
                global_names_unique(globals_view(res@)),
                references_readable(types@, sizes@, gs, globals@, refs@),
                forall|j: int| 0 <= j < i ==> #[trigger] spec_reference_at(types@, sizes@, gs, globals@, refs@[j]) is Ok,
                whole == references_after(types@, sizes@, gs, globals@, globals_view(old(res)@), Seq::empty(), refs@),
                references_after(
                    types@,
                    sizes@,
                    gs,
                    globals@,
                    globals_view(res@),
                    found@.map_values(|x: String| x@),
                    refs@.skip(i as int),
                ) == whole,
            decreases refs@.len() - i,
        {
            let ri = refs[i];
            proof {
                assert(!(ri < globals@.len() && reference_stalls(types@, gs, global_ref_view(globals@[ri as int]))));
                assert(refs@.skip(i as int)[0] == refs@[i as int]);
                assert(refs@.skip(i as int).skip(1) =~= refs@.skip(i + 1));
            }
            match reference_at(types, sizes, groups, globals, ri) {
                Err(e) => {
                    return Err(e);
                },
                Ok(None) => {},
                Ok(Some((n, v))) => {
                    let n2 = n.clone();
                    insert_global(res, n, v);
                    add_found(&mut found, n2);
                },
            }
            i = i + 1;
        }
        proof {
            assert(refs@.skip(i as int).len() == 0);
        }
        Ok(found)
    }
}

} // verus!
