use vstd::prelude::*;

verus! {

/// A built-in input of a shader.
#[derive(Debug, Clone, Copy, PartialEq, Eq, Structural)]
pub enum Builtin {
    Position,
}

/// How a texture is viewed by a shader.
#[derive(Debug, Clone, Copy, PartialEq, Eq, Structural)]
pub enum TextureViewDimension {
    D1,
    D2,
    D2Array,
    Cube,
    CubeArray,
    D3,
}

/// The number of coordinates a view addresses a texel with (a cube's face
/// counts as two-dimensional).
pub open spec fn view_rank(v: TextureViewDimension) -> int {
    match v {
        TextureViewDimension::D1 => 1,
        TextureViewDimension::D3 => 3,
        _ => 2,
    }
}

/// Whether a view is of a cube.
pub open spec fn view_is_cube(v: TextureViewDimension) -> bool {
    v == TextureViewDimension::Cube || v == TextureViewDimension::CubeArray
}

/// Whether a view is of an array of layers.
pub open spec fn view_is_array(v: TextureViewDimension) -> bool {
    v == TextureViewDimension::D2Array || v == TextureViewDimension::CubeArray
}

/// What a shader samples from a texture.
#[derive(Debug, Clone, Copy, PartialEq, Eq, Structural)]
pub enum TextureSampleType {
    Float { filterable: bool },
    Depth,
    Sint,
    Uint,
}

/// The format of a vertex attribute.
#[derive(Debug, Clone, Copy, PartialEq, Eq, Structural)]
pub enum VertexFormat {
    Sint32,
    Uint32,
    Float32,
    Float64,
    Float32x2,
    Float32x3,
    Float32x4,
    Uint32x3,
    Uint32x4,
    Sint32x3,
    Sint32x4,
    Float64x2,
    Float64x3,
    Float64x4,
}

/// A vertex input of a pass.
#[derive(Debug, Clone, Copy)]
pub struct InputBinding {
    pub binding: u32,
    pub builtin: Option<Builtin>,
    pub size: u32,
    pub alignment: u32,
    pub format: VertexFormat,
}

/// A member of a uniform struct: its size and offset in bytes.
#[derive(Debug, Clone, Copy, PartialEq, Eq, Structural)]
pub struct UniformSubVariable {
    pub size: u32,
    pub offset: u32,
}

/// A uniform buffer: where it is bound, its size, and its members by name.
#[derive(Debug, Clone)]
pub struct UniformStruct {
    pub group: u32,
    pub binding: u32,
    pub size: u32,
    pub group_name: String,
    pub sub_variables: Vec<(String, UniformSubVariable)>,
}

/// A texture bound to a pass.
#[derive(Debug, Clone)]
pub struct UniformTexture {
    pub group: u32,
    pub binding: u32,
    pub group_name: String,
    pub dimension: TextureViewDimension,
    pub multisampled: bool,
    pub sample_type: TextureSampleType,
}

/// A sampler bound to a pass.
#[derive(Debug, Clone)]
pub struct UniformSampler {
    pub group: u32,
    pub binding: u32,
    pub group_name: String,
    pub comparison: bool,
}

/// A push constant block.
#[derive(Debug, Clone)]
pub struct PushConstant {
    pub size: u32,
    pub group_name: String,
}

/// A resource a pass uses.
#[derive(Debug, Clone)]
pub enum GlobalVariable {
    Struct(UniformStruct),
    Texture(UniformTexture),
    Sampler(UniformSampler),
    PushConstant(PushConstant),
}

/// Where a resource is bound: its group and binding.
#[derive(Debug, PartialEq, Eq, Structural, Hash, PartialOrd, Ord)]
pub struct ResourcePosition {
    pub group: u32,
    pub binding: u32,
}

impl ResourcePosition {
    pub fn new(group: u32, binding: u32) -> (r: Self)
        ensures
            r.group == group,
            r.binding == binding,
    {
        ResourcePosition { group, binding }
    }
}

} // verus!
