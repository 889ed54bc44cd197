//! Geometry generators and mesh attributes.

use vstd::prelude::*;

verus! {

/// The kinds of per-vertex coordinates a mesh can carry.
#[derive(Debug, Clone, Copy, PartialEq, Eq, Structural, Hash, PartialOrd, Ord)]
pub enum MeshCoordType {
    Pos,
    Color,
    TexCoord,
    TexNormal,
    TexBump,
    TexCube,
}

/// A key under which a geometry keeps an attribute.
#[derive(Debug, Hash)]
pub enum Attribute {
    ConstantColor,
    UV,
    Name(String),
    Index(usize),
}

/// The generator of the coordinate axes.
#[derive(Debug)]
pub struct AxisMesh {}

impl AxisMesh {
    pub fn new() -> (r: Self) {
        AxisMesh {}
    }
}

/// The generator of a sphere with the given horizontal and vertical segment
/// counts.
#[derive(Debug)]
pub struct SphereMesh {
    segments: u32,
    segments_vertical: u32,
}

impl SphereMesh {
    pub closed spec fn segments_view(&self) -> (u32, u32) {
        (self.segments, self.segments_vertical)
    }

    pub fn new(segments: u32, segments_vertical: u32) -> (r: Self)
        ensures
            r.segments_view() == (segments, segments_vertical),
    {
        SphereMesh { segments, segments_vertical }
    }

    pub fn segments(&self) -> (r: (u32, u32))
        ensures
            r == self.segments_view(),
    {
        (self.segments, self.segments_vertical)
    }
}

} // verus!
