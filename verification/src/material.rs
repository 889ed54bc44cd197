use vstd::prelude::*;

verus! {

/// Which per-vertex inputs a material face reads.
#[derive(Debug, Clone, Copy, PartialEq, Eq, Structural)]
pub enum MaterialInputKind {
    NoInput,
    Color,
    Texture,
    ColorTexture,
}

impl MaterialInputKind {
    /// The kind obtained by adding a per-vertex color input, if it has none yet.
    pub open spec fn spec_add_color(self) -> Option<MaterialInputKind> {
        match self {
            MaterialInputKind::NoInput => Some(MaterialInputKind::Color),
            MaterialInputKind::Texture => Some(MaterialInputKind::ColorTexture),
            _ => None,
        }
    }

    /// The kind obtained by adding a texture coordinate input, if it has none yet.
    pub open spec fn spec_add_texture(self) -> Option<MaterialInputKind> {
        match self {
            MaterialInputKind::NoInput => Some(MaterialInputKind::Texture),
            MaterialInputKind::Color => Some(MaterialInputKind::ColorTexture),
            _ => None,
        }
    }

    pub fn add_color(self) -> (r: Option<Self>)
        ensures
            r == self.spec_add_color(),
    {
        match self {
            MaterialInputKind::NoInput => Some(MaterialInputKind::Color),
            MaterialInputKind::Texture => Some(MaterialInputKind::ColorTexture),
            _ => None,
        }
    }

    pub fn add_texture(self) -> (r: Option<Self>)
        ensures
            r == self.spec_add_texture(),
    {
        match self {
            MaterialInputKind::NoInput => Some(MaterialInputKind::Texture),
            MaterialInputKind::Color => Some(MaterialInputKind::ColorTexture),
            _ => None,
        }
    }
}

} // verus!
