//! Shader techniques: variant keys, reflected resource descriptions and the
//! memory layout of uniform data.

pub mod variant;
pub mod tech;
pub mod reflection;
pub mod default_loader;
