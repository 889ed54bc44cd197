//! Renderer modules and what each says of itself.

use vstd::prelude::*;

verus! {

/// A module's name and description.
#[derive(Debug, Clone)]
pub struct ModuleInfo {
    pub name: &'static str,
    pub desc: &'static str,
}

/// The GPU pipeline renderer.
pub struct HardwareRendererFactory {}

impl HardwareRendererFactory {
    pub fn new() -> (r: Self) {
        HardwareRendererFactory {}
    }

    pub fn info(&self) -> (r: ModuleInfo)
        ensures
            r.name@ == "hardware gpu renderer"@,
            r.desc@ == "gpu pipeline"@,
    {
        ModuleInfo { name: "hardware gpu renderer", desc: "gpu pipeline" }
    }
}

/// The ray tracing demo.
pub struct RayTracingFactory {}

impl RayTracingFactory {
    pub fn new() -> (r: Self) {
        RayTracingFactory {}
    }

    pub fn info(&self) -> (r: ModuleInfo)
        ensures
            r.name@ == "ray tracing"@,
            r.desc@ == "a ray tracing demo"@,
    {
        ModuleInfo { name: "ray tracing", desc: "a ray tracing demo" }
    }
}

/// The software renderer with a shader pipeline.
pub struct SoftwareRendererFactory {}

impl SoftwareRendererFactory {
    pub fn new() -> (r: Self) {
        SoftwareRendererFactory {}
    }

    pub fn info(&self) -> (r: ModuleInfo)
        ensures
            r.name@ == "software renderer"@,
            r.desc@ == "a software renderer with shader pipeline"@,
    {
        ModuleInfo { name: "software renderer", desc: "a software renderer with shader pipeline" }
    }
}

/// The first software renderer module.
pub struct SofewareRenderer {}

impl SofewareRenderer {
    pub fn info(&self) -> (r: ModuleInfo)
        ensures
            r.name@ == "sofeware renderer"@,
            r.desc@ == ""@,
    {
        ModuleInfo { name: "sofeware renderer", desc: "" }
    }
}

/// Where a frame's uniform data sits: which buffer, at which offset.
#[derive(Debug, Clone, Copy, PartialEq, Eq, Structural)]
pub struct FrameUniformBufferSlice {
    pub buffer_index: usize,
    pub offset: u32,
}

} // verus!
