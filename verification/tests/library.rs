use gstudy::compiler::{
    sort_passes, CameraType, CompileError, Config, Pass, Shader, ShaderTechCompiler, Tech, Variants,
};
use gstudy::event::{DefaultProcessor, Event, ProcessEventResult, WindowAction};
use gstudy::geometry::SphereMesh;
use gstudy::material::MaterialInputKind;
use gstudy::modules::{HardwareRendererFactory, RayTracingFactory, SoftwareRendererFactory};
use gstudy::render::{BMaterial, BasicMaterialParameter, Material, MaterialGroup};
use gstudy::tshader::default_loader::DefaultShaderTechLoader;
use gstudy::tshader::reflection::{
    align_to, image_to_dimension, image_to_sample_type, size_alignment_of, to_vertex_format,
    uniform_layout, ImageClass, ImageDimension, ReflectError, Scalar, ScalarKind, StructMember,
    TypeInner, VectorSize,
};
use gstudy::tshader::tech::{
    ResourcePosition, TextureSampleType, TextureViewDimension, UniformSubVariable, VertexFormat,
};
use gstudy::tshader::variant::{VariantFlags, VariantFlagsBuilder};
use gstudy::util::TaskPoolBuilder;
use gstudy::window::{AppResourceContainer, HardwareRenderPluginFactory};
use std::hash::Hasher;

fn fx(s: &str) -> u64 {
    let mut h = fxhash::FxHasher::default();
    h.write(s.as_bytes());
    h.finish()
}

#[test]
fn variant_key_joins_flags() {
    let v = VariantFlags::new(vec!["A".to_string(), "B".to_string(), "C".to_string()]);
    assert_eq!(v.key(), "A+B+C");
    assert_eq!(v.hash_key(), fx("A+B+C"));
    assert_ne!(v.hash_key(), VariantFlags::new(vec!["A".to_string()]).hash_key());
}

#[test]
fn variant_without_flags_has_empty_key() {
    let v = VariantFlags::new(Vec::new());
    assert_eq!(v.key(), "");
    assert_eq!(v.hash_key(), fx(""));
}

#[test]
fn default_variant() {
    let v = VariantFlags::default();
    assert_eq!(v.key(), "-");
    assert_eq!(v.hash_key(), 123);
    assert!(v.view().is_empty());
}

#[test]
fn builder_collects_flags_in_order() {
    let mut b = VariantFlagsBuilder::default();
    b.add_flag("X");
    b.add_flag("Y");
    let v = b.build();
    assert_eq!(v.key(), "X+Y");
    assert_eq!(v.view(), &vec!["X".to_string(), "Y".to_string()]);
}

#[test]
fn align_to_rounds_up() {
    assert_eq!(align_to(0, 16), 0);
    assert_eq!(align_to(1, 16), 16);
    assert_eq!(align_to(16, 16), 16);
    assert_eq!(align_to(17, 4), 20);
}

fn f32s() -> Scalar {
    Scalar { kind: ScalarKind::Float, width: 4 }
}

#[test]
fn vector_and_matrix_layouts() {
    let types = vec![
        TypeInner::Scalar(f32s()),
        TypeInner::Vector { size: VectorSize::Tri, scalar: f32s() },
        TypeInner::Matrix { columns: VectorSize::Quad, rows: VectorSize::Quad, scalar: f32s() },
        TypeInner::Array { base: 1, stride: 16 },
        TypeInner::Atomic(Scalar { kind: ScalarKind::Uint, width: 4 }),
        TypeInner::Sampler { comparison: false },
        TypeInner::Vector { size: VectorSize::Bi, scalar: Scalar { kind: ScalarKind::Bool, width: 1 } },
    ];
    assert_eq!(size_alignment_of(&types, 0), (4, 4));
    assert_eq!(size_alignment_of(&types, 1), (12, 16));
    assert_eq!(size_alignment_of(&types, 2), (256, 16));
    assert_eq!(size_alignment_of(&types, 3), (12, 16));
    assert_eq!(size_alignment_of(&types, 4), (4, 4));
    assert_eq!(size_alignment_of(&types, 5), (0, 0));
    assert_eq!(size_alignment_of(&types, 6), (0, 0));
}

#[test]
fn uniform_struct_members_are_laid_out() {
    let member = |n: &str, ty: usize| StructMember { name: Some(n.to_string()), ty };
    let types = vec![
        TypeInner::Scalar(f32s()),
        TypeInner::Vector { size: VectorSize::Tri, scalar: f32s() },
        TypeInner::Matrix { columns: VectorSize::Quad, rows: VectorSize::Quad, scalar: f32s() },
        TypeInner::Struct {
            members: vec![member("mvp", 2), member("color", 1), member("alpha", 0)],
            span: 96,
        },
    ];
    let (size, vars) = uniform_layout(&types, "frame", 3);
    assert_eq!(
        vars,
        vec![
            ("mvp".to_string(), UniformSubVariable { size: 256, offset: 0 }),
            ("color".to_string(), UniformSubVariable { size: 12, offset: 256 }),
            ("alpha".to_string(), UniformSubVariable { size: 4, offset: 272 }),
        ]
    );
    assert_eq!(size, 288);
}

#[test]
fn image_dimensions() {
    assert_eq!(image_to_dimension(ImageDimension::D2, true), Ok(TextureViewDimension::D2Array));
    assert_eq!(image_to_dimension(ImageDimension::Cube, false), Ok(TextureViewDimension::Cube));
    assert_eq!(image_to_dimension(ImageDimension::D1, true), Err(ReflectError::D1Array));
    assert_eq!(image_to_dimension(ImageDimension::D3, true), Err(ReflectError::D3Array));
}

#[test]
fn image_sample_types() {
    assert_eq!(
        image_to_sample_type(ImageClass::Sampled { kind: ScalarKind::Float, multi: true }),
        Ok((TextureSampleType::Float { filterable: true }, true))
    );
    assert_eq!(
        image_to_sample_type(ImageClass::Depth { multi: false }),
        Ok((TextureSampleType::Depth, false))
    );
    assert_eq!(image_to_sample_type(ImageClass::Storage), Err(ReflectError::StorageImage));
}

#[test]
fn vertex_formats() {
    assert_eq!(
        to_vertex_format(&TypeInner::Vector { size: VectorSize::Bi, scalar: f32s() }),
        Ok(VertexFormat::Float32x2)
    );
    assert_eq!(
        to_vertex_format(&TypeInner::Vector {
            size: VectorSize::Bi,
            scalar: Scalar { kind: ScalarKind::Uint, width: 4 }
        }),
        Ok(VertexFormat::Uint32x3)
    );
    assert_eq!(
        to_vertex_format(&TypeInner::Scalar(Scalar { kind: ScalarKind::Sint, width: 2 })),
        Err(ReflectError::ScalarWidth(2))
    );
    assert_eq!(
        to_vertex_format(&TypeInner::Struct { members: Vec::new(), span: 0 }),
        Err(ReflectError::StructInput)
    );
}

fn pass(name: &str, index: i32, units: &[&str], shaders: &[&str]) -> Pass {
    Pass {
        name: name.to_string(),
        index,
        source: format!("{}.wgsl", name),
        binding: Vec::new(),
        variants: Some(Variants {
            unit: units.iter().map(|s| s.to_string()).collect(),
            excludes: Vec::new(),
            exclusives: Vec::new(),
        }),
        camera: CameraType::D3,
        shaders: shaders.iter().map(|s| s.to_string()).collect(),
    }
}

#[test]
fn passes_sorted_by_index_stably() {
    let passes = vec![pass("c", 2, &[], &[]), pass("a", 1, &[], &[]), pass("b", 2, &[], &[]), pass("d", 0, &[], &[])];
    let names: Vec<String> = sort_passes(passes).into_iter().map(|p| p.name).collect();
    assert_eq!(names, vec!["d", "a", "c", "b"]);
}

fn compiler() -> ShaderTechCompiler {
    let config = Config {
        tech: Tech { author: "me".to_string() },
        pass: vec![pass("second", 1, &["SHADOW"], &["vs", "fs"]), pass("first", 0, &["A", "B"], &["cs", "gs"])],
    };
    ShaderTechCompiler::from_config(config, "tech.toml".to_string(), "/base".to_string(), "/inc".to_string())
}

#[test]
fn pass_preprocessor_defines_variants() {
    let c = compiler();
    assert_eq!(c.total_pass(), 2);
    assert_eq!(c.npass(), 2);
    assert_eq!(c.pass_source(0), "first.wgsl");
    let pre = c.pass_preprocessor(0, &vec!["B".to_string(), "A".to_string(), "B".to_string()]).unwrap();
    assert_eq!(pre.config.includes, vec!["/base".to_string(), "/inc".to_string()]);
    assert_eq!(
        pre.config.defines,
        vec![("B".to_string(), "True".to_string()), ("A".to_string(), "True".to_string())]
    );
}

#[test]
fn unknown_variant_is_refused() {
    let c = compiler();
    match c.pass_preprocessor(1, &vec!["SHADOW".to_string(), "FOG".to_string()]) {
        Err(CompileError::UnknownVariant(v, p)) => {
            assert_eq!(v, "FOG");
            assert_eq!(p, 1);
        }
        _ => panic!("variant accepted"),
    }
}

#[test]
fn pass_stages_are_parsed() {
    let c = compiler();
    let d = c.describe_pass(1, "code".to_string()).ok().unwrap();
    assert_eq!(d.entries, vec![Shader::Vertex, Shader::Fragment]);
    assert_eq!(d.name, "second");
    assert_eq!(d.source, "code");
    match c.describe_pass(0, String::new()) {
        Err(CompileError::UnknownShader(s)) => assert_eq!(s, "gs"),
        _ => panic!("stage accepted"),
    }
}

#[test]
fn loader_finds_techniques() {
    let l = DefaultShaderTechLoader::from_desc(
        vec![("basic".to_string(), "basic/tech".to_string()), ("depth".to_string(), "depth/tech".to_string())],
        "./shaders/".to_string(),
    );
    assert_eq!(l.tech_source(&"depth".to_string()).map(|s| s.as_str()), Some("depth/tech"));
    assert_eq!(l.tech_source(&"none".to_string()), None);
}

#[test]
fn material_ids() {
    let mut m = BMaterial::new(BasicMaterialParameter::new());
    assert_eq!(m.material_id(), None);
    assert_eq!(m.reset_material_id(Some(7)), None);
    assert_eq!(m.material_id(), Some(7));
    assert_eq!(m.reset_material_id(None), Some(7));
    assert_eq!(m.material_id(), None);
    assert!(!m.inner().has_color);
    assert_eq!(
        BMaterial::<BasicMaterialParameter>::static_type_id(),
        std::any::TypeId::of::<BMaterial<BasicMaterialParameter>>()
    );
}

#[test]
fn material_group_lists_objects() {
    let mut g = MaterialGroup::new();
    g.map.insert(3, vec![1, 2]);
    assert_eq!(g.get_objects_from_material(3), &vec![1, 2]);
}

#[test]
fn material_input_kinds_combine() {
    let k = MaterialInputKind::NoInput.add_color().unwrap();
    assert_eq!(k, MaterialInputKind::Color);
    assert_eq!(k.add_texture(), Some(MaterialInputKind::ColorTexture));
    assert_eq!(k.add_color(), None);
    assert_eq!(MaterialInputKind::NoInput.add_texture(), Some(MaterialInputKind::Texture));
    assert_eq!(MaterialInputKind::ColorTexture.add_texture(), None);
}

#[test]
fn default_processor_decisions() {
    let mut p = DefaultProcessor::new();
    assert_eq!(p.on_event(&Event::CloseRequested), (ProcessEventResult::ExitLoop, None));
    assert_eq!(
        p.on_event(&Event::FullScreen(true)),
        (ProcessEventResult::Received, Some(WindowAction::SetFullscreen(true)))
    );
    assert_eq!(
        p.on_event(&Event::UpdateImePosition(3, 4)),
        (ProcessEventResult::Received, Some(WindowAction::SetImePosition(3, 4)))
    );
    assert_eq!(p.on_event(&Event::Other), (ProcessEventResult::Received, None));
}

#[test]
fn module_infos() {
    assert_eq!(HardwareRendererFactory::new().info().name, "hardware gpu renderer");
    assert_eq!(RayTracingFactory::new().info().desc, "a ray tracing demo");
    assert_eq!(SoftwareRendererFactory::new().info().name, "software renderer");
    let info = HardwareRenderPluginFactory.info();
    assert_eq!(info.name, "HardwareRenderPlugin");
    assert!(!info.has_looper);
}

#[test]
fn task_pool_builder() {
    let b = TaskPoolBuilder::new();
    assert!(b.workers() >= 1);
    let b = b.nums(3).name("worker".to_string());
    assert_eq!(b.workers(), 3);
    assert_eq!(b.thread_name(), "worker");
}

#[test]
fn resource_container_replaces() {
    let mut c: AppResourceContainer<String> = AppResourceContainer::new();
    assert_eq!(c.get(1), None);
    c.register(1, "a".to_string());
    c.register(2, "b".to_string());
    c.register(1, "c".to_string());
    assert_eq!(c.get(1).map(|s| s.as_str()), Some("c"));
    assert_eq!(c.get(2).map(|s| s.as_str()), Some("b"));
}

#[test]
fn resource_positions_order() {
    assert!(ResourcePosition::new(0, 5) < ResourcePosition::new(1, 0));
    assert!(ResourcePosition::new(1, 1) < ResourcePosition::new(1, 2));
    assert_eq!(ResourcePosition::new(2, 3), ResourcePosition { group: 2, binding: 3 });
}

#[test]
fn sphere_segments() {
    assert_eq!(SphereMesh::new(8, 4).segments(), (8, 4));
}
