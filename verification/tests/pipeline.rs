use gstudy::pipeline::{
    descriptor_entry, image_view_dimension, scalar_format, AttributeFormat, BindingKind,
    DescriptorKind, ImageDim, ImageInfo, LayoutEntry, LayoutError, PipelineReflector,
    ReflectedType, ReflectedVariable, ScalarType, ShaderStage, VertexAttribute,
};
use gstudy::tshader::tech::{TextureSampleType, TextureViewDimension};

#[test]
fn scalar_formats_follow_the_tables() {
    assert_eq!(scalar_format(&ScalarType::Float(4), 3), Some(AttributeFormat::Float32x3));
    assert_eq!(scalar_format(&ScalarType::Unsigned(1), 4), Some(AttributeFormat::Uint8x4));
    assert_eq!(scalar_format(&ScalarType::Signed(2), 2), Some(AttributeFormat::Sint16x2));
    assert_eq!(scalar_format(&ScalarType::Float(8), 1), Some(AttributeFormat::Float64));
    assert_eq!(scalar_format(&ScalarType::Signed(1), 3), None);
    assert_eq!(scalar_format(&ScalarType::Unsigned(8), 1), None);
    assert_eq!(scalar_format(&ScalarType::Boolean, 1), None);
}

#[test]
fn format_sizes() {
    assert_eq!(AttributeFormat::Uint8x2.size(), 2);
    assert_eq!(AttributeFormat::Float16x4.size(), 8);
    assert_eq!(AttributeFormat::Float32x3.size(), 12);
    assert_eq!(AttributeFormat::Float64x4.size(), 32);
}

#[test]
fn image_view_dimensions() {
    assert_eq!(image_view_dimension(ImageDim::Dim2D, true), TextureViewDimension::D2Array);
    assert_eq!(image_view_dimension(ImageDim::Cube, true), TextureViewDimension::CubeArray);
    assert_eq!(image_view_dimension(ImageDim::Dim3D, false), TextureViewDimension::D3);
    assert_eq!(image_view_dimension(ImageDim::Dim1D, false), TextureViewDimension::D1);
}

fn image(depth: Option<bool>) -> ImageInfo {
    ImageInfo { dim: ImageDim::Dim2D, is_array: false, is_multisampled: false, is_depth: depth }
}

#[test]
fn descriptor_entries() {
    let e = descriptor_entry(3, ShaderStage::Fragment, DescriptorKind::SampledImage, &ReflectedType::Image(image(Some(true))));
    assert_eq!(
        e,
        LayoutEntry {
            binding: 3,
            visibility: ShaderStage::Fragment,
            kind: BindingKind::Texture {
                multisampled: false,
                view_dimension: TextureViewDimension::D2,
                sample_type: TextureSampleType::Depth,
            },
        }
    );
    let e = descriptor_entry(1, ShaderStage::Vertex, DescriptorKind::SampledImage, &ReflectedType::SampledImage(image(Some(true))));
    assert_eq!(
        e.kind,
        BindingKind::Texture {
            multisampled: false,
            view_dimension: TextureViewDimension::D2,
            sample_type: TextureSampleType::Float { filterable: false },
        }
    );
    let e = descriptor_entry(0, ShaderStage::Vertex, DescriptorKind::UniformBuffer, &ReflectedType::Struct);
    assert_eq!(e.kind, BindingKind::UniformBuffer);
    let e = descriptor_entry(2, ShaderStage::Vertex, DescriptorKind::Sampler, &ReflectedType::Other);
    assert_eq!(e.kind, BindingKind::Sampler);
}

fn input(component: u32, location: u32, ty: ReflectedType) -> ReflectedVariable {
    ReflectedVariable::Input { component, location, ty }
}

fn descriptor(set: u32, binding: u32, kind: DescriptorKind, ty: ReflectedType) -> ReflectedVariable {
    ReflectedVariable::Descriptor { set, binding, kind, ty }
}

#[test]
fn vertex_inputs_pack_into_buffers_by_component() {
    let vs = vec![
        input(0, 1, ReflectedType::Vector(ScalarType::Float(4), 2)),
        input(0, 0, ReflectedType::Vector(ScalarType::Float(4), 3)),
        input(1, 0, ReflectedType::Scalar(ScalarType::Unsigned(4))),
        ReflectedVariable::Output { component: 0, location: 0, ty: ReflectedType::Vector(ScalarType::Float(4), 4) },
    ];
    let layout = PipelineReflector::new().add_vs(&vs).build().ok().unwrap();
    assert_eq!(layout.vertex_buffers.len(), 2);
    assert_eq!(layout.vertex_buffers[0].array_stride, 20);
    assert_eq!(
        layout.vertex_buffers[0].attributes,
        vec![
            VertexAttribute { format: AttributeFormat::Float32x3, offset: 0, shader_location: 0 },
            VertexAttribute { format: AttributeFormat::Float32x2, offset: 12, shader_location: 1 },
        ]
    );
    assert_eq!(layout.vertex_buffers[1].array_stride, 4);
    assert_eq!(
        layout.vertex_buffers[1].attributes,
        vec![VertexAttribute { format: AttributeFormat::Uint32, offset: 0, shader_location: 0 }]
    );
    assert!(layout.bind_group_layouts.is_empty());
}

#[test]
fn later_input_at_a_position_replaces_earlier() {
    let vs = vec![
        input(0, 0, ReflectedType::Vector(ScalarType::Float(4), 3)),
        input(0, 0, ReflectedType::Vector(ScalarType::Float(4), 4)),
    ];
    let layout = PipelineReflector::new().add_vs(&vs).build().ok().unwrap();
    assert_eq!(layout.vertex_buffers[0].attributes[0].format, AttributeFormat::Float32x4);
    assert_eq!(layout.vertex_buffers[0].array_stride, 16);
}

#[test]
fn bind_groups_follow_sets_in_order() {
    let vs = vec![
        descriptor(2, 0, DescriptorKind::UniformBuffer, ReflectedType::Struct),
        descriptor(0, 1, DescriptorKind::Sampler, ReflectedType::Other),
        descriptor(0, 0, DescriptorKind::UniformBuffer, ReflectedType::Struct),
    ];
    let layout = PipelineReflector::new().add_vs(&vs).build().ok().unwrap();
    assert_eq!(layout.bind_group_layouts.len(), 2);
    let bindings: Vec<Vec<u32>> =
        layout.bind_group_layouts.iter().map(|g| g.iter().map(|e| e.binding).collect()).collect();
    assert_eq!(bindings, vec![vec![0, 1], vec![0]]);
}

#[test]
fn binding_shared_by_stages_keeps_first_entry() {
    let vs = vec![descriptor(0, 0, DescriptorKind::UniformBuffer, ReflectedType::Struct)];
    let fs = vec![descriptor(0, 0, DescriptorKind::UniformBuffer, ReflectedType::Struct)];
    let layout = PipelineReflector::new().add_vs(&vs).add_fs(&fs).build().ok().unwrap();
    assert_eq!(layout.bind_group_layouts[0].len(), 1);
    assert_eq!(layout.bind_group_layouts[0][0].visibility, ShaderStage::Vertex);
}

#[test]
fn binding_declared_differently_by_stages_is_refused() {
    let vs = vec![descriptor(0, 4, DescriptorKind::UniformBuffer, ReflectedType::Struct)];
    let fs = vec![
        descriptor(0, 4, DescriptorKind::Sampler, ReflectedType::Other),
        descriptor(1, 0, DescriptorKind::Sampler, ReflectedType::Other),
    ];
    let r = PipelineReflector::new().add_vs(&vs).add_fs(&fs).build();
    match r {
        Err(e) => assert_eq!(e, LayoutError::RepeatedBinding(4)),
        Ok(_) => panic!("conflicting binding accepted"),
    }
}
