use gstudy::tshader::reflection::{
    AddressSpace, ImageClass, ImageDimension, ReflectError, ReflectedGlobal, Scalar, ScalarKind,
    ShaderPassReflection, StructMember, TypeInner, VectorSize,
};
use gstudy::tshader::tech::{GlobalVariable, TextureSampleType, TextureViewDimension, UniformSubVariable};

fn f32s() -> Scalar {
    Scalar { kind: ScalarKind::Float, width: 4 }
}

fn types() -> Vec<TypeInner> {
    vec![
        TypeInner::Scalar(f32s()),
        TypeInner::Vector { size: VectorSize::Tri, scalar: f32s() },
        TypeInner::Struct {
            members: vec![
                StructMember { name: Some("color".to_string()), ty: 1 },
                StructMember { name: Some("alpha".to_string()), ty: 0 },
            ],
            span: 16,
        },
        TypeInner::Image {
            dim: ImageDimension::D2,
            arrayed: false,
            class: ImageClass::Depth { multi: false },
        },
        TypeInner::Sampler { comparison: true },
    ]
}

fn global(name: &str, space: AddressSpace, binding: Option<(u32, u32)>, ty: usize) -> ReflectedGlobal {
    ReflectedGlobal { name: Some(name.to_string()), space, binding, ty }
}

fn groups() -> Vec<(String, String)> {
    ["frame", "shadow", "smp", "push", "other"]
        .iter()
        .map(|n| (n.to_string(), format!("g_{}", n)))
        .collect()
}

#[test]
fn references_become_resources() {
    let globals = vec![
        global("frame", AddressSpace::Uniform, Some((0, 1)), 2),
        global("shadow", AddressSpace::Handle, Some((1, 0)), 3),
        global("smp", AddressSpace::Handle, Some((1, 1)), 4),
        global("push", AddressSpace::PushConstant, None, 1),
        global("other", AddressSpace::Other, None, 0),
    ];
    let sizes = vec![4, 12, 16, 0, 0];
    let mut res = Vec::new();
    let found = ShaderPassReflection::take_reference(
        &vec![0, 1, 0, 2, 3, 4],
        &globals,
        &types(),
        &sizes,
        &groups(),
        &mut res,
    )
    .unwrap();
    assert_eq!(found, vec!["frame", "shadow", "smp", "push"]);
    assert_eq!(res.len(), 4);
    match &res[0] {
        (n, GlobalVariable::Struct(u)) => {
            assert_eq!(n, "frame");
            assert_eq!((u.group, u.binding, u.size), (0, 1, 32));
            assert_eq!(u.group_name, "g_frame");
            assert_eq!(
                u.sub_variables,
                vec![
                    ("color".to_string(), UniformSubVariable { size: 12, offset: 0 }),
                    ("alpha".to_string(), UniformSubVariable { size: 4, offset: 16 }),
                ]
            );
        }
        _ => panic!("not a uniform struct"),
    }
    match &res[1].1 {
        GlobalVariable::Texture(t) => {
            assert_eq!((t.group, t.binding), (1, 0));
            assert_eq!(t.dimension, TextureViewDimension::D2);
            assert_eq!(t.sample_type, TextureSampleType::Depth);
            assert!(!t.multisampled);
        }
        _ => panic!("not a texture"),
    }
    match &res[2].1 {
        GlobalVariable::Sampler(x) => assert!(x.comparison),
        _ => panic!("not a sampler"),
    }
    match &res[3].1 {
        GlobalVariable::PushConstant(c) => {
            assert_eq!(c.size, 12);
            assert_eq!(c.group_name, "g_push");
        }
        _ => panic!("not a push constant"),
    }
}

#[test]
fn missing_pieces_are_refused() {
    let t = types();
    let sizes = vec![0; 5];
    let mut res = Vec::new();
    let globals = vec![
        global("frame", AddressSpace::Uniform, Some((0, 0)), 2),
        global("shadow", AddressSpace::Handle, None, 3),
        ReflectedGlobal { name: None, space: AddressSpace::Uniform, binding: None, ty: 0 },
        global("nogroup", AddressSpace::Other, None, 0),
    ];
    let r = ShaderPassReflection::take_reference(&vec![0, 1, 0], &globals, &t, &sizes, &groups(), &mut res);
    assert_eq!(r, Err(ReflectError::NoBinding));
    assert_eq!(res.len(), 1);
    let mut res = Vec::new();
    let r = ShaderPassReflection::take_reference(&vec![2], &globals, &t, &sizes, &groups(), &mut res);
    assert_eq!(r, Err(ReflectError::UnnamedGlobal));
    let r = ShaderPassReflection::take_reference(&vec![3], &globals, &t, &sizes, &groups(), &mut res);
    assert_eq!(r, Err(ReflectError::NoGroupName));
    let r = ShaderPassReflection::take_reference(&vec![9], &globals, &t, &sizes, &groups(), &mut res);
    assert_eq!(r, Err(ReflectError::BadHandle));
}
