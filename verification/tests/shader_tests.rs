use estrol::binary_shader::{load_binary_shader, read_bytes, read_u32, read_u64, read_utf8_string, ShaderCursor};
use estrol::bind_layout::{plan_layouts, LayoutBindingType, STAGE_COMPUTE, STAGE_FRAGMENT, STAGE_VERTEX};
use estrol::graphics::{
    GraphicsShaderBuilder, GraphicsShaderSource,
    create_input_desc, get_uniform_location, get_uniform_size, is_format_conversion_supported, plan_graphics_shader,
    ShaderSourceKind,
};
use estrol::reflection::{
    align_to, get_size, ArrayLength, parse, std140_alignment, VarSpace, ModuleEntry, ModuleGlobal, ModuleType,
    ReflectError, ResourceBinding, ScalarType, ScalarKind, ShaderModule, ShaderStage, MemberDecl,
    TypeShape, VectorWidth,
};
use estrol::shader_types::{
    IndexBufferSize, ShaderBindingInfo, ShaderBindingType, ShaderReflect, ShaderTopology, StorageAccess, VertexInputReflection,
    VertexInputType,
};

fn le32(v: &mut Vec<u8>, n: u32) {
    v.extend_from_slice(&n.to_le_bytes());
}

fn sized(v: &mut Vec<u8>, s: &str) {
    le32(v, s.len() as u32);
    v.extend_from_slice(s.as_bytes());
}

fn header(kind: u32, entry: &str) -> Vec<u8> {
    let mut v = b"est-binary-shader-v1".to_vec();
    le32(&mut v, kind);
    sized(&mut v, entry);
    v
}

fn compute_shader_bytes() -> Vec<u8> {
    let mut v = header(3, "main");
    le32(&mut v, 2);
    // group 0, binding 1: a uniform buffer of 16 bytes
    le32(&mut v, 0);
    le32(&mut v, 1);
    sized(&mut v, "params");
    le32(&mut v, 0);
    le32(&mut v, 16);
    // group 1, binding 0: a read-write storage buffer of 64 bytes
    le32(&mut v, 1);
    le32(&mut v, 0);
    sized(&mut v, "data");
    le32(&mut v, 1);
    le32(&mut v, 64);
    le32(&mut v, 3);
    // spir-v code
    le32(&mut v, 4);
    v.extend_from_slice(&[1, 2, 3, 4]);
    v
}

#[test]
fn loads_compute_binary_shader() {
    let shader = load_binary_shader(&compute_shader_bytes()).expect("valid shader");
    assert_eq!(shader.spirv, vec![1, 2, 3, 4]);
    match shader.reflect {
        ShaderReflect::Compute { entry_point, bindings } => {
            assert_eq!(entry_point, "main");
            assert_eq!(bindings.len(), 2);
            assert_eq!(bindings[0].group, 0);
            assert_eq!(bindings[0].binding, 1);
            assert_eq!(bindings[0].name, "params");
            assert_eq!(bindings[0].ty, ShaderBindingType::UniformBuffer(16));
            assert_eq!(bindings[1].ty, ShaderBindingType::StorageBuffer(64, StorageAccess { bits: 3 }));
        }
        other => panic!("unexpected reflection {:?}", other),
    }
}

#[test]
fn loads_vertex_fragment_binary_shader() {
    let mut v = header(2, "vs_main,fs_main");
    le32(&mut v, 0);
    sized(&mut v, "VertexInput");
    le32(&mut v, 20);
    le32(&mut v, 2);
    le32(&mut v, 0);
    v.extend_from_slice(&0u64.to_le_bytes());
    le32(&mut v, 2);
    le32(&mut v, 1);
    v.extend_from_slice(&12u64.to_le_bytes());
    le32(&mut v, 1);
    le32(&mut v, 0);
    let shader = load_binary_shader(&v).expect("valid shader");
    assert!(shader.spirv.is_empty());
    match shader.reflect {
        ShaderReflect::VertexFragment { vertex_entry_point, fragment_entry_point, vertex_input, bindings } => {
            assert_eq!(vertex_entry_point, "vs_main");
            assert_eq!(fragment_entry_point, "fs_main");
            assert!(bindings.is_empty());
            let input = vertex_input.expect("vertex input");
            assert_eq!(input.name, "VertexInput");
            assert_eq!(input.stride, 20);
            assert_eq!(input.attributes, vec![(0, 0, VertexInputType::Float32x3), (1, 12, VertexInputType::Float32x2)]);
        }
        other => panic!("unexpected reflection {:?}", other),
    }
}

#[test]
fn binary_shader_errors() {
    assert_eq!(load_binary_shader(b"est").unwrap_err(), "Failed to read magic");
    assert_eq!(load_binary_shader(b"xst-binary-shader-v1....").unwrap_err(), "Invalid shader magic");
    let mut v = header(7, "main");
    le32(&mut v, 0);
    assert_eq!(load_binary_shader(&v).unwrap_err(), "Unknown shader type ID: 7");
    let mut v = header(3, "main");
    le32(&mut v, 1);
    le32(&mut v, 0);
    le32(&mut v, 0);
    sized(&mut v, "x");
    le32(&mut v, 9);
    assert_eq!(load_binary_shader(&v).unwrap_err(), "Unknown binding type ID: 9");
    let mut v = header(2, "only_one_entry");
    le32(&mut v, 0);
    sized(&mut v, "In");
    le32(&mut v, 0);
    le32(&mut v, 0);
    assert_eq!(load_binary_shader(&v).unwrap_err(), "Invalid vertex/fragment entry point format");
    let mut v = header(3, "main");
    le32(&mut v, 0);
    le32(&mut v, 10);
    v.extend_from_slice(&[0, 0]);
    assert_eq!(load_binary_shader(&v).unwrap_err(), "Failed to read bytes");
    let mut v = b"est-binary-shader-v1".to_vec();
    le32(&mut v, 3);
    le32(&mut v, 2);
    v.extend_from_slice(&[0xff, 0xfe]);
    assert_eq!(load_binary_shader(&v).unwrap_err(), "Invalid UTF-8 string");
}

#[test]
fn cursor_reads() {
    let data = [1u8, 0, 0, 0, 2, 0, 0, 0, 0, 0, 0, 0, b'h', b'i', 0xff, 0x41];
    let mut c = ShaderCursor::new(&data);
    assert_eq!(read_u32(&mut c), Ok(1));
    assert_eq!(read_u64(&mut c), Ok(2));
    assert_eq!(read_utf8_string(&mut c, 2), Ok("hi".to_string()));
    assert_eq!(c.pos, 14);
    assert_eq!(read_utf8_string(&mut c, 1), Err("Invalid UTF-8 string".to_string()));
    assert_eq!(c.pos, 15);
    assert_eq!(read_u32(&mut c), Err("Failed to read u32".to_string()));
    assert_eq!(read_bytes(&mut c, 2), Err("Failed to read bytes".to_string()));
    assert_eq!(c.pos, 15);
    assert_eq!(read_bytes(&mut c, 1), Ok(vec![0x41]));
    assert_eq!(c.pos, 16);
}

#[test]
fn format_conversions() {
    assert!(is_format_conversion_supported(VertexInputType::Float32x2, VertexInputType::Float32x2));
    assert!(is_format_conversion_supported(VertexInputType::Uint32, VertexInputType::Uint8));
    assert!(!is_format_conversion_supported(VertexInputType::Float32x3, VertexInputType::Float32x2));
    assert!(!is_format_conversion_supported(VertexInputType::Sint32, VertexInputType::Float32));
}

#[test]
fn align_to_rounds_up() {
    assert_eq!(align_to(0, 16), 0);
    assert_eq!(align_to(1, 16), 16);
    assert_eq!(align_to(16, 16), 16);
    assert_eq!(align_to(17, 4), 20);
    assert_eq!(align_to(13, 8), 16);
}

fn float(width: u8) -> ScalarType {
    ScalarType { kind: ScalarKind::Float, width }
}

fn uniform_module() -> ShaderModule {
    // 0: f32, 1: vec3<f32>, 2: vec4<f32>, 3: struct { a: vec3<f32>, b: f32, c: vec4<f32> }
    ShaderModule {
        types: vec![
            ModuleType { name: None, inner: TypeShape::Scalar(float(4)) },
            ModuleType { name: None, inner: TypeShape::Vector { size: VectorWidth::Tri, scalar: float(4) } },
            ModuleType { name: None, inner: TypeShape::Vector { size: VectorWidth::Quad, scalar: float(4) } },
            ModuleType {
                name: Some("Params".to_string()),
                inner: TypeShape::Struct {
                    members: vec![
                        MemberDecl { name: Some("a".to_string()), ty: 1, location: None },
                        MemberDecl { name: Some("b".to_string()), ty: 0, location: None },
                        MemberDecl { name: Some("c".to_string()), ty: 2, location: None },
                    ],
                    span: 32,
                },
            },
            ModuleType { name: None, inner: TypeShape::Array { base: 2, size: ArrayLength::Dynamic, stride: 16 } },
        ],
        global_variables: vec![
            ModuleGlobal {
                name: Some("params".to_string()),
                space: VarSpace::Uniform,
                binding: Some(ResourceBinding { group: 1, binding: 0 }),
                ty: 3,
            },
            ModuleGlobal {
                name: Some("buf".to_string()),
                space: VarSpace::Storage { load: true, store: true, atomic: false },
                binding: Some(ResourceBinding { group: 0, binding: 2 }),
                ty: 4,
            },
        ],
        entry_points: vec![ModuleEntry { name: "cs_main".to_string(), stage: ShaderStage::Compute, arguments: vec![] }],
    }
}

#[test]
fn std140_sizes() {
    let m = uniform_module();
    assert_eq!(get_size(&m, 0), 4);
    assert_eq!(get_size(&m, 1), 16);
    assert_eq!(get_size(&m, 2), 16);
    assert_eq!(std140_alignment(&m, 0), 4);
    assert_eq!(std140_alignment(&m, 1), 16);
    assert_eq!(std140_alignment(&m, 3), 16);
    assert_eq!(get_size(&m, 3), 48);
}

#[test]
fn reflects_and_sorts_bindings() {
    let m = uniform_module();
    let r = parse(&m).expect("reflects");
    match r {
        ShaderReflect::Compute { entry_point, bindings } => {
            assert_eq!(entry_point, "cs_main");
            let slots: Vec<(u32, u32)> = bindings.iter().map(|b| (b.group, b.binding)).collect();
            assert_eq!(slots, vec![(0, 2), (1, 0)]);
            assert_eq!(bindings[1].ty, ShaderBindingType::UniformBuffer(48));
            assert_eq!(bindings[0].ty, ShaderBindingType::StorageBuffer(u32::MAX, StorageAccess { bits: 3 }));
            assert_eq!(bindings[1].name, "params");
        }
        other => panic!("unexpected reflection {:?}", other),
    }
}

#[test]
fn unnamed_variables_get_their_index() {
    let mut m = uniform_module();
    m.global_variables[0].name = None;
    match parse(&m).expect("reflects") {
        ShaderReflect::Compute { bindings, .. } => assert_eq!(bindings[1].name, "unnamed_[0]"),
        other => panic!("unexpected reflection {:?}", other),
    }
}

#[test]
fn small_uniform_is_refused() {
    let mut m = uniform_module();
    m.global_variables[0].ty = 0;
    assert_eq!(parse(&m), Err(ReflectError::UniformTooSmall { global: 0, size: 4 }));
}

#[test]
fn sixteen_byte_uniform_is_accepted() {
    let mut m = uniform_module();
    m.global_variables[0].ty = 2;
    match parse(&m).expect("reflects") {
        ShaderReflect::Compute { bindings, .. } => {
            let u = bindings.iter().find(|b| b.name == "params").expect("uniform binding");
            assert_eq!(u.ty, ShaderBindingType::UniformBuffer(16));
        }
        other => panic!("unexpected reflection {:?}", other),
    }
}

#[test]
fn module_without_entry_point() {
    let mut m = uniform_module();
    m.entry_points.clear();
    assert_eq!(parse(&m), Err(ReflectError::NoEntryPoint));
}

#[test]
fn layouts_per_group() {
    let bindings = vec![
        ShaderBindingInfo { binding: 1, group: 0, name: "tex".to_string(), ty: ShaderBindingType::Texture(false) },
        ShaderBindingInfo { binding: 0, group: 0, name: "u".to_string(), ty: ShaderBindingType::UniformBuffer(64) },
        ShaderBindingInfo { binding: 0, group: 2, name: "s".to_string(), ty: ShaderBindingType::Sampler(true) },
    ];
    let reflects = vec![ShaderReflect::VertexFragment {
        vertex_entry_point: "vs".to_string(),
        vertex_input: None,
        fragment_entry_point: "fs".to_string(),
        bindings,
    }];
    let layouts = plan_layouts(&reflects, false);
    let groups: Vec<u32> = layouts.iter().map(|l| l.group).collect();
    assert_eq!(groups, vec![0, 2]);
    let g0: Vec<u32> = layouts[0].entries.iter().map(|e| e.binding).collect();
    assert_eq!(g0, vec![1, 0]);
    assert_eq!(layouts[0].entries[1].ty, LayoutBindingType::UniformBuffer { min_size: Some(64) });
    assert_eq!(layouts[0].entries[1].visibility, STAGE_VERTEX | STAGE_FRAGMENT);
    assert_eq!(layouts[1].entries[0].ty, LayoutBindingType::Sampler { comparison: true });
    let compute = vec![ShaderReflect::Compute {
        entry_point: "main".to_string(),
        bindings: vec![ShaderBindingInfo { binding: 3, group: 1, name: "b".to_string(), ty: ShaderBindingType::UniformBuffer(16) }],
    }];
    let layouts = plan_layouts(&compute, true);
    assert_eq!(layouts.len(), 1);
    assert_eq!(layouts[0].group, 1);
    assert_eq!(layouts[0].entries[0].visibility, STAGE_COMPUTE);
}

fn graphics_reflection() -> ShaderReflect {
    ShaderReflect::VertexFragment {
        vertex_entry_point: "vs_main".to_string(),
        vertex_input: Some(VertexInputReflection {
            name: "VertexInput".to_string(),
            stride: 20,
            attributes: vec![(0, 0, VertexInputType::Float32x3), (1, 12, VertexInputType::Float32x2)],
        }),
        fragment_entry_point: "fs_main".to_string(),
        bindings: vec![
            ShaderBindingInfo { binding: 0, group: 0, name: "camera".to_string(), ty: ShaderBindingType::UniformBuffer(64) },
            ShaderBindingInfo { binding: 1, group: 0, name: "tex".to_string(), ty: ShaderBindingType::Texture(false) },
        ],
    }
}

#[test]
fn graphics_shader_plan_and_lookups() {
    let reflects = vec![graphics_reflection()];
    assert_eq!(get_uniform_location(&reflects, "camera"), Some((0, 0)));
    assert_eq!(get_uniform_location(&reflects, "tex"), None);
    assert_eq!(get_uniform_size(&reflects, 0, 0), Some(64));
    let mut plan = plan_graphics_shader(ShaderSourceKind::Source, reflects.clone()).expect("plan");
    assert_eq!(plan.layouts.len(), 1);
    assert_eq!(plan.input.stride, 20);
    assert_eq!(plan.input.index, Some(IndexBufferSize::U16));
    assert_eq!(plan.input.topology, ShaderTopology::TriangleList);
    assert_eq!(plan.input.attributes.len(), 2);
    assert_eq!(plan.input.set_vertex_input(&reflects, 0, VertexInputType::Float32x2),
        Err("Vertex input type Float32x2 is not supported for location 0".to_string()));
    assert_eq!(plan.input.set_vertex_input(&reflects, 7, VertexInputType::Float32),
        Err("Vertex input location 7 not found".to_string()));
    assert_eq!(plan.input.set_vertex_input(&reflects, 1, VertexInputType::Unorm8x2), Ok(()));
    assert_eq!(plan.input.attributes[1].format, VertexInputType::Unorm8x2);
    let fragment = ShaderReflect::Fragment { entry_point: "fs".to_string(), bindings: vec![] };
    let e = plan_graphics_shader(ShaderSourceKind::SplitSource, vec![fragment, graphics_reflection()]).unwrap_err();
    assert_eq!(e, "Invalid shader pair for SplitSource");
    let compute = ShaderReflect::Compute { entry_point: "main".to_string(), bindings: vec![] };
    assert_eq!(create_input_desc(&compute).unwrap_err(), "Invalid shader type for vertex input");
}

#[test]
fn binary_setters_keep_the_other_stage() {
    let b = GraphicsShaderBuilder::new().set_binary_vertex(&[1u8]).set_binary_fragment(&[2u8]);
    assert_eq!(b.source, GraphicsShaderSource::BinarySplitSource(vec![1], vec![2]));
    let b = GraphicsShaderBuilder::new().set_binary_fragment(&[2u8]).set_binary_vertex(&[1u8]);
    assert_eq!(b.source, GraphicsShaderSource::BinarySplitSource(vec![1], vec![2]));
    let b = GraphicsShaderBuilder::new().set_binary_fragment(&[3u8]);
    assert_eq!(b.source, GraphicsShaderSource::BinarySplitSource(vec![], vec![3]));
}

#[test]
fn source_setters_keep_the_other_stage() {
    let b = GraphicsShaderBuilder::new().set_fragment_code("F").set_vertex_file_data("V");
    assert_eq!(b.source, GraphicsShaderSource::SplitSource("V".to_string(), "F".to_string()));
    let b = GraphicsShaderBuilder::new().set_vertex_code("V").set_fragment_file_data("F");
    assert_eq!(b.source, GraphicsShaderSource::SplitSource("V".to_string(), "F".to_string()));
    let b = GraphicsShaderBuilder::new().set_vertex_file_data("V");
    assert_eq!(b.source, GraphicsShaderSource::SplitSource("V".to_string(), String::new()));
}

const COMPUTE_WGSL: &str = "@group(0) @binding(0) var<uniform> u: vec4<f32>;\n@compute @workgroup_size(1) fn main() { let x = u; }\n";

#[test]
fn wgsl_compute_shader_reflects() {
    assert!(estrol::wgsl::is_shader_valid(COMPUTE_WGSL));
    match estrol::wgsl::reflect_wgsl(COMPUTE_WGSL).expect("reflects") {
        ShaderReflect::Compute { entry_point, bindings } => {
            assert_eq!(entry_point, "main");
            assert_eq!(bindings.len(), 1);
            assert_eq!(bindings[0].name, "u");
            assert_eq!((bindings[0].group, bindings[0].binding), (0, 0));
            assert_eq!(bindings[0].ty, ShaderBindingType::UniformBuffer(16));
        }
        other => panic!("unexpected reflection {:?}", other),
    }
}

#[test]
fn wgsl_errors() {
    assert!(!estrol::wgsl::is_shader_valid("fn ("));
    assert_eq!(estrol::wgsl::reflect_wgsl("fn (").unwrap_err(), estrol::wgsl::WgslError::Parse);
    let small = "@group(0) @binding(0) var<uniform> u: f32;\n@compute @workgroup_size(1) fn main() { let x = u; }\n";
    assert!(!estrol::wgsl::is_shader_valid(small));
    assert_eq!(
        estrol::wgsl::reflect_wgsl(small).unwrap_err(),
        estrol::wgsl::WgslError::Reflect(ReflectError::UniformTooSmall { global: 0, size: 4 })
    );
    let builtin = "struct In { @builtin(vertex_index) i: u32, @location(0) p: vec2<f32> };\n\
        @vertex fn vs(v: In) -> @builtin(position) vec4<f32> { return vec4<f32>(v.p, 0.0, 1.0); }\n\
        @fragment fn fs() -> @location(0) vec4<f32> { return vec4<f32>(1.0); }\n";
    assert!(!estrol::wgsl::is_shader_valid(builtin));
    assert_eq!(estrol::wgsl::reflect_wgsl(builtin).unwrap_err(), estrol::wgsl::WgslError::MissingVertexLocation);
}
