//! Graphics and compute shaders: how their sources are gathered, what their
//! reflection must look like, their vertex input description, bind group
//! layouts, and the lookups of uniforms.
use vstd::prelude::*;

use crate::binary_shader::{decimal, push_decimal};
use crate::bind_layout::{plan_fold, plan_layouts, reflects_layoutable, reflects_view, layouts_match, GroupLayout, LayoutEntry};
use crate::shader_types::{
    bindings_view, BindingView, IndexBufferSize, ReflectView, ShaderBindingInfo, ShaderBindingType,
    ShaderCullMode, ShaderFrontFace, ShaderPollygonMode, ShaderReflect, ShaderTopology,
    VertexInputAttribute, VertexInputType, VertexInputView, VertexDataKind, vertex_components,
    vertex_component_bytes, vertex_data_kind,
};

verus! {

/// Whether vertex data of format `target` may feed an attribute that the
/// shader declares as `origin`: floats from normalized 8- and 16-bit
/// formats (not for three components), unsigned integers from narrower
/// unsigned ones, and every format from itself.
pub open spec fn spec_conversion_supported(origin: VertexInputType, target: VertexInputType) -> bool {
    match origin {
        VertexInputType::Float32 => target == VertexInputType::Float32 || target == VertexInputType::Snorm8
            || target == VertexInputType::Unorm8 || target == VertexInputType::Snorm16,
        VertexInputType::Float32x2 => target == VertexInputType::Float32x2 || target == VertexInputType::Snorm8x2
            || target == VertexInputType::Unorm8x2 || target == VertexInputType::Snorm16x2,
        VertexInputType::Float32x3 => target == VertexInputType::Float32x3,
        VertexInputType::Float32x4 => target == VertexInputType::Float32x4 || target == VertexInputType::Snorm8x4
            || target == VertexInputType::Unorm8x4 || target == VertexInputType::Snorm16x4,
        VertexInputType::Uint32 => target == VertexInputType::Uint32 || target == VertexInputType::Uint16
            || target == VertexInputType::Uint8,
        VertexInputType::Uint32x2 => target == VertexInputType::Uint32x2 || target == VertexInputType::Uint16x2
            || target == VertexInputType::Uint8x2,
        VertexInputType::Uint32x3 => target == VertexInputType::Uint32x3 || target == VertexInputType::Uint16x4
            || target == VertexInputType::Uint8x4,
        VertexInputType::Uint32x4 => target == VertexInputType::Uint32x4 || target == VertexInputType::Uint16x4
            || target == VertexInputType::Uint8x4,
        _ => origin == target,
    }
}

/// A 32-bit float attribute of one, two or four components takes data of
/// the same number of components in the 8-bit normalized formats, signed or
/// unsigned, and in the 16-bit signed normalized format, alike for every
/// such number of components.
pub proof fn lemma_floats_take_normalized(origin: VertexInputType, target: VertexInputType)
    requires
        vertex_data_kind(origin) == VertexDataKind::Float,
        vertex_component_bytes(origin) == 4,
        vertex_components(origin) != 3,
        vertex_components(target) == vertex_components(origin),
        (vertex_component_bytes(target) == 1 && (vertex_data_kind(target) == VertexDataKind::Unorm
            || vertex_data_kind(target) == VertexDataKind::Snorm))
            || (vertex_component_bytes(target) == 2 && vertex_data_kind(target) == VertexDataKind::Snorm),
    ensures
        spec_conversion_supported(origin, target),
{
}

/// Every format feeds an attribute of its own format.
pub proof fn lemma_format_feeds_itself(t: VertexInputType)
    ensures
        spec_conversion_supported(t, t),
{
}

/// Whether vertex data of format `target` may feed an attribute declared as
/// `origin`.
pub fn is_format_conversion_supported(origin: VertexInputType, target: VertexInputType) -> (r: bool)
    ensures
        r == spec_conversion_supported(origin, target),
{
    match origin {
        VertexInputType::Float32 => match target {
            VertexInputType::Float32 | VertexInputType::Snorm8 | VertexInputType::Unorm8 | VertexInputType::Snorm16 => true,
            _ => false,
        },
        VertexInputType::Float32x2 => match target {
            VertexInputType::Float32x2 | VertexInputType::Snorm8x2 | VertexInputType::Unorm8x2 | VertexInputType::Snorm16x2 => true,
            _ => false,
        },
        VertexInputType::Float32x3 => match target {
            VertexInputType::Float32x3 => true,
            _ => false,
        },
        VertexInputType::Float32x4 => match target {
            VertexInputType::Float32x4 | VertexInputType::Snorm8x4 | VertexInputType::Unorm8x4 | VertexInputType::Snorm16x4 => true,
            _ => false,
        },
        VertexInputType::Uint32 => match target {
            VertexInputType::Uint32 | VertexInputType::Uint16 | VertexInputType::Uint8 => true,
            _ => false,
        },
        VertexInputType::Uint32x2 => match target {
            VertexInputType::Uint32x2 | VertexInputType::Uint16x2 | VertexInputType::Uint8x2 => true,
            _ => false,
        },
        VertexInputType::Uint32x3 => match target {
            VertexInputType::Uint32x3 | VertexInputType::Uint16x4 | VertexInputType::Uint8x4 => true,
            _ => false,
        },
        VertexInputType::Uint32x4 => match target {
            VertexInputType::Uint32x4 | VertexInputType::Uint16x4 | VertexInputType::Uint8x4 => true,
            _ => false,
        },
        _ => origin == target,
    }
}

// ---------------------------------------------------------------------------
// Sources
// ---------------------------------------------------------------------------

/// Where the code of a graphics shader comes from.
#[derive(Debug, Clone, PartialEq, Eq)]
pub enum GraphicsShaderSource {
    Unset,
    Source(String),
    SplitSource(String, String),
    BinarySource(Vec<u8>),
    BinarySplitSource(Vec<u8>, Vec<u8>),
}

/// Gathers the sources of a graphics shader.
#[derive(Debug, Clone)]
pub struct GraphicsShaderBuilder {
    pub source: GraphicsShaderSource,
}

fn str_to_string(s: &str) -> (r: String)
    ensures
        r@ == s@,
{
    s.to_owned()
}

impl GraphicsShaderBuilder {
    /// A builder with no source yet.
    pub fn new() -> (r: GraphicsShaderBuilder)
        ensures
            r.source == GraphicsShaderSource::Unset,
    {
        GraphicsShaderBuilder { source: GraphicsShaderSource::Unset }
    }

    /// Sets one WGSL source holding both stages.
    pub fn set_source(self, source: &str) -> (r: GraphicsShaderBuilder)
        ensures
            r.source matches GraphicsShaderSource::Source(s) && s@ == source@,
    {
        GraphicsShaderBuilder { source: GraphicsShaderSource::Source(str_to_string(source)) }
    }

    /// Sets the WGSL vertex source read from a file, keeping the fragment
    /// source of split sources (else an empty one).
    pub fn set_vertex_file_data(self, data: &str) -> (r: GraphicsShaderBuilder)
        ensures
            match self.source {
                GraphicsShaderSource::SplitSource(_, f) => r.source matches GraphicsShaderSource::SplitSource(a, b) && a@ == data@ && b@ == f@,
                _ => r.source matches GraphicsShaderSource::SplitSource(a, b) && a@ == data@ && b@.len() == 0,
            },
    {
        match self.source {
            GraphicsShaderSource::SplitSource(_, f) => GraphicsShaderBuilder {
                source: GraphicsShaderSource::SplitSource(str_to_string(data), f),
            },
            _ => GraphicsShaderBuilder { source: GraphicsShaderSource::SplitSource(str_to_string(data), String::new()) },
        }
    }

    /// Sets the WGSL fragment source read from a file, keeping the vertex
    /// source of split sources (else an empty one).
    pub fn set_fragment_file_data(self, data: &str) -> (r: GraphicsShaderBuilder)
        ensures
            match self.source {
                GraphicsShaderSource::SplitSource(v, _) => r.source matches GraphicsShaderSource::SplitSource(a, b) && a@ == v@ && b@ == data@,
                _ => r.source matches GraphicsShaderSource::SplitSource(a, b) && a@.len() == 0 && b@ == data@,
            },
    {
        match self.source {
            GraphicsShaderSource::SplitSource(v, _) => GraphicsShaderBuilder {
                source: GraphicsShaderSource::SplitSource(v, str_to_string(data)),
            },
            _ => GraphicsShaderBuilder { source: GraphicsShaderSource::SplitSource(String::new(), str_to_string(data)) },
        }
    }

    /// Sets the WGSL vertex source, keeping the fragment source of split
    /// sources (else an empty one).
    pub fn set_vertex_code(self, source: &str) -> (r: GraphicsShaderBuilder)
        ensures
            match self.source {
                GraphicsShaderSource::SplitSource(_, f) => r.source matches GraphicsShaderSource::SplitSource(a, b) && a@ == source@ && b@ == f@,
                _ => r.source matches GraphicsShaderSource::SplitSource(a, b) && a@ == source@ && b@.len() == 0,
            },
    {
        match self.source {
            GraphicsShaderSource::SplitSource(_, f) => GraphicsShaderBuilder {
                source: GraphicsShaderSource::SplitSource(str_to_string(source), f),
            },
            _ => GraphicsShaderBuilder { source: GraphicsShaderSource::SplitSource(str_to_string(source), String::new()) },
        }
    }

    /// Sets the WGSL fragment source, keeping the vertex source of split
    /// sources (else an empty one).
    pub fn set_fragment_code(self, source: &str) -> (r: GraphicsShaderBuilder)
        ensures
            match self.source {
                GraphicsShaderSource::SplitSource(v, _) => r.source matches GraphicsShaderSource::SplitSource(a, b) && a@ == v@ && b@ == source@,
                _ => r.source matches GraphicsShaderSource::SplitSource(a, b) && a@.len() == 0 && b@ == source@,
            },
    {
        match self.source {
            GraphicsShaderSource::SplitSource(v, _) => GraphicsShaderBuilder {
                source: GraphicsShaderSource::SplitSource(v, str_to_string(source)),
            },
            _ => GraphicsShaderBuilder { source: GraphicsShaderSource::SplitSource(String::new(), str_to_string(source)) },
        }
    }

    /// Sets one binary shader holding both stages.
    pub fn set_binary_source(self, binary: &[u8]) -> (r: GraphicsShaderBuilder)
        ensures
            r.source matches GraphicsShaderSource::BinarySource(b) && b@ == binary@,
    {
        GraphicsShaderBuilder { source: GraphicsShaderSource::BinarySource(vstd::slice::slice_to_vec(binary)) }
    }

    /// Sets the binary vertex shader, keeping the fragment binary of binary
    /// split sources (else an empty one).
    pub fn set_binary_vertex(self, binary: &[u8]) -> (r: GraphicsShaderBuilder)
        ensures
            match self.source {
                GraphicsShaderSource::BinarySplitSource(_, f) => r.source matches GraphicsShaderSource::BinarySplitSource(a, b) && a@ == binary@ && b@ == f@,
                _ => r.source matches GraphicsShaderSource::BinarySplitSource(a, b) && a@ == binary@ && b@.len() == 0,
            },
    {
        match self.source {
            GraphicsShaderSource::BinarySplitSource(_, f) => GraphicsShaderBuilder {
                source: GraphicsShaderSource::BinarySplitSource(vstd::slice::slice_to_vec(binary), f),
            },
            _ => GraphicsShaderBuilder {
                source: GraphicsShaderSource::BinarySplitSource(vstd::slice::slice_to_vec(binary), Vec::new()),
            },
        }
    }

    /// Sets the binary fragment shader, keeping the vertex binary of binary
    /// split sources (else an empty one).
    pub fn set_binary_fragment(self, binary: &[u8]) -> (r: GraphicsShaderBuilder)
        ensures
            match self.source {
                GraphicsShaderSource::BinarySplitSource(v, _) => r.source matches GraphicsShaderSource::BinarySplitSource(a, b) && a@ == v@ && b@ == binary@,
                _ => r.source matches GraphicsShaderSource::BinarySplitSource(a, b) && a@.len() == 0 && b@ == binary@,
            },
    {
        match self.source {
            GraphicsShaderSource::BinarySplitSource(v, _) => GraphicsShaderBuilder {
                source: GraphicsShaderSource::BinarySplitSource(v, vstd::slice::slice_to_vec(binary)),
            },
            _ => GraphicsShaderBuilder {
                source: GraphicsShaderSource::BinarySplitSource(Vec::new(), vstd::slice::slice_to_vec(binary)),
            },
        }
    }
}

// ---------------------------------------------------------------------------
// Vertex input description
// ---------------------------------------------------------------------------

/// How the vertex stage of a graphics shader reads its input.
#[derive(Debug, Clone, PartialEq, Eq, Hash)]
pub struct VertexInputDescription {
    pub index: Option<IndexBufferSize>,
    pub topology: ShaderTopology,
    pub cull_mode: Option<ShaderCullMode>,
    pub polygon_mode: ShaderPollygonMode,
    pub front_face: ShaderFrontFace,
    pub stride: u64,
    pub attributes: Vec<VertexInputAttribute>,
}

/// The attribute for a reflected `(location, offset, format)`.
pub open spec fn attribute_of(a: (u32, u64, VertexInputType)) -> VertexInputAttribute {
    VertexInputAttribute { shader_location: a.0, offset: a.1, format: a.2 }
}

/// The vertex input of a reflection with a vertex stage, if it has one.
pub open spec fn reflect_vertex_input(r: ReflectView) -> Option<Option<VertexInputView>> {
    match r {
        ReflectView::Vertex { input, .. } => Some(input),
        ReflectView::VertexFragment { vertex_input, .. } => Some(vertex_input),
        _ => None,
    }
}

pub open spec fn msg_missing_vertex_input() -> Seq<char> {
    "Missing vertex input"@
}

pub open spec fn msg_invalid_vertex_shader() -> Seq<char> {
    "Invalid shader type for vertex input"@
}

/// Whether `d` is the default description of the vertex input `v`: 16-bit
/// indices, triangle lists, no culling, filled, clockwise, the reflected
/// stride and one attribute per reflected one.
pub open spec fn default_input_desc(d: VertexInputDescription, v: VertexInputView) -> bool {
    &&& d.index == Some(IndexBufferSize::U16)
    &&& d.topology == ShaderTopology::TriangleList
    &&& d.cull_mode == None::<ShaderCullMode>
    &&& d.polygon_mode == ShaderPollygonMode::Fill
    &&& d.front_face == ShaderFrontFace::Clockwise
    &&& d.stride == v.stride
    &&& d.attributes@ == v.attributes.map_values(|a: (u32, u64, VertexInputType)| attribute_of(a))
}

/// The vertex input description of a reflection: fails with "Invalid shader
/// type for vertex input" for one without a vertex stage and with "Missing
/// vertex input" for one without an input structure.
pub fn create_input_desc(r: &ShaderReflect) -> (res: Result<VertexInputDescription, String>)
    ensures
        match reflect_vertex_input(r@) {
            None => res matches Err(e) && e@ == msg_invalid_vertex_shader(),
            Some(None) => res matches Err(e) && e@ == msg_missing_vertex_input(),
            Some(Some(v)) => res matches Ok(d) && default_input_desc(d, v),
        },
{
    let input = match r {
        ShaderReflect::Vertex { input, .. } => input,
        ShaderReflect::VertexFragment { vertex_input, .. } => vertex_input,
        _ => return Err("Invalid shader type for vertex input".to_owned()),
    };
    let input = match input {
        Some(i) => i,
        None => return Err("Missing vertex input".to_owned()),
    };
    let mut attributes: Vec<VertexInputAttribute> = Vec::new();
    let mut k: usize = 0;
    while k < input.attributes.len()
        invariant
            k <= input.attributes@.len(),
            attributes@ == input.attributes@.take(k as int).map_values(|a: (u32, u64, VertexInputType)| attribute_of(a)),
        decreases input.attributes@.len() - k,
    {
        let (location, offset, format) = input.attributes[k];
        attributes.push(VertexInputAttribute { shader_location: location, offset, format });
        proof {
            assert(input.attributes@.take(k + 1) =~= input.attributes@.take(k as int).push(input.attributes@[k as int]));
            assert(attributes@ =~= input.attributes@.take(k + 1).map_values(|a: (u32, u64, VertexInputType)| attribute_of(a)));
        }
        k = k + 1;
    }
    proof {
        assert(input.attributes@.take(k as int) =~= input.attributes@);
    }
    Ok(VertexInputDescription {
        index: Some(IndexBufferSize::U16),
        topology: ShaderTopology::TriangleList,
        cull_mode: None,
        polygon_mode: ShaderPollygonMode::Fill,
        front_face: ShaderFrontFace::Clockwise,
        stride: input.stride,
        attributes,
    })
}

// ---------------------------------------------------------------------------
// Building
// ---------------------------------------------------------------------------

/// The kind of source a graphics shader was built from.
#[derive(Debug, Clone, Copy, PartialEq, Eq, Hash, Structural)]
pub enum ShaderSourceKind {
    Unset,
    Source,
    SplitSource,
    BinarySource,
    BinarySplitSource,
}

/// What a graphics shader is made of, once its sources are reflected: the
/// reflections, the bind group layouts and the vertex input description.
#[derive(Debug, Clone)]
pub struct GraphicsShaderPlan {
    pub reflection: Vec<ShaderReflect>,
    pub layouts: Vec<GroupLayout>,
    pub input: VertexInputDescription,
}

/// Whether the reflections have the shape that the source kind calls for:
/// one combined shader for a single source, a vertex then a fragment shader
/// for split sources.
pub open spec fn reflection_shape_ok(kind: ShaderSourceKind, rs: Seq<ReflectView>) -> bool {
    match kind {
        ShaderSourceKind::Source | ShaderSourceKind::BinarySource => rs.len() == 1 && rs[0] is VertexFragment,
        ShaderSourceKind::SplitSource | ShaderSourceKind::BinarySplitSource => rs.len() == 2 && rs[0] is Vertex && rs[1] is Fragment,
        ShaderSourceKind::Unset => false,
    }
}

/// The message for reflections of the wrong shape.
pub open spec fn msg_bad_shape(kind: ShaderSourceKind) -> Seq<char> {
    match kind {
        ShaderSourceKind::Unset => "No shader source provided"@,
        ShaderSourceKind::Source => "Shader source is not VertexFragment shader!"@,
        ShaderSourceKind::SplitSource => "Invalid shader pair for SplitSource"@,
        ShaderSourceKind::BinarySource => "Binary shader is not VertexFragment shader!"@,
        ShaderSourceKind::BinarySplitSource => "Invalid binary shader pair for BinarySplitSource"@,
    }
}

/// Checks the reflections of a graphics shader against its kind of source
/// and derives its layouts and vertex input. Reflections of the wrong shape
/// give the kind's message; otherwise the result holds the reflections, the
/// layouts of [`plan_layouts`] and the input description of the vertex
/// reflection, or that description's error.
pub fn plan_graphics_shader(kind: ShaderSourceKind, reflects: Vec<ShaderReflect>) -> (res: Result<GraphicsShaderPlan, String>)
    requires
        reflection_shape_ok(kind, reflects_view(reflects@)) ==> reflects_layoutable(reflects_view(reflects@), false),
        kind is Source || kind is BinarySource ==> reflects@.len() == 1,
        kind is SplitSource || kind is BinarySplitSource ==> reflects@.len() == 2,
    ensures
        !reflection_shape_ok(kind, reflects_view(reflects@)) ==> (res matches Err(e) && e@ == msg_bad_shape(kind)),
        reflection_shape_ok(kind, reflects_view(reflects@)) ==> match reflect_vertex_input(reflects@[0]@) {
            None => res matches Err(e) && e@ == msg_invalid_vertex_shader(),
            Some(None) => res matches Err(e) && e@ == msg_missing_vertex_input(),
            Some(Some(v)) => res matches Ok(p) && p.reflection@ == reflects@
                && layouts_match(p.layouts@, plan_fold(reflects_view(reflects@), false, reflects@.len()))
                && default_input_desc(p.input, v),
        },
{
    let shape_ok = match kind {
        ShaderSourceKind::Unset => false,
        ShaderSourceKind::Source | ShaderSourceKind::BinarySource => match &reflects[0] {
            ShaderReflect::VertexFragment { .. } => true,
            _ => false,
        },
        ShaderSourceKind::SplitSource | ShaderSourceKind::BinarySplitSource => match (&reflects[0], &reflects[1]) {
            (ShaderReflect::Vertex { .. }, ShaderReflect::Fragment { .. }) => true,
            _ => false,
        },
    };
    proof {
        let rs = reflects_view(reflects@);
        if kind is Source || kind is BinarySource {
            assert(rs[0] == reflects@[0]@);
        }
        if kind is SplitSource || kind is BinarySplitSource {
            assert(rs[0] == reflects@[0]@);
            assert(rs[1] == reflects@[1]@);
        }
    }
    if !shape_ok {
        return match kind {
            ShaderSourceKind::Unset => Err("No shader source provided".to_owned()),
            ShaderSourceKind::Source => Err("Shader source is not VertexFragment shader!".to_owned()),
            ShaderSourceKind::SplitSource => Err("Invalid shader pair for SplitSource".to_owned()),
            ShaderSourceKind::BinarySource => Err("Binary shader is not VertexFragment shader!".to_owned()),
            ShaderSourceKind::BinarySplitSource => Err("Invalid binary shader pair for BinarySplitSource".to_owned()),
        };
    }
    let layouts = plan_layouts(&reflects, false);
    let input = match create_input_desc(&reflects[0]) {
        Ok(d) => d,
        Err(e) => return Err(e),
    };
    Ok(GraphicsShaderPlan { reflection: reflects, layouts, input })
}

/// The layouts of a compute shader, from its reflection.
pub fn plan_compute_layouts(reflect: ShaderReflect) -> (out: Vec<GroupLayout>)
    requires
        reflects_layoutable(reflects_view(seq![reflect]), true),
    ensures
        layouts_match(out@, plan_fold(reflects_view(seq![reflect]), true, 1)),
{
    let mut v: Vec<ShaderReflect> = Vec::new();
    v.push(reflect);
    assert(v@ =~= seq![reflect]);
    plan_layouts(&v, true)
}

// ---------------------------------------------------------------------------
// Lookups
// ---------------------------------------------------------------------------

/// The bindings of a reflection that uniform lookups of a graphics shader
/// search: all but those of a compute shader.
pub open spec fn graphics_bindings(r: ReflectView) -> Option<Seq<BindingView>> {
    match r {
        ReflectView::Vertex { bindings, .. } => Some(bindings),
        ReflectView::Fragment { bindings, .. } => Some(bindings),
        ReflectView::VertexFragment { bindings, .. } => Some(bindings),
        ReflectView::Compute { .. } => None,
    }
}

/// Index of the first uniform buffer named `name` at or after `k`, or -1.
pub open spec fn first_uniform_named(bs: Seq<BindingView>, name: Seq<char>, k: int) -> int
    decreases bs.len() - k,
{
    if k < 0 || k >= bs.len() {
        -1
    } else if bs[k].name == name && bs[k].ty is UniformBuffer {
        k
    } else {
        first_uniform_named(bs, name, k + 1)
    }
}

/// The slot of the first uniform buffer named `name`, in the first
/// reflection (from `k` on) that has one.
pub open spec fn uniform_location(rs: Seq<ReflectView>, name: Seq<char>, k: int) -> Option<(u32, u32)>
    decreases rs.len() - k,
{
    if k < 0 || k >= rs.len() {
        None
    } else {
        match graphics_bindings(rs[k]) {
            Some(bs) => {
                let i = first_uniform_named(bs, name, 0);
                if i >= 0 {
                    Some((bs[i].group, bs[i].binding))
                } else {
                    uniform_location(rs, name, k + 1)
                }
            },
            None => uniform_location(rs, name, k + 1),
        }
    }
}

fn find_uniform_named(bs: &Vec<ShaderBindingInfo>, name: &String) -> (r: Option<usize>)
    ensures
        match r {
            Some(i) => i as int == first_uniform_named(bindings_view(bs@), name@, 0) && i < bs@.len(),
            None => first_uniform_named(bindings_view(bs@), name@, 0) == -1,
        },
{
    let ghost s = bindings_view(bs@);
    let mut i: usize = 0;
    while i < bs.len()
        invariant
            i <= bs@.len(),
            s == bindings_view(bs@),
            first_uniform_named(s, name@, 0) == first_uniform_named(s, name@, i as int),
        decreases bs@.len() - i,
    {
        let is_uniform = match bs[i].ty {
            ShaderBindingType::UniformBuffer(_) => true,
            _ => false,
        };
        if bs[i].name == *name && is_uniform {
            return Some(i);
        }
        i = i + 1;
    }
    None
}

/// The group and binding of the first uniform buffer named `name`, looked
/// up reflection by reflection (compute reflections skipped).
pub fn get_uniform_location(reflects: &Vec<ShaderReflect>, name: &str) -> (r: Option<(u32, u32)>)
    ensures
        r == uniform_location(reflects_view(reflects@), name@, 0),
{
    let ghost rs = reflects_view(reflects@);
    let owned = str_to_string(name);
    let mut k: usize = 0;
    while k < reflects.len()
        invariant
            k <= reflects@.len(),
            rs == reflects_view(reflects@),
            owned@ == name@,
            uniform_location(rs, name@, 0) == uniform_location(rs, name@, k as int),
        decreases reflects@.len() - k,
    {
        assert(rs[k as int] == reflects@[k as int]@);
        let bindings = match &reflects[k] {
            ShaderReflect::Vertex { bindings, .. } => bindings,
            ShaderReflect::Fragment { bindings, .. } => bindings,
            ShaderReflect::VertexFragment { bindings, .. } => bindings,
            ShaderReflect::Compute { .. } => {
                k = k + 1;
                continue;
            },
        };
        assert(graphics_bindings(rs[k as int]) == Some(bindings_view(bindings@)));
        match find_uniform_named(bindings, &owned) {
            Some(i) => {
                assert(bindings_view(bindings@)[i as int] == bindings@[i as int]@);
                return Some((bindings[i].group, bindings[i].binding));
            },
            None => {},
        }
        k = k + 1;
    }
    None
}

/// The slot of the first uniform buffer named `name` in a compute
/// reflection; `None` for other reflections.
pub open spec fn compute_uniform_location(r: ReflectView, name: Seq<char>) -> Option<(u32, u32)> {
    match r {
        ReflectView::Compute { bindings, .. } => {
            let i = first_uniform_named(bindings, name, 0);
            if i >= 0 {
                Some((bindings[i].group, bindings[i].binding))
            } else {
                None
            }
        },
        _ => None,
    }
}

/// The group and binding of the first uniform buffer named `name` of a
/// compute shader.
pub fn get_compute_uniform_location(reflect: &ShaderReflect, name: &str) -> (r: Option<(u32, u32)>)
    ensures
        r == compute_uniform_location(reflect@, name@),
{
    let name = str_to_string(name);
    match reflect {
        ShaderReflect::Compute { bindings, .. } => match find_uniform_named(bindings, &name) {
            Some(i) => Some((bindings[i].group, bindings[i].binding)),
            None => None,
        },
        _ => None,
    }
}

/// Index of the first binding at slot `(group, binding)` from `k`, or -1.
pub open spec fn first_at_slot(bs: Seq<BindingView>, group: u32, binding: u32, k: int) -> int
    decreases bs.len() - k,
{
    if k < 0 || k >= bs.len() {
        -1
    } else if bs[k].group == group && bs[k].binding == binding {
        k
    } else {
        first_at_slot(bs, group, binding, k + 1)
    }
}

/// The size of the uniform buffer at a slot: in each reflection in turn
/// (compute ones skipped), the first binding at the slot answers when it is
/// a uniform buffer.
pub open spec fn uniform_size(rs: Seq<ReflectView>, group: u32, binding: u32, k: int) -> Option<u32>
    decreases rs.len() - k,
{
    if k < 0 || k >= rs.len() {
        None
    } else {
        match graphics_bindings(rs[k]) {
            Some(bs) => {
                let i = first_at_slot(bs, group, binding, 0);
                if i >= 0 && bs[i].ty is UniformBuffer {
                    Some(bs[i].ty->UniformBuffer_0)
                } else {
                    uniform_size(rs, group, binding, k + 1)
                }
            },
            None => uniform_size(rs, group, binding, k + 1),
        }
    }
}

fn find_at_slot(bs: &Vec<ShaderBindingInfo>, group: u32, binding: u32) -> (r: Option<usize>)
    ensures
        match r {
            Some(i) => i as int == first_at_slot(bindings_view(bs@), group, binding, 0) && i < bs@.len(),
            None => first_at_slot(bindings_view(bs@), group, binding, 0) == -1,
        },
{
    let ghost s = bindings_view(bs@);
    let mut i: usize = 0;
    while i < bs.len()
        invariant
            i <= bs@.len(),
            s == bindings_view(bs@),
            first_at_slot(s, group, binding, 0) == first_at_slot(s, group, binding, i as int),
        decreases bs@.len() - i,
    {
        if bs[i].group == group && bs[i].binding == binding {
            return Some(i);
        }
        i = i + 1;
    }
    None
}

/// The size of the uniform buffer at `(group, binding)`, as
/// [`uniform_size`] states.
pub fn get_uniform_size(reflects: &Vec<ShaderReflect>, group: u32, binding: u32) -> (r: Option<u32>)
    ensures
        r == uniform_size(reflects_view(reflects@), group, binding, 0),
{
    let ghost rs = reflects_view(reflects@);
    let mut k: usize = 0;
    while k < reflects.len()
        invariant
            k <= reflects@.len(),
            rs == reflects_view(reflects@),
            uniform_size(rs, group, binding, 0) == uniform_size(rs, group, binding, k as int),
        decreases reflects@.len() - k,
    {
        assert(rs[k as int] == reflects@[k as int]@);
        let bindings = match &reflects[k] {
            ShaderReflect::Vertex { bindings, .. } => bindings,
            ShaderReflect::Fragment { bindings, .. } => bindings,
            ShaderReflect::VertexFragment { bindings, .. } => bindings,
            ShaderReflect::Compute { .. } => {
                k = k + 1;
                continue;
            },
        };
        match find_at_slot(bindings, group, binding) {
            Some(i) => {
                match bindings[i].ty {
                    ShaderBindingType::UniformBuffer(size) => {
                        return Some(size);
                    },
                    _ => {},
                }
            },
            None => {},
        }
        k = k + 1;
    }
    None
}

/// The name of a vertex format, as `Debug` writes it.
pub open spec fn vertex_type_name(t: VertexInputType) -> Seq<char> {
    match t {
        VertexInputType::Uint8 => "Uint8"@,
        VertexInputType::Uint8x2 => "Uint8x2"@,
        VertexInputType::Uint8x4 => "Uint8x4"@,
        VertexInputType::Sint8 => "Sint8"@,
        VertexInputType::Sint8x2 => "Sint8x2"@,
        VertexInputType::Sint8x4 => "Sint8x4"@,
        VertexInputType::Unorm8 => "Unorm8"@,
        VertexInputType::Unorm8x2 => "Unorm8x2"@,
        VertexInputType::Unorm8x4 => "Unorm8x4"@,
        VertexInputType::Snorm8 => "Snorm8"@,
        VertexInputType::Snorm8x2 => "Snorm8x2"@,
        VertexInputType::Snorm8x4 => "Snorm8x4"@,
        VertexInputType::Uint16 => "Uint16"@,
        VertexInputType::Uint16x2 => "Uint16x2"@,
        VertexInputType::Uint16x4 => "Uint16x4"@,
        VertexInputType::Sint16 => "Sint16"@,
        VertexInputType::Sint16x2 => "Sint16x2"@,
        VertexInputType::Sint16x4 => "Sint16x4"@,
        VertexInputType::Unorm16 => "Unorm16"@,
        VertexInputType::Unorm16x2 => "Unorm16x2"@,
        VertexInputType::Unorm16x4 => "Unorm16x4"@,
        VertexInputType::Snorm16 => "Snorm16"@,
        VertexInputType::Snorm16x2 => "Snorm16x2"@,
        VertexInputType::Snorm16x4 => "Snorm16x4"@,
        VertexInputType::Float16 => "Float16"@,
        VertexInputType::Float16x2 => "Float16x2"@,
        VertexInputType::Float16x4 => "Float16x4"@,
        VertexInputType::Uint32 => "Uint32"@,
        VertexInputType::Uint32x2 => "Uint32x2"@,
        VertexInputType::Uint32x3 => "Uint32x3"@,
        VertexInputType::Uint32x4 => "Uint32x4"@,
        VertexInputType::Sint32 => "Sint32"@,
        VertexInputType::Sint32x2 => "Sint32x2"@,
        VertexInputType::Sint32x3 => "Sint32x3"@,
        VertexInputType::Sint32x4 => "Sint32x4"@,
        VertexInputType::Float32 => "Float32"@,
        VertexInputType::Float32x2 => "Float32x2"@,
        VertexInputType::Float32x3 => "Float32x3"@,
        VertexInputType::Float32x4 => "Float32x4"@,
    }
}

/// The name of a vertex format, as `Debug` writes it.
pub fn vertex_type_str(t: VertexInputType) -> (r: &'static str)
    ensures
        r@ == vertex_type_name(t),
{
    match t {
        VertexInputType::Uint8 => "Uint8",
        VertexInputType::Uint8x2 => "Uint8x2",
        VertexInputType::Uint8x4 => "Uint8x4",
        VertexInputType::Sint8 => "Sint8",
        VertexInputType::Sint8x2 => "Sint8x2",
        VertexInputType::Sint8x4 => "Sint8x4",
        VertexInputType::Unorm8 => "Unorm8",
        VertexInputType::Unorm8x2 => "Unorm8x2",
        VertexInputType::Unorm8x4 => "Unorm8x4",
        VertexInputType::Snorm8 => "Snorm8",
        VertexInputType::Snorm8x2 => "Snorm8x2",
        VertexInputType::Snorm8x4 => "Snorm8x4",
        VertexInputType::Uint16 => "Uint16",
        VertexInputType::Uint16x2 => "Uint16x2",
        VertexInputType::Uint16x4 => "Uint16x4",
        VertexInputType::Sint16 => "Sint16",
        VertexInputType::Sint16x2 => "Sint16x2",
        VertexInputType::Sint16x4 => "Sint16x4",
        VertexInputType::Unorm16 => "Unorm16",
        VertexInputType::Unorm16x2 => "Unorm16x2",
        VertexInputType::Unorm16x4 => "Unorm16x4",
        VertexInputType::Snorm16 => "Snorm16",
        VertexInputType::Snorm16x2 => "Snorm16x2",
        VertexInputType::Snorm16x4 => "Snorm16x4",
        VertexInputType::Float16 => "Float16",
        VertexInputType::Float16x2 => "Float16x2",
        VertexInputType::Float16x4 => "Float16x4",
        VertexInputType::Uint32 => "Uint32",
        VertexInputType::Uint32x2 => "Uint32x2",
        VertexInputType::Uint32x3 => "Uint32x3",
        VertexInputType::Uint32x4 => "Uint32x4",
        VertexInputType::Sint32 => "Sint32",
        VertexInputType::Sint32x2 => "Sint32x2",
        VertexInputType::Sint32x3 => "Sint32x3",
        VertexInputType::Sint32x4 => "Sint32x4",
        VertexInputType::Float32 => "Float32",
        VertexInputType::Float32x2 => "Float32x2",
        VertexInputType::Float32x3 => "Float32x3",
        VertexInputType::Float32x4 => "Float32x4",
    }
}

/// `prefix`, `n` in decimal and `suffix`.
fn format_number_message(prefix: &str, n: u32, suffix: &str) -> (r: String)
    ensures
        r@ == prefix@ + decimal(n as nat) + suffix@,
{
    let mut s = prefix.to_owned();
    push_decimal(&mut s, n as u64);
    s.append(suffix);
    s
}

/// The message for an unsupported vertex format.
fn format_type_message(name: &str, location: u32) -> (r: String)
    ensures
        r@ == "Vertex input type "@ + name@ + " is not supported for location "@ + decimal(location as nat),
{
    let mut s = "Vertex input type ".to_owned();
    s.append(name);
    s.append(" is not supported for location ");
    push_decimal(&mut s, location as u64);
    s
}

/// The vertex input of the first reflection, where it has one.
pub open spec fn first_vertex_input(rs: Seq<ReflectView>) -> Option<VertexInputView> {
    if rs.len() > 0 {
        match reflect_vertex_input(rs[0]) {
            Some(Some(v)) => Some(v),
            _ => None,
        }
    } else {
        None
    }
}

/// Index of the first reflected attribute at `location` from `k`, or -1.
pub open spec fn first_attr_at(attrs: Seq<(u32, u64, VertexInputType)>, location: u32, k: int) -> int
    decreases attrs.len() - k,
{
    if k < 0 || k >= attrs.len() {
        -1
    } else if attrs[k].0 == location {
        k
    } else {
        first_attr_at(attrs, location, k + 1)
    }
}

/// Index of the first described attribute at `location` from `k`, or -1.
pub open spec fn first_desc_attr_at(attrs: Seq<VertexInputAttribute>, location: u32, k: int) -> int
    decreases attrs.len() - k,
{
    if k < 0 || k >= attrs.len() {
        -1
    } else if attrs[k].shader_location == location {
        k
    } else {
        first_desc_attr_at(attrs, location, k + 1)
    }
}

/// The outcome of changing the format of the attribute at `location` to
/// `vtype`: the message of the first check that fails, else the index of
/// the described attribute to change.
pub open spec fn vertex_input_change(rs: Seq<ReflectView>, attrs: Seq<VertexInputAttribute>, location: u32, vtype: VertexInputType) -> Result<int, Seq<char>> {
    match first_vertex_input(rs) {
        None => Err("Shader does not have vertex input"@),
        Some(v) => {
            let i = first_attr_at(v.attributes, location, 0);
            if i < 0 {
                Err("Vertex input location "@ + decimal(location as nat) + " not found"@)
            } else if !spec_conversion_supported(v.attributes[i].2, vtype) {
                Err("Vertex input type "@ + vertex_type_name(vtype) + " is not supported for location "@ + decimal(location as nat))
            } else {
                let j = first_desc_attr_at(attrs, location, 0);
                if j < 0 {
                    Err("Vertex input location "@ + decimal(location as nat) + " not found in shader attributes"@)
                } else {
                    Ok(j)
                }
            }
        },
    }
}

impl VertexInputDescription {
    /// Feeds the attribute at `location` with data of format `vtype`. The
    /// first reflection must have a vertex input with an attribute at that
    /// location whose declared format accepts `vtype`, and the description
    /// must hold an attribute there; the first such attribute changes, and
    /// nothing else. Each failed check gives its message and changes nothing.
    pub fn set_vertex_input(&mut self, reflection: &Vec<ShaderReflect>, location: u32, vtype: VertexInputType) -> (res: Result<(), String>)
        ensures
            match vertex_input_change(reflects_view(reflection@), old(self).attributes@, location, vtype) {
                Err(m) => res matches Err(e) && e@ == m && *final(self) == *old(self),
                Ok(j) => res is Ok && final(self).attributes@ == old(self).attributes@.update(
                    j,
                    VertexInputAttribute { format: vtype, ..old(self).attributes@[j] },
                ) && final(self).stride == old(self).stride && final(self).index == old(self).index
                    && final(self).topology == old(self).topology && final(self).cull_mode == old(self).cull_mode
                    && final(self).polygon_mode == old(self).polygon_mode && final(self).front_face == old(self).front_face,
            },
    {
        let ghost rs = reflects_view(reflection@);
        if reflection.len() == 0 {
            return Err("Shader does not have vertex input".to_owned());
        }
        assert(rs[0] == reflection@[0]@);
        let input = match &reflection[0] {
            ShaderReflect::Vertex { input, .. } => input,
            ShaderReflect::VertexFragment { vertex_input, .. } => vertex_input,
            _ => return Err("Shader does not have vertex input".to_owned()),
        };
        let input = match input {
            Some(i) => i,
            None => return Err("Shader does not have vertex input".to_owned()),
        };
        let mut i: usize = 0;
        while i < input.attributes.len() && input.attributes[i].0 != location
            invariant
                i <= input.attributes@.len(),
                first_attr_at(input.attributes@, location, 0) == first_attr_at(input.attributes@, location, i as int),
            decreases input.attributes@.len() - i,
        {
            i = i + 1;
        }
        if i >= input.attributes.len() {
            return Err(format_number_message("Vertex input location ", location, " not found"));
        }
        let og = input.attributes[i].2;
        if !is_format_conversion_supported(og, vtype) {
            return Err(format_type_message(vertex_type_str(vtype), location));
        }
        let mut j: usize = 0;
        while j < self.attributes.len() && self.attributes[j].shader_location != location
            invariant
                j <= self.attributes@.len(),
                self.attributes@ == old(self).attributes@,
                first_desc_attr_at(self.attributes@, location, 0) == first_desc_attr_at(self.attributes@, location, j as int),
            decreases self.attributes@.len() - j,
        {
            j = j + 1;
        }
        if j >= self.attributes.len() {
            return Err(format_number_message("Vertex input location ", location, " not found in shader attributes"));
        }
        let a = self.attributes[j];
        self.attributes.set(j, VertexInputAttribute { format: vtype, ..a });
        Ok(())
    }

    /// Sets the primitive topology.
    pub fn set_topology(&mut self, topology: ShaderTopology) -> (res: Result<(), String>)
        ensures
            res is Ok,
            *final(self) == (VertexInputDescription { topology, ..*old(self) }),
    {
        self.topology = topology;
        Ok(())
    }

    /// Sets the face that is culled, if any.
    pub fn set_cull_mode(&mut self, cull_mode: Option<ShaderCullMode>) -> (res: Result<(), String>)
        ensures
            res is Ok,
            *final(self) == (VertexInputDescription { cull_mode, ..*old(self) }),
    {
        self.cull_mode = cull_mode;
        Ok(())
    }

    /// Sets how polygons are rasterized.
    pub fn set_polygon_mode(&mut self, polygon_mode: ShaderPollygonMode) -> (res: Result<(), String>)
        ensures
            res is Ok,
            *final(self) == (VertexInputDescription { polygon_mode, ..*old(self) }),
    {
        self.polygon_mode = polygon_mode;
        Ok(())
    }

    /// Sets the winding of front faces.
    pub fn set_front_face(&mut self, front_face: ShaderFrontFace) -> (res: Result<(), String>)
        ensures
            res is Ok,
            *final(self) == (VertexInputDescription { front_face, ..*old(self) }),
    {
        self.front_face = front_face;
        Ok(())
    }

    /// Sets the width of indices, or none for unindexed drawing.
    pub fn set_vertex_index_ty(&mut self, index: Option<IndexBufferSize>) -> (res: Result<(), String>)
        ensures
            res is Ok,
            *final(self) == (VertexInputDescription { index, ..*old(self) }),
    {
        self.index = index;
        Ok(())
    }
}

} // verus!
