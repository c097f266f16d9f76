use vstd::prelude::*;

verus! {

/// How vertices are assembled into primitives.
#[derive(Debug, Clone, Copy, PartialEq, Eq, Hash, Structural)]
pub enum ShaderTopology {
    PointList,
    LineList,
    LineStrip,
    TriangleList,
    TriangleStrip,
}

/// Which face of a primitive is culled.
#[derive(Debug, Clone, Copy, PartialEq, Eq, Hash, Structural)]
pub enum ShaderCullMode {
    Front,
    Back,
}

/// How polygons are rasterized.
#[derive(Debug, Clone, Copy, PartialEq, Eq, Hash, Structural)]
pub enum ShaderPollygonMode {
    Fill,
    Line,
    Point,
}

/// Winding order that makes a polygon front-facing.
#[derive(Debug, Clone, Copy, PartialEq, Eq, Hash, Structural)]
pub enum ShaderFrontFace {
    Clockwise,
    CounterClockwise,
}

/// Access flags of a storage binding: a set of the bits `READ` (1),
/// `WRITE` (2) and `ATOMIC` (4).
#[derive(Debug, Clone, Copy, PartialEq, Eq, Hash, Structural)]
pub struct StorageAccess {
    pub bits: u32,
}

/// Bit of [`StorageAccess`] for read access.
pub const STORAGE_READ: u32 = 1;
/// Bit of [`StorageAccess`] for write access.
pub const STORAGE_WRITE: u32 = 2;
/// Bit of [`StorageAccess`] for atomic access.
pub const STORAGE_ATOMIC: u32 = 4;
/// All bits that a [`StorageAccess`] may hold.
pub const STORAGE_ALL: u32 = 7;

impl StorageAccess {
    /// The flags never hold a bit outside `READ | WRITE | ATOMIC`.
    pub open spec fn wf(self) -> bool {
        self.bits <= STORAGE_ALL
    }

    /// The set with no flag.
    pub fn empty() -> (r: StorageAccess)
        ensures
            r.bits == 0,
            r.wf(),
    {
        StorageAccess { bits: 0 }
    }

    /// Read access.
    pub fn read() -> (r: StorageAccess)
        ensures
            r.bits == STORAGE_READ,
            r.wf(),
    {
        StorageAccess { bits: STORAGE_READ }
    }

    /// Write access.
    pub fn write() -> (r: StorageAccess)
        ensures
            r.bits == STORAGE_WRITE,
            r.wf(),
    {
        StorageAccess { bits: STORAGE_WRITE }
    }

    /// Atomic access.
    pub fn atomic() -> (r: StorageAccess)
        ensures
            r.bits == STORAGE_ATOMIC,
            r.wf(),
    {
        StorageAccess { bits: STORAGE_ATOMIC }
    }

    /// The raw bits of these flags.
    pub fn bits(&self) -> (r: u32)
        ensures
            r == self.bits,
    {
        self.bits
    }

    /// The flags with exactly these bits, or `None` where a bit is set that
    /// names no flag.
    pub fn from_bits(bits: u32) -> (r: Option<StorageAccess>)
        ensures
            r is Some <==> bits <= STORAGE_ALL,
            r matches Some(a) ==> a.bits == bits && a.wf(),
    {
        if bits <= STORAGE_ALL {
            Some(StorageAccess { bits })
        } else {
            None
        }
    }

    /// Whether every flag of `other` is set in `self`.
    pub fn contains(&self, other: StorageAccess) -> (r: bool)
        ensures
            r == (self.bits & other.bits == other.bits),
    {
        self.bits & other.bits == other.bits
    }

    /// The flags of `self` together with those of `other`.
    pub fn union(&self, other: StorageAccess) -> (r: StorageAccess)
        requires
            self.wf(),
            other.wf(),
        ensures
            r.bits == self.bits | other.bits,
            r.wf(),
    {
        let a = self.bits;
        let b = other.bits;
        assert(a <= 7 && b <= 7 ==> a | b <= 7) by (bit_vector);
        StorageAccess { bits: a | b }
    }
}

/// The kind of resource a shader binding refers to.
#[derive(Debug, Clone, Copy, PartialEq, Eq, Hash, Structural)]
pub enum ShaderBindingType {
    UniformBuffer(u32),
    StorageBuffer(u32, StorageAccess),
    StorageTexture(StorageAccess),
    Sampler(bool),
    Texture(bool),
    PushConstant(u32),
}

/// Width of the indices of an index buffer.
#[derive(Debug, Clone, Copy, PartialEq, Eq, Hash, Structural)]
pub enum IndexBufferSize {
    U16,
    U32,
}

/// One resource binding of a shader: its slot, its name and its kind.
#[derive(Debug, Clone, PartialEq, Eq, Hash)]
pub struct ShaderBindingInfo {
    pub binding: u32,
    pub group: u32,
    pub name: String,
    pub ty: ShaderBindingType,
}

/// The value a [`ShaderBindingInfo`] stands for, with its name as characters.
pub struct BindingView {
    pub binding: u32,
    pub group: u32,
    pub name: Seq<char>,
    pub ty: ShaderBindingType,
}

impl View for ShaderBindingInfo {
    type V = BindingView;

    open spec fn view(&self) -> BindingView {
        BindingView { binding: self.binding, group: self.group, name: self.name@, ty: self.ty }
    }
}

/// The views of a sequence of bindings.
pub open spec fn bindings_view(s: Seq<ShaderBindingInfo>) -> Seq<BindingView> {
    s.map_values(|b: ShaderBindingInfo| b@)
}

/// Format of one vertex attribute.
#[derive(Debug, Clone, Copy, PartialEq, Eq, Hash, Structural)]
pub enum VertexInputType {
    Uint8,
    Uint8x2,
    Uint8x4,
    Sint8,
    Sint8x2,
    Sint8x4,
    Unorm8,
    Unorm8x2,
    Unorm8x4,
    Snorm8,
    Snorm8x2,
    Snorm8x4,
    Uint16,
    Uint16x2,
    Uint16x4,
    Sint16,
    Sint16x2,
    Sint16x4,
    Unorm16,
    Unorm16x2,
    Unorm16x4,
    Snorm16,
    Snorm16x2,
    Snorm16x4,
    Float16,
    Float16x2,
    Float16x4,
    Uint32,
    Uint32x2,
    Uint32x3,
    Uint32x4,
    Sint32,
    Sint32x2,
    Sint32x3,
    Sint32x4,
    Float32,
    Float32x2,
    Float32x3,
    Float32x4,
}

/// How the components of a vertex format are stored: unsigned or signed
/// integers, unsigned or signed normalized integers, or floats.
#[derive(Debug, Clone, Copy, PartialEq, Eq, Hash, Structural)]
pub enum VertexDataKind {
    Uint,
    Sint,
    Unorm,
    Snorm,
    Float,
}

/// The number of components of a vertex format: the `xN` of its name, 1
/// without one.
pub open spec fn vertex_components(t: VertexInputType) -> nat {
    match t {
        VertexInputType::Uint8 | VertexInputType::Sint8 | VertexInputType::Unorm8 | VertexInputType::Snorm8
        | VertexInputType::Uint16 | VertexInputType::Sint16 | VertexInputType::Unorm16 | VertexInputType::Snorm16
        | VertexInputType::Float16 | VertexInputType::Uint32 | VertexInputType::Sint32 | VertexInputType::Float32 => 1,
        VertexInputType::Uint8x2 | VertexInputType::Sint8x2 | VertexInputType::Unorm8x2 | VertexInputType::Snorm8x2
        | VertexInputType::Uint16x2 | VertexInputType::Sint16x2 | VertexInputType::Unorm16x2 | VertexInputType::Snorm16x2
        | VertexInputType::Float16x2 | VertexInputType::Uint32x2 | VertexInputType::Sint32x2 | VertexInputType::Float32x2 => 2,
        VertexInputType::Uint32x3 | VertexInputType::Sint32x3 | VertexInputType::Float32x3 => 3,
        _ => 4,
    }
}

/// The bytes of one component of a vertex format: the number of bits in
/// its name, over 8.
pub open spec fn vertex_component_bytes(t: VertexInputType) -> nat {
    match t {
        VertexInputType::Uint8 | VertexInputType::Uint8x2 | VertexInputType::Uint8x4 | VertexInputType::Sint8
        | VertexInputType::Sint8x2 | VertexInputType::Sint8x4 | VertexInputType::Unorm8 | VertexInputType::Unorm8x2
        | VertexInputType::Unorm8x4 | VertexInputType::Snorm8 | VertexInputType::Snorm8x2 | VertexInputType::Snorm8x4 => 1,
        VertexInputType::Uint16 | VertexInputType::Uint16x2 | VertexInputType::Uint16x4 | VertexInputType::Sint16
        | VertexInputType::Sint16x2 | VertexInputType::Sint16x4 | VertexInputType::Unorm16 | VertexInputType::Unorm16x2
        | VertexInputType::Unorm16x4 | VertexInputType::Snorm16 | VertexInputType::Snorm16x2 | VertexInputType::Snorm16x4
        | VertexInputType::Float16 | VertexInputType::Float16x2 | VertexInputType::Float16x4 => 2,
        _ => 4,
    }
}

/// How the components of a vertex format are stored: the prefix of its
/// name.
pub open spec fn vertex_data_kind(t: VertexInputType) -> VertexDataKind {
    match t {
        VertexInputType::Uint8 | VertexInputType::Uint8x2 | VertexInputType::Uint8x4 | VertexInputType::Uint16
        | VertexInputType::Uint16x2 | VertexInputType::Uint16x4 | VertexInputType::Uint32 | VertexInputType::Uint32x2
        | VertexInputType::Uint32x3 | VertexInputType::Uint32x4 => VertexDataKind::Uint,
        VertexInputType::Sint8 | VertexInputType::Sint8x2 | VertexInputType::Sint8x4 | VertexInputType::Sint16
        | VertexInputType::Sint16x2 | VertexInputType::Sint16x4 | VertexInputType::Sint32 | VertexInputType::Sint32x2
        | VertexInputType::Sint32x3 | VertexInputType::Sint32x4 => VertexDataKind::Sint,
        VertexInputType::Unorm8 | VertexInputType::Unorm8x2 | VertexInputType::Unorm8x4 | VertexInputType::Unorm16
        | VertexInputType::Unorm16x2 | VertexInputType::Unorm16x4 => VertexDataKind::Unorm,
        VertexInputType::Snorm8 | VertexInputType::Snorm8x2 | VertexInputType::Snorm8x4 | VertexInputType::Snorm16
        | VertexInputType::Snorm16x2 | VertexInputType::Snorm16x4 => VertexDataKind::Snorm,
        _ => VertexDataKind::Float,
    }
}

/// A vertex format is fixed by its number of components, the bytes of a
/// component and how components are stored: no two formats agree on all
/// three.
pub proof fn lemma_vertex_format_determined(a: VertexInputType, b: VertexInputType)
    requires
        vertex_components(a) == vertex_components(b),
        vertex_component_bytes(a) == vertex_component_bytes(b),
        vertex_data_kind(a) == vertex_data_kind(b),
    ensures
        a == b,
{
}

/// One attribute of a vertex buffer layout.
#[derive(Debug, Clone, Copy, PartialEq, Eq, Hash, Structural)]
pub struct VertexInputAttribute {
    pub shader_location: u32,
    pub offset: u64,
    pub format: VertexInputType,
}

/// A vertex buffer layout: its stride and its attributes.
#[derive(Debug, Clone, PartialEq, Eq, Hash)]
pub struct VertexInputDesc {
    pub stride: u64,
    pub attributes: Vec<VertexInputAttribute>,
}

/// The vertex input structure that a vertex entry point takes.
#[derive(Debug, Clone, PartialEq, Eq, Hash)]
pub struct VertexInputReflection {
    pub name: String,
    pub stride: u64,
    pub attributes: Vec<(u32, u64, VertexInputType)>,
}

/// The value a [`VertexInputReflection`] stands for.
pub struct VertexInputView {
    pub name: Seq<char>,
    pub stride: u64,
    pub attributes: Seq<(u32, u64, VertexInputType)>,
}

impl View for VertexInputReflection {
    type V = VertexInputView;

    open spec fn view(&self) -> VertexInputView {
        VertexInputView { name: self.name@, stride: self.stride, attributes: self.attributes@ }
    }
}

/// The view of an optional vertex input.
pub open spec fn input_view(i: Option<VertexInputReflection>) -> Option<VertexInputView> {
    match i {
        Some(v) => Some(v@),
        None => None,
    }
}

/// What reflection finds in a shader: its stage or stages, their entry
/// points, its vertex input and its bindings.
#[derive(Debug, Clone, PartialEq, Eq, Hash)]
pub enum ShaderReflect {
    Vertex { entry_point: String, input: Option<VertexInputReflection>, bindings: Vec<ShaderBindingInfo> },
    Fragment { entry_point: String, bindings: Vec<ShaderBindingInfo> },
    VertexFragment {
        vertex_entry_point: String,
        vertex_input: Option<VertexInputReflection>,
        fragment_entry_point: String,
        bindings: Vec<ShaderBindingInfo>,
    },
    Compute { entry_point: String, bindings: Vec<ShaderBindingInfo> },
}

/// The value a [`ShaderReflect`] stands for.
pub enum ReflectView {
    Vertex { entry_point: Seq<char>, input: Option<VertexInputView>, bindings: Seq<BindingView> },
    Fragment { entry_point: Seq<char>, bindings: Seq<BindingView> },
    VertexFragment {
        vertex_entry_point: Seq<char>,
        vertex_input: Option<VertexInputView>,
        fragment_entry_point: Seq<char>,
        bindings: Seq<BindingView>,
    },
    Compute { entry_point: Seq<char>, bindings: Seq<BindingView> },
}

impl View for ShaderReflect {
    type V = ReflectView;

    open spec fn view(&self) -> ReflectView {
        match self {
            ShaderReflect::Vertex { entry_point, input, bindings } => ReflectView::Vertex {
                entry_point: entry_point@,
                input: input_view(*input),
                bindings: bindings_view(bindings@),
            },
            ShaderReflect::Fragment { entry_point, bindings } => ReflectView::Fragment {
                entry_point: entry_point@,
                bindings: bindings_view(bindings@),
            },
            ShaderReflect::VertexFragment {
                vertex_entry_point,
                vertex_input,
                fragment_entry_point,
                bindings,
            } => ReflectView::VertexFragment {
                vertex_entry_point: vertex_entry_point@,
                vertex_input: input_view(*vertex_input),
                fragment_entry_point: fragment_entry_point@,
                bindings: bindings_view(bindings@),
            },
            ShaderReflect::Compute { entry_point, bindings } => ReflectView::Compute {
                entry_point: entry_point@,
                bindings: bindings_view(bindings@),
            },
        }
    }
}

} // verus!
