//! Reflection of a parsed shader module: its resource bindings, their sizes
//! under the std140-like layout rules, its entry points and its vertex input.
//!
//! The module is held in a model of its own: the type arena, the global
//! variables and the entry points, with types referring to each other by
//! their index in the arena.
use vstd::prelude::*;
use vstd::wrapping::u32_specs::{wrapping_add, wrapping_mul, wrapping_sub};

use crate::binary_shader::{decimal, push_decimal};
use crate::shader_types::{
    bindings_view, input_view, BindingView, ReflectView, ShaderBindingInfo, ShaderBindingType,
    ShaderReflect, StorageAccess, VertexInputReflection, VertexInputType, VertexInputView,
};

verus! {

/// The kind of a scalar type.
#[derive(Debug, Clone, Copy, PartialEq, Eq, Hash, Structural)]
pub enum ScalarKind {
    Sint,
    Uint,
    Float,
    Bool,
    AbstractInt,
    AbstractFloat,
}

/// A scalar type: its kind and its width in bytes.
#[derive(Debug, Clone, Copy, PartialEq, Eq, Hash, Structural)]
pub struct ScalarType {
    pub kind: ScalarKind,
    pub width: u8,
}

/// The number of components of a vector, or of rows or columns of a matrix.
#[derive(Debug, Clone, Copy, PartialEq, Eq, Hash, Structural)]
pub enum VectorWidth {
    Bi,
    Tri,
    Quad,
}

/// The length of an array type.
#[derive(Debug, Clone, Copy, PartialEq, Eq, Hash, Structural)]
pub enum ArrayLength {
    Constant(u32),
    Pending,
    Dynamic,
}

/// The class of an image type.
#[derive(Debug, Clone, Copy, PartialEq, Eq, Hash, Structural)]
pub enum ImageKind {
    Sampled { multi: bool },
    Depth { multi: bool },
    Storage,
}

/// A member of a structure type.
#[derive(Debug, Clone, PartialEq, Eq)]
pub struct MemberDecl {
    pub name: Option<String>,
    /// Index of the member's type in the arena.
    pub ty: usize,
    /// The `@location` of the member, where it has one.
    pub location: Option<u32>,
}

/// The shape of a type.
#[derive(Debug, Clone, PartialEq, Eq)]
#[allow(inconsistent_fields)]
pub enum TypeShape {
    Scalar(ScalarType),
    Vector { size: VectorWidth, scalar: ScalarType },
    Matrix { columns: VectorWidth, rows: VectorWidth, scalar: ScalarType },
    Array { base: usize, size: ArrayLength, stride: u32 },
    Struct { members: Vec<MemberDecl>, span: u32 },
    Image { class: ImageKind },
    Sampler { comparison: bool },
    Other,
}

/// A type of the arena, with its name where it has one.
#[derive(Debug, Clone, PartialEq, Eq)]
pub struct ModuleType {
    pub name: Option<String>,
    pub inner: TypeShape,
}

/// The address space of a global variable.
#[derive(Debug, Clone, Copy, PartialEq, Eq, Hash, Structural)]
pub enum VarSpace {
    Uniform,
    PushConstant,
    Storage { load: bool, store: bool, atomic: bool },
    Handle,
    Other,
}

/// The `@group` and `@binding` of a resource.
#[derive(Debug, Clone, Copy, PartialEq, Eq, Hash, Structural)]
pub struct ResourceBinding {
    pub group: u32,
    pub binding: u32,
}

/// A global variable of the module.
#[derive(Debug, Clone, PartialEq, Eq)]
pub struct ModuleGlobal {
    pub name: Option<String>,
    pub space: VarSpace,
    pub binding: Option<ResourceBinding>,
    /// Index of the variable's type in the arena.
    pub ty: usize,
}

/// The pipeline stage of an entry point.
#[derive(Debug, Clone, Copy, PartialEq, Eq, Hash, Structural)]
pub enum ShaderStage {
    Vertex,
    Fragment,
    Compute,
    Other,
}

/// An entry point: its name, its stage and the types of its arguments.
#[derive(Debug, Clone, PartialEq, Eq)]
pub struct ModuleEntry {
    pub name: String,
    pub stage: ShaderStage,
    pub arguments: Vec<usize>,
}

/// A parsed shader module.
#[derive(Debug, Clone, PartialEq, Eq)]
pub struct ShaderModule {
    pub types: Vec<ModuleType>,
    pub global_variables: Vec<ModuleGlobal>,
    pub entry_points: Vec<ModuleEntry>,
}

/// Why reflection refused a module.
#[derive(Debug, Clone, Copy, PartialEq, Eq, Hash, Structural)]
pub enum ReflectError {
    /// The uniform global at this index is smaller than 16 bytes.
    UniformTooSmall { global: usize, size: i32 },
    /// A storage image stands in the handle address space.
    StorageImageInHandle,
    /// Member `member` of the vertex input type `ty` is a scalar of no
    /// vertex format.
    UnsupportedVertexInput { ty: usize, member: usize },
    /// Member `member` of the vertex input type `ty` is a vector of no
    /// vertex format.
    UnsupportedVertexVectorInput { ty: usize, member: usize },
    /// Member `member` of the vertex input type `ty` is neither a scalar nor
    /// a vector.
    UnsupportedVertexType { ty: usize, member: usize },
    /// The entry point at this index has a stage other than vertex,
    /// fragment or compute.
    UnsupportedStage { entry: usize },
    /// The module has no entry point with a name.
    NoEntryPoint,
}

// ---------------------------------------------------------------------------
// Sizes and alignments
// ---------------------------------------------------------------------------

/// `size` rounded up by the mask of `alignment`, with `u32` arithmetic that
/// wraps.
pub open spec fn spec_align_to(size: u32, alignment: u32) -> u32 {
    wrapping_sub(wrapping_add(size, alignment), 1) & !wrapping_sub(alignment, 1)
}

/// Rounds `size` up to a multiple of `alignment` (a power of two), as
/// `(size + alignment - 1) & !(alignment - 1)` in wrapping `u32` arithmetic.
pub fn align_to(size: u32, alignment: u32) -> (r: u32)
    ensures
        r == spec_align_to(size, alignment),
{
    size.wrapping_add(alignment).wrapping_sub(1) & !alignment.wrapping_sub(1)
}

/// Bytes of one scalar: 4 for the concrete kinds, 0 for abstract ones.
pub open spec fn spec_scalar_size(s: ScalarType) -> u32 {
    match s.kind {
        ScalarKind::Float | ScalarKind::Sint | ScalarKind::Uint | ScalarKind::Bool => 4,
        _ => 0,
    }
}

/// Bytes of one scalar: 4 for the concrete kinds, 0 for abstract ones.
pub fn scalar_size(s: &ScalarType) -> (r: u32)
    ensures
        r == spec_scalar_size(*s),
{
    match s.kind {
        ScalarKind::Float | ScalarKind::Sint | ScalarKind::Uint | ScalarKind::Bool => 4,
        _ => 0,
    }
}

/// Number of components of a vector size.
pub open spec fn spec_vector_len(v: VectorWidth) -> u32 {
    match v {
        VectorWidth::Bi => 2,
        VectorWidth::Tri => 3,
        VectorWidth::Quad => 4,
    }
}

/// Number of components of a vector size.
pub fn vectorsize_as_u32(v: &VectorWidth) -> (r: u32)
    ensures
        r == spec_vector_len(*v),
{
    match v {
        VectorWidth::Bi => 2,
        VectorWidth::Tri => 3,
        VectorWidth::Quad => 4,
    }
}

/// Alignment of a vector: 8 bytes for two components, 16 for three or four.
pub open spec fn spec_vector_alignment(v: VectorWidth) -> u32 {
    match v {
        VectorWidth::Bi => 8,
        VectorWidth::Tri => 16,
        VectorWidth::Quad => 16,
    }
}

/// Alignment of a vector: 8 bytes for two components, 16 for three or four.
pub fn vector_alignment(v: &VectorWidth) -> (r: u32)
    ensures
        r == spec_vector_alignment(*v),
{
    match v {
        VectorWidth::Bi => 8,
        VectorWidth::Tri => 16,
        VectorWidth::Quad => 16,
    }
}

/// The vertex format of a scalar, or of a vector of `vector` such scalars.
/// A two-component vector of booleans maps to a single `Uint32`.
pub open spec fn spec_vertex_input(s: ScalarType, vector: Option<VectorWidth>) -> Option<VertexInputType> {
    match s.kind {
        ScalarKind::Float => match vector {
            Some(VectorWidth::Bi) => Some(VertexInputType::Float32x2),
            Some(VectorWidth::Tri) => Some(VertexInputType::Float32x3),
            Some(VectorWidth::Quad) => Some(VertexInputType::Float32x4),
            None => Some(VertexInputType::Float32),
        },
        ScalarKind::Sint => match vector {
            Some(VectorWidth::Bi) => Some(VertexInputType::Sint32x2),
            Some(VectorWidth::Tri) => Some(VertexInputType::Sint32x3),
            Some(VectorWidth::Quad) => Some(VertexInputType::Sint32x4),
            None => Some(VertexInputType::Sint32),
        },
        ScalarKind::Uint => match vector {
            Some(VectorWidth::Bi) => Some(VertexInputType::Uint32x2),
            Some(VectorWidth::Tri) => Some(VertexInputType::Uint32x3),
            Some(VectorWidth::Quad) => Some(VertexInputType::Uint32x4),
            None => Some(VertexInputType::Uint32),
        },
        ScalarKind::Bool => match vector {
            Some(VectorWidth::Bi) => Some(VertexInputType::Uint32),
            Some(VectorWidth::Tri) => Some(VertexInputType::Uint32x3),
            Some(VectorWidth::Quad) => Some(VertexInputType::Uint32x4),
            None => Some(VertexInputType::Uint32),
        },
        _ => None,
    }
}

/// The vertex format of a scalar, or of a vector of such scalars.
pub fn mapping_to_vertex_input(s: &ScalarType, vector: Option<&VectorWidth>) -> (r: Option<VertexInputType>)
    ensures
        r == spec_vertex_input(
            *s,
            match vector {
                Some(v) => Some(*v),
                None => None,
            },
        ),
{
    match s.kind {
        ScalarKind::Float => match vector {
            Some(VectorWidth::Bi) => Some(VertexInputType::Float32x2),
            Some(VectorWidth::Tri) => Some(VertexInputType::Float32x3),
            Some(VectorWidth::Quad) => Some(VertexInputType::Float32x4),
            None => Some(VertexInputType::Float32),
        },
        ScalarKind::Sint => match vector {
            Some(VectorWidth::Bi) => Some(VertexInputType::Sint32x2),
            Some(VectorWidth::Tri) => Some(VertexInputType::Sint32x3),
            Some(VectorWidth::Quad) => Some(VertexInputType::Sint32x4),
            None => Some(VertexInputType::Sint32),
        },
        ScalarKind::Uint => match vector {
            Some(VectorWidth::Bi) => Some(VertexInputType::Uint32x2),
            Some(VectorWidth::Tri) => Some(VertexInputType::Uint32x3),
            Some(VectorWidth::Quad) => Some(VertexInputType::Uint32x4),
            None => Some(VertexInputType::Uint32),
        },
        ScalarKind::Bool => match vector {
            Some(VectorWidth::Bi) => Some(VertexInputType::Uint32),
            Some(VectorWidth::Tri) => Some(VertexInputType::Uint32x3),
            Some(VectorWidth::Quad) => Some(VertexInputType::Uint32x4),
            None => Some(VertexInputType::Uint32),
        },
        _ => None,
    }
}

/// Every type that a type refers to stands earlier in the arena, and every
/// index of the module points into the arena.
pub open spec fn module_wf(m: ShaderModule) -> bool {
    &&& forall|i: int| 0 <= i < m.types@.len() ==> #[trigger] type_refs_earlier(m.types@[i].inner, i)
    &&& forall|k: int| 0 <= k < m.global_variables@.len() ==> #[trigger] m.global_variables@[k].ty < m.types@.len()
    &&& forall|e: int, a: int| 0 <= e < m.entry_points@.len() && 0 <= a < m.entry_points@[e].arguments@.len()
        ==> #[trigger] m.entry_points@[e].arguments@[a] < m.types@.len()
}

/// The types that `inner` refers to have indices below `i`.
pub open spec fn type_refs_earlier(inner: TypeShape, i: int) -> bool {
    match inner {
        TypeShape::Array { base, .. } => base < i,
        TypeShape::Struct { members, .. } => forall|j: int| 0 <= j < members@.len() ==> #[trigger] members@[j].ty < i,
        _ => true,
    }
}

/// Whether the module is well formed in the sense of [`module_wf`].
pub fn check_module(m: &ShaderModule) -> (r: bool)
    ensures
        r == module_wf(*m),
{
    let n = m.types.len();
    let mut i: usize = 0;
    while i < n
        invariant
            n == m.types@.len(),
            i <= n,
            forall|i2: int| 0 <= i2 < i ==> #[trigger] type_refs_earlier(m.types@[i2].inner, i2),
        decreases n - i,
    {
        match &m.types[i].inner {
            TypeShape::Array { base, .. } => {
                if *base >= i {
                    proof {
                        assert(!type_refs_earlier(m.types@[i as int].inner, i as int));
                    }
                    return false;
                }
            },
            TypeShape::Struct { members, .. } => {
                let mut j: usize = 0;
                while j < members.len()
                    invariant
                        n == m.types@.len(),
                        i < n,
                        m.types@[i as int].inner == (TypeShape::Struct { members: *members, span: m.types@[i as int].inner->span }),
                        j <= members@.len(),
                        forall|j2: int| 0 <= j2 < j ==> #[trigger] members@[j2].ty < i,
                    decreases members@.len() - j,
                {
                    if members[j].ty >= i {
                        proof {
                            assert(!type_refs_earlier(m.types@[i as int].inner, i as int));
                        }
                        return false;
                    }
                    j = j + 1;
                }
            },
            _ => {},
        }
        i = i + 1;
    }
    let mut k: usize = 0;
    while k < m.global_variables.len()
        invariant
            n == m.types@.len(),
            k <= m.global_variables@.len(),
            forall|k2: int| 0 <= k2 < k ==> #[trigger] m.global_variables@[k2].ty < n,
        decreases m.global_variables@.len() - k,
    {
        if m.global_variables[k].ty >= n {
            return false;
        }
        k = k + 1;
    }
    let mut e: usize = 0;
    while e < m.entry_points.len()
        invariant
            n == m.types@.len(),
            e <= m.entry_points@.len(),
            forall|e2: int, a: int| 0 <= e2 < e && 0 <= a < m.entry_points@[e2].arguments@.len()
                ==> #[trigger] m.entry_points@[e2].arguments@[a] < n,
        decreases m.entry_points@.len() - e,
    {
        let ep = &m.entry_points[e];
        let mut a: usize = 0;
        while a < ep.arguments.len()
            invariant
                n == m.types@.len(),
                e < m.entry_points@.len(),
                *ep == m.entry_points@[e as int],
                a <= ep.arguments@.len(),
                forall|a2: int| 0 <= a2 < a ==> #[trigger] ep.arguments@[a2] < n,
            decreases ep.arguments@.len() - a,
        {
            if ep.arguments[a] >= n {
                return false;
            }
            a = a + 1;
        }
        e = e + 1;
    }
    true
}

/// The layout size of type `i`, computed as the library computes it:
/// scalars 4 bytes, vectors rounded to their alignment, matrices as columns
/// of rows padded to 16 bytes, arrays as count times stride (-1 for one of
/// no fixed length), structures as their members laid out in order and
/// padded to their largest alignment, anything else 0.
pub open spec fn type_size(m: ShaderModule, i: int) -> i32
    decreases i, 1int, 0int,
{
    if 0 <= i < m.types@.len() {
        match m.types@[i].inner {
            TypeShape::Scalar(s) => spec_scalar_size(s) as i32,
            TypeShape::Vector { size, scalar } => spec_align_to(
                wrapping_mul(spec_vector_len(size), spec_scalar_size(scalar)),
                spec_vector_alignment(size),
            ) as i32,
            TypeShape::Matrix { columns, rows, scalar } => wrapping_mul(
                spec_vector_len(columns),
                spec_align_to(wrapping_mul(spec_vector_len(rows), spec_scalar_size(scalar)), 16),
            ) as i32,
            TypeShape::Array { size, stride, .. } => {
                let count = array_count(size);
                if count == u32::MAX {
                    -1i32
                } else {
                    wrapping_mul(count, stride) as i32
                }
            },
            TypeShape::Struct { members, .. } => {
                let (size, max_align) = struct_layout(m, i, members@, members@.len());
                spec_align_to(size, max_align) as i32
            },
            _ => 0,
        }
    } else {
        0
    }
}

/// The element count of an array: its constant length, else `u32::MAX`.
pub open spec fn array_count(size: ArrayLength) -> u32 {
    match size {
        ArrayLength::Constant(n) => n,
        _ => u32::MAX,
    }
}

/// The running size and largest alignment after laying out the first `n`
/// members of structure `i`.
pub open spec fn struct_layout(m: ShaderModule, i: int, members: Seq<MemberDecl>, n: nat) -> (u32, u32)
    decreases i, 0int, n,
{
    if n == 0 || n > members.len() {
        (0, 0)
    } else {
        let (size, max_align) = struct_layout(m, i, members, (n - 1) as nat);
        let t = members[n - 1].ty as int;
        if 0 <= t < i {
            let member_size = type_size(m, t);
            let alignment = type_alignment(m, t);
            (
                wrapping_add(spec_align_to(size, alignment), member_size as u32),
                if max_align >= alignment { max_align } else { alignment },
            )
        } else {
            (size, max_align)
        }
    }
}

/// The alignment of type `i`: 4 for scalars, the vector alignment for
/// vectors, 16 for matrices, the largest member alignment for structures
/// (1 for one without members), 1 otherwise.
pub open spec fn type_alignment(m: ShaderModule, i: int) -> u32
    decreases i, 1int, 0int,
{
    if 0 <= i < m.types@.len() {
        match m.types@[i].inner {
            TypeShape::Scalar(_) => 4,
            TypeShape::Vector { size, .. } => spec_vector_alignment(size),
            TypeShape::Matrix { .. } => 16,
            TypeShape::Struct { members, .. } => if members@.len() == 0 {
                1
            } else {
                members_alignment(m, i, members@, members@.len())
            },
            _ => 1,
        }
    } else {
        1
    }
}

/// The largest alignment among the first `n` members of structure `i`.
pub open spec fn members_alignment(m: ShaderModule, i: int, members: Seq<MemberDecl>, n: nat) -> u32
    decreases i, 0int, n,
{
    if n == 0 || n > members.len() {
        0
    } else {
        let rest = members_alignment(m, i, members, (n - 1) as nat);
        let t = members[n - 1].ty as int;
        if 0 <= t < i {
            let a = type_alignment(m, t);
            if rest >= a { rest } else { a }
        } else {
            rest
        }
    }
}

/// The std140-style alignment of type `ty`.
pub fn std140_alignment(m: &ShaderModule, ty: usize) -> (r: u32)
    requires
        module_wf(*m),
        ty < m.types@.len(),
    ensures
        r == type_alignment(*m, ty as int),
    decreases ty,
{
    match &m.types[ty].inner {
        TypeShape::Scalar(_) => 4,
        TypeShape::Vector { size, .. } => vector_alignment(size),
        TypeShape::Matrix { .. } => 16,
        TypeShape::Struct { members, .. } => {
            if members.len() == 0 {
                return 1;
            }
            assert(type_refs_earlier(m.types@[ty as int].inner, ty as int));
            let mut best: u32 = 0;
            let mut k: usize = 0;
            while k < members.len()
                invariant
                    module_wf(*m),
                    ty < m.types@.len(),
                    m.types@[ty as int].inner == (TypeShape::Struct { members: *members, span: m.types@[ty as int].inner->span }),
                    forall|j: int| 0 <= j < members@.len() ==> #[trigger] members@[j].ty < ty,
                    k <= members@.len(),
                    best == members_alignment(*m, ty as int, members@, k as nat),
                decreases members@.len() - k,
            {
                let a = std140_alignment(m, members[k].ty);
                if a > best {
                    best = a;
                }
                k = k + 1;
            }
            best
        },
        _ => 1,
    }
}

/// The size of a matrix type: each of its columns takes its rows times the
/// scalar size, rounded up to a multiple of 16. So every matrix size is a
/// multiple of 16, and a column takes at least its rows' bytes and fewer
/// than 16 bytes more (a `mat3x3<f32>` takes 3 times 16, 48 bytes).
pub proof fn lemma_matrix_size(m: ShaderModule, t: int)
    requires
        0 <= t < m.types@.len(),
        m.types@[t].inner matches TypeShape::Matrix { .. },
    ensures
        m.types@[t].inner matches TypeShape::Matrix { columns, rows, scalar } ==> {
            let c = spec_vector_len(columns) as int;
            let row = spec_vector_len(rows) as int * spec_scalar_size(scalar) as int;
            let size = type_size(m, t) as int;
            &&& size == c * (((row + 15) / 16) * 16)
            &&& size % 16 == 0
            &&& c * row <= size < c * (row + 16)
        },
{
    match m.types@[t].inner {
        TypeShape::Matrix { columns, rows, scalar } => {
            let r = wrapping_mul(spec_vector_len(rows), spec_scalar_size(scalar));
            assert(r == spec_vector_len(rows) * spec_scalar_size(scalar));
            assert(r == 0 || r == 8 || r == 12 || r == 16);
            assert(15u32 & !15u32 == 0u32) by (bit_vector);
            assert(23u32 & !15u32 == 16u32) by (bit_vector);
            assert(27u32 & !15u32 == 16u32) by (bit_vector);
            assert(31u32 & !15u32 == 16u32) by (bit_vector);
            assert(wrapping_sub(16u32, 1u32) == 15u32);
            if r == 0 {
                assert(wrapping_sub(wrapping_add(r, 16u32), 1u32) == 15u32);
                assert(spec_align_to(r, 16) == 0);
            } else if r == 8 {
                assert(wrapping_sub(wrapping_add(r, 16u32), 1u32) == 23u32);
                assert(spec_align_to(r, 16) == 16);
            } else if r == 12 {
                assert(wrapping_sub(wrapping_add(r, 16u32), 1u32) == 27u32);
                assert(spec_align_to(r, 16) == 16);
            } else {
                assert(wrapping_sub(wrapping_add(r, 16u32), 1u32) == 31u32);
                assert(spec_align_to(r, 16) == 16);
            }
            let a = spec_align_to(r, 16);
            let c = spec_vector_len(columns);
            assert(a == 0 || a == 16);
            assert(c == 2 || c == 3 || c == 4);
            assert(wrapping_mul(c, a) == c * a) by (nonlinear_arith)
                requires a == 0 || a == 16, c == 2 || c == 3 || c == 4, wrapping_mul(c, a) == ((c as nat * a as nat) % 0x1_0000_0000) as u32;
            assert(type_size(m, t) as int == c * a);
        },
        _ => {},
    }
}


/// The layout size of type `ty` under the rules of [`type_size`].
pub fn get_size(m: &ShaderModule, ty: usize) -> (r: i32)
    requires
        module_wf(*m),
        ty < m.types@.len(),
    ensures
        r == type_size(*m, ty as int),
    decreases ty,
{
    match &m.types[ty].inner {
        TypeShape::Scalar(s) => scalar_size(s) as i32,
        TypeShape::Vector { size, scalar } => {
            let vec_size = vectorsize_as_u32(size).wrapping_mul(scalar_size(scalar));
            align_to(vec_size, vector_alignment(size)) as i32
        },
        TypeShape::Matrix { columns, rows, scalar } => {
            let row_size = vectorsize_as_u32(rows).wrapping_mul(scalar_size(scalar));
            let aligned_row_size = align_to(row_size, 16);
            vectorsize_as_u32(columns).wrapping_mul(aligned_row_size) as i32
        },
        TypeShape::Array { size, stride, .. } => {
            let count = match size {
                ArrayLength::Constant(n) => *n,
                _ => u32::MAX,
            };
            if count == u32::MAX {
                -1
            } else {
                count.wrapping_mul(*stride) as i32
            }
        },
        TypeShape::Struct { members, .. } => {
            assert(type_refs_earlier(m.types@[ty as int].inner, ty as int));
            let mut max_alignment: u32 = 0;
            let mut size: u32 = 0;
            let mut k: usize = 0;
            while k < members.len()
                invariant
                    module_wf(*m),
                    ty < m.types@.len(),
                    forall|j: int| 0 <= j < members@.len() ==> #[trigger] members@[j].ty < ty,
                    k <= members@.len(),
                    (size, max_alignment) == struct_layout(*m, ty as int, members@, k as nat),
                decreases members@.len() - k,
            {
                let member_size = get_size(m, members[k].ty);
                let alignment = std140_alignment(m, members[k].ty);
                size = align_to(size, alignment).wrapping_add(member_size as u32);
                if alignment > max_alignment {
                    max_alignment = alignment;
                }
                k = k + 1;
            }
            align_to(size, max_alignment) as i32
        },
        _ => 0,
    }
}

// ---------------------------------------------------------------------------
// Bindings
// ---------------------------------------------------------------------------

/// `unnamed_[index]`, the name given to what has none.
fn label_with_index(index: usize) -> (r: String)
    ensures
        r@ == unnamed_label(index as nat),
{
    let mut s = "unnamed_[".to_owned();
    push_decimal(&mut s, index as u64);
    s.append("]");
    s
}

/// The name given to the item at `index` when it has none.
pub open spec fn unnamed_label(index: nat) -> Seq<char> {
    "unnamed_["@ + decimal(index) + "]"@
}

/// The name of global `k`: its own, else `unnamed_[k]`.
pub open spec fn global_name(m: ShaderModule, k: int) -> Seq<char> {
    match m.global_variables@[k].name {
        Some(s) => s@,
        None => unnamed_label(k as nat),
    }
}

/// The name of type `t`: its own, else `unnamed_[t]`.
pub open spec fn struct_type_name(m: ShaderModule, t: int) -> Seq<char> {
    match m.types@[t].name {
        Some(s) => s@,
        None => unnamed_label(t as nat),
    }
}

/// The access flags of a storage address space.
pub open spec fn storage_access_bits(load: bool, store: bool, atomic: bool) -> u32 {
    ((if load { 1int } else { 0int }) + (if store { 2int } else { 0int }) + (if atomic { 4int } else { 0int })) as u32
}

/// A binding at slot `rb` with this name and kind.
pub open spec fn binding_at(rb: ResourceBinding, name: Seq<char>, ty: ShaderBindingType) -> BindingView {
    BindingView { binding: rb.binding, group: rb.group, name, ty }
}

/// The binding that global `k` declares, if any: uniform buffers (which must
/// be at least 16 bytes), push constants, storage buffers and textures,
/// samplers and sampled textures.
pub open spec fn global_binding(m: ShaderModule, k: int) -> Result<Option<BindingView>, ReflectError> {
    let g = m.global_variables@[k];
    match g.binding {
        None => Ok(None),
        Some(rb) => {
            let name = global_name(m, k);
            match g.space {
                VarSpace::Uniform => {
                    let size = type_size(m, g.ty as int);
                    if size < 16 {
                        Err(ReflectError::UniformTooSmall { global: k as usize, size })
                    } else {
                        Ok(Some(binding_at(rb, name, ShaderBindingType::UniformBuffer(size as u32))))
                    }
                },
                VarSpace::PushConstant => Ok(
                    Some(binding_at(rb, name, ShaderBindingType::PushConstant(type_size(m, g.ty as int) as u32))),
                ),
                VarSpace::Storage { load, store, atomic } => {
                    let access = StorageAccess { bits: storage_access_bits(load, store, atomic) };
                    match m.types@[g.ty as int].inner {
                        TypeShape::Struct { .. } => Ok(
                            Some(binding_at(rb, name, ShaderBindingType::StorageBuffer(type_size(m, g.ty as int) as u32, access))),
                        ),
                        TypeShape::Image { .. } => Ok(Some(binding_at(rb, name, ShaderBindingType::StorageTexture(access)))),
                        TypeShape::Array { size, .. } => Ok(
                            Some(binding_at(rb, name, ShaderBindingType::StorageBuffer(array_count(size), access))),
                        ),
                        _ => Ok(None),
                    }
                },
                VarSpace::Handle => match m.types@[g.ty as int].inner {
                    TypeShape::Sampler { comparison } => Ok(Some(binding_at(rb, name, ShaderBindingType::Sampler(comparison)))),
                    TypeShape::Image { class } => match class {
                        ImageKind::Sampled { multi } => Ok(Some(binding_at(rb, name, ShaderBindingType::Texture(multi)))),
                        ImageKind::Depth { multi } => Ok(Some(binding_at(rb, name, ShaderBindingType::Texture(multi)))),
                        ImageKind::Storage => Err(ReflectError::StorageImageInHandle),
                    },
                    _ => Ok(None),
                },
                VarSpace::Other => Ok(None),
            }
        },
    }
}

/// The bindings of the first `n` globals, in their order.
pub open spec fn globals_fold(m: ShaderModule, n: nat) -> Result<Seq<BindingView>, ReflectError>
    decreases n,
{
    if n == 0 {
        Ok(Seq::empty())
    } else {
        match globals_fold(m, (n - 1) as nat) {
            Err(e) => Err(e),
            Ok(bs) => match global_binding(m, n - 1) {
                Err(e) => Err(e),
                Ok(None) => Ok(bs),
                Ok(Some(b)) => Ok(bs.push(b)),
            },
        }
    }
}

proof fn lemma_globals_error_stays(m: ShaderModule, k: nat, n: nat)
    requires
        k <= n,
        globals_fold(m, k) is Err,
    ensures
        globals_fold(m, n) == globals_fold(m, k),
    decreases n - k,
{
    if k < n {
        lemma_globals_error_stays(m, k, (n - 1) as nat);
    }
}

/// Whether binding `a` sorts no later than `b`: by group, then by binding.
pub open spec fn key_le(a: BindingView, b: BindingView) -> bool {
    a.group < b.group || (a.group == b.group && a.binding <= b.binding)
}

/// `b` inserted into `s` after every element that sorts no later than it.
pub open spec fn insert_sorted(s: Seq<BindingView>, b: BindingView) -> Seq<BindingView>
    decreases s.len(),
{
    if s.len() == 0 {
        seq![b]
    } else if key_le(s.last(), b) {
        s.push(b)
    } else {
        insert_sorted(s.drop_last(), b).push(s.last())
    }
}

/// The bindings sorted by group, then binding, equal keys keeping their
/// order (a stable sort).
pub open spec fn sort_bindings(s: Seq<BindingView>) -> Seq<BindingView>
    decreases s.len(),
{
    if s.len() == 0 {
        s
    } else {
        insert_sorted(sort_bindings(s.drop_last()), s.last())
    }
}

/// Whether the bindings are in order of group, then binding.
pub open spec fn bindings_sorted(s: Seq<BindingView>) -> bool {
    forall|i: int, j: int| 0 <= i < j < s.len() ==> key_le(#[trigger] s[i], #[trigger] s[j])
}

proof fn lemma_insert_sorted(s: Seq<BindingView>, b: BindingView)
    requires
        bindings_sorted(s),
    ensures
        bindings_sorted(insert_sorted(s, b)),
        insert_sorted(s, b).to_multiset() == s.to_multiset().insert(b),
        insert_sorted(s, b).len() == s.len() + 1,
    decreases s.len(),
{
    broadcast use vstd::seq_lib::group_to_multiset_ensures;
    if s.len() == 0 {
        assert(seq![b] =~= Seq::<BindingView>::empty().push(b));
    } else if key_le(s.last(), b) {
        let r = s.push(b);
        assert forall|i: int, j: int| 0 <= i < j < r.len() implies key_le(#[trigger] r[i], #[trigger] r[j]) by {
            if j == s.len() {
                assert(key_le(s[i], s.last()));
            }
        }
    } else {
        let t = s.drop_last();
        assert(bindings_sorted(t));
        lemma_insert_sorted(t, b);
        let u = insert_sorted(t, b);
        let r = u.push(s.last());
        assert(s =~= t.push(s.last()));
        assert forall|i: int, j: int| 0 <= i < j < r.len() implies key_le(#[trigger] r[i], #[trigger] r[j]) by {
            if j == u.len() {
                // every element of u is either b or an element of t, all no later than s.last()
                let x = u[i];
                assert(u.to_multiset().count(x) > 0);
                assert(t.to_multiset().insert(b).count(x) > 0);
                if x != b {
                    assert(t.to_multiset().count(x) > 0);
                    assert(t.contains(x));
                    let k = choose|k: int| 0 <= k < t.len() && t[k] == x;
                    assert(key_le(s[k], s[s.len() - 1]));
                }
            }
        }
        assert(r.to_multiset() =~= s.to_multiset().insert(b));
    }
}

/// Reflection's order of bindings: sorting yields the same bindings, each
/// as often, ordered by group and then binding.
pub proof fn lemma_sort_bindings(s: Seq<BindingView>)
    ensures
        bindings_sorted(sort_bindings(s)),
        sort_bindings(s).to_multiset() == s.to_multiset(),
    decreases s.len(),
{
    broadcast use vstd::seq_lib::group_to_multiset_ensures;
    if s.len() > 0 {
        lemma_sort_bindings(s.drop_last());
        lemma_insert_sorted(sort_bindings(s.drop_last()), s.last());
        assert(s =~= s.drop_last().push(s.last()));
    }
}

fn binding_key_le(a: &ShaderBindingInfo, b: &ShaderBindingInfo) -> (r: bool)
    ensures
        r == key_le(a@, b@),
{
    a.group < b.group || (a.group == b.group && a.binding <= b.binding)
}

fn insert_binding_sorted(v: &mut Vec<ShaderBindingInfo>, b: ShaderBindingInfo)
    ensures
        bindings_view(final(v)@) == insert_sorted(bindings_view(old(v)@), b@),
{
    let ghost s = bindings_view(v@);
    let mut pos = v.len();
    proof {
        assert(s.take(pos as int) =~= s);
        assert(insert_sorted(s, b@) + s.skip(pos as int) =~= insert_sorted(s, b@));
    }
    while pos > 0 && !binding_key_le(&v[pos - 1], &b)
        invariant
            pos <= v@.len(),
            s == bindings_view(v@),
            insert_sorted(s, b@) == insert_sorted(s.take(pos as int), b@) + s.skip(pos as int),
        decreases pos,
    {
        proof {
            let t = s.take(pos as int);
            assert(t.drop_last() =~= s.take(pos - 1));
            assert(t.last() == s[pos - 1]);
            assert(insert_sorted(t, b@) == insert_sorted(s.take(pos - 1), b@).push(s[pos - 1]));
            assert(insert_sorted(s.take(pos - 1), b@).push(s[pos - 1]) + s.skip(pos as int)
                =~= insert_sorted(s.take(pos - 1), b@) + s.skip(pos - 1));
        }
        pos = pos - 1;
    }
    proof {
        let t = s.take(pos as int);
        if pos == 0 {
            assert(t =~= Seq::<BindingView>::empty());
        }
        assert(insert_sorted(t, b@) =~= t.push(b@));
    }
    let ghost old_v = v@;
    v.insert(pos, b);
    proof {
        assert(bindings_view(v@) =~= s.take(pos as int).push(b@) + s.skip(pos as int));
    }
}

fn sort_bindings_exec(v: Vec<ShaderBindingInfo>) -> (r: Vec<ShaderBindingInfo>)
    ensures
        bindings_view(r@) == sort_bindings(bindings_view(v@)),
{
    let ghost orig = v@;
    let ghost s = bindings_view(v@);
    let mut items = v;
    let n = items.len();
    let mut out: Vec<ShaderBindingInfo> = Vec::new();
    let mut i: usize = 0;
    proof {
        assert(s.take(0) =~= Seq::<BindingView>::empty());
        assert(bindings_view(out@) =~= Seq::<BindingView>::empty());
        assert(items@ =~= orig.skip(0));
    }
    while items.len() > 0
        invariant
            i <= orig.len(),
            orig.len() == n,
            items@ == orig.skip(i as int),
            s == bindings_view(orig),
            bindings_view(out@) == sort_bindings(s.take(i as int)),
        decreases items@.len(),
    {
        let b = items.remove(0);
        proof {
            assert(b == orig[i as int]);
            assert(s.take(i + 1).drop_last() =~= s.take(i as int));
            assert(s.take(i + 1).last() == b@);
        }
        insert_binding_sorted(&mut out, b);
        proof {
            assert(items@ =~= orig.skip(i + 1));
        }
        i = i + 1;
    }
    proof {
        assert(s.take(i as int) =~= s);
    }
    out
}

fn global_binding_exec(m: &ShaderModule, k: usize) -> (r: Result<Option<ShaderBindingInfo>, ReflectError>)
    requires
        module_wf(*m),
        k < m.global_variables@.len(),
    ensures
        match global_binding(*m, k as int) {
            Ok(Some(b)) => r matches Ok(Some(x)) && x@ == b,
            Ok(None) => r matches Ok(None),
            Err(e) => r == Err::<Option<ShaderBindingInfo>, ReflectError>(e),
        },
{
    let g = &m.global_variables[k];
    assert(g.ty < m.types@.len());
    let rb = match g.binding {
        None => return Ok(None),
        Some(rb) => rb,
    };
    let name = match &g.name {
        Some(s) => s.clone(),
        None => label_with_index(k),
    };
    match g.space {
        VarSpace::Uniform => {
            let size = get_size(m, g.ty);
            if size < 16 {
                Err(ReflectError::UniformTooSmall { global: k, size })
            } else {
                Ok(Some(ShaderBindingInfo { binding: rb.binding, group: rb.group, name, ty: ShaderBindingType::UniformBuffer(size as u32) }))
            }
        },
        VarSpace::PushConstant => {
            let size = get_size(m, g.ty);
            Ok(Some(ShaderBindingInfo { binding: rb.binding, group: rb.group, name, ty: ShaderBindingType::PushConstant(size as u32) }))
        },
        VarSpace::Storage { load, store, atomic } => {
            let bits: u32 = (if load { 1u32 } else { 0u32 }) + (if store { 2u32 } else { 0u32 }) + (if atomic { 4u32 } else { 0u32 });
            let access = StorageAccess { bits };
            match &m.types[g.ty].inner {
                TypeShape::Struct { .. } => {
                    let size = get_size(m, g.ty);
                    Ok(Some(ShaderBindingInfo { binding: rb.binding, group: rb.group, name, ty: ShaderBindingType::StorageBuffer(size as u32, access) }))
                },
                TypeShape::Image { .. } => Ok(Some(ShaderBindingInfo { binding: rb.binding, group: rb.group, name, ty: ShaderBindingType::StorageTexture(access) })),
                TypeShape::Array { size, .. } => {
                    let count = match size {
                        ArrayLength::Constant(n) => *n,
                        _ => u32::MAX,
                    };
                    Ok(Some(ShaderBindingInfo { binding: rb.binding, group: rb.group, name, ty: ShaderBindingType::StorageBuffer(count, access) }))
                },
                _ => Ok(None),
            }
        },
        VarSpace::Handle => match &m.types[g.ty].inner {
            TypeShape::Sampler { comparison } => Ok(Some(ShaderBindingInfo { binding: rb.binding, group: rb.group, name, ty: ShaderBindingType::Sampler(*comparison) })),
            TypeShape::Image { class } => match class {
                ImageKind::Sampled { multi } => Ok(Some(ShaderBindingInfo { binding: rb.binding, group: rb.group, name, ty: ShaderBindingType::Texture(*multi) })),
                ImageKind::Depth { multi } => Ok(Some(ShaderBindingInfo { binding: rb.binding, group: rb.group, name, ty: ShaderBindingType::Texture(*multi) })),
                ImageKind::Storage => Err(ReflectError::StorageImageInHandle),
            },
            _ => Ok(None),
        },
        VarSpace::Other => Ok(None),
    }
}

fn collect_bindings(m: &ShaderModule) -> (r: Result<Vec<ShaderBindingInfo>, ReflectError>)
    requires
        module_wf(*m),
    ensures
        match globals_fold(*m, m.global_variables@.len()) {
            Ok(bs) => r matches Ok(v) && bindings_view(v@) == bs,
            Err(e) => r == Err::<Vec<ShaderBindingInfo>, ReflectError>(e),
        },
{
    let mut out: Vec<ShaderBindingInfo> = Vec::new();
    let mut k: usize = 0;
    assert(bindings_view(out@) =~= Seq::<BindingView>::empty());
    while k < m.global_variables.len()
        invariant
            module_wf(*m),
            k <= m.global_variables@.len(),
            globals_fold(*m, k as nat) == Ok::<Seq<BindingView>, ReflectError>(bindings_view(out@)),
        decreases m.global_variables@.len() - k,
    {
        match global_binding_exec(m, k) {
            Err(e) => {
                proof {
                    lemma_globals_error_stays(*m, (k + 1) as nat, m.global_variables@.len());
                }
                return Err(e);
            },
            Ok(None) => {},
            Ok(Some(b)) => {
                let ghost before = out@;
                out.push(b);
                proof {
                    assert(bindings_view(out@) =~= bindings_view(before).push(b@));
                }
            },
        }
        k = k + 1;
    }
    Ok(out)
}

// ---------------------------------------------------------------------------
// Entry points and vertex input
// ---------------------------------------------------------------------------

/// The attributes and running size after the first `n` members of the
/// vertex input structure `t`. `Err(None)` marks a member without a
/// location, on which the library panics.
pub open spec fn members_input(m: ShaderModule, t: int, members: Seq<MemberDecl>, n: nat) -> Result<(Seq<(u32, u64, VertexInputType)>, u32), Option<ReflectError>>
    decreases n,
{
    if n == 0 || n > members.len() {
        Ok((Seq::empty(), 0))
    } else {
        match members_input(m, t, members, (n - 1) as nat) {
            Err(e) => Err(e),
            Ok((attrs, total)) => {
                let member = members[n - 1];
                match member.location {
                    None => Err(None),
                    Some(location) => match m.types@[member.ty as int].inner {
                        TypeShape::Scalar(s) => match spec_vertex_input(s, None) {
                            Some(vt) => Ok((attrs.push((location, total as u64, vt)), wrapping_add(total, spec_scalar_size(s)))),
                            None => Err(Some(ReflectError::UnsupportedVertexInput { ty: t as usize, member: (n - 1) as usize })),
                        },
                        TypeShape::Vector { size, scalar } => match spec_vertex_input(scalar, Some(size)) {
                            Some(vt) => Ok((
                                attrs.push((location, total as u64, vt)),
                                wrapping_add(total, wrapping_mul(spec_vector_len(size), spec_scalar_size(scalar))),
                            )),
                            None => Err(Some(ReflectError::UnsupportedVertexVectorInput { ty: t as usize, member: (n - 1) as usize })),
                        },
                        _ => Err(Some(ReflectError::UnsupportedVertexType { ty: t as usize, member: (n - 1) as usize })),
                    },
                }
            },
        }
    }
}

proof fn lemma_members_error_stays(m: ShaderModule, t: int, members: Seq<MemberDecl>, k: nat, n: nat)
    requires
        k <= n <= members.len(),
        members_input(m, t, members, k) is Err,
    ensures
        members_input(m, t, members, n) == members_input(m, t, members, k),
    decreases n - k,
{
    if k < n {
        lemma_members_error_stays(m, t, members, k, (n - 1) as nat);
    }
}

/// The vertex input that an argument of type `t` describes: for a
/// structure, one attribute per member at the running offset, the stride
/// being the total; for any other type, no attribute and stride 0.
pub open spec fn arg_input(m: ShaderModule, t: int) -> Result<VertexInputView, Option<ReflectError>> {
    let name = struct_type_name(m, t);
    match m.types@[t].inner {
        TypeShape::Struct { members, .. } => match members_input(m, t, members@, members@.len()) {
            Ok((attributes, total)) => Ok(VertexInputView { name, stride: total as u64, attributes }),
            Err(e) => Err(e),
        },
        _ => Ok(VertexInputView { name, stride: 0, attributes: Seq::empty() }),
    }
}

fn arg_input_exec(m: &ShaderModule, t: usize) -> (r: Result<VertexInputReflection, Option<ReflectError>>)
    requires
        module_wf(*m),
        t < m.types@.len(),
    ensures
        match arg_input(*m, t as int) {
            Ok(v) => r matches Ok(x) && x@ == v,
            Err(e) => r == Err::<VertexInputReflection, Option<ReflectError>>(e),
        },
{
    let name = match &m.types[t].name {
        Some(s) => s.clone(),
        None => label_with_index(t),
    };
    match &m.types[t].inner {
        TypeShape::Struct { members, .. } => {
            assert(type_refs_earlier(m.types@[t as int].inner, t as int));
            let mut attributes: Vec<(u32, u64, VertexInputType)> = Vec::new();
            let mut total: u32 = 0;
            let mut k: usize = 0;
            while k < members.len()
                invariant
                    module_wf(*m),
                    t < m.types@.len(),
                    m.types@[t as int].inner == (TypeShape::Struct { members: *members, span: m.types@[t as int].inner->span }),
                    forall|j: int| 0 <= j < members@.len() ==> #[trigger] members@[j].ty < t,
                    k <= members@.len(),
                    members_input(*m, t as int, members@, k as nat) == Ok::<(Seq<(u32, u64, VertexInputType)>, u32), Option<ReflectError>>((attributes@, total)),
                decreases members@.len() - k,
            {
                let member = &members[k];
                assert(member.ty < t);
                let location = match member.location {
                    Some(l) => l,
                    None => {
                        proof {
                            lemma_members_error_stays(*m, t as int, members@, (k + 1) as nat, members@.len());
                        }
                        return Err(None);
                    },
                };
                match &m.types[member.ty].inner {
                    TypeShape::Scalar(s) => match mapping_to_vertex_input(s, None) {
                        Some(vt) => {
                            attributes.push((location, total as u64, vt));
                            total = total.wrapping_add(scalar_size(s));
                        },
                        None => {
                            proof {
                                lemma_members_error_stays(*m, t as int, members@, (k + 1) as nat, members@.len());
                            }
                            return Err(Some(ReflectError::UnsupportedVertexInput { ty: t, member: k }));
                        },
                    },
                    TypeShape::Vector { size, scalar } => match mapping_to_vertex_input(scalar, Some(size)) {
                        Some(vt) => {
                            attributes.push((location, total as u64, vt));
                            total = total.wrapping_add(vectorsize_as_u32(size).wrapping_mul(scalar_size(scalar)));
                        },
                        None => {
                            proof {
                                lemma_members_error_stays(*m, t as int, members@, (k + 1) as nat, members@.len());
                            }
                            return Err(Some(ReflectError::UnsupportedVertexVectorInput { ty: t, member: k }));
                        },
                    },
                    _ => {
                        proof {
                            lemma_members_error_stays(*m, t as int, members@, (k + 1) as nat, members@.len());
                        }
                        return Err(Some(ReflectError::UnsupportedVertexType { ty: t, member: k }));
                    },
                }
                k = k + 1;
            }
            Ok(VertexInputReflection { name, stride: total as u64, attributes })
        },
        _ => Ok(VertexInputReflection { name, stride: 0, attributes: Vec::new() }),
    }
}

/// The vertex input after the first `n` arguments of a vertex entry point:
/// each argument replaces the one before.
pub open spec fn args_fold(m: ShaderModule, args: Seq<usize>, n: nat, init: Option<VertexInputView>) -> Result<Option<VertexInputView>, Option<ReflectError>>
    decreases n,
{
    if n == 0 || n > args.len() {
        Ok(init)
    } else {
        match args_fold(m, args, (n - 1) as nat, init) {
            Err(e) => Err(e),
            Ok(_) => match arg_input(m, args[n - 1] as int) {
                Ok(v) => Ok(Some(v)),
                Err(e) => Err(e),
            },
        }
    }
}

proof fn lemma_args_error_stays(m: ShaderModule, args: Seq<usize>, init: Option<VertexInputView>, k: nat, n: nat)
    requires
        k <= n <= args.len(),
        args_fold(m, args, k, init) is Err,
    ensures
        args_fold(m, args, n, init) == args_fold(m, args, k, init),
    decreases n - k,
{
    if k < n {
        lemma_args_error_stays(m, args, init, k, (n - 1) as nat);
    }
}

/// The names found so far for each stage, and the vertex input.
pub struct EntryState {
    pub vertex: Seq<char>,
    pub fragment: Seq<char>,
    pub compute: Seq<char>,
    pub input: Option<VertexInputView>,
}

/// The state after the first `n` entry points: each one names its stage,
/// the last of a stage winning; a vertex entry point also sets the input.
pub open spec fn entries_fold(m: ShaderModule, n: nat) -> Result<EntryState, Option<ReflectError>>
    decreases n,
{
    if n == 0 || n > m.entry_points@.len() {
        Ok(EntryState { vertex: Seq::empty(), fragment: Seq::empty(), compute: Seq::empty(), input: None })
    } else {
        match entries_fold(m, (n - 1) as nat) {
            Err(e) => Err(e),
            Ok(st) => {
                let ep = m.entry_points@[n - 1];
                match ep.stage {
                    ShaderStage::Vertex => match args_fold(m, ep.arguments@, ep.arguments@.len(), st.input) {
                        Ok(input) => Ok(EntryState { vertex: ep.name@, input, ..st }),
                        Err(e) => Err(e),
                    },
                    ShaderStage::Fragment => Ok(EntryState { fragment: ep.name@, ..st }),
                    ShaderStage::Compute => Ok(EntryState { compute: ep.name@, ..st }),
                    ShaderStage::Other => Err(Some(ReflectError::UnsupportedStage { entry: (n - 1) as usize })),
                }
            },
        }
    }
}

proof fn lemma_entries_error_stays(m: ShaderModule, k: nat, n: nat)
    requires
        k <= n <= m.entry_points@.len(),
        entries_fold(m, k) is Err,
    ensures
        entries_fold(m, n) == entries_fold(m, k),
    decreases n - k,
{
    if k < n {
        lemma_entries_error_stays(m, k, (n - 1) as nat);
    }
}

/// Every member of structure `t` has a location (true of other types).
pub open spec fn struct_members_located(m: ShaderModule, t: int) -> bool {
    match m.types@[t].inner {
        TypeShape::Struct { members, .. } => forall|j: int| 0 <= j < members@.len() ==> (#[trigger] members@[j]).location is Some,
        _ => true,
    }
}

/// Every structure that a vertex entry point takes has a location on each
/// member.
pub open spec fn vertex_locations_present(m: ShaderModule) -> bool {
    forall|e: int, a: int|
        0 <= e < m.entry_points@.len() && m.entry_points@[e].stage == ShaderStage::Vertex && 0 <= a
            < m.entry_points@[e].arguments@.len() ==> struct_members_located(m, #[trigger] m.entry_points@[e].arguments@[a] as int)
}

proof fn lemma_members_no_panic(m: ShaderModule, t: int, members: Seq<MemberDecl>, n: nat)
    requires
        forall|j: int| 0 <= j < members.len() ==> (#[trigger] members[j]).location is Some,
    ensures
        members_input(m, t, members, n) != Err::<(Seq<(u32, u64, VertexInputType)>, u32), Option<ReflectError>>(None),
    decreases n,
{
    if n > 0 && n <= members.len() {
        lemma_members_no_panic(m, t, members, (n - 1) as nat);
        assert(members[n - 1].location is Some);
    }
}

proof fn lemma_args_no_panic(m: ShaderModule, args: Seq<usize>, n: nat, init: Option<VertexInputView>)
    requires
        forall|a: int| 0 <= a < args.len() ==> struct_members_located(m, #[trigger] args[a] as int),
    ensures
        args_fold(m, args, n, init) != Err::<Option<VertexInputView>, Option<ReflectError>>(None),
    decreases n,
{
    if n > 0 && n <= args.len() {
        lemma_args_no_panic(m, args, (n - 1) as nat, init);
        let t = args[n - 1] as int;
        assert(struct_members_located(m, t));
        match m.types@[t].inner {
            TypeShape::Struct { members, .. } => {
                lemma_members_no_panic(m, t, members@, members@.len());
            },
            _ => {},
        }
    }
}

proof fn lemma_entries_no_panic(m: ShaderModule, n: nat)
    requires
        vertex_locations_present(m),
    ensures
        entries_fold(m, n) != Err::<EntryState, Option<ReflectError>>(None),
    decreases n,
{
    if n > 0 && n <= m.entry_points@.len() {
        lemma_entries_no_panic(m, (n - 1) as nat);
        let ep = m.entry_points@[n - 1];
        if ep.stage == ShaderStage::Vertex {
            assert forall|a: int| 0 <= a < ep.arguments@.len() implies struct_members_located(m, #[trigger] ep.arguments@[a] as int) by {
                assert(struct_members_located(m, m.entry_points@[n - 1].arguments@[a] as int));
            }
            match entries_fold(m, (n - 1) as nat) {
                Ok(st) => lemma_args_no_panic(m, ep.arguments@, ep.arguments@.len(), st.input),
                Err(_) => {},
            }
        }
    }
}

/// A module whose vertex input structures give each member a location is
/// one that reflection does not panic on.
pub proof fn lemma_located_modules_reflect(m: ShaderModule)
    requires
        vertex_locations_present(m),
    ensures
        spec_parse(m) != Err::<ReflectView, Option<ReflectError>>(None),
{
    lemma_entries_no_panic(m, m.entry_points@.len());
}

/// Whether every structure that a vertex entry point takes has a location on
/// each member.
pub fn check_vertex_locations(m: &ShaderModule) -> (r: bool)
    requires
        module_wf(*m),
    ensures
        r == vertex_locations_present(*m),
{
    let mut e: usize = 0;
    while e < m.entry_points.len()
        invariant
            module_wf(*m),
            e <= m.entry_points@.len(),
            forall|e2: int, a: int|
                0 <= e2 < e && m.entry_points@[e2].stage == ShaderStage::Vertex && 0 <= a
                    < m.entry_points@[e2].arguments@.len() ==> struct_members_located(*m, #[trigger] m.entry_points@[e2].arguments@[a] as int),
        decreases m.entry_points@.len() - e,
    {
        let ep = &m.entry_points[e];
        if ep.stage == ShaderStage::Vertex {
            let mut a: usize = 0;
            while a < ep.arguments.len()
                invariant
                    module_wf(*m),
                    e < m.entry_points@.len(),
                    *ep == m.entry_points@[e as int],
                    ep.stage == ShaderStage::Vertex,
                    a <= ep.arguments@.len(),
                    forall|a2: int| 0 <= a2 < a ==> struct_members_located(*m, #[trigger] ep.arguments@[a2] as int),
                decreases ep.arguments@.len() - a,
            {
                let t = ep.arguments[a];
                assert(t < m.types@.len());
                match &m.types[t].inner {
                    TypeShape::Struct { members, .. } => {
                        let mut j: usize = 0;
                        while j < members.len()
                            invariant
                                module_wf(*m),
                                e < m.entry_points@.len(),
                                *ep == m.entry_points@[e as int],
                                ep.stage == ShaderStage::Vertex,
                                a < ep.arguments@.len(),
                                t == ep.arguments@[a as int],
                                t < m.types@.len(),
                                m.types@[t as int].inner == (TypeShape::Struct { members: *members, span: m.types@[t as int].inner->span }),
                                j <= members@.len(),
                                forall|j2: int| 0 <= j2 < j ==> (#[trigger] members@[j2]).location is Some,
                            decreases members@.len() - j,
                        {
                            if members[j].location.is_none() {
                                proof {
                                    assert(!struct_members_located(*m, ep.arguments@[a as int] as int));
                                    assert(!struct_members_located(*m, m.entry_points@[e as int].arguments@[a as int] as int));
                                }
                                return false;
                            }
                            j = j + 1;
                        }
                    },
                    _ => {},
                }
                a = a + 1;
            }
        }
        e = e + 1;
    }
    true
}

/// The reflection that the entry points and the sorted bindings make: a
/// vertex and a fragment stage together, else the one stage found, in the
/// order vertex, fragment, compute.
pub open spec fn select_reflect(st: EntryState, bindings: Seq<BindingView>) -> Result<ReflectView, Option<ReflectError>> {
    if st.vertex.len() > 0 && st.fragment.len() > 0 {
        Ok(ReflectView::VertexFragment {
            vertex_entry_point: st.vertex,
            vertex_input: st.input,
            fragment_entry_point: st.fragment,
            bindings,
        })
    } else if st.vertex.len() > 0 {
        Ok(ReflectView::Vertex { entry_point: st.vertex, input: st.input, bindings })
    } else if st.fragment.len() > 0 {
        Ok(ReflectView::Fragment { entry_point: st.fragment, bindings })
    } else if st.compute.len() > 0 {
        Ok(ReflectView::Compute { entry_point: st.compute, bindings })
    } else {
        Err(Some(ReflectError::NoEntryPoint))
    }
}

/// What reflection makes of a module: its bindings in global order, sorted
/// by group and binding, and the entry points. `Err(None)` marks the
/// modules on which the library panics.
pub open spec fn spec_parse(m: ShaderModule) -> Result<ReflectView, Option<ReflectError>> {
    match globals_fold(m, m.global_variables@.len()) {
        Err(e) => Err(Some(e)),
        Ok(bs) => match entries_fold(m, m.entry_points@.len()) {
            Err(e) => Err(e),
            Ok(st) => select_reflect(st, sort_bindings(bs)),
        },
    }
}

/// Reflects a module: collects its bindings, sorts them by group then
/// binding, reads its entry points and the vertex input, and picks the
/// shader kind. Exactly [`spec_parse`].
pub fn parse(m: &ShaderModule) -> (r: Result<ShaderReflect, ReflectError>)
    requires
        module_wf(*m),
        spec_parse(*m) != Err::<ReflectView, Option<ReflectError>>(None),
    ensures
        match spec_parse(*m) {
            Ok(v) => r matches Ok(x) && x@ == v,
            Err(e) => Some(r->Err_0) == e && r is Err,
        },
{
    let bindings = match collect_bindings(m) {
        Ok(b) => b,
        Err(e) => return Err(e),
    };
    let bindings = sort_bindings_exec(bindings);
    let mut vertex = String::new();
    let mut fragment = String::new();
    let mut compute = String::new();
    let mut input: Option<VertexInputReflection> = None;
    let mut e: usize = 0;
    while e < m.entry_points.len()
        invariant
            module_wf(*m),
            e <= m.entry_points@.len(),
            entries_fold(*m, e as nat) == Ok::<EntryState, Option<ReflectError>>(
                EntryState { vertex: vertex@, fragment: fragment@, compute: compute@, input: input_view(input) },
            ),
            spec_parse(*m) != Err::<ReflectView, Option<ReflectError>>(None),
            globals_fold(*m, m.global_variables@.len()) is Ok,
        decreases m.entry_points@.len() - e,
    {
        let ep = &m.entry_points[e];
        match ep.stage {
            ShaderStage::Vertex => {
                vertex = ep.name.clone();
                let ghost init = input_view(input);
                let mut a: usize = 0;
                while a < ep.arguments.len()
                    invariant
                        module_wf(*m),
                        e < m.entry_points@.len(),
                        *ep == m.entry_points@[e as int],
                        ep.stage == ShaderStage::Vertex,
                        a <= ep.arguments@.len(),
                        args_fold(*m, ep.arguments@, a as nat, init) == Ok::<Option<VertexInputView>, Option<ReflectError>>(input_view(input)),
                        entries_fold(*m, e as nat) is Ok,
                        entries_fold(*m, e as nat)->Ok_0.input == init,
                        spec_parse(*m) != Err::<ReflectView, Option<ReflectError>>(None),
                        globals_fold(*m, m.global_variables@.len()) is Ok,
                    decreases ep.arguments@.len() - a,
                {
                    let t = ep.arguments[a];
                    assert(t < m.types@.len());
                    match arg_input_exec(m, t) {
                        Ok(v) => {
                            input = Some(v);
                        },
                        Err(err) => {
                            proof {
                                lemma_args_error_stays(*m, ep.arguments@, init, (a + 1) as nat, ep.arguments@.len());
                                lemma_entries_error_stays(*m, (e + 1) as nat, m.entry_points@.len());
                            }
                            match err {
                                Some(x) => return Err(x),
                                None => {
                                    assert(false);
                                    return Err(ReflectError::NoEntryPoint);
                                },
                            }
                        },
                    }
                    a = a + 1;
                }
            },
            ShaderStage::Fragment => {
                fragment = ep.name.clone();
            },
            ShaderStage::Compute => {
                compute = ep.name.clone();
            },
            ShaderStage::Other => {
                proof {
                    lemma_entries_error_stays(*m, (e + 1) as nat, m.entry_points@.len());
                }
                return Err(ReflectError::UnsupportedStage { entry: e });
            },
        }
        e = e + 1;
    }
    let vertex_set = vertex.as_str().unicode_len() > 0;
    let fragment_set = fragment.as_str().unicode_len() > 0;
    if vertex_set && fragment_set {
        Ok(ShaderReflect::VertexFragment {
            vertex_entry_point: vertex,
            vertex_input: input,
            fragment_entry_point: fragment,
            bindings,
        })
    } else if vertex_set {
        Ok(ShaderReflect::Vertex { entry_point: vertex, input, bindings })
    } else if fragment_set {
        Ok(ShaderReflect::Fragment { entry_point: fragment, bindings })
    } else if compute.as_str().unicode_len() > 0 {
        Ok(ShaderReflect::Compute { entry_point: compute, bindings })
    } else {
        Err(ReflectError::NoEntryPoint)
    }
}

} // verus!
