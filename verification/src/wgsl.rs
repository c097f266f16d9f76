//! WGSL shader sources: parsed by naga's WGSL front end, read into the
//! library's model of a module, and reflected.
use vstd::prelude::*;
use wgpu::naga;

use crate::reflection;
use crate::reflection::{
    check_module, check_vertex_locations, lemma_located_modules_reflect, module_wf, parse, spec_parse,
    vertex_locations_present, ModuleType, ReflectError, ResourceBinding, ScalarKind, ShaderModule,
};
use crate::shader_types::ShaderReflect;

verus! {

/// A shader module of naga.
#[verifier::external_type_specification]
#[verifier::external_body]
pub struct ExNagaModule(wgpu::naga::Module);

/// A type of a naga module.
#[verifier::external_type_specification]
#[verifier::external_body]
pub struct ExNagaType(wgpu::naga::Type);

/// What a naga type is.
#[verifier::external_type_specification]
#[verifier::external_body]
pub struct ExNagaTypeInner(wgpu::naga::TypeInner);

/// A scalar type of naga.
#[verifier::external_type_specification]
#[verifier::external_body]
pub struct ExNagaScalar(wgpu::naga::Scalar);

/// The number of components of a naga vector.
#[verifier::external_type_specification]
#[verifier::external_body]
pub struct ExNagaVectorSize(wgpu::naga::VectorSize);

/// The size of a naga array.
#[verifier::external_type_specification]
#[verifier::external_body]
pub struct ExNagaArraySize(wgpu::naga::ArraySize);

/// A member of a naga structure.
#[verifier::external_type_specification]
#[verifier::external_body]
pub struct ExNagaStructMember(wgpu::naga::StructMember);

/// The class of a naga image.
#[verifier::external_type_specification]
#[verifier::external_body]
pub struct ExNagaImageClass(wgpu::naga::ImageClass);

/// The address space of a naga global variable.
#[verifier::external_type_specification]
#[verifier::external_body]
pub struct ExNagaAddressSpace(wgpu::naga::AddressSpace);

/// A global variable of a naga module.
#[verifier::external_type_specification]
#[verifier::external_body]
pub struct ExNagaGlobalVariable(wgpu::naga::GlobalVariable);

/// An entry point of a naga module.
#[verifier::external_type_specification]
#[verifier::external_body]
pub struct ExNagaEntryPoint(wgpu::naga::EntryPoint);

/// What naga's WGSL front end makes of this source, read into the library's
/// model of a module: `None` where it refuses the source.
pub uninterp spec fn wgsl_module(source: Seq<char>) -> Option<ShaderModule>;

/// Reads a naga scalar: its kind, variant for variant, and its width.
#[verifier::external_body]
fn scalar_from_naga(s: &naga::Scalar) -> reflection::ScalarType {
    let kind = match s.kind {
        naga::ScalarKind::Sint => ScalarKind::Sint,
        naga::ScalarKind::Uint => ScalarKind::Uint,
        naga::ScalarKind::Float => ScalarKind::Float,
        naga::ScalarKind::Bool => ScalarKind::Bool,
        naga::ScalarKind::AbstractInt => ScalarKind::AbstractInt,
        naga::ScalarKind::AbstractFloat => ScalarKind::AbstractFloat,
    };
    reflection::ScalarType { kind, width: s.width }
}

/// Reads a naga vector size, variant for variant.
#[verifier::external_body]
fn vector_size_from_naga(v: &naga::VectorSize) -> reflection::VectorWidth {
    match v {
        naga::VectorSize::Bi => reflection::VectorWidth::Bi,
        naga::VectorSize::Tri => reflection::VectorWidth::Tri,
        naga::VectorSize::Quad => reflection::VectorWidth::Quad,
    }
}

/// Reads a naga array size, variant for variant.
#[verifier::external_body]
fn array_size_from_naga(a: &naga::ArraySize) -> reflection::ArrayLength {
    match a {
        naga::ArraySize::Constant(n) => reflection::ArrayLength::Constant(n.get()),
        naga::ArraySize::Pending(_) => reflection::ArrayLength::Pending,
        naga::ArraySize::Dynamic => reflection::ArrayLength::Dynamic,
    }
}

/// Reads a naga structure member: its name, the index of its type, and the
/// location of its binding where it has one.
#[verifier::external_body]
fn member_from_naga(m: &naga::StructMember) -> reflection::MemberDecl {
    let location = match &m.binding {
        Some(naga::Binding::Location { location, .. }) => Some(*location),
        _ => None,
    };
    reflection::MemberDecl { name: m.name.clone(), ty: m.ty.index(), location }
}

/// Reads a naga image class, variant for variant (others as `Other`).
#[verifier::external_body]
fn image_from_naga(class: &naga::ImageClass) -> reflection::TypeShape {
    match class {
        naga::ImageClass::Sampled { multi, .. } => reflection::TypeShape::Image { class: reflection::ImageKind::Sampled { multi: *multi } },
        naga::ImageClass::Depth { multi } => reflection::TypeShape::Image { class: reflection::ImageKind::Depth { multi: *multi } },
        naga::ImageClass::Storage { .. } => reflection::TypeShape::Image { class: reflection::ImageKind::Storage },
        _ => reflection::TypeShape::Other,
    }
}

/// Reads a naga vector type: its size and its scalar.
#[verifier::external_body]
fn vector_from_naga(size: &naga::VectorSize, scalar: &naga::Scalar) -> reflection::TypeShape {
    reflection::TypeShape::Vector { size: vector_size_from_naga(size), scalar: scalar_from_naga(scalar) }
}

/// Reads a naga matrix type: its columns, rows and scalar.
#[verifier::external_body]
fn matrix_from_naga(columns: &naga::VectorSize, rows: &naga::VectorSize, scalar: &naga::Scalar) -> reflection::TypeShape {
    let (columns, rows) = (vector_size_from_naga(columns), vector_size_from_naga(rows));
    reflection::TypeShape::Matrix { columns, rows, scalar: scalar_from_naga(scalar) }
}

/// Reads a naga array type: the index of its element type, its size and
/// its stride.
#[verifier::external_body]
fn array_from_naga(base: usize, size: &naga::ArraySize, stride: u32) -> reflection::TypeShape {
    reflection::TypeShape::Array { base, size: array_size_from_naga(size), stride }
}

/// Reads a naga structure type: its members in order and its span.
#[verifier::external_body]
fn struct_from_naga(members: &Vec<naga::StructMember>, span: u32) -> reflection::TypeShape {
    reflection::TypeShape::Struct { members: members.iter().map(member_from_naga).collect(), span }
}

/// Reads what a naga type is, variant for variant (others as `Other`).
#[verifier::external_body]
fn type_inner_from_naga(inner: &naga::TypeInner) -> reflection::TypeShape {
    match inner {
        naga::TypeInner::Scalar(s) => reflection::TypeShape::Scalar(scalar_from_naga(s)),
        naga::TypeInner::Vector { size, scalar } => vector_from_naga(size, scalar),
        naga::TypeInner::Matrix { columns, rows, scalar } => matrix_from_naga(columns, rows, scalar),
        naga::TypeInner::Array { base, size, stride } => array_from_naga(base.index(), size, *stride),
        naga::TypeInner::Struct { members, span } => struct_from_naga(members, *span),
        naga::TypeInner::Image { class, .. } => image_from_naga(class),
        naga::TypeInner::Sampler { comparison } => reflection::TypeShape::Sampler { comparison: *comparison },
        _ => reflection::TypeShape::Other,
    }
}

/// Reads a naga type: its name and what it is.
#[verifier::external_body]
fn type_from_naga(t: &naga::Type) -> ModuleType {
    ModuleType { name: t.name.clone(), inner: type_inner_from_naga(&t.inner) }
}

/// Reads a naga address space, variant for variant, with the access flags
/// of a storage space as three booleans (others as `Other`).
#[verifier::external_body]
fn space_from_naga(space: &naga::AddressSpace) -> reflection::VarSpace {
    match space {
        naga::AddressSpace::Uniform => reflection::VarSpace::Uniform,
        naga::AddressSpace::Immediate => reflection::VarSpace::PushConstant,
        naga::AddressSpace::Storage { access } => reflection::VarSpace::Storage {
            load: access.contains(naga::StorageAccess::LOAD),
            store: access.contains(naga::StorageAccess::STORE),
            atomic: access.contains(naga::StorageAccess::ATOMIC),
        },
        naga::AddressSpace::Handle => reflection::VarSpace::Handle,
        _ => reflection::VarSpace::Other,
    }
}

/// Reads a naga global variable: name, space, binding and type index.
#[verifier::external_body]
fn global_from_naga(g: &naga::GlobalVariable) -> reflection::ModuleGlobal {
    let binding = g.binding.as_ref().map(|b| ResourceBinding { group: b.group, binding: b.binding });
    reflection::ModuleGlobal { name: g.name.clone(), space: space_from_naga(&g.space), binding, ty: g.ty.index() }
}

/// Reads a naga entry point: its name, its stage variant for variant (others
/// as `Other`), and the type index of each argument.
#[verifier::external_body]
fn entry_from_naga(e: &naga::EntryPoint) -> reflection::ModuleEntry {
    let stage = match e.stage {
        naga::ShaderStage::Vertex => reflection::ShaderStage::Vertex,
        naga::ShaderStage::Fragment => reflection::ShaderStage::Fragment,
        naga::ShaderStage::Compute => reflection::ShaderStage::Compute,
        _ => reflection::ShaderStage::Other,
    };
    reflection::ModuleEntry { name: e.name.clone(), stage, arguments: e.function.arguments.iter().map(|a| a.ty.index()).collect() }
}

/// Reads a naga module: its types, global variables and entry points, in
/// the order of naga's arenas.
#[verifier::external_body]
fn module_from_naga(m: &naga::Module) -> ShaderModule {
    ShaderModule {
        types: m.types.iter().map(|(_, t)| type_from_naga(t)).collect(),
        global_variables: m.global_variables.iter().map(|(_, g)| global_from_naga(g)).collect(),
        entry_points: m.entry_points.iter().map(entry_from_naga).collect(),
    }
}

/// Calls `naga::front::wgsl::parse_str` on the source and reads the module
/// it gives: the result is the name [`wgsl_module`] of the source (naga's
/// parse is a function of the text alone).
#[verifier::external_body]
pub(crate) fn parse_wgsl(source: &str) -> (r: Option<ShaderModule>)
    ensures
        r == wgsl_module(source@),
{
    match naga::front::wgsl::parse_str(source) {
        Ok(module) => Some(module_from_naga(&module)),
        Err(_) => None,
    }
}

/// Why WGSL source could not be reflected.
#[derive(Debug, Clone, Copy, PartialEq, Eq, Structural)]
pub enum WgslError {
    /// naga refused the source.
    Parse,
    /// The module naga made refers to types out of order.
    Malformed,
    /// A structure that a vertex entry point takes has a member without a
    /// location.
    MissingVertexLocation,
    /// Reflection refused the module.
    Reflect(ReflectError),
}

/// Parses WGSL source with naga and reflects the module: `Parse` where naga
/// refuses it, `Malformed` for a module whose types refer out of order,
/// `MissingVertexLocation` where a vertex input member has no location, and
/// otherwise exactly what [`spec_parse`] gives.
pub fn reflect_wgsl(source: &str) -> (r: Result<ShaderReflect, WgslError>)
    ensures
        match wgsl_module(source@) {
            None => r == Err::<ShaderReflect, WgslError>(WgslError::Parse),
            Some(m) => if !module_wf(m) {
                r == Err::<ShaderReflect, WgslError>(WgslError::Malformed)
            } else if !vertex_locations_present(m) {
                r == Err::<ShaderReflect, WgslError>(WgslError::MissingVertexLocation)
            } else {
                match spec_parse(m) {
                    Ok(v) => r matches Ok(x) && x@ == v,
                    Err(e) => e matches Some(err) && r == Err::<ShaderReflect, WgslError>(WgslError::Reflect(err)),
                }
            },
        },
{
    let m = match parse_wgsl(source) {
        None => return Err(WgslError::Parse),
        Some(m) => m,
    };
    if !check_module(&m) {
        return Err(WgslError::Malformed);
    }
    if !check_vertex_locations(&m) {
        return Err(WgslError::MissingVertexLocation);
    }
    proof {
        lemma_located_modules_reflect(m);
    }
    match parse(&m) {
        Ok(v) => Ok(v),
        Err(e) => Err(WgslError::Reflect(e)),
    }
}

/// Whether WGSL source is a valid shader: naga parses it and the module
/// reflects. A vertex input member without a location makes it not valid.
pub fn is_shader_valid(data: &str) -> (r: bool)
    ensures
        r == (wgsl_module(data@) matches Some(m) && module_wf(m) && vertex_locations_present(m) && spec_parse(m) is Ok),
{
    reflect_wgsl(data).is_ok()
}

} // verus!
