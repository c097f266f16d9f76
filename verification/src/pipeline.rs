use vstd::prelude::*;
use crate::shader_types::{
    ShaderBindingInfo, ShaderBindingType, ShaderReflect, ShaderTopology, ShaderCullMode,
    ShaderFrontFace, ShaderPollygonMode, IndexBufferSize,
};
use crate::bind_layout::GroupLayout;
use crate::texture_types::{TextureBlend, TextureFormat};
use crate::graphics::GraphicsShaderPlan;
use crate::shader_types::VertexInputAttribute;
use crate::attachment::{
    BindGroupAttachment, BindGroupType, BindGroupEntries, slots_unique, spec_replace_or_push,
    spec_without_slot, replace_or_push, remove_slot, lemma_replace_or_push_slots,
    lemma_without_slot_slots, spec_find_binding, find_binding, spec_kind_matches,
    attachment_matches, group_attachments, groups_of, spec_find_in_reflects, find_reflect_binding,
};

verus! {

// ---------------------------------------------------------------------------
// Layouts of bind groups
// ---------------------------------------------------------------------------

/// `i` is the first layout of the list made for `group`.
pub open spec fn is_first_layout(ls: Seq<GroupLayout>, group: u32, i: int) -> bool {
    &&& 0 <= i < ls.len()
    &&& ls[i].group == group
    &&& forall|j: int| 0 <= j < i ==> (#[trigger] ls[j]).group != group
}

/// Some layout of the list is made for `group`.
pub open spec fn has_layout(ls: Seq<GroupLayout>, group: u32) -> bool {
    exists|i: int| 0 <= i < ls.len() && (#[trigger] ls[i]).group == group
}

/// Every attachment's group has a layout.
pub open spec fn layouts_cover(ls: Seq<GroupLayout>, s: Seq<BindGroupAttachment>) -> bool {
    forall|m: int| 0 <= m < s.len() ==> has_layout(ls, (#[trigger] s[m]).group)
}

/// Finds the first layout made for `group`.
pub fn find_layout(ls: &Vec<GroupLayout>, group: u32) -> (r: Option<usize>)
    ensures
        r is Some <==> has_layout(ls@, group),
        r matches Some(i) ==> is_first_layout(ls@, group, i as int),
{
    let mut i: usize = 0;
    while i < ls.len()
        invariant
            i <= ls.len(),
            forall|j: int| 0 <= j < i ==> (#[trigger] ls@[j]).group != group,
        decreases ls.len() - i,
    {
        if ls[i].group == group {
            return Some(i);
        }
        i += 1;
    }
    None
}

/// Checks that every attachment's group has a layout.
pub fn check_layouts_cover(ls: &Vec<GroupLayout>, s: &Vec<BindGroupAttachment>) -> (r: bool)
    ensures
        r == layouts_cover(ls@, s@),
{
    let mut m: usize = 0;
    while m < s.len()
        invariant
            m <= s.len(),
            forall|k: int| 0 <= k < m ==> has_layout(ls@, (#[trigger] s@[k]).group),
        decreases s.len() - m,
    {
        if find_layout(ls, s[m].group).is_none() {
            return false;
        }
        m += 1;
    }
    true
}

/// The bind groups to create for a set of attachments, and for each the
/// index of the layout it is created with.
#[derive(Debug, Clone, PartialEq, Eq)]
pub struct BindGroupsPlan {
    pub groups: Vec<BindGroupEntries>,
    pub layouts: Vec<usize>,
}

/// `p` groups the attachments `s` and names for each group its first layout.
pub open spec fn plans_bind_groups(p: BindGroupsPlan, ls: Seq<GroupLayout>, s: Seq<BindGroupAttachment>) -> bool {
    &&& groups_of(p.groups@, s)
    &&& p.layouts@.len() == p.groups@.len()
    &&& forall|i: int| 0 <= i < p.groups@.len() ==> is_first_layout(ls, (#[trigger] p.groups@[i]).group, p.layouts@[i] as int)
}

/// Sorts attachments into bind groups, each paired with the first layout
/// made for its group.
pub fn plan_bind_groups(s: &Vec<BindGroupAttachment>, ls: &Vec<GroupLayout>) -> (p: BindGroupsPlan)
    requires
        slots_unique(s@),
        layouts_cover(ls@, s@),
    ensures
        plans_bind_groups(p, ls@, s@),
{
    let groups = group_attachments(s);
    let mut layouts: Vec<usize> = Vec::new();
    let mut i: usize = 0;
    while i < groups.len()
        invariant
            i <= groups.len(),
            layouts@.len() == i,
            groups_of(groups@, s@),
            layouts_cover(ls@, s@),
            forall|k: int| 0 <= k < i ==> is_first_layout(ls@, (#[trigger] groups@[k]).group, layouts@[k] as int),
        decreases groups.len() - i,
    {
        proof {
            assert(groups@[i as int].entries@.len() > 0);
            let x = groups@[i as int].entries@[0];
            assert(s@.contains(x));
            let m = choose|m: int| 0 <= m < s@.len() && s@[m] == x;
            assert(has_layout(ls@, s@[m].group));
        }
        let l = find_layout(ls, groups[i].group);
        layouts.push(l.unwrap());
        i += 1;
    }
    BindGroupsPlan { groups, layouts }
}

// ---------------------------------------------------------------------------
// Compute pipelines
// ---------------------------------------------------------------------------

/// Why a compute pipeline could not be built.
#[derive(Debug, Clone, Copy, PartialEq, Eq, Structural)]
pub enum CompuitePipelineError {
    ShaderNotSet,
    InvalidShaderType,
    AttachmentNotSet(u32, u32),
    InvalidAttachmentType(u32, u32, ShaderBindingType),
}

/// The compute shader a pipeline is built from: its entry point and the
/// layouts of its bind groups.
#[derive(Debug, Clone)]
pub struct ComputeShaderBinding {
    pub entry_point: String,
    pub layout: Vec<GroupLayout>,
}

/// The bindings of a compute reflection (none for another kind).
pub open spec fn compute_bindings(r: ShaderReflect) -> Seq<ShaderBindingInfo> {
    match r {
        ShaderReflect::Compute { bindings, .. } => bindings@,
        _ => Seq::empty(),
    }
}

/// The first error among the attachments from index `i` on: a slot that
/// the shader does not declare, or an attachment whose kind does not fit
/// the declared type.
pub open spec fn spec_check_compute(bs: Seq<ShaderBindingInfo>, s: Seq<BindGroupAttachment>, i: int) -> Result<(), CompuitePipelineError>
    decreases s.len() - i,
{
    if i < 0 || i >= s.len() {
        Ok(())
    } else {
        match spec_find_binding(bs, s[i].group, s[i].binding) {
            None => Err(CompuitePipelineError::AttachmentNotSet(s[i].group, s[i].binding)),
            Some(ty) => if !spec_kind_matches(ty, s[i].attachment) {
                Err(CompuitePipelineError::InvalidAttachmentType(s[i].group, s[i].binding, ty))
            } else {
                spec_check_compute(bs, s, i + 1)
            },
        }
    }
}

/// What a compute pipeline is built from, once checked: the shader's entry
/// point, its layouts, and the bind groups to create.
#[derive(Debug, Clone)]
pub struct ComputePipelinePlan {
    pub entry_point: String,
    pub layout: Vec<GroupLayout>,
    pub bind_groups: BindGroupsPlan,
}

/// Builds a compute pipeline: a shader and the resources attached to its
/// bind group slots.
#[derive(Debug, Clone)]
pub struct ComputePipelineBuilder {
    pub attachments: Vec<BindGroupAttachment>,
    pub shader: Option<ComputeShaderBinding>,
    pub shader_reflection: Option<ShaderReflect>,
}

impl ComputePipelineBuilder {
    /// The builder's state is consistent: slots are unique, and a shader
    /// comes with its compute reflection.
    pub open spec fn wf(&self) -> bool {
        &&& slots_unique(self.attachments@)
        &&& (self.shader is Some <==> self.shader_reflection is Some)
        &&& (self.shader_reflection matches Some(r) ==> r is Compute)
    }

    pub fn new() -> (r: ComputePipelineBuilder)
        ensures
            r.wf(),
            r.attachments@.len() == 0,
            r.shader is None,
    {
        ComputePipelineBuilder { attachments: Vec::new(), shader: None, shader_reflection: None }
    }

    /// Sets the shader, from its reflection and layouts, or removes it.
    pub fn set_shader(self, shader: Option<(ShaderReflect, Vec<GroupLayout>)>) -> (r: ComputePipelineBuilder)
        requires
            self.wf(),
            shader matches Some(s) ==> s.0 is Compute,
        ensures
            r.wf(),
            r.attachments@ == self.attachments@,
            match shader {
                Some(s) => r.shader matches Some(b) && r.shader_reflection == Some(s.0) && b.layout@ == s.1@
                    && (s.0 matches ShaderReflect::Compute { entry_point, .. } && b.entry_point@ == entry_point@),
                None => r.shader is None && r.shader_reflection is None,
            },
    {
        let mut this = self;
        match shader {
            Some((reflect, layout)) => {
                let entry_point = match &reflect {
                    ShaderReflect::Compute { entry_point, .. } => entry_point.clone(),
                    _ => String::new(),
                };
                this.shader = Some(ComputeShaderBinding { entry_point, layout });
                this.shader_reflection = Some(reflect);
            },
            None => {
                this.shader = None;
                this.shader_reflection = None;
            },
        }
        this
    }

    /// Removes whatever is attached in the slot.
    pub fn remove_attachment(&mut self, group: u32, binding: u32)
        requires
            old(self).wf(),
        ensures
            final(self).wf(),
            final(self).attachments@ == spec_without_slot(old(self).attachments@, group, binding),
            final(self).shader == old(self).shader,
            final(self).shader_reflection == old(self).shader_reflection,
    {
        proof {
            lemma_without_slot_slots(self.attachments@, group, binding);
        }
        remove_slot(&mut self.attachments, group, binding);
    }

    /// Attaches a resource in its slot, in place of what was there.
    pub fn insert_or_replace_attachment(&mut self, attachment: BindGroupAttachment)
        requires
            old(self).wf(),
        ensures
            final(self).wf(),
            final(self).attachments@ == spec_replace_or_push(old(self).attachments@, attachment),
            final(self).shader == old(self).shader,
            final(self).shader_reflection == old(self).shader_reflection,
    {
        proof {
            lemma_replace_or_push_slots(self.attachments@, attachment);
        }
        replace_or_push(&mut self.attachments, attachment);
    }

    /// Attaches the resource `handle` of the given kind in the slot, or
    /// empties the slot for `None`.
    fn set_attachment(self, group: u32, binding: u32, resource: Option<BindGroupType>) -> (r: ComputePipelineBuilder)
        requires
            self.wf(),
        ensures
            r.wf(),
            r.shader == self.shader,
            r.shader_reflection == self.shader_reflection,
            r.attachments@ == match resource {
                Some(t) => spec_replace_or_push(self.attachments@, BindGroupAttachment { group, binding, attachment: t }),
                None => spec_without_slot(self.attachments@, group, binding),
            },
    {
        let mut this = self;
        match resource {
            Some(t) => this.insert_or_replace_attachment(BindGroupAttachment { group, binding, attachment: t }),
            None => this.remove_attachment(group, binding),
        }
        this
    }

    /// Attaches the sampler `sampler` in the slot, or empties it.
    pub fn set_attachment_sampler(self, group: u32, binding: u32, sampler: Option<u64>) -> (r: ComputePipelineBuilder)
        requires
            self.wf(),
        ensures
            r.wf(),
            r.shader == self.shader,
            r.shader_reflection == self.shader_reflection,
            r.attachments@ == match sampler {
                Some(h) => spec_replace_or_push(self.attachments@, BindGroupAttachment { group, binding, attachment: BindGroupType::Sampler(h) }),
                None => spec_without_slot(self.attachments@, group, binding),
            },
    {
        let t = match sampler { Some(h) => Some(BindGroupType::Sampler(h)), None => None };
        self.set_attachment(group, binding, t)
    }

    /// Attaches the texture `texture` in the slot, or empties it.
    pub fn set_attachment_texture(self, group: u32, binding: u32, texture: Option<u64>) -> (r: ComputePipelineBuilder)
        requires
            self.wf(),
        ensures
            r.wf(),
            r.shader == self.shader,
            r.shader_reflection == self.shader_reflection,
            r.attachments@ == match texture {
                Some(h) => spec_replace_or_push(self.attachments@, BindGroupAttachment { group, binding, attachment: BindGroupType::Texture(h) }),
                None => spec_without_slot(self.attachments@, group, binding),
            },
    {
        let t = match texture { Some(h) => Some(BindGroupType::Texture(h)), None => None };
        self.set_attachment(group, binding, t)
    }

    /// Attaches the storage texture `texture` in the slot, or empties it.
    pub fn set_attachment_texture_storage(self, group: u32, binding: u32, texture: Option<u64>) -> (r: ComputePipelineBuilder)
        requires
            self.wf(),
        ensures
            r.wf(),
            r.shader == self.shader,
            r.shader_reflection == self.shader_reflection,
            r.attachments@ == match texture {
                Some(h) => spec_replace_or_push(self.attachments@, BindGroupAttachment { group, binding, attachment: BindGroupType::TextureStorage(h) }),
                None => spec_without_slot(self.attachments@, group, binding),
            },
    {
        let t = match texture { Some(h) => Some(BindGroupType::TextureStorage(h)), None => None };
        self.set_attachment(group, binding, t)
    }

    /// Attaches the uniform buffer `buffer` in the slot, or empties it.
    pub fn set_attachment_uniform(self, group: u32, binding: u32, buffer: Option<u64>) -> (r: ComputePipelineBuilder)
        requires
            self.wf(),
        ensures
            r.wf(),
            r.shader == self.shader,
            r.shader_reflection == self.shader_reflection,
            r.attachments@ == match buffer {
                Some(h) => spec_replace_or_push(self.attachments@, BindGroupAttachment { group, binding, attachment: BindGroupType::Uniform(h) }),
                None => spec_without_slot(self.attachments@, group, binding),
            },
    {
        let t = match buffer { Some(h) => Some(BindGroupType::Uniform(h)), None => None };
        self.set_attachment(group, binding, t)
    }

    /// Attaches the storage buffer `buffer` in the slot, or empties it.
    pub fn set_attachment_storage(self, group: u32, binding: u32, buffer: Option<u64>) -> (r: ComputePipelineBuilder)
        requires
            self.wf(),
        ensures
            r.wf(),
            r.shader == self.shader,
            r.shader_reflection == self.shader_reflection,
            r.attachments@ == match buffer {
                Some(h) => spec_replace_or_push(self.attachments@, BindGroupAttachment { group, binding, attachment: BindGroupType::Storage(h) }),
                None => spec_without_slot(self.attachments@, group, binding),
            },
    {
        let t = match buffer { Some(h) => Some(BindGroupType::Storage(h)), None => None };
        self.set_attachment(group, binding, t)
    }

    /// Whether `build` may go past its checks to the bind groups: the
    /// groups of the attachments must then have layouts.
    pub open spec fn buildable(&self) -> bool {
        match (self.shader, self.shader_reflection) {
            (Some(b), Some(r)) => spec_check_compute(compute_bindings(r), self.attachments@, 0) is Ok
                ==> layouts_cover(b.layout@, self.attachments@),
            _ => true,
        }
    }

    /// Checks the attachments against the shader and plans the bind groups.
    /// Without a shader the result is `ShaderNotSet`; otherwise it is the
    /// first attachment's error (a slot the shader does not declare, or a
    /// kind that does not fit), else the shader's entry point and layouts
    /// with the attachments sorted into bind groups.
    pub fn build(self) -> (r: Result<ComputePipelinePlan, CompuitePipelineError>)
        requires
            self.wf(),
            self.buildable(),
        ensures
            self.shader is None ==> r == Err::<ComputePipelinePlan, CompuitePipelineError>(CompuitePipelineError::ShaderNotSet),
            self.shader matches Some(b) ==> {
                let check = spec_check_compute(compute_bindings(self.shader_reflection->0), self.attachments@, 0);
                match check {
                    Err(e) => r == Err::<ComputePipelinePlan, CompuitePipelineError>(e),
                    Ok(_) => r matches Ok(p) && p.entry_point@ == b.entry_point@ && p.layout@ == b.layout@
                        && plans_bind_groups(p.bind_groups, b.layout@, self.attachments@),
                }
            },
    {
        let ghost g = self;
        let ComputePipelineBuilder { attachments, shader, shader_reflection } = self;
        let binding = match shader {
            None => return Err(CompuitePipelineError::ShaderNotSet),
            Some(b) => b,
        };
        let reflect = match shader_reflection {
            Some(r) => r,
            None => return Err(CompuitePipelineError::ShaderNotSet),
        };
        let empty: Vec<ShaderBindingInfo> = Vec::new();
        let bindings: &Vec<ShaderBindingInfo> = match &reflect {
            ShaderReflect::Compute { bindings, .. } => bindings,
            _ => &empty,
        };
        assert(bindings@ == compute_bindings(reflect));
        let mut i: usize = 0;
        while i < attachments.len()
            invariant
                i <= attachments.len(),
                g == self,
                g.shader is Some,
                g.attachments@ == attachments@,
                g.shader_reflection == Some(reflect),
                bindings@ == compute_bindings(reflect),
                spec_check_compute(bindings@, attachments@, 0) == spec_check_compute(bindings@, attachments@, i as int),
            decreases attachments.len() - i,
        {
            let a = attachments[i];
            match find_binding(bindings, a.group, a.binding) {
                None => return Err(CompuitePipelineError::AttachmentNotSet(a.group, a.binding)),
                Some(ty) => {
                    if !attachment_matches(ty, a.attachment) {
                        return Err(CompuitePipelineError::InvalidAttachmentType(a.group, a.binding, ty));
                    }
                },
            }
            i += 1;
        }
        let bind_groups = plan_bind_groups(&attachments, &binding.layout);
        Ok(ComputePipelinePlan { entry_point: binding.entry_point, layout: binding.layout, bind_groups })
    }
}

// ---------------------------------------------------------------------------
// Render pipelines
// ---------------------------------------------------------------------------

/// Why a render pipeline could not be built.
#[derive(Debug, Clone, Copy, PartialEq, Eq, Structural)]
pub enum RenderPipelineError {
    ShaderNotSet,
    BindGroupNotFound,
    InvalidAttachmentType,
}

/// The entry point of the first vertex or combined reflection.
pub open spec fn spec_vertex_entry(rs: Seq<ShaderReflect>) -> Option<Seq<char>>
    decreases rs.len(),
{
    if rs.len() == 0 {
        None
    } else {
        match rs[0] {
            ShaderReflect::Vertex { entry_point, .. } => Some(entry_point@),
            ShaderReflect::VertexFragment { vertex_entry_point, .. } => Some(vertex_entry_point@),
            _ => spec_vertex_entry(rs.drop_first()),
        }
    }
}

/// The entry point of the first fragment or combined reflection.
pub open spec fn spec_fragment_entry(rs: Seq<ShaderReflect>) -> Option<Seq<char>>
    decreases rs.len(),
{
    if rs.len() == 0 {
        None
    } else {
        match rs[0] {
            ShaderReflect::Fragment { entry_point, .. } => Some(entry_point@),
            ShaderReflect::VertexFragment { fragment_entry_point, .. } => Some(fragment_entry_point@),
            _ => spec_fragment_entry(rs.drop_first()),
        }
    }
}

/// Finds the vertex entry point of a shader's reflections.
pub fn vertex_entry(rs: &Vec<ShaderReflect>) -> (r: Option<String>)
    ensures
        r matches Some(s) ==> spec_vertex_entry(rs@) == Some(s@),
        r is None ==> spec_vertex_entry(rs@) is None,
{
    let mut i: usize = 0;
    proof {
        assert(rs@.skip(0) =~= rs@);
    }
    while i < rs.len()
        invariant
            i <= rs.len(),
            spec_vertex_entry(rs@) == spec_vertex_entry(rs@.skip(i as int)),
        decreases rs.len() - i,
    {
        proof {
            assert(rs@.skip(i as int).drop_first() =~= rs@.skip(i as int + 1));
        }
        match &rs[i] {
            ShaderReflect::Vertex { entry_point, .. } => return Some(entry_point.clone()),
            ShaderReflect::VertexFragment { vertex_entry_point, .. } => return Some(vertex_entry_point.clone()),
            _ => {},
        }
        i += 1;
    }
    None
}

/// Finds the fragment entry point of a shader's reflections.
pub fn fragment_entry(rs: &Vec<ShaderReflect>) -> (r: Option<String>)
    ensures
        r matches Some(s) ==> spec_fragment_entry(rs@) == Some(s@),
        r is None ==> spec_fragment_entry(rs@) is None,
{
    let mut i: usize = 0;
    proof {
        assert(rs@.skip(0) =~= rs@);
    }
    while i < rs.len()
        invariant
            i <= rs.len(),
            spec_fragment_entry(rs@) == spec_fragment_entry(rs@.skip(i as int)),
        decreases rs.len() - i,
    {
        proof {
            assert(rs@.skip(i as int).drop_first() =~= rs@.skip(i as int + 1));
        }
        match &rs[i] {
            ShaderReflect::Fragment { entry_point, .. } => return Some(entry_point.clone()),
            ShaderReflect::VertexFragment { fragment_entry_point, .. } => return Some(fragment_entry_point.clone()),
            _ => {},
        }
        i += 1;
    }
    None
}

/// A graphics shader as a pipeline uses it: entry points, layouts, vertex
/// layout and primitive state.
#[derive(Debug, Clone, Hash)]
pub struct GraphicsShaderBinding {
    pub vertex_entry_point: String,
    pub fragment_entry_point: String,
    pub layout: Vec<GroupLayout>,
    pub stride: u64,
    pub attributes: Vec<VertexInputAttribute>,
    pub topology: ShaderTopology,
    pub cull_mode: Option<ShaderCullMode>,
    pub front_face: ShaderFrontFace,
    pub polygon_mode: ShaderPollygonMode,
    pub index_format: Option<IndexBufferSize>,
}

/// Whether a shader has both a vertex and a fragment entry point.
pub open spec fn has_entry_points(plan: GraphicsShaderPlan) -> bool {
    spec_vertex_entry(plan.reflection@) is Some && spec_fragment_entry(plan.reflection@) is Some
}

/// The binding of a shader under the given options: the options that are
/// set win over the shader's own vertex description, except the cull mode,
/// which is the option alone.
pub open spec fn binds_shader(
    b: GraphicsShaderBinding,
    plan: GraphicsShaderPlan,
    topology: Option<ShaderTopology>,
    cull_mode: Option<ShaderCullMode>,
    front_face: Option<ShaderFrontFace>,
    polygon_mode: Option<ShaderPollygonMode>,
    index_format: Option<IndexBufferSize>,
) -> bool {
    &&& spec_vertex_entry(plan.reflection@) == Some(b.vertex_entry_point@)
    &&& spec_fragment_entry(plan.reflection@) == Some(b.fragment_entry_point@)
    &&& b.layout@ == plan.layouts@
    &&& b.stride == plan.input.stride
    &&& b.attributes@ == plan.input.attributes@
    &&& b.topology == (match topology { Some(t) => t, None => plan.input.topology })
    &&& b.cull_mode == cull_mode
    &&& b.front_face == (match front_face { Some(f) => f, None => plan.input.front_face })
    &&& b.polygon_mode == (match polygon_mode { Some(p) => p, None => plan.input.polygon_mode })
    &&& b.index_format == (match index_format { Some(i) => Some(i), None => plan.input.index })
}

/// Binds a shader with options for its primitive state.
pub fn bind_graphics_shader(
    plan: GraphicsShaderPlan,
    topology: Option<ShaderTopology>,
    cull_mode: Option<ShaderCullMode>,
    front_face: Option<ShaderFrontFace>,
    polygon_mode: Option<ShaderPollygonMode>,
    index_format: Option<IndexBufferSize>,
) -> (r: (GraphicsShaderBinding, Vec<ShaderReflect>))
    requires
        has_entry_points(plan),
    ensures
        binds_shader(r.0, plan, topology, cull_mode, front_face, polygon_mode, index_format),
        r.1@ == plan.reflection@,
{
    let ghost p = plan;
    let vertex = vertex_entry(&plan.reflection).unwrap();
    let fragment = fragment_entry(&plan.reflection).unwrap();
    let GraphicsShaderPlan { reflection, layouts, input } = plan;
    let binding = GraphicsShaderBinding {
        vertex_entry_point: vertex,
        fragment_entry_point: fragment,
        layout: layouts,
        stride: input.stride,
        attributes: input.attributes,
        topology: match topology { Some(t) => t, None => input.topology },
        cull_mode,
        front_face: match front_face { Some(f) => f, None => input.front_face },
        polygon_mode: match polygon_mode { Some(m) => m, None => input.polygon_mode },
        index_format: match index_format { Some(i) => Some(i), None => input.index },
    };
    (binding, reflection)
}

/// Whether an attachment may go where a graphics shader with these
/// reflections declares its slot: the slot is declared, with a type that
/// takes the attachment's kind.
pub open spec fn attachable(rs: Seq<ShaderReflect>, a: BindGroupAttachment) -> bool {
    spec_find_in_reflects(rs, a.group, a.binding) matches Some(ty) && spec_kind_matches(ty, a.attachment)
}

/// Checks that an attachment may go where the shader declares its slot.
pub fn check_attachable(rs: &Vec<ShaderReflect>, a: BindGroupAttachment) -> (r: bool)
    ensures
        r == attachable(rs@, a),
{
    match find_reflect_binding(rs, a.group, a.binding) {
        Some(ty) => attachment_matches(ty, a.attachment),
        None => false,
    }
}

/// What a render pipeline is built from: the bound shader, the bind groups
/// to create, the blend of its target, the target and depth formats, the
/// sample count and the index format.
#[derive(Debug, Clone)]
pub struct RenderPipelinePlan {
    pub shader: GraphicsShaderBinding,
    pub bind_groups: BindGroupsPlan,
    pub blend: Option<TextureBlend>,
    pub render_target: TextureFormat,
    pub depth_stencil: Option<TextureFormat>,
    pub msaa_count: u32,
    pub index_format: Option<IndexBufferSize>,
}

/// Builds a render pipeline: a shader, the blend of its target, and the
/// resources attached to its bind group slots.
#[derive(Debug, Clone)]
pub struct RenderPipelineBuilder {
    pub attachments: Vec<BindGroupAttachment>,
    pub shader: Option<GraphicsShaderBinding>,
    pub blend: Option<TextureBlend>,
    pub shader_reflection: Option<Vec<ShaderReflect>>,
}

impl RenderPipelineBuilder {
    /// Slots are unique, and a shader comes with its reflections.
    pub open spec fn wf(&self) -> bool {
        &&& slots_unique(self.attachments@)
        &&& (self.shader is Some <==> self.shader_reflection is Some)
    }

    /// Whether an attachment may be set now: a shader is bound and declares
    /// the attachment's slot with a type that takes it.
    pub open spec fn accepts(&self, a: BindGroupAttachment) -> bool {
        self.shader_reflection matches Some(rs) && attachable(rs@, a)
    }

    pub fn new() -> (r: RenderPipelineBuilder)
        ensures
            r.wf(),
            r.attachments@.len() == 0,
            r.shader is None,
            r.blend is None,
    {
        RenderPipelineBuilder { attachments: Vec::new(), shader: None, blend: None, shader_reflection: None }
    }

    /// Sets the blend of the pipeline's target, or removes it.
    pub fn set_blend(self, blend: Option<TextureBlend>) -> (r: RenderPipelineBuilder)
        requires
            self.wf(),
        ensures
            r.wf(),
            r.blend == blend,
            r.attachments@ == self.attachments@,
            r.shader == self.shader,
            r.shader_reflection == self.shader_reflection,
    {
        let mut this = self;
        this.blend = blend;
        this
    }

    /// Binds a shader with the primitive state of its vertex description.
    pub fn set_shader(self, shader: Option<GraphicsShaderPlan>) -> (r: RenderPipelineBuilder)
        requires
            self.wf(),
            shader matches Some(p) ==> has_entry_points(p),
        ensures
            r.wf(),
            r.attachments@ == self.attachments@,
            r.blend == self.blend,
            match shader {
                Some(p) => r.shader is Some && binds_shader(r.shader->0, p, None, None, None, None, None)
                    && r.shader_reflection is Some && r.shader_reflection->0@ == p.reflection@,
                None => r.shader is None && r.shader_reflection is None,
            },
    {
        self.set_shader_with_options(shader, None, None, None, None, None)
    }

    /// Binds a shader, with options that win over its vertex description,
    /// or unbinds it.
    pub fn set_shader_with_options(
        self,
        shader: Option<GraphicsShaderPlan>,
        topology: Option<ShaderTopology>,
        cull_mode: Option<ShaderCullMode>,
        front_face: Option<ShaderFrontFace>,
        polygon_mode: Option<ShaderPollygonMode>,
        index_format: Option<IndexBufferSize>,
    ) -> (r: RenderPipelineBuilder)
        requires
            self.wf(),
            shader matches Some(p) ==> has_entry_points(p),
        ensures
            r.wf(),
            r.attachments@ == self.attachments@,
            r.blend == self.blend,
            match shader {
                Some(p) => r.shader is Some
                    && binds_shader(r.shader->0, p, topology, cull_mode, front_face, polygon_mode, index_format)
                    && r.shader_reflection is Some && r.shader_reflection->0@ == p.reflection@,
                None => r.shader is None && r.shader_reflection is None,
            },
    {
        let mut this = self;
        match shader {
            Some(plan) => {
                let (binding, reflection) = bind_graphics_shader(plan, topology, cull_mode, front_face, polygon_mode, index_format);
                this.shader = Some(binding);
                this.shader_reflection = Some(reflection);
            },
            None => {
                this.shader = None;
                this.shader_reflection = None;
            },
        }
        this
    }

    /// Checks that an attachment may be set now.
    pub fn can_attach(&self, a: BindGroupAttachment) -> (r: bool)
        ensures
            r == self.accepts(a),
    {
        match &self.shader_reflection {
            Some(rs) => check_attachable(rs, a),
            None => false,
        }
    }

    /// Removes whatever is attached in the slot.
    pub fn remove_attachment(&mut self, group: u32, binding: u32)
        requires
            old(self).wf(),
        ensures
            final(self).wf(),
            final(self).attachments@ == spec_without_slot(old(self).attachments@, group, binding),
            final(self).shader == old(self).shader,
            final(self).shader_reflection == old(self).shader_reflection,
            final(self).blend == old(self).blend,
    {
        proof {
            lemma_without_slot_slots(self.attachments@, group, binding);
        }
        remove_slot(&mut self.attachments, group, binding);
    }

    /// Attaches a resource in its slot, in place of what was there; the
    /// shader must declare the slot with a type that takes it.
    pub fn insert_or_replace_attachment(&mut self, attachment: BindGroupAttachment)
        requires
            old(self).wf(),
            old(self).accepts(attachment),
        ensures
            final(self).wf(),
            final(self).attachments@ == spec_replace_or_push(old(self).attachments@, attachment),
            final(self).shader == old(self).shader,
            final(self).shader_reflection == old(self).shader_reflection,
            final(self).blend == old(self).blend,
    {
        proof {
            lemma_replace_or_push_slots(self.attachments@, attachment);
        }
        replace_or_push(&mut self.attachments, attachment);
    }

    fn set_attachment(self, group: u32, binding: u32, resource: Option<BindGroupType>) -> (r: RenderPipelineBuilder)
        requires
            self.wf(),
            resource matches Some(t) ==> self.accepts(BindGroupAttachment { group, binding, attachment: t }),
        ensures
            r.wf(),
            r.shader == self.shader,
            r.shader_reflection == self.shader_reflection,
            r.blend == self.blend,
            r.attachments@ == match resource {
                Some(t) => spec_replace_or_push(self.attachments@, BindGroupAttachment { group, binding, attachment: t }),
                None => spec_without_slot(self.attachments@, group, binding),
            },
    {
        let mut this = self;
        match resource {
            Some(t) => this.insert_or_replace_attachment(BindGroupAttachment { group, binding, attachment: t }),
            None => this.remove_attachment(group, binding),
        }
        this
    }

    /// Attaches the sampler `sampler` in the slot, or empties it.
    pub fn set_attachment_sampler(self, group: u32, binding: u32, sampler: Option<u64>) -> (r: RenderPipelineBuilder)
        requires
            self.wf(),
            sampler matches Some(h) ==> self.accepts(BindGroupAttachment { group, binding, attachment: BindGroupType::Sampler(h) }),
        ensures
            r.wf(),
            r.shader == self.shader,
            r.shader_reflection == self.shader_reflection,
            r.blend == self.blend,
            r.attachments@ == match sampler {
                Some(h) => spec_replace_or_push(self.attachments@, BindGroupAttachment { group, binding, attachment: BindGroupType::Sampler(h) }),
                None => spec_without_slot(self.attachments@, group, binding),
            },
    {
        let t = match sampler { Some(h) => Some(BindGroupType::Sampler(h)), None => None };
        self.set_attachment(group, binding, t)
    }

    /// Attaches the texture `texture` in the slot, or empties it.
    pub fn set_attachment_texture(self, group: u32, binding: u32, texture: Option<u64>) -> (r: RenderPipelineBuilder)
        requires
            self.wf(),
            texture matches Some(h) ==> self.accepts(BindGroupAttachment { group, binding, attachment: BindGroupType::Texture(h) }),
        ensures
            r.wf(),
            r.shader == self.shader,
            r.shader_reflection == self.shader_reflection,
            r.blend == self.blend,
            r.attachments@ == match texture {
                Some(h) => spec_replace_or_push(self.attachments@, BindGroupAttachment { group, binding, attachment: BindGroupType::Texture(h) }),
                None => spec_without_slot(self.attachments@, group, binding),
            },
    {
        let t = match texture { Some(h) => Some(BindGroupType::Texture(h)), None => None };
        self.set_attachment(group, binding, t)
    }

    /// Attaches the storage texture `texture` in the slot, or empties it.
    pub fn set_attachment_texture_storage(self, group: u32, binding: u32, texture: Option<u64>) -> (r: RenderPipelineBuilder)
        requires
            self.wf(),
            texture matches Some(h) ==> self.accepts(BindGroupAttachment { group, binding, attachment: BindGroupType::TextureStorage(h) }),
        ensures
            r.wf(),
            r.shader == self.shader,
            r.shader_reflection == self.shader_reflection,
            r.blend == self.blend,
            r.attachments@ == match texture {
                Some(h) => spec_replace_or_push(self.attachments@, BindGroupAttachment { group, binding, attachment: BindGroupType::TextureStorage(h) }),
                None => spec_without_slot(self.attachments@, group, binding),
            },
    {
        let t = match texture { Some(h) => Some(BindGroupType::TextureStorage(h)), None => None };
        self.set_attachment(group, binding, t)
    }

    /// Attaches the uniform buffer `buffer` in the slot, or empties it.
    pub fn set_attachment_uniform(self, group: u32, binding: u32, buffer: Option<u64>) -> (r: RenderPipelineBuilder)
        requires
            self.wf(),
            buffer matches Some(h) ==> self.accepts(BindGroupAttachment { group, binding, attachment: BindGroupType::Uniform(h) }),
        ensures
            r.wf(),
            r.shader == self.shader,
            r.shader_reflection == self.shader_reflection,
            r.blend == self.blend,
            r.attachments@ == match buffer {
                Some(h) => spec_replace_or_push(self.attachments@, BindGroupAttachment { group, binding, attachment: BindGroupType::Uniform(h) }),
                None => spec_without_slot(self.attachments@, group, binding),
            },
    {
        let t = match buffer { Some(h) => Some(BindGroupType::Uniform(h)), None => None };
        self.set_attachment(group, binding, t)
    }

    /// Attaches the storage buffer `buffer` in the slot, or empties it.
    pub fn set_attachment_storage(self, group: u32, binding: u32, buffer: Option<u64>) -> (r: RenderPipelineBuilder)
        requires
            self.wf(),
            buffer matches Some(h) ==> self.accepts(BindGroupAttachment { group, binding, attachment: BindGroupType::Storage(h) }),
        ensures
            r.wf(),
            r.shader == self.shader,
            r.shader_reflection == self.shader_reflection,
            r.blend == self.blend,
            r.attachments@ == match buffer {
                Some(h) => spec_replace_or_push(self.attachments@, BindGroupAttachment { group, binding, attachment: BindGroupType::Storage(h) }),
                None => spec_without_slot(self.attachments@, group, binding),
            },
    {
        let t = match buffer { Some(h) => Some(BindGroupType::Storage(h)), None => None };
        self.set_attachment(group, binding, t)
    }

    /// Builds the pipeline's plan: the bound shader, the attachments sorted
    /// into bind groups with their layouts, the blend, a single-sampled
    /// `Rgba8UnormSrgb` target without depth, and the shader's index format.
    pub fn build(self) -> (r: Result<RenderPipelinePlan, RenderPipelineError>)
        requires
            self.wf(),
            self.shader is Some,
            layouts_cover(self.shader->0.layout@, self.attachments@),
        ensures
            r matches Ok(p) && p.shader == self.shader->0 && p.blend == self.blend
                && plans_bind_groups(p.bind_groups, self.shader->0.layout@, self.attachments@)
                && p.render_target == TextureFormat::Rgba8UnormSrgb && p.depth_stencil is None
                && p.msaa_count == 1 && p.index_format == self.shader->0.index_format,
    {
        let RenderPipelineBuilder { attachments, shader, blend, shader_reflection } = self;
        let binding = shader.unwrap();
        let bind_groups = plan_bind_groups(&attachments, &binding.layout);
        let index_format = binding.index_format;
        Ok(RenderPipelinePlan {
            shader: binding,
            bind_groups,
            blend,
            render_target: TextureFormat::Rgba8UnormSrgb,
            depth_stencil: None,
            msaa_count: 1,
            index_format,
        })
    }
}

} // verus!
