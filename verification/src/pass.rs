use vstd::prelude::*;
use crate::shader_types::{ShaderReflect, ShaderTopology, ShaderCullMode, ShaderFrontFace, ShaderPollygonMode, IndexBufferSize};
use crate::bind_layout::GroupLayout;
use crate::texture_types::{TextureUsage, SampleCount, TextureFormat, TextureBlend, USAGE_RENDER_ATTACHMENT, sample_count_value};
use crate::graphics::GraphicsShaderPlan;
use crate::attachment::{
    BindGroupAttachment, BindGroupType, slots_unique, spec_replace_or_push, spec_without_slot,
    replace_or_push, remove_slot, lemma_replace_or_push_slots, lemma_without_slot_slots,
    spec_push_constant_size, spec_pad_push_constants, pad_push_constants, spec_first_push_constant,
};
use crate::cache::LifetimeCache;
use crate::pipeline::{
    GraphicsShaderBinding, RenderPipelinePlan, BindGroupsPlan, ComputeShaderBinding, has_entry_points,
    binds_shader, bind_graphics_shader, attachable, check_attachable, layouts_cover, plans_bind_groups,
    plan_bind_groups, compute_bindings,
};

verus! {

/// Why a command buffer could not be made.
#[derive(Debug, Clone, Copy, PartialEq, Eq, Structural)]
pub enum CommandBufferBuildError {
    Unavailable,
}

/// Why a compute pass could not be begun.
#[derive(Debug, Clone, Copy, PartialEq, Eq, Structural)]
pub enum ComputePassBuildError {
    Unavailable,
}

/// A size in texels.
#[derive(Debug, Clone, Copy, PartialEq, Eq, Structural)]
pub struct Size2 {
    pub width: u32,
    pub height: u32,
}

/// Why a render pass could not be built.
#[derive(Debug, Clone, PartialEq, Eq)]
pub enum RenderPassBuildError {
    NoColorOrDepthAttachment,
    ColorAttachmentNotRenderTarget,
    ColorAttachmentMultiSampled,
    MismatchedAttachmentCount(usize, usize),
    MismatchedAttachmentSize(Size2, Size2),
    MismatchedAttachmentSampleCount(u32, u32),
    MismatchedAttachmentFormat(TextureFormat, TextureFormat),
    MsaaTextureNotMultiSampled,
    MsaaTextureNotRenderAttachment,
    MsaaTextureInvalidSize(Size2),
    DepthTextureNotRenderAttachment,
    DepthTextureInvalidSize(Size2),
    DepthTextureFormatNotSupported(TextureFormat),
    SwapchainError(String),
}

/// What a render pass needs to know of a texture it renders into.
#[derive(Debug, Clone, Copy, PartialEq, Eq, Structural)]
pub struct AttachmentTexture {
    pub usage: TextureUsage,
    pub width: u32,
    pub height: u32,
    pub sample_count: SampleCount,
    pub format: TextureFormat,
}

/// A color attachment: the swapchain's current texture, or a texture.
#[derive(Debug, Clone, Copy, PartialEq, Eq, Structural)]
pub enum RenderpassAttachment {
    SurfaceTexture { width: u32, height: u32, format: TextureFormat },
    Texture(AttachmentTexture),
}

/// One color target of a render pass: its format and its blend.
#[derive(Debug, Clone, Copy, Hash)]
pub struct RenderTarget {
    pub format: TextureFormat,
    pub blend: Option<TextureBlend>,
}

/// The targets of a render pass once its attachments are checked.
#[derive(Debug, Clone)]
pub struct RenderPassTargets {
    pub render_targets: Vec<RenderTarget>,
    pub multi_sample_targets: Vec<AttachmentTexture>,
    pub multi_sample_count: Option<u32>,
    pub depth_format: Option<TextureFormat>,
    pub surface_size: Size2,
}

/// A texture may be rendered into.
pub open spec fn renders(u: TextureUsage) -> bool {
    u.bits & USAGE_RENDER_ATTACHMENT == USAGE_RENDER_ATTACHMENT
}

/// The size of a color attachment, or why it cannot be one: a texture must
/// be a render attachment, not empty, and single-sampled.
pub open spec fn color_size(a: RenderpassAttachment) -> Result<Size2, RenderPassBuildError> {
    match a {
        RenderpassAttachment::SurfaceTexture { width, height, .. } => Ok(Size2 { width, height }),
        RenderpassAttachment::Texture(t) => if !renders(t.usage) {
            Err(RenderPassBuildError::ColorAttachmentNotRenderTarget)
        } else if t.width == 0 || t.height == 0 {
            Err(RenderPassBuildError::MismatchedAttachmentSize(Size2 { width: 0, height: 0 }, Size2 { width: t.width, height: t.height }))
        } else if t.sample_count != SampleCount::SampleCount1 {
            Err(RenderPassBuildError::ColorAttachmentMultiSampled)
        } else {
            Ok(Size2 { width: t.width, height: t.height })
        },
    }
}

/// The format of a color attachment.
pub open spec fn color_format(a: RenderpassAttachment) -> TextureFormat {
    match a {
        RenderpassAttachment::SurfaceTexture { format, .. } => format,
        RenderpassAttachment::Texture(t) => t.format,
    }
}

/// The pass size after the color attachments from index `i` on, starting
/// from `size`: the first attachment sets it and every other must match it.
pub open spec fn spec_colors(
    cs: Seq<(RenderpassAttachment, Option<TextureBlend>)>,
    i: int,
    size: Option<Size2>,
) -> Result<Option<Size2>, RenderPassBuildError>
    decreases cs.len() - i,
{
    if i < 0 || i >= cs.len() {
        Ok(size)
    } else {
        match color_size(cs[i].0) {
            Err(e) => Err(e),
            Ok(s) => match size {
                Some(z) => if z != s {
                    Err(RenderPassBuildError::MismatchedAttachmentSize(z, s))
                } else {
                    spec_colors(cs, i + 1, size)
                },
                None => spec_colors(cs, i + 1, Some(s)),
            },
        }
    }
}

/// The sample count after the multisampled attachments from index `i` on,
/// starting from `count`: each must be a render attachment, multisampled,
/// not empty, of the pass size, and of the sample count of the first.
pub open spec fn spec_msaa(
    ms: Seq<AttachmentTexture>,
    i: int,
    size: Option<Size2>,
    count: Option<u32>,
) -> Result<Option<u32>, RenderPassBuildError>
    decreases ms.len() - i,
{
    if i < 0 || i >= ms.len() {
        Ok(count)
    } else {
        let t = ms[i];
        let sc = sample_count_value(t.sample_count);
        if !renders(t.usage) {
            Err(RenderPassBuildError::MsaaTextureNotRenderAttachment)
        } else if t.sample_count == SampleCount::SampleCount1 {
            Err(RenderPassBuildError::MsaaTextureNotMultiSampled)
        } else if t.width == 0 || t.height == 0 {
            Err(RenderPassBuildError::MsaaTextureInvalidSize(Size2 { width: 0, height: 0 }))
        } else if size is Some && size->0 != (Size2 { width: t.width, height: t.height }) {
            Err(RenderPassBuildError::MismatchedAttachmentSize(size->0, Size2 { width: t.width, height: t.height }))
        } else if count is Some && count->0 != sc {
            Err(RenderPassBuildError::MismatchedAttachmentSampleCount(count->0, sc))
        } else {
            spec_msaa(ms, i + 1, size, if count is Some { count } else { Some(sc) })
        }
    }
}

/// Formats a depth attachment may have.
pub open spec fn depth_format_ok(f: TextureFormat) -> bool {
    f == TextureFormat::Depth32Float || f == TextureFormat::Depth24PlusStencil8
}

/// The pass size after the depth attachment, or why it cannot be one: it
/// must be a render attachment, not empty, of a depth format, and of the
/// pass size; it sets the size when no color attachment did.
pub open spec fn spec_depth(d: AttachmentTexture, size: Option<Size2>) -> Result<Size2, RenderPassBuildError> {
    if !renders(d.usage) {
        Err(RenderPassBuildError::DepthTextureNotRenderAttachment)
    } else if d.width == 0 || d.height == 0 {
        Err(RenderPassBuildError::DepthTextureInvalidSize(Size2 { width: 0, height: 0 }))
    } else if !depth_format_ok(d.format) {
        Err(RenderPassBuildError::DepthTextureFormatNotSupported(d.format))
    } else if size is Some && size->0 != (Size2 { width: d.width, height: d.height }) {
        Err(RenderPassBuildError::MismatchedAttachmentSize(size->0, Size2 { width: d.width, height: d.height }))
    } else {
        Ok(if size is Some { size->0 } else { Size2 { width: d.width, height: d.height } })
    }
}

/// The outcome of building a render pass from its attachments: the first
/// error of the color, then the multisampled, then the depth attachments,
/// `NoColorOrDepthAttachment` when neither a color nor a depth attachment
/// gave the pass a size, else the pass size, sample count and depth format.
pub open spec fn spec_build_pass(
    cs: Seq<(RenderpassAttachment, Option<TextureBlend>)>,
    ms: Seq<AttachmentTexture>,
    d: Option<AttachmentTexture>,
) -> Result<(Size2, Option<u32>, Option<TextureFormat>), RenderPassBuildError> {
    match spec_colors(cs, 0, None) {
        Err(e) => Err(e),
        Ok(size) => match spec_msaa(ms, 0, size, None) {
            Err(e) => Err(e),
            Ok(count) => match d {
                Some(t) => match spec_depth(t, size) {
                    Err(e) => Err(e),
                    Ok(s) => Ok((s, count, Some(t.format))),
                },
                None => match size {
                    Some(s) => Ok((s, count, None)),
                    None => Err(RenderPassBuildError::NoColorOrDepthAttachment),
                },
            },
        },
    }
}

fn renders_exec(u: TextureUsage) -> (r: bool)
    ensures
        r == renders(u),
{
    u.bits & USAGE_RENDER_ATTACHMENT == USAGE_RENDER_ATTACHMENT
}

fn color_size_exec(a: &RenderpassAttachment) -> (r: Result<Size2, RenderPassBuildError>)
    ensures
        r == color_size(*a),
{
    match a {
        RenderpassAttachment::SurfaceTexture { width, height, .. } => Ok(Size2 { width: *width, height: *height }),
        RenderpassAttachment::Texture(t) => {
            if !renders_exec(t.usage) {
                Err(RenderPassBuildError::ColorAttachmentNotRenderTarget)
            } else if t.width == 0 || t.height == 0 {
                Err(RenderPassBuildError::MismatchedAttachmentSize(Size2 { width: 0, height: 0 }, Size2 { width: t.width, height: t.height }))
            } else if !matches!(t.sample_count, SampleCount::SampleCount1) {
                Err(RenderPassBuildError::ColorAttachmentMultiSampled)
            } else {
                Ok(Size2 { width: t.width, height: t.height })
            }
        },
    }
}

fn sample_count_of(s: SampleCount) -> (r: u32)
    ensures
        r == sample_count_value(s),
{
    s.value()
}

/// Collects the attachments of a render pass and checks them into its
/// targets.
#[derive(Debug, Clone)]
pub struct RenderpassBuilder {
    pub color_attachments: Vec<(RenderpassAttachment, Option<TextureBlend>)>,
    pub msaa_attachments: Vec<AttachmentTexture>,
    pub depth_attachment: Option<AttachmentTexture>,
}

impl RenderpassBuilder {
    pub fn new() -> (r: RenderpassBuilder)
        ensures
            r.color_attachments@.len() == 0,
            r.msaa_attachments@.len() == 0,
            r.depth_attachment is None,
    {
        RenderpassBuilder { color_attachments: Vec::new(), msaa_attachments: Vec::new(), depth_attachment: None }
    }

    /// Adds the swapchain's texture, of the given size and format, as the
    /// next color attachment.
    pub fn add_surface_color_attachment(self, width: u32, height: u32, format: TextureFormat, blend: Option<TextureBlend>) -> (r: RenderpassBuilder)
        ensures
            r.color_attachments@ == self.color_attachments@.push((RenderpassAttachment::SurfaceTexture { width, height, format }, blend)),
            r.msaa_attachments@ == self.msaa_attachments@,
            r.depth_attachment == self.depth_attachment,
    {
        let mut this = self;
        this.color_attachments.push((RenderpassAttachment::SurfaceTexture { width, height, format }, blend));
        this
    }

    /// Adds a texture as the next color attachment.
    pub fn add_color_attachment(self, texture: AttachmentTexture, blend: Option<TextureBlend>) -> (r: RenderpassBuilder)
        ensures
            r.color_attachments@ == self.color_attachments@.push((RenderpassAttachment::Texture(texture), blend)),
            r.msaa_attachments@ == self.msaa_attachments@,
            r.depth_attachment == self.depth_attachment,
    {
        let mut this = self;
        this.color_attachments.push((RenderpassAttachment::Texture(texture), blend));
        this
    }

    /// Adds a multisampled texture.
    pub fn add_msaa_attachment(self, texture: AttachmentTexture) -> (r: RenderpassBuilder)
        ensures
            r.color_attachments@ == self.color_attachments@,
            r.msaa_attachments@ == self.msaa_attachments@.push(texture),
            r.depth_attachment == self.depth_attachment,
    {
        let mut this = self;
        this.msaa_attachments.push(texture);
        this
    }

    /// Sets the depth attachment.
    pub fn set_depth_attachment(self, texture: AttachmentTexture) -> (r: RenderpassBuilder)
        ensures
            r.color_attachments@ == self.color_attachments@,
            r.msaa_attachments@ == self.msaa_attachments@,
            r.depth_attachment == Some(texture),
    {
        let mut this = self;
        this.depth_attachment = Some(texture);
        this
    }

    /// Checks the attachments and gives the pass's targets: the error of
    /// [`spec_build_pass`], or one target per color attachment with its
    /// format and blend, the multisampled textures in the order they were
    /// added, and the size, sample count and depth format.
    pub fn build(self) -> (r: Result<RenderPassTargets, RenderPassBuildError>)
        ensures
            match spec_build_pass(self.color_attachments@, self.msaa_attachments@, self.depth_attachment) {
                Err(e) => r == Err::<RenderPassTargets, RenderPassBuildError>(e),
                Ok((size, count, depth)) => r matches Ok(t) && t.surface_size == size && t.multi_sample_count == count
                    && t.depth_format == depth && t.render_targets@.len() == self.color_attachments@.len()
                    && t.multi_sample_targets@ == self.msaa_attachments@
                    && forall|i: int| 0 <= i < t.render_targets@.len() ==> {
                        &&& (#[trigger] t.render_targets@[i]).format == color_format(self.color_attachments@[i].0)
                        &&& t.render_targets@[i].blend == self.color_attachments@[i].1
                    },
            },
    {
        let cs = &self.color_attachments;
        let mut size: Option<Size2> = None;
        let mut targets: Vec<RenderTarget> = Vec::new();
        let mut i: usize = 0;
        while i < cs.len()
            invariant
                i <= cs.len(),
                cs@ == self.color_attachments@,
                spec_colors(cs@, 0, None) == spec_colors(cs@, i as int, size),
                targets@.len() == i,
                forall|k: int| 0 <= k < i ==> {
                    &&& (#[trigger] targets@[k]).format == color_format(cs@[k].0)
                    &&& targets@[k].blend == cs@[k].1
                },
            decreases cs.len() - i,
        {
            let (a, blend) = cs[i];
            let s = match color_size_exec(&a) {
                Err(e) => return Err(e),
                Ok(s) => s,
            };
            match size {
                Some(z) => {
                    if z.width != s.width || z.height != s.height {
                        return Err(RenderPassBuildError::MismatchedAttachmentSize(z, s));
                    }
                },
                None => {
                    size = Some(s);
                },
            }
            let format = match a {
                RenderpassAttachment::SurfaceTexture { format, .. } => format,
                RenderpassAttachment::Texture(t) => t.format,
            };
            targets.push(RenderTarget { format, blend });
            i += 1;
        }
        let ms = &self.msaa_attachments;
        let mut count: Option<u32> = None;
        let mut j: usize = 0;
        while j < ms.len()
            invariant
                j <= ms.len(),
                ms@ == self.msaa_attachments@,
                spec_colors(self.color_attachments@, 0, None) == Ok::<Option<Size2>, RenderPassBuildError>(size),
                spec_msaa(ms@, 0, size, None) == spec_msaa(ms@, j as int, size, count),
                targets@.len() == self.color_attachments@.len(),
                forall|k: int| 0 <= k < targets@.len() ==> {
                    &&& (#[trigger] targets@[k]).format == color_format(self.color_attachments@[k].0)
                    &&& targets@[k].blend == self.color_attachments@[k].1
                },
            decreases ms.len() - j,
        {
            let t = ms[j];
            let sc = sample_count_of(t.sample_count);
            if !renders_exec(t.usage) {
                return Err(RenderPassBuildError::MsaaTextureNotRenderAttachment);
            }
            if matches!(t.sample_count, SampleCount::SampleCount1) {
                return Err(RenderPassBuildError::MsaaTextureNotMultiSampled);
            }
            if t.width == 0 || t.height == 0 {
                return Err(RenderPassBuildError::MsaaTextureInvalidSize(Size2 { width: 0, height: 0 }));
            }
            if let Some(z) = size {
                if z.width != t.width || z.height != t.height {
                    return Err(RenderPassBuildError::MismatchedAttachmentSize(z, Size2 { width: t.width, height: t.height }));
                }
            }
            match count {
                Some(c) => {
                    if c != sc {
                        return Err(RenderPassBuildError::MismatchedAttachmentSampleCount(c, sc));
                    }
                },
                None => {
                    count = Some(sc);
                },
            }
            j += 1;
        }
        let mut depth_format: Option<TextureFormat> = None;
        if let Some(d) = self.depth_attachment {
            if !renders_exec(d.usage) {
                return Err(RenderPassBuildError::DepthTextureNotRenderAttachment);
            }
            if d.width == 0 || d.height == 0 {
                return Err(RenderPassBuildError::DepthTextureInvalidSize(Size2 { width: 0, height: 0 }));
            }
            if !(matches!(d.format, TextureFormat::Depth32Float) || matches!(d.format, TextureFormat::Depth24PlusStencil8)) {
                return Err(RenderPassBuildError::DepthTextureFormatNotSupported(d.format));
            }
            match size {
                Some(z) => {
                    if z.width != d.width || z.height != d.height {
                        return Err(RenderPassBuildError::MismatchedAttachmentSize(z, Size2 { width: d.width, height: d.height }));
                    }
                },
                None => {
                    size = Some(Size2 { width: d.width, height: d.height });
                },
            }
            depth_format = Some(d.format);
        }
        match size {
            None => Err(RenderPassBuildError::NoColorOrDepthAttachment),
            Some(s) => Ok(RenderPassTargets {
                render_targets: targets,
                multi_sample_targets: self.msaa_attachments,
                multi_sample_count: count,
                depth_format,
                surface_size: s,
            }),
        }
    }
}

// ---------------------------------------------------------------------------
// Render passes
// ---------------------------------------------------------------------------

/// What a render pass draws with: a shader bound directly, or a pipeline
/// built beforehand.
#[derive(Debug, Clone)]
pub enum RenderShaderBinding {
    Intermediate(GraphicsShaderBinding),
    Pipeline(RenderPipelinePlan),
}

/// Formats a depth texture set on a running pass may have.
pub open spec fn pass_depth_format_ok(f: TextureFormat) -> bool {
    f == TextureFormat::Depth32Float || f == TextureFormat::Depth24Plus || f == TextureFormat::Depth24PlusStencil8
}

/// Whether a texture may become the depth target of a pass of the given
/// size: a single-sampled, non-empty render attachment of a depth format
/// and of the pass size.
pub open spec fn depth_texture_ok(t: AttachmentTexture, size: Size2) -> bool {
    &&& renders(t.usage)
    &&& pass_depth_format_ok(t.format)
    &&& t.sample_count == SampleCount::SampleCount1
    &&& t.width != 0 && t.height != 0
    &&& t.width == size.width && t.height == size.height
}

/// What a draw call needs beyond the pass's state: the bind groups to
/// create (none when a pipeline brings its own), the sample count, the depth
/// format and the index format.
#[derive(Debug, Clone)]
pub struct DrawSetup {
    pub bind_groups: Option<BindGroupsPlan>,
    pub msaa_count: u32,
    pub depth_format: Option<TextureFormat>,
    pub index_format: Option<IndexBufferSize>,
}

/// The state of a render pass that draw calls are recorded against.
#[derive(Debug, Clone)]
pub struct RenderPass {
    pub render_targets: Vec<RenderTarget>,
    pub multi_sample_targets: Vec<AttachmentTexture>,
    pub surface_size: Size2,
    pub multi_sample_count: Option<u32>,
    pub depth_format: Option<TextureFormat>,
    pub shader: Option<RenderShaderBinding>,
    pub shader_reflection: Option<Vec<ShaderReflect>>,
    pub attachments: Vec<BindGroupAttachment>,
    pub push_constant: Option<Vec<u8>>,
}

impl RenderPass {
    /// The slots of the attachments are unique.
    pub open spec fn wf(&self) -> bool {
        slots_unique(self.attachments@)
    }

    /// `self` has the targets, sample settings, size and depth format of
    /// `other`.
    pub open spec fn same_targets(&self, other: RenderPass) -> bool {
        &&& self.render_targets@ == other.render_targets@
        &&& self.same_frame(other)
    }

    /// `self` has the multisampled targets, sample count, size and depth
    /// format of `other`.
    pub open spec fn same_frame(&self, other: RenderPass) -> bool {
        &&& self.multi_sample_targets@ == other.multi_sample_targets@
        &&& self.multi_sample_count == other.multi_sample_count
        &&& self.surface_size == other.surface_size
        &&& self.depth_format == other.depth_format
    }

    /// `self` has the shader and reflection bound in `other`.
    pub open spec fn same_binding(&self, other: RenderPass) -> bool {
        &&& self.shader == other.shader
        &&& self.shader_reflection == other.shader_reflection
    }

    /// Whether an attachment may be set now: a shader is bound directly and
    /// declares the attachment's slot with a type that takes it.
    pub open spec fn accepts(&self, a: BindGroupAttachment) -> bool {
        &&& self.shader matches Some(RenderShaderBinding::Intermediate(_))
        &&& self.shader_reflection matches Some(rs) && attachable(rs@, a)
    }

    /// A pass over checked targets, with nothing bound.
    pub fn new(targets: RenderPassTargets) -> (r: RenderPass)
        ensures
            r.wf(),
            r.render_targets@ == targets.render_targets@,
            r.multi_sample_targets@ == targets.multi_sample_targets@,
            r.surface_size == targets.surface_size,
            r.multi_sample_count == targets.multi_sample_count,
            r.depth_format == targets.depth_format,
            r.shader is None,
            r.attachments@.len() == 0,
            r.push_constant is None,
    {
        RenderPass {
            render_targets: targets.render_targets,
            multi_sample_targets: targets.multi_sample_targets,
            surface_size: targets.surface_size,
            multi_sample_count: targets.multi_sample_count,
            depth_format: targets.depth_format,
            shader: None,
            shader_reflection: None,
            attachments: Vec::new(),
            push_constant: None,
        }
    }

    /// Sets the blend of the target at `index`.
    pub fn set_blend(&mut self, index: usize, blend: Option<TextureBlend>)
        requires
            index < old(self).render_targets@.len(),
        ensures
            final(self).same_frame(*old(self)),
            final(self).same_binding(*old(self)),
            final(self).push_constant == old(self).push_constant,
            final(self).render_targets@ == old(self).render_targets@.update(
                index as int, RenderTarget { format: old(self).render_targets@[index as int].format, blend }),
            final(self).attachments@ == old(self).attachments@,
            final(self).shader_reflection == old(self).shader_reflection,
    {
        let format = self.render_targets[index].format;
        self.render_targets.set(index, RenderTarget { format, blend });
    }

    /// The blend of the target at `index`, if there is such a target.
    pub fn get_blend(&self, index: usize) -> (r: Option<Option<TextureBlend>>)
        ensures
            index < self.render_targets@.len() ==> r == Some(self.render_targets@[index as int].blend),
            index >= self.render_targets@.len() ==> r is None,
    {
        if index < self.render_targets.len() {
            Some(self.render_targets[index].blend)
        } else {
            None
        }
    }

    /// Binds a shader with the primitive state of its vertex description.
    pub fn set_shader(&mut self, shader: Option<GraphicsShaderPlan>)
        requires
            shader matches Some(p) ==> has_entry_points(p),
        ensures
            final(self).same_targets(*old(self)),
            final(self).push_constant == old(self).push_constant,
            final(self).attachments@ == old(self).attachments@,
            match shader {
                Some(p) => final(self).shader matches Some(RenderShaderBinding::Intermediate(b))
                    && binds_shader(b, p, None, None, None, None, None)
                    && final(self).shader_reflection is Some && final(self).shader_reflection->0@ == p.reflection@,
                None => final(self).shader is None && final(self).shader_reflection is None,
            },
    {
        self.set_shader_ex(shader, None, None, None, None, None)
    }

    /// Binds a shader with options that win over its vertex description,
    /// or unbinds it.
    pub fn set_shader_ex(
        &mut self,
        shader: Option<GraphicsShaderPlan>,
        topology: Option<ShaderTopology>,
        cull_mode: Option<ShaderCullMode>,
        front_face: Option<ShaderFrontFace>,
        polygon_mode: Option<ShaderPollygonMode>,
        index_format: Option<IndexBufferSize>,
    )
        requires
            shader matches Some(p) ==> has_entry_points(p),
        ensures
            final(self).same_targets(*old(self)),
            final(self).push_constant == old(self).push_constant,
            final(self).attachments@ == old(self).attachments@,
            match shader {
                Some(p) => final(self).shader matches Some(RenderShaderBinding::Intermediate(b))
                    && binds_shader(b, p, topology, cull_mode, front_face, polygon_mode, index_format)
                    && final(self).shader_reflection is Some && final(self).shader_reflection->0@ == p.reflection@,
                None => final(self).shader is None && final(self).shader_reflection is None,
            },
    {
        match shader {
            Some(plan) => {
                let (binding, reflection) = bind_graphics_shader(plan, topology, cull_mode, front_face, polygon_mode, index_format);
                self.shader = Some(RenderShaderBinding::Intermediate(binding));
                self.shader_reflection = Some(reflection);
            },
            None => {
                self.shader = None;
                self.shader_reflection = None;
            },
        }
    }

    /// Draws with a pipeline built beforehand, or with nothing.
    pub fn set_pipeline(&mut self, pipeline: Option<RenderPipelinePlan>)
        ensures
            final(self).same_targets(*old(self)),
            final(self).push_constant == old(self).push_constant,
            final(self).attachments@ == old(self).attachments@,
            final(self).shader_reflection == old(self).shader_reflection,
            match pipeline {
                Some(p) => final(self).shader matches Some(RenderShaderBinding::Pipeline(q)) && q == p,
                None => final(self).shader is None,
            },
    {
        match pipeline {
            Some(p) => {
                self.shader = Some(RenderShaderBinding::Pipeline(p));
            },
            None => {
                self.shader = None;
            },
        }
    }

    /// Checks that an attachment may be set now.
    pub fn can_attach(&self, a: BindGroupAttachment) -> (r: bool)
        ensures
            r == self.accepts(a),
    {
        match (&self.shader, &self.shader_reflection) {
            (Some(RenderShaderBinding::Intermediate(_)), Some(rs)) => check_attachable(rs, a),
            _ => false,
        }
    }

    /// Removes whatever is attached in the slot; a pass drawing with a
    /// pipeline takes its attachments from the pipeline.
    pub fn remove_attachment(&mut self, group: u32, binding: u32)
        requires
            old(self).wf(),
            !(old(self).shader matches Some(RenderShaderBinding::Pipeline(_))),
        ensures
            final(self).same_targets(*old(self)),
            final(self).same_binding(*old(self)),
            final(self).push_constant == old(self).push_constant,
            final(self).wf(),
            final(self).attachments@ == spec_without_slot(old(self).attachments@, group, binding),
            final(self).shader_reflection == old(self).shader_reflection,
    {
        proof {
            lemma_without_slot_slots(self.attachments@, group, binding);
        }
        remove_slot(&mut self.attachments, group, binding);
    }

    /// Attaches a resource in its slot, in place of what was there.
    pub fn insert_or_replace_attachment(&mut self, attachment: BindGroupAttachment)
        requires
            old(self).wf(),
            old(self).accepts(attachment),
        ensures
            final(self).same_targets(*old(self)),
            final(self).same_binding(*old(self)),
            final(self).push_constant == old(self).push_constant,
            final(self).wf(),
            final(self).attachments@ == spec_replace_or_push(old(self).attachments@, attachment),
            final(self).shader_reflection == old(self).shader_reflection,
    {
        proof {
            lemma_replace_or_push_slots(self.attachments@, attachment);
        }
        replace_or_push(&mut self.attachments, attachment);
    }

    fn set_attachment(&mut self, group: u32, binding: u32, resource: Option<BindGroupType>)
        requires
            old(self).wf(),
            resource matches Some(t) ==> old(self).accepts(BindGroupAttachment { group, binding, attachment: t }),
            resource is None ==> !(old(self).shader matches Some(RenderShaderBinding::Pipeline(_))),
        ensures
            final(self).same_targets(*old(self)),
            final(self).same_binding(*old(self)),
            final(self).push_constant == old(self).push_constant,
            final(self).wf(),
            final(self).shader_reflection == old(self).shader_reflection,
            final(self).attachments@ == match resource {
                Some(t) => spec_replace_or_push(old(self).attachments@, BindGroupAttachment { group, binding, attachment: t }),
                None => spec_without_slot(old(self).attachments@, group, binding),
            },
    {
        match resource {
            Some(t) => self.insert_or_replace_attachment(BindGroupAttachment { group, binding, attachment: t }),
            None => self.remove_attachment(group, binding),
        }
    }

    /// Attaches the sampler `sampler` in the slot, or empties it.
    pub fn set_attachment_sampler(&mut self, group: u32, binding: u32, sampler: Option<u64>)
        requires
            old(self).wf(),
            sampler matches Some(h) ==> old(self).accepts(BindGroupAttachment { group, binding, attachment: BindGroupType::Sampler(h) }),
            sampler is None ==> !(old(self).shader matches Some(RenderShaderBinding::Pipeline(_))),
        ensures
            final(self).same_targets(*old(self)),
            final(self).same_binding(*old(self)),
            final(self).push_constant == old(self).push_constant,
            final(self).wf(),
            final(self).attachments@ == match sampler {
                Some(h) => spec_replace_or_push(old(self).attachments@, BindGroupAttachment { group, binding, attachment: BindGroupType::Sampler(h) }),
                None => spec_without_slot(old(self).attachments@, group, binding),
            },
    {
        let t = match sampler { Some(h) => Some(BindGroupType::Sampler(h)), None => None };
        self.set_attachment(group, binding, t)
    }

    /// Attaches the texture `texture` in the slot, or empties it.
    pub fn set_attachment_texture(&mut self, group: u32, binding: u32, texture: Option<u64>)
        requires
            old(self).wf(),
            texture matches Some(h) ==> old(self).accepts(BindGroupAttachment { group, binding, attachment: BindGroupType::Texture(h) }),
            texture is None ==> !(old(self).shader matches Some(RenderShaderBinding::Pipeline(_))),
        ensures
            final(self).same_targets(*old(self)),
            final(self).same_binding(*old(self)),
            final(self).push_constant == old(self).push_constant,
            final(self).wf(),
            final(self).attachments@ == match texture {
                Some(h) => spec_replace_or_push(old(self).attachments@, BindGroupAttachment { group, binding, attachment: BindGroupType::Texture(h) }),
                None => spec_without_slot(old(self).attachments@, group, binding),
            },
    {
        let t = match texture { Some(h) => Some(BindGroupType::Texture(h)), None => None };
        self.set_attachment(group, binding, t)
    }

    /// Attaches the storage texture `texture` in the slot, or empties it.
    pub fn set_attachment_texture_storage(&mut self, group: u32, binding: u32, texture: Option<u64>)
        requires
            old(self).wf(),
            texture matches Some(h) ==> old(self).accepts(BindGroupAttachment { group, binding, attachment: BindGroupType::TextureStorage(h) }),
            texture is None ==> !(old(self).shader matches Some(RenderShaderBinding::Pipeline(_))),
        ensures
            final(self).same_targets(*old(self)),
            final(self).same_binding(*old(self)),
            final(self).push_constant == old(self).push_constant,
            final(self).wf(),
            final(self).attachments@ == match texture {
                Some(h) => spec_replace_or_push(old(self).attachments@, BindGroupAttachment { group, binding, attachment: BindGroupType::TextureStorage(h) }),
                None => spec_without_slot(old(self).attachments@, group, binding),
            },
    {
        let t = match texture { Some(h) => Some(BindGroupType::TextureStorage(h)), None => None };
        self.set_attachment(group, binding, t)
    }

    /// Attaches the uniform buffer `buffer` in the slot, or empties it.
    pub fn set_attachment_uniform(&mut self, group: u32, binding: u32, buffer: Option<u64>)
        requires
            old(self).wf(),
            buffer matches Some(h) ==> old(self).accepts(BindGroupAttachment { group, binding, attachment: BindGroupType::Uniform(h) }),
            buffer is None ==> !(old(self).shader matches Some(RenderShaderBinding::Pipeline(_))),
        ensures
            final(self).same_targets(*old(self)),
            final(self).same_binding(*old(self)),
            final(self).push_constant == old(self).push_constant,
            final(self).wf(),
            final(self).attachments@ == match buffer {
                Some(h) => spec_replace_or_push(old(self).attachments@, BindGroupAttachment { group, binding, attachment: BindGroupType::Uniform(h) }),
                None => spec_without_slot(old(self).attachments@, group, binding),
            },
    {
        let t = match buffer { Some(h) => Some(BindGroupType::Uniform(h)), None => None };
        self.set_attachment(group, binding, t)
    }

    /// Attaches the storage buffer `buffer` in the slot, or empties it.
    pub fn set_attachment_storage(&mut self, group: u32, binding: u32, buffer: Option<u64>)
        requires
            old(self).wf(),
            buffer matches Some(h) ==> old(self).accepts(BindGroupAttachment { group, binding, attachment: BindGroupType::Storage(h) }),
            buffer is None ==> !(old(self).shader matches Some(RenderShaderBinding::Pipeline(_))),
        ensures
            final(self).same_targets(*old(self)),
            final(self).same_binding(*old(self)),
            final(self).push_constant == old(self).push_constant,
            final(self).wf(),
            final(self).attachments@ == match buffer {
                Some(h) => spec_replace_or_push(old(self).attachments@, BindGroupAttachment { group, binding, attachment: BindGroupType::Storage(h) }),
                None => spec_without_slot(old(self).attachments@, group, binding),
            },
    {
        let t = match buffer { Some(h) => Some(BindGroupType::Storage(h)), None => None };
        self.set_attachment(group, binding, t)
    }

    /// Whether push constant data may be set now: a shader is bound and the
    /// data fits in the push constant its reflections declare.
    pub open spec fn push_constants_fit(&self, data: Seq<u8>) -> bool {
        &&& self.shader is Some
        &&& self.shader_reflection matches Some(rs) && data.len() <= spec_push_constant_size(rs@)
    }

    /// Sets the push constant data, padded with zero bytes to a multiple of
    /// 4 bytes, or clears it.
    pub fn set_push_constants(&mut self, data: Option<&[u8]>)
        requires
            data matches Some(d) ==> old(self).push_constants_fit(d@),
        ensures
            final(self).same_targets(*old(self)),
            final(self).same_binding(*old(self)),
            final(self).attachments@ == old(self).attachments@,
            match data {
                Some(d) => final(self).push_constant matches Some(p) && p@ == spec_pad_push_constants(d@),
                None => final(self).push_constant is None,
            },
    {
        match data {
            Some(d) => {
                let padded = pad_push_constants(d);
                self.push_constant = Some(padded);
            },
            None => {
                self.push_constant = None;
            },
        }
    }

    /// Adds a multisampled target of the given sample count; the first one
    /// sets the pass's sample count, which the others must have.
    pub fn push_msaa_texture(&mut self, sample_count: SampleCount)
        requires
            old(self).multi_sample_count matches Some(c) ==> c == sample_count_value(sample_count),
        ensures
            final(self).same_binding(*old(self)),
            final(self).push_constant == old(self).push_constant,
            final(self).multi_sample_targets@ == old(self).multi_sample_targets@,
            final(self).surface_size == old(self).surface_size,
            final(self).depth_format == old(self).depth_format,
            final(self).multi_sample_count == Some(sample_count_value(sample_count)),
            final(self).attachments@ == old(self).attachments@,
            final(self).render_targets@ == old(self).render_targets@,
    {
        if self.multi_sample_count.is_none() {
            self.multi_sample_count = Some(sample_count_of(sample_count));
        }
    }

    /// Checks a texture for the pass's depth target.
    pub fn check_depth_texture(&self, texture: AttachmentTexture) -> (r: bool)
        ensures
            r == depth_texture_ok(texture, self.surface_size),
    {
        renders_exec(texture.usage)
            && (matches!(texture.format, TextureFormat::Depth32Float)
                || matches!(texture.format, TextureFormat::Depth24Plus)
                || matches!(texture.format, TextureFormat::Depth24PlusStencil8))
            && matches!(texture.sample_count, SampleCount::SampleCount1)
            && texture.width != 0 && texture.height != 0
            && texture.width == self.surface_size.width && texture.height == self.surface_size.height
    }

    /// Sets the depth target, or removes it.
    pub fn set_depth_texture(&mut self, texture: Option<AttachmentTexture>)
        requires
            texture matches Some(t) ==> depth_texture_ok(t, old(self).surface_size),
        ensures
            final(self).same_binding(*old(self)),
            final(self).push_constant == old(self).push_constant,
            final(self).multi_sample_targets@ == old(self).multi_sample_targets@,
            final(self).multi_sample_count == old(self).multi_sample_count,
            final(self).surface_size == old(self).surface_size,
            final(self).depth_format == (match texture { Some(t) => Some(t.format), None => None }),
            final(self).attachments@ == old(self).attachments@,
            final(self).render_targets@ == old(self).render_targets@,
    {
        self.depth_format = match texture {
            Some(t) => Some(t.format),
            None => None,
        };
    }

    /// Whether a draw may be prepared: a shader is bound, the groups of a
    /// directly bound shader's attachments have layouts, and a draw with an
    /// index buffer has an index format.
    pub open spec fn drawable(&self, use_index_buffer: bool) -> bool {
        match self.shader {
            Some(RenderShaderBinding::Intermediate(b)) => layouts_cover(b.layout@, self.attachments@)
                && (use_index_buffer ==> b.index_format is Some),
            Some(RenderShaderBinding::Pipeline(p)) => use_index_buffer ==> p.index_format is Some,
            None => false,
        }
    }

    /// What a draw needs: for a directly bound shader the pass's attachments
    /// sorted into bind groups with their layouts, for a pipeline none (it
    /// brings its own); the pass's sample count (1 without multisampling),
    /// its depth format, and the shader's or pipeline's index format.
    pub fn prepare_pipeline(&self, use_index_buffer: bool) -> (r: DrawSetup)
        requires
            self.wf(),
            self.drawable(use_index_buffer),
        ensures
            r.msaa_count == (match self.multi_sample_count { Some(c) => c, None => 1 }),
            r.depth_format == self.depth_format,
            match self.shader {
                Some(RenderShaderBinding::Intermediate(b)) => r.bind_groups matches Some(p)
                    && plans_bind_groups(p, b.layout@, self.attachments@) && r.index_format == b.index_format,
                Some(RenderShaderBinding::Pipeline(p)) => r.bind_groups is None && r.index_format == p.index_format,
                None => false,
            },
            use_index_buffer ==> r.index_format is Some,
    {
        let msaa_count = match self.multi_sample_count { Some(c) => c, None => 1 };
        match &self.shader {
            Some(RenderShaderBinding::Intermediate(b)) => {
                let groups = plan_bind_groups(&self.attachments, &b.layout);
                DrawSetup { bind_groups: Some(groups), msaa_count, depth_format: self.depth_format, index_format: b.index_format }
            },
            Some(RenderShaderBinding::Pipeline(p)) => {
                DrawSetup { bind_groups: None, msaa_count, depth_format: self.depth_format, index_format: p.index_format }
            },
            None => {
                DrawSetup { bind_groups: None, msaa_count, depth_format: self.depth_format, index_format: None }
            },
        }
    }
}

/// The texture a color attachment of a pass draws into: target `i` itself,
/// or the multisampled texture `i`, which is then resolved into target `i`.
#[derive(Debug, Clone, Copy, PartialEq, Eq, Structural)]
pub enum ColorView {
    Target(usize),
    MultiSampled(usize),
}

impl RenderPass {
    /// The color attachments of the pass, one per target in order: with
    /// multisampling each draws into the multisampled texture of its index
    /// and resolves into its target, else it draws into its target.
    pub fn color_attachments(&self) -> (r: Vec<(ColorView, Option<usize>)>)
        requires
            self.multi_sample_count is Some ==> self.multi_sample_targets@.len() == self.render_targets@.len(),
        ensures
            r@.len() == self.render_targets@.len(),
            forall|i: int| 0 <= i < r@.len() ==> #[trigger] r@[i] == if self.multi_sample_count is Some {
                (ColorView::MultiSampled(i as usize), Some(i as usize))
            } else {
                (ColorView::Target(i as usize), None)
            },
    {
        let n = self.render_targets.len();
        let msaa = self.multi_sample_count.is_some();
        let mut r: Vec<(ColorView, Option<usize>)> = Vec::new();
        let mut i: usize = 0;
        while i < n
            invariant
                i <= n,
                n == self.render_targets@.len(),
                msaa == self.multi_sample_count is Some,
                r@.len() == i,
                forall|j: int| 0 <= j < i ==> #[trigger] r@[j] == if msaa {
                    (ColorView::MultiSampled(j as usize), Some(j as usize))
                } else {
                    (ColorView::Target(j as usize), None)
                },
            decreases n - i,
        {
            if msaa {
                r.push((ColorView::MultiSampled(i), Some(i)));
            } else {
                r.push((ColorView::Target(i), None));
            }
            i = i + 1;
        }
        r
    }
}

// ---------------------------------------------------------------------------
// Cached pipelines and bind groups
// ---------------------------------------------------------------------------

/// The hash, by `std`'s `DefaultHasher` with its fixed keys, of the
/// attachments of a pass.
pub uninterp spec fn attachments_hash(attachments: Seq<BindGroupAttachment>) -> u64;

/// The hash, by `std`'s `DefaultHasher` with its fixed keys, of what a
/// render pipeline is made from: the shader, the pipeline's own target
/// where it brings one, the pass's targets, depth format and sample count.
pub uninterp spec fn pipeline_hash(
    shader: GraphicsShaderBinding,
    own_target: Option<RenderTarget>,
    targets: Seq<RenderTarget>,
    depth: Option<TextureFormat>,
    msaa: u32,
) -> u64;

/// Hashes the attachments with `std::hash::BuildHasher::hash_one` over
/// `DefaultHasher`, whose keys are fixed, so that the same arguments hash
/// alike within a program (which value they hash to is left unsaid): the
/// result is the name [`attachments_hash`] of the attachments.
#[verifier::external_body]
fn hash_attachments(attachments: &Vec<BindGroupAttachment>) -> (r: u64)
    ensures
        r == attachments_hash(attachments@),
{
    std::hash::BuildHasher::hash_one(&std::hash::BuildHasherDefault::<std::hash::DefaultHasher>::default(), attachments.as_slice())
}

/// Hashes what a render pipeline is made from with
/// `std::hash::BuildHasher::hash_one` over `DefaultHasher`, whose keys are
/// fixed, so that the same arguments hash alike within a program (which
/// value they hash to is left unsaid): the result is the name
/// [`pipeline_hash`] of the arguments.
#[verifier::external_body]
fn hash_pipeline(
    shader: &GraphicsShaderBinding,
    own_target: Option<RenderTarget>,
    targets: &Vec<RenderTarget>,
    depth: Option<TextureFormat>,
    msaa: u32,
) -> (r: u64)
    ensures
        r == pipeline_hash(*shader, own_target, targets@, depth, msaa),
{
    std::hash::BuildHasher::hash_one(
        &std::hash::BuildHasherDefault::<std::hash::DefaultHasher>::default(),
        (shader, own_target, targets.as_slice(), depth, msaa),
    )
}

/// What a lookup in a cache of GPU objects found: the handle of the object
/// cached under the key, or nothing, in which case the object is to be made
/// and cached under that key.
#[derive(Debug, Clone, Copy, PartialEq, Eq, Structural)]
pub enum CacheLookup {
    Hit(u64),
    Miss,
}

/// What a lookup under `key` finds in a cache with contents `m`.
pub open spec fn spec_lookup(m: Map<usize, (u64, usize)>, key: usize) -> CacheLookup {
    if m.contains_key(key) {
        CacheLookup::Hit(m[key].0)
    } else {
        CacheLookup::Miss
    }
}

/// The contents of a cache after a lookup under `key`: a found object is
/// used again, so it is new; nothing else changes.
pub open spec fn spec_after_lookup(m: Map<usize, (u64, usize)>, key: usize) -> Map<usize, (u64, usize)> {
    if m.contains_key(key) {
        m.insert(key, (m[key].0, 0usize))
    } else {
        m
    }
}

/// Looks `key` up in a cache of GPU objects, using the object found again.
pub fn lookup_cached(cache: &mut LifetimeCache<u64>, key: usize) -> (r: CacheLookup)
    requires
        old(cache).wf(),
    ensures
        final(cache).wf(),
        final(cache).spec_limit() == old(cache).spec_limit(),
        r == spec_lookup(old(cache).view(), key),
        final(cache).view() == spec_after_lookup(old(cache).view(), key),
{
    if cache.touch(key) {
        match cache.value(key) {
            Some(h) => CacheLookup::Hit(*h),
            None => CacheLookup::Miss,
        }
    } else {
        CacheLookup::Miss
    }
}

/// The contents of a cache once what a lookup under `key` found wanting is
/// made and cached as `made`: a miss caches it, new; a hit changes nothing.
pub open spec fn spec_recorded(m: Map<usize, (u64, usize)>, key: usize, found: CacheLookup, made: u64) -> Map<usize, (u64, usize)> {
    match found {
        CacheLookup::Miss => m.insert(key, (made, 0usize)),
        CacheLookup::Hit(_) => m,
    }
}

/// Caches `made`, the object made for a lookup under `key` that missed; a
/// lookup that hit leaves the cache as it is.
pub fn record_made(cache: &mut LifetimeCache<u64>, key: usize, found: CacheLookup, made: u64)
    requires
        old(cache).wf(),
    ensures
        final(cache).wf(),
        final(cache).spec_limit() == old(cache).spec_limit(),
        final(cache).view() == spec_recorded(old(cache).view(), key, found, made),
{
    match found {
        CacheLookup::Miss => cache.insert(key, made),
        CacheLookup::Hit(_) => {},
    }
}

/// A lookup, then the caching of what it found wanting, then a second
/// lookup under the same key: the second finds what the first found, or
/// what was made, and changes nothing more.
pub proof fn lemma_lookup_reuses(m: Map<usize, (u64, usize)>, key: usize, made: u64)
    ensures
        ({
            let first = spec_lookup(m, key);
            let m1 = spec_recorded(spec_after_lookup(m, key), key, first, made);
            let h = match first {
                CacheLookup::Hit(h) => h,
                CacheLookup::Miss => made,
            };
            &&& spec_lookup(m1, key) == CacheLookup::Hit(h)
            &&& spec_after_lookup(m1, key) == m1
        }),
{
    let m1 = spec_recorded(spec_after_lookup(m, key), key, spec_lookup(m, key), made);
    assert(spec_after_lookup(m1, key) =~= m1);
}

/// Two draws of an unchanged pass, with the objects the first found
/// wanting made and cached in between, use the same pipeline and bind
/// groups: the second finds in the caches what the first found or made,
/// under the same keys, and makes nothing.
pub proof fn lemma_draws_reuse_objects(
    pass: RenderPass,
    pipelines: Map<usize, (u64, usize)>,
    bind_groups: Map<usize, (u64, usize)>,
    made_pipeline: u64,
    made_bind_group: u64,
)
    ensures
        ({
            let pk = pass.pipeline_key();
            let bk = attachments_hash(pass.attachments@) as usize;
            let p1 = spec_recorded(spec_after_lookup(pipelines, pk), pk, spec_lookup(pipelines, pk), made_pipeline);
            let b1 = spec_recorded(spec_after_lookup(bind_groups, bk), bk, spec_lookup(bind_groups, bk), made_bind_group);
            &&& spec_lookup(p1, pk) is Hit
            &&& spec_lookup(p1, pk) == CacheLookup::Hit(match spec_lookup(pipelines, pk) {
                CacheLookup::Hit(h) => h,
                CacheLookup::Miss => made_pipeline,
            })
            &&& spec_after_lookup(p1, pk) == p1
            &&& spec_lookup(b1, bk) == CacheLookup::Hit(match spec_lookup(bind_groups, bk) {
                CacheLookup::Hit(h) => h,
                CacheLookup::Miss => made_bind_group,
            })
            &&& spec_after_lookup(b1, bk) == b1
        }),
{
    lemma_lookup_reuses(pipelines, pass.pipeline_key(), made_pipeline);
    lemma_lookup_reuses(bind_groups, attachments_hash(pass.attachments@) as usize, made_bind_group);
}

/// What a draw uses, with the caches consulted: the setup of
/// [`RenderPass::prepare_pipeline`], and for the bind groups (of a shader
/// bound directly) and the pipeline the key and what the cache found.
#[derive(Debug, Clone)]
pub struct CachedDraw {
    pub setup: DrawSetup,
    pub bind_group_key: Option<usize>,
    pub bind_group: Option<CacheLookup>,
    pub pipeline_key: usize,
    pub pipeline: CacheLookup,
}

impl RenderPass {
    /// The key of the pipeline that draws of this pass use: the hash of
    /// the shader (the pipeline's, with its own target, for a pipeline),
    /// the targets, the depth format and the sample count (1 without
    /// multisampling).
    pub open spec fn pipeline_key(&self) -> usize {
        let msaa: u32 = match self.multi_sample_count { Some(c) => c, None => 1 };
        match self.shader {
            Some(RenderShaderBinding::Intermediate(b)) => pipeline_hash(b, None, self.render_targets@, self.depth_format, msaa) as usize,
            Some(RenderShaderBinding::Pipeline(p)) => pipeline_hash(
                p.shader,
                Some(RenderTarget { format: p.render_target, blend: p.blend }),
                self.render_targets@,
                self.depth_format,
                msaa,
            ) as usize,
            None => 0,
        }
    }

    /// Prepares a draw as [`RenderPass::prepare_pipeline`] does and looks
    /// up its GPU objects: the bind groups of a directly bound shader under
    /// the hash of the pass's attachments, and the pipeline under
    /// [`RenderPass::pipeline_key`]. Objects found are used again; for
    /// those not found the caller makes and caches them.
    pub fn prepare_pipeline_cached(
        &self,
        use_index_buffer: bool,
        bind_groups: &mut LifetimeCache<u64>,
        pipelines: &mut LifetimeCache<u64>,
    ) -> (r: CachedDraw)
        requires
            self.wf(),
            self.drawable(use_index_buffer),
            old(bind_groups).wf(),
            old(pipelines).wf(),
        ensures
            final(bind_groups).wf(),
            final(pipelines).wf(),
            final(bind_groups).spec_limit() == old(bind_groups).spec_limit(),
            final(pipelines).spec_limit() == old(pipelines).spec_limit(),
            r.setup.msaa_count == (match self.multi_sample_count { Some(c) => c, None => 1 }),
            r.setup.depth_format == self.depth_format,
            use_index_buffer ==> r.setup.index_format is Some,
            r.pipeline_key == self.pipeline_key(),
            r.pipeline == spec_lookup(old(pipelines).view(), self.pipeline_key()),
            final(pipelines).view() == spec_after_lookup(old(pipelines).view(), self.pipeline_key()),
            match self.shader {
                Some(RenderShaderBinding::Intermediate(b)) => {
                    let key = attachments_hash(self.attachments@) as usize;
                    &&& r.setup.bind_groups matches Some(p) && plans_bind_groups(p, b.layout@, self.attachments@)
                    &&& r.setup.index_format == b.index_format
                    &&& r.bind_group_key == Some(key)
                    &&& r.bind_group == Some(spec_lookup(old(bind_groups).view(), key))
                    &&& final(bind_groups).view() == spec_after_lookup(old(bind_groups).view(), key)
                },
                Some(RenderShaderBinding::Pipeline(p)) => {
                    &&& r.setup.bind_groups is None
                    &&& r.setup.index_format == p.index_format
                    &&& r.bind_group_key is None
                    &&& r.bind_group is None
                    &&& final(bind_groups).view() == old(bind_groups).view()
                },
                None => false,
            },
    {
        let setup = self.prepare_pipeline(use_index_buffer);
        let msaa: u32 = match self.multi_sample_count { Some(c) => c, None => 1 };
        match &self.shader {
            Some(RenderShaderBinding::Intermediate(b)) => {
                let bkey = hash_attachments(&self.attachments) as usize;
                let bind_group = lookup_cached(bind_groups, bkey);
                let pkey = hash_pipeline(b, None, &self.render_targets, self.depth_format, msaa) as usize;
                let pipeline = lookup_cached(pipelines, pkey);
                CachedDraw { setup, bind_group_key: Some(bkey), bind_group: Some(bind_group), pipeline_key: pkey, pipeline }
            },
            Some(RenderShaderBinding::Pipeline(p)) => {
                let own = RenderTarget { format: p.render_target, blend: p.blend };
                let pkey = hash_pipeline(&p.shader, Some(own), &self.render_targets, self.depth_format, msaa) as usize;
                let pipeline = lookup_cached(pipelines, pkey);
                CachedDraw { setup, bind_group_key: None, bind_group: None, pipeline_key: pkey, pipeline }
            },
            None => {
                let pipeline = lookup_cached(pipelines, 0);
                CachedDraw { setup, bind_group_key: None, bind_group: None, pipeline_key: 0, pipeline }
            },
        }
    }
}

// ---------------------------------------------------------------------------
// Compute passes
// ---------------------------------------------------------------------------

/// The state of a compute pass that dispatches are recorded against.
#[derive(Debug, Clone)]
pub struct ComputePass {
    pub shader: Option<ComputeShaderBinding>,
    pub reflection: Option<ShaderReflect>,
    pub attachments: Vec<BindGroupAttachment>,
    pub push_constant: Option<Vec<u8>>,
}

impl ComputePass {
    /// The slots of the attachments are unique.
    pub open spec fn wf(&self) -> bool {
        slots_unique(self.attachments@)
    }

    pub fn new() -> (r: ComputePass)
        ensures
            r.wf(),
            r.shader is None,
            r.attachments@.len() == 0,
            r.push_constant is None,
    {
        ComputePass { shader: None, reflection: None, attachments: Vec::new(), push_constant: None }
    }

    /// Binds a compute shader, from its reflection and layouts, or unbinds
    /// it. The shader's entry point may not be empty.
    pub fn set_shader(&mut self, shader: Option<(ShaderReflect, Vec<GroupLayout>)>)
        requires
            shader matches Some(s) ==> (s.0 matches ShaderReflect::Compute { entry_point, .. } && entry_point@.len() > 0),
        ensures
            final(self).attachments@ == old(self).attachments@,
            final(self).push_constant == old(self).push_constant,
            match shader {
                Some(s) => final(self).shader matches Some(b) && final(self).reflection == Some(s.0) && b.layout@ == s.1@
                    && (s.0 matches ShaderReflect::Compute { entry_point, .. } && b.entry_point@ == entry_point@),
                None => final(self).shader is None && final(self).reflection is None,
            },
    {
        match shader {
            Some((reflect, layout)) => {
                let entry_point = match &reflect {
                    ShaderReflect::Compute { entry_point, .. } => entry_point.clone(),
                    _ => String::new(),
                };
                self.shader = Some(ComputeShaderBinding { entry_point, layout });
                self.reflection = Some(reflect);
            },
            None => {
                self.shader = None;
                self.reflection = None;
            },
        }
    }

    /// Whether push constant data may be set now: a shader is bound that
    /// declares a push constant, and the padded data fits in it.
    pub open spec fn push_constants_fit(&self, data: Seq<u8>) -> bool {
        &&& self.shader is Some
        &&& self.reflection matches Some(r) && {
            let size = spec_first_push_constant(compute_bindings(r));
            size matches Some(n) && n > 0 && spec_pad_push_constants(data).len() <= n
        }
    }

    /// Sets the push constant data, padded with zero bytes to a multiple of
    /// 4 bytes, or clears it.
    pub fn set_push_constants(&mut self, data: Option<&[u8]>)
        requires
            data matches Some(d) ==> old(self).push_constants_fit(d@),
        ensures
            final(self).shader == old(self).shader,
            final(self).reflection == old(self).reflection,
            final(self).attachments@ == old(self).attachments@,
            match data {
                Some(d) => final(self).push_constant matches Some(p) && p@ == spec_pad_push_constants(d@),
                None => final(self).push_constant is None,
            },
    {
        match data {
            Some(d) => {
                let padded = pad_push_constants(d);
                self.push_constant = Some(padded);
            },
            None => {
                self.push_constant = None;
            },
        }
    }

    /// Removes whatever is attached in the slot.
    pub fn remove_attachment(&mut self, group: u32, binding: u32)
        requires
            old(self).wf(),
        ensures
            final(self).shader == old(self).shader,
            final(self).reflection == old(self).reflection,
            final(self).push_constant == old(self).push_constant,
            final(self).wf(),
            final(self).attachments@ == spec_without_slot(old(self).attachments@, group, binding),
    {
        proof {
            lemma_without_slot_slots(self.attachments@, group, binding);
        }
        remove_slot(&mut self.attachments, group, binding);
    }

    /// Attaches a resource in its slot, in place of what was there.
    pub fn insert_or_replace_attachment(&mut self, attachment: BindGroupAttachment)
        requires
            old(self).wf(),
        ensures
            final(self).shader == old(self).shader,
            final(self).reflection == old(self).reflection,
            final(self).push_constant == old(self).push_constant,
            final(self).wf(),
            final(self).attachments@ == spec_replace_or_push(old(self).attachments@, attachment),
    {
        proof {
            lemma_replace_or_push_slots(self.attachments@, attachment);
        }
        replace_or_push(&mut self.attachments, attachment);
    }

    /// Attaches the storage buffer `buffer` in the slot, or empties it.
    pub fn set_attachment_buffer(&mut self, group: u32, binding: u32, buffer: Option<u64>)
        requires
            old(self).wf(),
        ensures
            final(self).shader == old(self).shader,
            final(self).reflection == old(self).reflection,
            final(self).push_constant == old(self).push_constant,
            final(self).wf(),
            final(self).attachments@ == match buffer {
                Some(h) => spec_replace_or_push(old(self).attachments@, BindGroupAttachment { group, binding, attachment: BindGroupType::Storage(h) }),
                None => spec_without_slot(old(self).attachments@, group, binding),
            },
    {
        match buffer {
            Some(h) => self.insert_or_replace_attachment(BindGroupAttachment { group, binding, attachment: BindGroupType::Storage(h) }),
            None => self.remove_attachment(group, binding),
        }
    }

    /// The bind groups a dispatch creates: the pass's attachments sorted
    /// into groups with the shader's layouts.
    pub fn prepare_pipeline(&self) -> (r: BindGroupsPlan)
        requires
            self.wf(),
            self.shader matches Some(b) && layouts_cover(b.layout@, self.attachments@),
        ensures
            plans_bind_groups(r, self.shader->0.layout@, self.attachments@),
    {
        let b = self.shader.as_ref().unwrap();
        plan_bind_groups(&self.attachments, &b.layout)
    }
}

} // verus!
