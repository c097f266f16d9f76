//! The GPU context: adapters and how one is picked, device limits and
//! features, the GPU builder, and the decisions about the window surface.
use vstd::prelude::*;

verus! {

/// The graphics API of an adapter.
#[derive(Debug, Clone, Copy, PartialEq, Eq, Hash, Structural)]
pub enum AdapterBackend {
    NoBackend,
    Vulkan,
    Metal,
    Dx12,
    Gl,
    BrowserWebGpu,
}

/// How to wait for the GPU.
#[derive(Debug, Clone, Copy, PartialEq, Eq, Hash, Structural)]
pub enum GPUWaitType {
    Wait,
    Poll,
}

/// The backend an adapter reports, as the GPU API names them.
#[derive(Debug, Clone, Copy, PartialEq, Eq, Hash, Structural)]
pub enum BackendKind {
    Noop,
    Vulkan,
    Metal,
    Dx12,
    Gl,
    BrowserWebGpu,
}

/// What the GPU API reports of an adapter.
#[derive(Debug, Clone, PartialEq, Eq)]
pub struct AdapterInfo {
    pub name: String,
    pub vendor: u32,
    pub backend: BackendKind,
    pub is_discrete: bool,
}

/// A GPU adapter as the library describes it.
#[derive(Debug, Clone, PartialEq, Eq)]
pub struct GPUAdapter {
    pub name: String,
    pub vendor: String,
    pub vendor_id: u32,
    pub backend: String,
    pub backend_enum: AdapterBackend,
    pub is_high_performance: bool,
}

/// The vendor a PCI vendor id names.
pub open spec fn vendor_name(id: u32) -> Seq<char> {
    if id == 0x1002 {
        "AMD"@
    } else if id == 0x10DE {
        "NVIDIA"@
    } else if id == 0x8086 {
        "Intel"@
    } else if id == 0x13B5 {
        "ARM"@
    } else {
        "Unknown"@
    }
}

/// The display name of a backend.
pub open spec fn backend_name(b: BackendKind) -> Seq<char> {
    match b {
        BackendKind::Vulkan => "Vulkan"@,
        BackendKind::Metal => "Metal"@,
        BackendKind::Dx12 => "DirectX 12"@,
        BackendKind::Gl => "OpenGL"@,
        BackendKind::BrowserWebGpu => "WebGPU"@,
        BackendKind::Noop => "Unknown"@,
    }
}

/// The library's backend for a reported one.
pub open spec fn backend_of(b: BackendKind) -> AdapterBackend {
    match b {
        BackendKind::Vulkan => AdapterBackend::Vulkan,
        BackendKind::Metal => AdapterBackend::Metal,
        BackendKind::Dx12 => AdapterBackend::Dx12,
        BackendKind::Gl => AdapterBackend::Gl,
        BackendKind::BrowserWebGpu => AdapterBackend::BrowserWebGpu,
        BackendKind::Noop => AdapterBackend::NoBackend,
    }
}

/// The reported backend that a library backend asks for.
pub open spec fn desired_backend(b: AdapterBackend) -> BackendKind {
    match b {
        AdapterBackend::Vulkan => BackendKind::Vulkan,
        AdapterBackend::Metal => BackendKind::Metal,
        AdapterBackend::Dx12 => BackendKind::Dx12,
        AdapterBackend::Gl => BackendKind::Gl,
        AdapterBackend::BrowserWebGpu => BackendKind::BrowserWebGpu,
        AdapterBackend::NoBackend => BackendKind::Noop,
    }
}

fn vendor_str(id: u32) -> (r: &'static str)
    ensures
        r@ == vendor_name(id),
{
    if id == 0x1002 {
        "AMD"
    } else if id == 0x10DE {
        "NVIDIA"
    } else if id == 0x8086 {
        "Intel"
    } else if id == 0x13B5 {
        "ARM"
    } else {
        "Unknown"
    }
}

fn backend_str(b: BackendKind) -> (r: &'static str)
    ensures
        r@ == backend_name(b),
{
    match b {
        BackendKind::Vulkan => "Vulkan",
        BackendKind::Metal => "Metal",
        BackendKind::Dx12 => "DirectX 12",
        BackendKind::Gl => "OpenGL",
        BackendKind::BrowserWebGpu => "WebGPU",
        BackendKind::Noop => "Unknown",
    }
}

/// Whether `a` describes the adapter `info`: its name and vendor id, the
/// vendor's name, the backend's name and kind, and whether it is a discrete
/// GPU.
pub open spec fn describes(a: GPUAdapter, info: AdapterInfo) -> bool {
    &&& a.name@ == info.name@
    &&& a.vendor@ == vendor_name(info.vendor)
    &&& a.vendor_id == info.vendor
    &&& a.backend@ == backend_name(info.backend)
    &&& a.backend_enum == backend_of(info.backend)
    &&& a.is_high_performance == info.is_discrete
}

/// The library's description of a reported adapter.
pub fn describe_adapter(info: &AdapterInfo) -> (r: GPUAdapter)
    ensures
        describes(r, *info),
{
    let backend_enum = match info.backend {
        BackendKind::Vulkan => AdapterBackend::Vulkan,
        BackendKind::Metal => AdapterBackend::Metal,
        BackendKind::Dx12 => AdapterBackend::Dx12,
        BackendKind::Gl => AdapterBackend::Gl,
        BackendKind::BrowserWebGpu => AdapterBackend::BrowserWebGpu,
        BackendKind::Noop => AdapterBackend::NoBackend,
    };
    GPUAdapter {
        name: info.name.clone(),
        vendor: vendor_str(info.vendor).to_owned(),
        vendor_id: info.vendor,
        backend: backend_str(info.backend).to_owned(),
        backend_enum,
        is_high_performance: info.is_discrete,
    }
}

/// The adapters of the system, one description per reported adapter, in
/// the order reported.
pub fn query_gpu_adapter(infos: &Vec<AdapterInfo>) -> (r: Vec<GPUAdapter>)
    ensures
        r@.len() == infos@.len(),
        forall|i: int| 0 <= i < infos@.len() ==> describes(#[trigger] r@[i], infos@[i]),
{
    let mut out: Vec<GPUAdapter> = Vec::new();
    let mut i: usize = 0;
    while i < infos.len()
        invariant
            i <= infos@.len(),
            out@.len() == i,
            forall|j: int| 0 <= j < i ==> describes(#[trigger] out@[j], infos@[j]),
        decreases infos@.len() - i,
    {
        out.push(describe_adapter(&infos[i]));
        i = i + 1;
    }
    out
}

/// Whether the reported adapter is the one the description asks for: same
/// backend, name and vendor id.
pub open spec fn adapter_matches(info: AdapterInfo, wanted: GPUAdapter) -> bool {
    info.backend == desired_backend(wanted.backend_enum) && info.name@ == wanted.name@ && info.vendor == wanted.vendor_id
}

/// Index of the first reported adapter at or after `k` that matches, or -1.
pub open spec fn first_matching(infos: Seq<AdapterInfo>, wanted: GPUAdapter, k: int) -> int
    decreases infos.len() - k,
{
    if k < 0 || k >= infos.len() {
        -1
    } else if adapter_matches(infos[k], wanted) {
        k
    } else {
        first_matching(infos, wanted, k + 1)
    }
}

/// Picks, among the reported adapters, the first that matches the wanted
/// one; fails with "Adapter not found" where none does.
pub fn select_adapter(infos: &Vec<AdapterInfo>, wanted: &GPUAdapter) -> (r: Result<usize, String>)
    ensures
        match r {
            Ok(i) => i as int == first_matching(infos@, *wanted, 0) && i < infos@.len(),
            Err(e) => first_matching(infos@, *wanted, 0) == -1 && e@ == "Adapter not found"@,
        },
{
    let desired = match wanted.backend_enum {
        AdapterBackend::Vulkan => BackendKind::Vulkan,
        AdapterBackend::Metal => BackendKind::Metal,
        AdapterBackend::Dx12 => BackendKind::Dx12,
        AdapterBackend::Gl => BackendKind::Gl,
        AdapterBackend::BrowserWebGpu => BackendKind::BrowserWebGpu,
        AdapterBackend::NoBackend => BackendKind::Noop,
    };
    let mut i: usize = 0;
    while i < infos.len()
        invariant
            i <= infos@.len(),
            desired == desired_backend(wanted.backend_enum),
            first_matching(infos@, *wanted, 0) == first_matching(infos@, *wanted, i as int),
        decreases infos@.len() - i,
    {
        let info = &infos[i];
        if info.backend == desired && info.name == wanted.name && info.vendor == wanted.vendor_id {
            return Ok(i);
        }
        i = i + 1;
    }
    Err("Adapter not found".to_owned())
}

// ---------------------------------------------------------------------------
// Limits and features
// ---------------------------------------------------------------------------

/// Limits that a device is asked to support.
#[derive(Debug, Clone, Copy, PartialEq, Eq, Hash, Structural)]
pub struct Limits {
    pub max_texture_dimension_1d: u32,
    pub max_texture_dimension_2d: u32,
    pub max_texture_dimension_3d: u32,
    pub max_texture_array_layers: u32,
    pub max_bind_groups: u32,
    pub max_bindings_per_bind_group: u32,
    pub max_dynamic_uniform_buffers_per_pipeline_layout: u32,
    pub max_dynamic_storage_buffers_per_pipeline_layout: u32,
    pub max_sampled_textures_per_shader_stage: u32,
    pub max_samplers_per_shader_stage: u32,
    pub max_storage_buffers_per_shader_stage: u32,
    pub max_storage_textures_per_shader_stage: u32,
    pub max_uniform_buffers_per_shader_stage: u32,
    pub max_binding_array_elements_per_shader_stage: u32,
    pub max_binding_array_sampler_elements_per_shader_stage: u32,
    pub max_uniform_buffer_binding_size: u32,
    pub max_storage_buffer_binding_size: u32,
    pub max_vertex_buffers: u32,
    pub max_buffer_size: u64,
    pub max_vertex_attributes: u32,
    pub max_vertex_buffer_array_stride: u32,
    pub min_uniform_buffer_offset_alignment: u32,
    pub min_storage_buffer_offset_alignment: u32,
    pub max_inter_stage_shader_components: u32,
    pub max_color_attachments: u32,
    pub max_color_attachment_bytes_per_sample: u32,
    pub max_compute_workgroup_storage_size: u32,
    pub max_compute_invocations_per_workgroup: u32,
    pub max_compute_workgroup_size_x: u32,
    pub max_compute_workgroup_size_y: u32,
    pub max_compute_workgroup_size_z: u32,
    pub max_compute_workgroups_per_dimension: u32,
    pub min_subgroup_size: u32,
    pub max_subgroup_size: u32,
    pub max_push_constant_size: u32,
    pub max_non_sampler_bindings: u32,
}

/// The default limits.
pub open spec fn default_limits() -> Limits {
    Limits {
        max_texture_dimension_1d: 8192,
        max_texture_dimension_2d: 8192,
        max_texture_dimension_3d: 2048,
        max_texture_array_layers: 256,
        max_bind_groups: 4,
        max_bindings_per_bind_group: 1000,
        max_dynamic_uniform_buffers_per_pipeline_layout: 8,
        max_dynamic_storage_buffers_per_pipeline_layout: 4,
        max_sampled_textures_per_shader_stage: 16,
        max_samplers_per_shader_stage: 16,
        max_storage_buffers_per_shader_stage: 8,
        max_storage_textures_per_shader_stage: 4,
        max_uniform_buffers_per_shader_stage: 12,
        max_binding_array_elements_per_shader_stage: 0,
        max_binding_array_sampler_elements_per_shader_stage: 0,
        max_uniform_buffer_binding_size: 65536,
        max_storage_buffer_binding_size: 134217728,
        max_vertex_buffers: 8,
        max_buffer_size: 268435456,
        max_vertex_attributes: 16,
        max_vertex_buffer_array_stride: 2048,
        min_uniform_buffer_offset_alignment: 256,
        min_storage_buffer_offset_alignment: 256,
        max_inter_stage_shader_components: 60,
        max_color_attachments: 8,
        max_color_attachment_bytes_per_sample: 32,
        max_compute_workgroup_storage_size: 16384,
        max_compute_invocations_per_workgroup: 256,
        max_compute_workgroup_size_x: 256,
        max_compute_workgroup_size_y: 256,
        max_compute_workgroup_size_z: 64,
        max_compute_workgroups_per_dimension: 65535,
        min_subgroup_size: 0,
        max_subgroup_size: 0,
        max_push_constant_size: 0,
        max_non_sampler_bindings: 1000000,
    }
}

impl Default for Limits {
    fn default() -> (r: Limits)
        ensures
            r == default_limits(),
    {
        Limits {
            max_texture_dimension_1d: 8192,
            max_texture_dimension_2d: 8192,
            max_texture_dimension_3d: 2048,
            max_texture_array_layers: 256,
            max_bind_groups: 4,
            max_bindings_per_bind_group: 1000,
            max_dynamic_uniform_buffers_per_pipeline_layout: 8,
            max_dynamic_storage_buffers_per_pipeline_layout: 4,
            max_sampled_textures_per_shader_stage: 16,
            max_samplers_per_shader_stage: 16,
            max_storage_buffers_per_shader_stage: 8,
            max_storage_textures_per_shader_stage: 4,
            max_uniform_buffers_per_shader_stage: 12,
            max_binding_array_elements_per_shader_stage: 0,
            max_binding_array_sampler_elements_per_shader_stage: 0,
            max_uniform_buffer_binding_size: 65536,
            max_storage_buffer_binding_size: 134217728,
            max_vertex_buffers: 8,
            max_buffer_size: 268435456,
            max_vertex_attributes: 16,
            max_vertex_buffer_array_stride: 2048,
            min_uniform_buffer_offset_alignment: 256,
            min_storage_buffer_offset_alignment: 256,
            max_inter_stage_shader_components: 60,
            max_color_attachments: 8,
            max_color_attachment_bytes_per_sample: 32,
            max_compute_workgroup_storage_size: 16384,
            max_compute_invocations_per_workgroup: 256,
            max_compute_workgroup_size_x: 256,
            max_compute_workgroup_size_y: 256,
            max_compute_workgroup_size_z: 64,
            max_compute_workgroups_per_dimension: 65535,
            min_subgroup_size: 0,
            max_subgroup_size: 0,
            max_push_constant_size: 0,
            max_non_sampler_bindings: 1000000,
        }
    }
}

/// The optional device features that matter to the library.
#[derive(Debug, Clone, Copy, PartialEq, Eq, Hash, Structural)]
pub struct DeviceFeatures {
    pub depth32float_stencil8: bool,
    pub vertex_writable_storage: bool,
    pub texture_adapter_specific_format_features: bool,
    pub pipeline_cache: bool,
    pub push_constants: bool,
}

/// The features a device is asked for: the optional ones the adapter has
/// (the format-specific one only off the web), and on Vulkan pipeline
/// caches and push constants.
pub open spec fn spec_required_features(adapter_has: DeviceFeatures, is_vulkan: bool, is_web: bool) -> DeviceFeatures {
    DeviceFeatures {
        depth32float_stencil8: adapter_has.depth32float_stencil8,
        vertex_writable_storage: adapter_has.vertex_writable_storage,
        texture_adapter_specific_format_features: !is_web && adapter_has.texture_adapter_specific_format_features,
        pipeline_cache: !is_web && is_vulkan,
        push_constants: !is_web && is_vulkan,
    }
}

/// The features a device is asked for.
pub fn required_features(adapter_has: DeviceFeatures, is_vulkan: bool, is_web: bool) -> (r: DeviceFeatures)
    ensures
        r == spec_required_features(adapter_has, is_vulkan, is_web),
{
    DeviceFeatures {
        depth32float_stencil8: adapter_has.depth32float_stencil8,
        vertex_writable_storage: adapter_has.vertex_writable_storage,
        texture_adapter_specific_format_features: !is_web && adapter_has.texture_adapter_specific_format_features,
        pipeline_cache: !is_web && is_vulkan,
        push_constants: !is_web && is_vulkan,
    }
}

// ---------------------------------------------------------------------------
// Builder
// ---------------------------------------------------------------------------

/// Settings of a GPU context to create: the window it draws to, if any, the
/// adapter to use, if any, and the limits to ask for, if any.
pub struct GPUBuilder<'a, W> {
    pub window: Option<W>,
    pub adapter: Option<&'a GPUAdapter>,
    pub limits: Option<Limits>,
}

impl<'a, W> GPUBuilder<'a, W> {
    /// No window, adapter or limits.
    pub fn new() -> (r: GPUBuilder<'a, W>)
        ensures
            r.window is None && r.adapter is None && r.limits is None,
    {
        GPUBuilder { window: None, adapter: None, limits: None }
    }

    /// Binds the context to this window.
    pub fn set_window(self, window: W) -> (r: GPUBuilder<'a, W>)
        ensures
            r.window == Some(window) && r.adapter == self.adapter && r.limits == self.limits,
    {
        GPUBuilder { window: Some(window), adapter: self.adapter, limits: self.limits }
    }

    /// Uses this adapter.
    pub fn set_adapter(self, adapter: &'a GPUAdapter) -> (r: GPUBuilder<'a, W>)
        ensures
            r.adapter == Some(adapter) && r.window == self.window && r.limits == self.limits,
    {
        GPUBuilder { window: self.window, adapter: Some(adapter), limits: self.limits }
    }

    /// Asks for these limits.
    pub fn set_limits(self, limits: Limits) -> (r: GPUBuilder<'a, W>)
        ensures
            r.limits == Some(limits) && r.window == self.window && r.adapter == self.adapter,
    {
        GPUBuilder { window: self.window, adapter: self.adapter, limits: Some(limits) }
    }
}

/// A GPU builder, bound to the window where one is given.
pub fn new<'a, W>(window: Option<W>) -> (r: GPUBuilder<'a, W>)
    ensures
        r.window == window && r.adapter is None && r.limits is None,
{
    let builder = GPUBuilder::new();
    match window {
        Some(w) => builder.set_window(w),
        None => builder,
    }
}

// ---------------------------------------------------------------------------
// Surface
// ---------------------------------------------------------------------------

/// How frames are presented.
#[derive(Debug, Clone, Copy, PartialEq, Eq, Hash, Structural)]
pub enum PresentMode {
    Fifo,
    Immediate,
    Other,
}

/// The state of the window surface's configuration.
#[derive(Debug, Clone, Copy, PartialEq, Eq, Hash, Structural)]
pub struct SurfaceConfig {
    pub width: u32,
    pub height: u32,
    pub present_mode: PresentMode,
}

/// Index of the first sRGB format at or after `k`, or -1.
pub open spec fn first_srgb(formats: Seq<bool>, k: int) -> int
    decreases formats.len() - k,
{
    if k < 0 || k >= formats.len() {
        -1
    } else if formats[k] {
        k
    } else {
        first_srgb(formats, k + 1)
    }
}

/// Picks the surface format among those the surface supports (each given by
/// whether it is sRGB): the first sRGB one, else the first.
pub fn choose_surface_format(is_srgb: &Vec<bool>) -> (r: usize)
    requires
        is_srgb@.len() > 0,
    ensures
        first_srgb(is_srgb@, 0) >= 0 ==> r as int == first_srgb(is_srgb@, 0),
        first_srgb(is_srgb@, 0) < 0 ==> r == 0,
{
    let mut i: usize = 0;
    while i < is_srgb.len()
        invariant
            i <= is_srgb@.len(),
            first_srgb(is_srgb@, 0) == first_srgb(is_srgb@, i as int),
        decreases is_srgb@.len() - i,
    {
        if is_srgb[i] {
            return i;
        }
        i = i + 1;
    }
    0
}

impl SurfaceConfig {
    /// Whether presentation waits for vertical sync.
    pub fn is_vsync(&self) -> (r: bool)
        ensures
            r == (self.present_mode == PresentMode::Fifo),
    {
        match self.present_mode {
            PresentMode::Fifo => true,
            _ => false,
        }
    }

    /// Turns vertical sync on or off; returns whether the surface must be
    /// configured again (not while it has no size).
    pub fn set_vsync(&mut self, vsync: bool) -> (reconfigure: bool)
        ensures
            final(self).present_mode == if vsync { PresentMode::Fifo } else { PresentMode::Immediate },
            final(self).width == old(self).width && final(self).height == old(self).height,
            reconfigure == (old(self).width != 0 && old(self).height != 0),
    {
        self.present_mode = if vsync {
            PresentMode::Fifo
        } else {
            PresentMode::Immediate
        };
        self.width != 0 && self.height != 0
    }

    /// Follows the window to a new size; returns whether the surface must
    /// be configured again. A zero size empties the configuration; an
    /// unchanged size changes nothing.
    pub fn resize(&mut self, width: u32, height: u32) -> (reconfigure: bool)
        ensures
            final(self).present_mode == old(self).present_mode,
            width == 0 || height == 0 ==> final(self).width == 0 && final(self).height == 0 && !reconfigure,
            width != 0 && height != 0 ==> final(self).width == width && final(self).height == height
                && reconfigure == !(old(self).width == width && old(self).height == height),
    {
        if width == 0 || height == 0 {
            self.width = 0;
            self.height = 0;
            return false;
        }
        if self.width == width && self.height == height {
            return false;
        }
        self.width = width;
        self.height = height;
        true
    }
}

/// Why the next frame of the surface cannot be had.
#[derive(Debug, Clone, Copy, PartialEq, Eq, Hash, Structural)]
pub enum SurfaceTextureError {
    NotAvailable,
    ConfigNeeded,
    DeviceLost,
}

/// What to do about the next frame of the surface.
#[derive(Debug, Clone, Copy, PartialEq, Eq, Hash, Structural)]
pub enum SwapchainStep {
    /// The frame may be acquired.
    Acquire,
    /// The frame cannot be had.
    Fail(SurfaceTextureError),
}

/// Whether a frame may be acquired: not without a surface, nor while the
/// surface has no size.
pub fn swapchain_step(has_surface: bool, config: SurfaceConfig) -> (r: SwapchainStep)
    ensures
        !has_surface ==> r == SwapchainStep::Fail(SurfaceTextureError::NotAvailable),
        has_surface && (config.width == 0 || config.height == 0) ==> r == SwapchainStep::Fail(SurfaceTextureError::ConfigNeeded),
        has_surface && config.width != 0 && config.height != 0 ==> r == SwapchainStep::Acquire,
{
    if !has_surface {
        return SwapchainStep::Fail(SurfaceTextureError::NotAvailable);
    }
    if config.width == 0 || config.height == 0 {
        return SwapchainStep::Fail(SurfaceTextureError::ConfigNeeded);
    }
    SwapchainStep::Acquire
}

} // verus!
