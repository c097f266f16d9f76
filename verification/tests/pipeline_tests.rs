use estrol::attachment::{group_attachments, pad_push_constants, BindGroupAttachment, BindGroupType};
use estrol::bind_layout::{plan_layouts, GroupLayout};
use estrol::drawing::{rebase_indices, triangle_fan_to_list_indices_ref, DrawBatch, DrawGeometry, DrawQueue};
use estrol::font::FontStyle;
use estrol::font_cache::{
    encode_font_cache, encode_font_cache_payload, parse_font_cache, parse_font_cache_payload, FontCache,
    FontCacheError, GlyphBits,
};
use estrol::graphics::{GraphicsShaderPlan, VertexInputDescription};
use estrol::cache::LifetimeCache;
use estrol::pass::{
    record_made, AttachmentTexture, CacheLookup, ColorView, RenderPass, RenderPassBuildError, RenderpassBuilder, Size2,
};
use estrol::pipeline::{CompuitePipelineError, ComputePipelineBuilder, RenderPipelineBuilder};
use estrol::shader_types::{
    IndexBufferSize, ShaderBindingInfo, ShaderBindingType, ShaderCullMode, ShaderFrontFace, ShaderPollygonMode,
    ShaderReflect, ShaderTopology, StorageAccess,
};
use estrol::texture_types::{SampleCount, TextureBlend, TextureFormat, TextureUsage};

fn binding(group: u32, binding: u32, name: &str, ty: ShaderBindingType) -> ShaderBindingInfo {
    ShaderBindingInfo { binding, group, name: name.to_string(), ty }
}

fn compute_reflect() -> ShaderReflect {
    ShaderReflect::Compute {
        entry_point: "main".to_string(),
        bindings: vec![
            binding(0, 0, "params", ShaderBindingType::UniformBuffer(16)),
            binding(1, 0, "data", ShaderBindingType::StorageBuffer(64, StorageAccess { bits: 3 })),
            binding(1, 2, "more", ShaderBindingType::StorageBuffer(64, StorageAccess { bits: 1 })),
        ],
    }
}

fn compute_builder() -> ComputePipelineBuilder {
    let reflect = compute_reflect();
    let layouts = plan_layouts(&vec![reflect.clone()], true);
    ComputePipelineBuilder::new().set_shader(Some((reflect, layouts)))
}

#[test]
fn compute_pipeline_groups_attachments() {
    let plan = compute_builder()
        .set_attachment_storage(1, 2, Some(30))
        .set_attachment_uniform(0, 0, Some(10))
        .set_attachment_storage(1, 0, Some(20))
        .set_attachment_uniform(0, 0, Some(11))
        .build()
        .expect("pipeline");
    assert_eq!(plan.entry_point, "main");
    let groups = &plan.bind_groups.groups;
    assert_eq!(groups.len(), 2);
    assert_eq!(groups[0].group, 1);
    let bindings: Vec<u32> = groups[0].entries.iter().map(|e| e.binding).collect();
    assert_eq!(bindings, vec![0, 2]);
    assert_eq!(groups[1].group, 0);
    assert_eq!(groups[1].entries[0].attachment, BindGroupType::Uniform(11));
    let layout_groups: Vec<u32> = plan.bind_groups.layouts.iter().map(|i| plan.layout[*i].group).collect();
    assert_eq!(layout_groups, vec![1, 0]);
}

#[test]
fn compute_pipeline_errors() {
    assert_eq!(ComputePipelineBuilder::new().build().unwrap_err(), CompuitePipelineError::ShaderNotSet);
    let e = compute_builder().set_attachment_texture(0, 0, Some(1)).build().unwrap_err();
    assert_eq!(e, CompuitePipelineError::InvalidAttachmentType(0, 0, ShaderBindingType::UniformBuffer(16)));
    let e = compute_builder().set_attachment_uniform(3, 3, Some(1)).build().unwrap_err();
    assert_eq!(e, CompuitePipelineError::AttachmentNotSet(3, 3));
    let plan = compute_builder()
        .set_attachment_texture(0, 0, Some(1))
        .set_attachment_texture(0, 0, None)
        .build()
        .expect("emptied slot");
    assert!(plan.bind_groups.groups.is_empty());
}

fn graphics_plan() -> GraphicsShaderPlan {
    let reflection = vec![ShaderReflect::VertexFragment {
        vertex_entry_point: "vs_main".to_string(),
        vertex_input: None,
        fragment_entry_point: "fs_main".to_string(),
        bindings: vec![
            binding(0, 0, "tex", ShaderBindingType::Texture(false)),
            binding(0, 1, "samp", ShaderBindingType::Sampler(false)),
            binding(1, 0, "pc", ShaderBindingType::PushConstant(8)),
        ],
    }];
    let layouts: Vec<GroupLayout> = vec![];
    let mut layouts = layouts;
    layouts.push(GroupLayout { group: 0, entries: vec![] });
    GraphicsShaderPlan {
        reflection,
        layouts,
        input: VertexInputDescription {
            index: Some(IndexBufferSize::U16),
            topology: ShaderTopology::TriangleList,
            cull_mode: Some(ShaderCullMode::Back),
            polygon_mode: ShaderPollygonMode::Fill,
            front_face: ShaderFrontFace::CounterClockwise,
            stride: 20,
            attributes: vec![],
        },
    }
}

#[test]
fn render_pipeline_plan() {
    let builder = RenderPipelineBuilder::new()
        .set_blend(Some(TextureBlend::alpha_blend()))
        .set_shader_with_options(Some(graphics_plan()), Some(ShaderTopology::LineList), None, None, None, None);
    let shader = builder.shader.as_ref().unwrap();
    assert_eq!(shader.vertex_entry_point, "vs_main");
    assert_eq!(shader.fragment_entry_point, "fs_main");
    assert_eq!(shader.topology, ShaderTopology::LineList);
    assert_eq!(shader.cull_mode, None);
    assert_eq!(shader.index_format, Some(IndexBufferSize::U16));
    let texture = BindGroupAttachment { group: 0, binding: 0, attachment: BindGroupType::Texture(4) };
    assert!(builder.can_attach(texture));
    assert!(!builder.can_attach(BindGroupAttachment { group: 0, binding: 0, attachment: BindGroupType::Sampler(4) }));
    let plan = builder
        .set_attachment_sampler(0, 1, Some(9))
        .set_attachment_texture(0, 0, Some(4))
        .build()
        .expect("pipeline");
    assert_eq!(plan.msaa_count, 1);
    assert_eq!(plan.render_target, TextureFormat::Rgba8UnormSrgb);
    assert!(plan.depth_stencil.is_none());
    let entries: Vec<u32> = plan.bind_groups.groups[0].entries.iter().map(|e| e.binding).collect();
    assert_eq!(entries, vec![0, 1]);
}

fn tex(usage: TextureUsage, w: u32, h: u32, samples: SampleCount, format: TextureFormat) -> AttachmentTexture {
    AttachmentTexture { usage, width: w, height: h, sample_count: samples, format }
}

#[test]
fn renderpass_targets() {
    let ra = TextureUsage::render_attachment();
    let targets = RenderpassBuilder::new()
        .add_surface_color_attachment(800, 600, TextureFormat::Bgra8UnormSrgb, None)
        .add_msaa_attachment(tex(ra, 800, 600, SampleCount::SampleCount4, TextureFormat::Bgra8UnormSrgb))
        .set_depth_attachment(tex(ra, 800, 600, SampleCount::SampleCount1, TextureFormat::Depth32Float))
        .build()
        .expect("pass");
    assert_eq!(targets.surface_size, Size2 { width: 800, height: 600 });
    assert_eq!(targets.multi_sample_count, Some(4));
    assert_eq!(targets.multi_sample_targets.len(), 1);
    assert_eq!(targets.multi_sample_targets[0].width, 800);
    assert_eq!(targets.depth_format, Some(TextureFormat::Depth32Float));
    assert_eq!(targets.render_targets.len(), 1);
    assert_eq!(targets.render_targets[0].format, TextureFormat::Bgra8UnormSrgb);
    let depth_only = RenderpassBuilder::new()
        .set_depth_attachment(tex(ra, 64, 32, SampleCount::SampleCount1, TextureFormat::Depth24PlusStencil8))
        .build()
        .expect("depth pass");
    assert_eq!(depth_only.surface_size, Size2 { width: 64, height: 32 });
}

#[test]
fn renderpass_errors() {
    let ra = TextureUsage::render_attachment();
    assert_eq!(RenderpassBuilder::new().build().unwrap_err(), RenderPassBuildError::NoColorOrDepthAttachment);
    let e = RenderpassBuilder::new()
        .add_color_attachment(tex(TextureUsage::sampler(), 4, 4, SampleCount::SampleCount1, TextureFormat::Rgba8Unorm), None)
        .build()
        .unwrap_err();
    assert_eq!(e, RenderPassBuildError::ColorAttachmentNotRenderTarget);
    let e = RenderpassBuilder::new()
        .add_surface_color_attachment(8, 8, TextureFormat::Bgra8Unorm, None)
        .add_color_attachment(tex(ra, 4, 4, SampleCount::SampleCount1, TextureFormat::Rgba8Unorm), None)
        .build()
        .unwrap_err();
    assert_eq!(e, RenderPassBuildError::MismatchedAttachmentSize(Size2 { width: 8, height: 8 }, Size2 { width: 4, height: 4 }));
    let e = RenderpassBuilder::new()
        .add_surface_color_attachment(8, 8, TextureFormat::Bgra8Unorm, None)
        .add_msaa_attachment(tex(ra, 8, 8, SampleCount::SampleCount1, TextureFormat::Bgra8Unorm))
        .build()
        .unwrap_err();
    assert_eq!(e, RenderPassBuildError::MsaaTextureNotMultiSampled);
    let e = RenderpassBuilder::new()
        .add_surface_color_attachment(8, 8, TextureFormat::Bgra8Unorm, None)
        .add_msaa_attachment(tex(ra, 8, 8, SampleCount::SampleCount4, TextureFormat::Bgra8Unorm))
        .add_msaa_attachment(tex(ra, 8, 8, SampleCount::SampleCount2, TextureFormat::Bgra8Unorm))
        .build()
        .unwrap_err();
    assert_eq!(e, RenderPassBuildError::MismatchedAttachmentSampleCount(4, 2));
    let e = RenderpassBuilder::new()
        .set_depth_attachment(tex(ra, 8, 8, SampleCount::SampleCount1, TextureFormat::Depth24Plus))
        .build()
        .unwrap_err();
    assert_eq!(e, RenderPassBuildError::DepthTextureFormatNotSupported(TextureFormat::Depth24Plus));
}

#[test]
fn renderpass_attachment_errors() {
    let ra = TextureUsage::render_attachment();
    let sampled = TextureUsage::sampler();
    let zero = Size2 { width: 0, height: 0 };
    let build = |b: RenderpassBuilder| b.build().unwrap_err();
    assert_eq!(
        build(RenderpassBuilder::new().add_color_attachment(tex(ra, 4, 4, SampleCount::SampleCount4, TextureFormat::Rgba8Unorm), None)),
        RenderPassBuildError::ColorAttachmentMultiSampled
    );
    assert_eq!(
        build(RenderpassBuilder::new().add_color_attachment(tex(ra, 0, 4, SampleCount::SampleCount1, TextureFormat::Rgba8Unorm), None)),
        RenderPassBuildError::MismatchedAttachmentSize(zero, Size2 { width: 0, height: 4 })
    );
    assert_eq!(
        build(RenderpassBuilder::new().add_msaa_attachment(tex(sampled, 4, 4, SampleCount::SampleCount4, TextureFormat::Rgba8Unorm))),
        RenderPassBuildError::MsaaTextureNotRenderAttachment
    );
    assert_eq!(
        build(RenderpassBuilder::new().add_msaa_attachment(tex(ra, 4, 0, SampleCount::SampleCount4, TextureFormat::Rgba8Unorm))),
        RenderPassBuildError::MsaaTextureInvalidSize(zero)
    );
    assert_eq!(
        build(RenderpassBuilder::new().set_depth_attachment(tex(sampled, 4, 4, SampleCount::SampleCount1, TextureFormat::Depth32Float))),
        RenderPassBuildError::DepthTextureNotRenderAttachment
    );
    assert_eq!(
        build(RenderpassBuilder::new().set_depth_attachment(tex(ra, 0, 0, SampleCount::SampleCount1, TextureFormat::Depth32Float))),
        RenderPassBuildError::DepthTextureInvalidSize(zero)
    );
    // multisampled targets alone give the pass no size
    assert_eq!(
        build(RenderpassBuilder::new().add_msaa_attachment(tex(ra, 4, 4, SampleCount::SampleCount4, TextureFormat::Rgba8Unorm))),
        RenderPassBuildError::NoColorOrDepthAttachment
    );
}

#[test]
fn renderpass_state() {
    let targets = RenderpassBuilder::new()
        .add_surface_color_attachment(16, 16, TextureFormat::Bgra8Unorm, None)
        .build()
        .expect("pass");
    let mut pass = RenderPass::new(targets);
    assert_eq!(pass.get_blend(0), Some(None));
    assert_eq!(pass.get_blend(1), None);
    pass.set_blend(0, Some(TextureBlend::additive_blend()));
    assert!(pass.get_blend(0).unwrap().is_some());
    pass.set_shader(Some(graphics_plan()));
    pass.set_push_constants(Some(&[1, 2, 3]));
    assert_eq!(pass.push_constant, Some(vec![1, 2, 3, 0]));
    pass.set_attachment_texture(0, 0, Some(5));
    pass.set_attachment_texture(0, 0, Some(6));
    assert_eq!(pass.attachments.len(), 1);
    pass.push_msaa_texture(SampleCount::SampleCount4);
    let setup = pass.prepare_pipeline(true);
    assert_eq!(setup.msaa_count, 4);
    assert_eq!(setup.index_format, Some(IndexBufferSize::U16));
    let groups = setup.bind_groups.expect("bind groups");
    assert_eq!(groups.groups[0].entries[0].attachment, BindGroupType::Texture(6));
    let depth = tex(TextureUsage::render_attachment(), 16, 16, SampleCount::SampleCount1, TextureFormat::Depth24Plus);
    assert!(pass.check_depth_texture(depth));
    assert!(!pass.check_depth_texture(AttachmentTexture { width: 8, ..depth }));
    pass.set_depth_texture(Some(depth));
    assert_eq!(pass.depth_format, Some(TextureFormat::Depth24Plus));
}

#[test]
fn attachments_group_by_slot() {
    let a = |g: u32, b: u32, h: u64| BindGroupAttachment { group: g, binding: b, attachment: BindGroupType::Storage(h) };
    let groups = group_attachments(&vec![a(2, 5, 1), a(0, 1, 2), a(2, 0, 3), a(2, 3, 4)]);
    let shape: Vec<(u32, Vec<u32>)> = groups.iter().map(|g| (g.group, g.entries.iter().map(|e| e.binding).collect())).collect();
    assert_eq!(shape, vec![(2, vec![0, 3, 5]), (0, vec![1])]);
    assert_eq!(pad_push_constants(&[9; 5]), vec![9, 9, 9, 9, 9, 0, 0, 0]);
    assert_eq!(pad_push_constants(&[]), Vec::<u8>::new());
}

#[test]
fn fan_to_list() {
    let mut fan = vec![0u16, 1, 2, 3, 4];
    triangle_fan_to_list_indices_ref(&mut fan);
    assert_eq!(fan, vec![0, 1, 2, 0, 2, 3, 0, 3, 4]);
    let mut short = vec![7u16, 8];
    triangle_fan_to_list_indices_ref(&mut short);
    assert_eq!(short, vec![7, 8]);
    assert_eq!(rebase_indices(&[0, 1, 2], 4), vec![4, 5, 6]);
}

#[test]
fn draw_batches() {
    let mut q = DrawQueue::new();
    q.push_queue(1, 6, 0);
    q.push_queue(1, 3, 6);
    q.push_queue(2, 3, 9);
    let batches = q.finish();
    assert_eq!(
        batches,
        vec![DrawBatch { state: 1, start_index: 0, count: 9 }, DrawBatch { state: 2, start_index: 9, count: 3 }]
    );
}

#[test]
fn geometry_rebases_and_batches() {
    let mut g = DrawGeometry::new();
    g.push_geometry(4, &[0, 1, 2, 0, 2, 3], 1);
    g.push_geometry(3, &[0, 1, 2], 1);
    g.push_geometry(0, &[0], 2);
    g.push_geometry(2, &[], 2);
    assert_eq!(g.vertex_count, 7);
    assert_eq!(g.indices, vec![0, 1, 2, 0, 2, 3, 4, 5, 6]);
    g.push_geometry(3, &[0, 1, 2], 5);
    let batches = g.batches.finish();
    assert_eq!(
        batches,
        vec![DrawBatch { state: 1, start_index: 0, count: 9 }, DrawBatch { state: 5, start_index: 9, count: 3 }]
    );
}

fn sample_cache() -> FontCache {
    FontCache {
        name: "Fira Sans".to_string(),
        style: FontStyle::from_bits(1).unwrap(),
        glyphs: vec![GlyphBits {
            codepoint: 65,
            advance: 1.5f32.to_bits(),
            atlas_start_x: 0,
            atlas_start_y: 0,
            atlas_end_x: 2.0f32.to_bits(),
            atlas_end_y: 2.0f32.to_bits(),
            width: 2.0f32.to_bits(),
            height: 2.0f32.to_bits(),
            bearing_x: 0,
            bearing_y: 0,
            advance_x: 3.0f32.to_bits(),
            advance_y: 0,
            ascender: 0,
            descender: 1.0f32.to_bits(),
        }],
        texture_width: 2,
        texture_height: 2,
        texture_buffer: vec![0, 255, 128, 7],
        ascender: 10.0f32.to_bits(),
        descender: (-3.0f32).to_bits(),
        line_height: 14.0f32.to_bits(),
        space_width: 4.0f32.to_bits(),
    }
}

fn same(a: &FontCache, b: &FontCache) -> bool {
    a.name == b.name
        && a.style == b.style
        && a.glyphs == b.glyphs
        && a.texture_width == b.texture_width
        && a.texture_height == b.texture_height
        && a.texture_buffer == b.texture_buffer
        && a.ascender == b.ascender
        && a.descender == b.descender
        && a.line_height == b.line_height
        && a.space_width == b.space_width
}

#[test]
fn font_cache_round_trip() {
    let c = sample_cache();
    let file = encode_font_cache(&c).expect("compressed");
    assert_eq!(&file[0..5], b"eFONT");
    let back = parse_font_cache(&file).expect("parsed");
    assert!(same(&c, &back));
    let payload = encode_font_cache_payload(&c);
    assert_eq!(&payload[0..4], &[9, 0, 0, 0]);
    assert!(same(&c, &parse_font_cache_payload(&payload).expect("payload")));
}

#[test]
fn font_cache_errors() {
    assert_eq!(parse_font_cache(b"eFO").unwrap_err(), FontCacheError::UnexpectedEof);
    assert_eq!(parse_font_cache(b"xFONT12345678").unwrap_err(), FontCacheError::InvalidMagic);
    let mut bad = b"eFONT".to_vec();
    bad.extend_from_slice(&4u32.to_le_bytes());
    bad.extend_from_slice(&4u32.to_le_bytes());
    bad.extend_from_slice(&[1, 2, 3, 4]);
    assert_eq!(parse_font_cache(&bad).unwrap_err(), FontCacheError::Decompress);
    let mut payload = encode_font_cache_payload(&sample_cache());
    payload[13] = 9;
    assert_eq!(parse_font_cache_payload(&payload).unwrap_err(), FontCacheError::InvalidStyle);
    let payload = encode_font_cache_payload(&sample_cache());
    assert_eq!(parse_font_cache_payload(&payload[..payload.len() - 1]).unwrap_err(), FontCacheError::UnexpectedEof);
    let mut big = sample_cache();
    big.texture_width = 4096;
    let payload = encode_font_cache_payload(&big);
    assert_eq!(parse_font_cache_payload(&payload).unwrap_err(), FontCacheError::InvalidTextureSize);
    let mut raw = vec![2, 0, 0, 0];
    raw.extend_from_slice(&[0xff, 0xfe]);
    assert_eq!(parse_font_cache_payload(&raw).unwrap_err(), FontCacheError::InvalidUtf8);
}

#[test]
fn draws_reuse_cached_pipelines_and_bind_groups() {
    let targets = RenderpassBuilder::new()
        .add_surface_color_attachment(16, 16, TextureFormat::Bgra8Unorm, None)
        .build()
        .expect("pass");
    let mut pass = RenderPass::new(targets);
    pass.set_shader(Some(graphics_plan()));
    pass.set_attachment_texture(0, 0, Some(6));
    let mut bind_groups: LifetimeCache<u64> = LifetimeCache::new(100);
    let mut pipelines: LifetimeCache<u64> = LifetimeCache::new(50);
    let first = pass.prepare_pipeline_cached(true, &mut bind_groups, &mut pipelines);
    assert_eq!(first.pipeline, CacheLookup::Miss);
    assert_eq!(first.bind_group, Some(CacheLookup::Miss));
    record_made(&mut pipelines, first.pipeline_key, first.pipeline, 11);
    record_made(&mut bind_groups, first.bind_group_key.unwrap(), first.bind_group.unwrap(), 22);
    let second = pass.prepare_pipeline_cached(true, &mut bind_groups, &mut pipelines);
    assert_eq!(second.pipeline_key, first.pipeline_key);
    assert_eq!(second.bind_group_key, first.bind_group_key);
    assert_eq!(second.pipeline, CacheLookup::Hit(11));
    assert_eq!(second.bind_group, Some(CacheLookup::Hit(22)));
    record_made(&mut pipelines, second.pipeline_key, second.pipeline, 99);
    assert_eq!(pass.prepare_pipeline_cached(true, &mut bind_groups, &mut pipelines).pipeline, CacheLookup::Hit(11));
    pass.set_attachment_texture(0, 0, Some(7));
    let third = pass.prepare_pipeline_cached(true, &mut bind_groups, &mut pipelines);
    assert_eq!(third.pipeline, CacheLookup::Hit(11));
    assert_eq!(third.bind_group, Some(CacheLookup::Miss));
}

#[test]
fn multisampled_passes_resolve_into_their_targets() {
    let ra = TextureUsage::render_attachment();
    let targets = RenderpassBuilder::new()
        .add_surface_color_attachment(8, 8, TextureFormat::Bgra8Unorm, None)
        .add_msaa_attachment(tex(ra, 8, 8, SampleCount::SampleCount4, TextureFormat::Bgra8Unorm))
        .build()
        .expect("pass");
    let pass = RenderPass::new(targets);
    assert_eq!(pass.color_attachments(), vec![(ColorView::MultiSampled(0), Some(0))]);
    let plain = RenderPass::new(
        RenderpassBuilder::new().add_surface_color_attachment(8, 8, TextureFormat::Bgra8Unorm, None).build().expect("pass"),
    );
    assert_eq!(plain.color_attachments(), vec![(ColorView::Target(0), None)]);
}
