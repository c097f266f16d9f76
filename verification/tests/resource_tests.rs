use estrol::atlas::{ItemQueue, TextureAtlasBuilder, TextureAtlasBuilderError};
use estrol::buffer::{
    can_draw_indirect, check_raw_write, check_readable, pad_to_copy_alignment, resize_contents, resize_keeps_contents, resize_plan,
    BufferBuilder, BufferError, BufferUsage, BUFFER_COPY_DST, BUFFER_COPY_SRC, BUFFER_INDIRECT, BUFFER_MAP_READ,
    BUFFER_VERTEX,
};
use estrol::cache::{LifetimeCache, StagingBuffer};
use estrol::font::{font_request_key, font_source, FontInfo, FontSource, bake_glyphs, expand_gray_to_opaque_rgba, expand_gray_to_rgba, font_info_from_data, power_of_two, FontStyle, GlyphBitmap};
use estrol::gpu::{describe_adapter, query_gpu_adapter, select_adapter, AdapterBackend, AdapterInfo, BackendKind};
use estrol::texture::{
    check_texture_copy, pad_rows, padded_bytes_per_row, plan_texture_from_source, plan_upload, unpad_rows,
    CopyTexture, Rect, TextureBuilder, TextureCopyError, TextureError, TextureMapping,
};
use estrol::texture_types::{write_mask_constant, BlendFactor, BlendOperation, SampleCount, TextureBlend, TextureFormat, TextureUsage};

#[test]
fn rows_pad_to_256_bytes() {
    assert_eq!(padded_bytes_per_row(0), 0);
    assert_eq!(padded_bytes_per_row(1), 256);
    assert_eq!(padded_bytes_per_row(256), 256);
    assert_eq!(padded_bytes_per_row(257), 512);
    let data: Vec<u8> = (0..8).collect();
    let padded = pad_rows(&data, 4, 1, 2);
    assert_eq!(padded.len(), 512);
    assert_eq!(&padded[0..4], &[0, 1, 2, 3]);
    assert!(padded[4..256].iter().all(|b| *b == 0));
    assert_eq!(&padded[256..260], &[4, 5, 6, 7]);
}

#[test]
fn unpad_gives_back_padded_rows() {
    let data: Vec<u8> = (1..=24).collect();
    let padded = pad_rows(&data, 4, 3, 2);
    let back = unpad_rows(&padded, 12, 256, 2);
    assert_eq!(back, data);
}

#[test]
fn upload_plan() {
    let data = vec![7u8; 16];
    let plan = plan_upload(Rect::new(0, 0, 2, 2), SampleCount::SampleCount1, 1, TextureFormat::Rgba8Unorm, TextureUsage::sampler(), &data)
        .expect("plan");
    assert_eq!(plan.bytes_per_row, 256);
    assert_eq!(plan.upload.as_ref().map(|u| u.len()), Some(512));
    let empty = plan_upload(Rect::new(0, 0, 0, 2), SampleCount::SampleCount1, 1, TextureFormat::Rgba8Unorm, TextureUsage::sampler(), &data);
    assert!(matches!(empty, Err(TextureError::InvalidTextureData)));
}

#[test]
fn undecodable_image_is_invalid_data() {
    let bytes = [0u8, 1, 2, 3];
    let builder = TextureBuilder::new().with_data(&bytes);
    let r = plan_texture_from_source(&builder, None, None);
    assert!(matches!(r, Some(Err(TextureError::InvalidTextureData))));
}

#[test]
fn texture_mapping_states() {
    let mut m = TextureMapping::new();
    assert!(matches!(m.unmap(), Err(TextureError::NotMapped)));
    assert!(m.map_write(2, 2).is_ok());
    assert!(matches!(m.map_write(2, 2), Err(TextureError::AlreadyMapped)));
}

#[test]
fn usage_flags() {
    let u = TextureUsage::sampler().union(TextureUsage::render_attachment());
    assert!(u.contains(TextureUsage::render_attachment()));
    assert!(!u.contains(TextureUsage::storage()));
    assert_eq!(SampleCount::SampleCount4.value(), 4);
    assert_eq!(TextureFormat::Rgba8Unorm.get_size(), 4);
    assert_eq!(TextureFormat::Depth32Float.get_size(), 4);
    assert!(TextureFormat::Depth24PlusStencil8.is_depth_stencil());
    assert!(!TextureFormat::Bgra8Unorm.is_depth_stencil());
    assert_eq!(TextureBlend::none().color_write_mask(), TextureBlend::alpha_blend().color_write_mask());
}

#[test]
fn buffers() {
    assert_eq!(pad_to_copy_alignment(&[1, 2, 3, 4, 5]), vec![1, 2, 3, 4, 5, 0, 0, 0]);
    assert_eq!(pad_to_copy_alignment(&[1, 2, 3, 4]), vec![1, 2, 3, 4]);
    assert_eq!(resize_contents(vec![1, 2, 3], 5), Ok(vec![1, 2, 3, 0, 0]));
    assert_eq!(resize_contents(vec![1, 2, 3], 2), Ok(vec![1, 2]));
    assert_eq!(resize_contents(vec![1, 2, 3], 0), Err(BufferError::InvalidSize));
    assert_eq!(check_readable(BufferUsage::from_bits(BUFFER_COPY_SRC).unwrap()), Ok(()));
    assert_eq!(check_readable(BufferUsage::from_bits(BUFFER_MAP_READ).unwrap()), Ok(()));
    assert_eq!(check_readable(BufferUsage::from_bits(BUFFER_VERTEX).unwrap()), Err(BufferError::BufferNotReadable));
    assert!(BufferUsage::from_bits(0x8000).is_none());
    let plan = BufferBuilder::new()
        .set_data_slice(&[1, 2, 3])
        .set_usage(BufferUsage::from_bits(BUFFER_VERTEX).unwrap())
        .build();
    assert!(plan.is_ok());
}

#[test]
fn unused_cache_entries_expire() {
    let mut cache: LifetimeCache<&str> = LifetimeCache::new(2);
    cache.insert(7, "pipeline");
    cache.cycle();
    cache.cycle();
    assert_eq!(cache.value(7), Some(&"pipeline"));
    cache.cycle();
    assert_eq!(cache.value(7), None);
    cache.insert(8, "other");
    cache.cycle();
    assert!(cache.touch(8));
    cache.cycle();
    cache.cycle();
    assert_eq!(cache.value(8), Some(&"other"));
    cache.cycle();
    assert_eq!(cache.value(8), None);
    assert!(!cache.touch(8));
}

#[test]
fn staging_buffers_are_reused() {
    let mut staging: StagingBuffer<u32> = StagingBuffer::new();
    assert_eq!(staging.reserve(10), Err(12));
    staging.push(1, 12);
    assert_eq!(staging.reserve(5), Err(8));
    staging.cycle();
    assert_eq!(staging.reserve(5), Ok(0));
}

#[test]
fn atlas_of_raw_images() {
    let layout = TextureAtlasBuilder::new()
        .add_texture_raw("red", vec![255, 0, 0, 255], 1, 1)
        .build()
        .expect("atlas");
    assert_eq!(layout.placements.len(), 1);
    assert_eq!(layout.placements[0].id, "red");
    assert_eq!((layout.placements[0].width, layout.placements[0].height), (1, 1));
    assert!(layout.width >= 1 && layout.height >= 1);
    let x = layout.placements[0].x as usize;
    let y = layout.placements[0].y as usize;
    let at = (y * layout.width as usize + x) * 4;
    assert_eq!(&layout.pixels[at..at + 4], &[255, 0, 0, 255]);
}

#[test]
fn atlas_errors() {
    assert_eq!(TextureAtlasBuilder::new().build().unwrap_err(), TextureAtlasBuilderError::EmptyAtlas);
    let e = TextureAtlasBuilder::new().add_texture_file("a", "missing.png", None).build().unwrap_err();
    assert_eq!(e, TextureAtlasBuilderError::FileNotFound("missing.png".to_string()));
    let e = TextureAtlasBuilder::new().add_texture_file_buf("b", &[1, 2, 3]).build().unwrap_err();
    assert_eq!(e, TextureAtlasBuilderError::InvalidData("b".to_string()));
    let builder = TextureAtlasBuilder::new().add_texture_raw("a", vec![0; 4], 1, 1).add_texture_raw("a", vec![1; 4], 1, 1);
    assert_eq!(builder.items.len(), 1);
    assert!(matches!(builder.items[0].1, ItemQueue::Raw(ref d, 1, 1) if d[0] == 1));
}

#[test]
fn powers_of_two() {
    assert_eq!(power_of_two(0), 1);
    assert_eq!(power_of_two(1), 1);
    assert_eq!(power_of_two(5), 8);
    assert_eq!(power_of_two(64), 64);
    assert_eq!(power_of_two(65), 128);
}

#[test]
fn gray_expansion() {
    assert_eq!(expand_gray_to_rgba(&vec![0, 9]), vec![0, 0, 0, 0, 9, 9, 9, 255]);
    assert_eq!(expand_gray_to_opaque_rgba(&vec![0, 9, 4], 2), vec![0, 0, 0, 255, 9, 9, 9, 255]);
}

#[test]
fn font_styles_and_bad_font_data() {
    assert!(FontStyle::from_bits(3).is_some());
    assert!(FontStyle::from_bits(4).is_none());
    assert!(font_info_from_data(&[0, 1, 2, 3], "x.ttf".to_string()).is_none());
}

fn info(name: &str, vendor: u32, backend: BackendKind, discrete: bool) -> AdapterInfo {
    AdapterInfo { name: name.to_string(), vendor, backend, is_discrete: discrete }
}

#[test]
fn adapters() {
    let a = describe_adapter(&info("RTX", 0x10DE, BackendKind::Vulkan, true));
    assert_eq!(a.vendor, "NVIDIA");
    assert_eq!(a.backend, "Vulkan");
    assert_eq!(a.backend_enum, AdapterBackend::Vulkan);
    assert!(a.is_high_performance);
    let infos = vec![info("iGPU", 0x8086, BackendKind::Gl, false), info("RTX", 0x10DE, BackendKind::Vulkan, true)];
    let list = query_gpu_adapter(&infos);
    assert_eq!(list.len(), 2);
    assert_eq!(list[0].vendor, "Intel");
    assert_eq!(list[0].backend, "OpenGL");
    assert_eq!(select_adapter(&infos, &list[1]), Ok(1));
    let other = describe_adapter(&info("Other", 0x1234, BackendKind::Metal, false));
    assert_eq!(other.vendor, "Unknown");
    assert_eq!(select_adapter(&infos, &other), Err("Adapter not found".to_string()));
}

#[test]
fn atlas_error_messages() {
    assert_eq!(TextureAtlasBuilderError::EmptyAtlas.message(), "Texture atlas cannot be empty");
    assert_eq!(TextureAtlasBuilderError::ExceedsMaxSize(4096, -1).message(), "Texture atlas exceeds maximum size: 4096x-1");
    assert_eq!(TextureAtlasBuilderError::FileNotFound("a.png".to_string()).message(), "Texture file not found: a.png");
    assert_eq!(TextureAtlasBuilderError::InvalidData("b".to_string()).message(), "Invalid texture data for id: b");
}

#[test]
fn glyphs_bake_into_atlas() {
    let glyphs = vec![
        GlyphBitmap { width: 2, height: 1, bitmap: vec![10, 20] },
        GlyphBitmap { width: 0, height: 0, bitmap: vec![] },
        GlyphBitmap { width: 1, height: 2, bitmap: vec![30, 40] },
    ];
    let atlas = bake_glyphs(16, &glyphs).expect("room");
    assert_eq!(atlas.placements.len(), 3);
    assert!(atlas.placements[1].is_none());
    let (x0, y0) = atlas.placements[0].unwrap();
    let (x2, y2) = atlas.placements[2].unwrap();
    let w = atlas.width as usize;
    assert!(atlas.width >= x0 + 2 && atlas.width >= x2 + 1);
    assert_eq!(atlas.buffer.len(), (atlas.width * atlas.height) as usize);
    assert_eq!(atlas.buffer[y0 as usize * w + x0 as usize], 10);
    assert_eq!(atlas.buffer[y0 as usize * w + x0 as usize + 1], 20);
    assert_eq!(atlas.buffer[(y2 as usize + 1) * w + x2 as usize], 40);
    let too_big = vec![GlyphBitmap { width: 32, height: 32, bitmap: vec![1; 1024] }];
    assert_eq!(bake_glyphs(16, &too_big).unwrap_err(), 0);
}

#[test]
fn write_mask_reads_back() {
    for mask in 0u32..=15 {
        let constant = write_mask_constant(Some(mask));
        let blend = TextureBlend::new(
            BlendOperation::Add,
            BlendOperation::Add,
            BlendFactor::One,
            BlendFactor::Zero,
            BlendFactor::One,
            BlendFactor::Zero,
            constant,
        );
        let expected = if mask == 0 { 15 } else { mask };
        assert_eq!(blend.color_write_mask(), expected);
    }
    assert_eq!(write_mask_constant(None), [0, 0, 0, 0]);
    assert_eq!(write_mask_constant(Some(5)), [0xFF, 0, 0xFF, 0]);
}

fn png_bytes(width: u32, height: u32, texels: Vec<u8>) -> Vec<u8> {
    let img = image::RgbaImage::from_raw(width, height, texels).expect("texels");
    let mut out = std::io::Cursor::new(Vec::new());
    image::DynamicImage::ImageRgba8(img).write_to(&mut out, image::ImageFormat::Png).expect("encode");
    out.into_inner()
}

#[test]
fn encoded_images_decode_to_rgba() {
    let png = png_bytes(2, 1, vec![1, 2, 3, 4, 5, 6, 7, 8]);
    let builder = TextureBuilder::new().with_data(&png);
    let plan = plan_texture_from_source(&builder, None, None).expect("fits").expect("plan");
    assert_eq!(plan.size.w, 2);
    assert_eq!(plan.size.h, 1);
    let upload = plan.upload.expect("upload");
    assert_eq!(&upload[0..8], &[1, 2, 3, 4, 5, 6, 7, 8]);
    let layout = TextureAtlasBuilder::new().add_texture_file_buf("px", &png).build().expect("atlas");
    let p = &layout.placements[0];
    assert_eq!((p.width, p.height), (2, 1));
    let at = (p.y as usize * layout.width as usize + p.x as usize) * 4;
    assert_eq!(&layout.pixels[at..at + 8], &[1, 2, 3, 4, 5, 6, 7, 8]);
}

#[test]
fn image_without_room_is_refused() {
    let e = TextureAtlasBuilder::new().add_texture_raw("huge", vec![0; 2048 * 2048 * 4], 2048, 2048).build().unwrap_err();
    assert_eq!(e, TextureAtlasBuilderError::InvalidData("Failed to pack texture with id: huge".to_string()));
}

fn apart(a: (i32, i32, i32, i32), b: (i32, i32, i32, i32), pad: i32) -> bool {
    a.0 + a.2 + pad <= b.0 || b.0 + b.2 + pad <= a.0 || a.1 + a.3 + pad <= b.1 || b.1 + b.3 + pad <= a.1
}

#[test]
fn atlas_placements_are_apart_and_found_by_id() {
    let mut b = TextureAtlasBuilder::new();
    let sizes = [(30u32, 20u32), (25, 25), (40, 10), (10, 40), (5, 5)];
    for (i, (w, h)) in sizes.iter().enumerate() {
        b = b.add_texture_raw(&format!("t{}", i), vec![i as u8; (w * h * 4) as usize], *w, *h);
    }
    let layout = b.build().expect("atlas");
    let rects: Vec<(i32, i32, i32, i32)> = layout.placements.iter().map(|p| (p.x, p.y, p.width, p.height)).collect();
    for i in 0..rects.len() {
        for j in i + 1..rects.len() {
            assert!(apart(rects[i], rects[j], 1), "{:?} and {:?} overlap", rects[i], rects[j]);
        }
    }
    assert_eq!(layout.get_id("t2"), Some(rects[2]));
    assert_eq!(layout.get_id("t2").map(|r| (r.2, r.3)), Some((40, 10)));
    assert_eq!(layout.get_id("missing"), None);
}

#[test]
fn first_image_that_fits_is_placed() {
    let layout = TextureAtlasBuilder::new().add_texture_raw("big", vec![7; 2046 * 2046 * 4], 2046, 2046).build().expect("fits");
    assert_eq!(layout.get_id("big"), Some((1, 1, 2046, 2046)));
}

#[test]
fn glyphs_are_placed_apart() {
    let glyphs: Vec<GlyphBitmap> = (1..=8).map(|i| GlyphBitmap { width: i, height: 9 - i, bitmap: vec![1; (i * (9 - i)) as usize] }).collect();
    let atlas = bake_glyphs(32, &glyphs).expect("room");
    let rects: Vec<(i32, i32, i32, i32)> =
        atlas.placements.iter().zip(&glyphs).map(|(p, g)| { let (x, y) = p.unwrap(); (x, y, g.width, g.height) }).collect();
    for i in 0..rects.len() {
        for j in i + 1..rects.len() {
            assert!(apart(rects[i], rects[j], 2), "{:?} and {:?} overlap", rects[i], rects[j]);
        }
    }
}

#[test]
fn glyph_with_empty_size_finds_no_room() {
    let glyphs = vec![GlyphBitmap { width: 0, height: 3, bitmap: vec![1] }];
    assert_eq!(bake_glyphs(16, &glyphs).unwrap_err(), 0);
}

#[test]
fn resize_keeps_what_could_be_read() {
    let readable = BufferUsage { bits: BUFFER_COPY_SRC | BUFFER_MAP_READ };
    assert!(resize_keeps_contents(readable));
    assert!(!resize_keeps_contents(BufferUsage { bits: BUFFER_COPY_SRC }));
    assert_eq!(resize_plan(readable, Some(vec![1, 2, 3]), 5), Ok(Some(vec![1, 2, 3, 0, 0])));
    assert_eq!(resize_plan(readable, Some(vec![1, 2, 3]), 2), Ok(Some(vec![1, 2])));
    assert_eq!(resize_plan(BufferUsage { bits: BUFFER_COPY_SRC }, Some(vec![1, 2, 3]), 2), Ok(None));
    assert_eq!(resize_plan(readable, None, 8), Ok(None));
    assert_eq!(resize_plan(readable, Some(vec![1]), 0), Err(BufferError::InvalidSize));
}

#[test]
fn raw_writes_and_indirect_draws_are_checked() {
    let dst = BufferUsage { bits: BUFFER_COPY_DST };
    assert_eq!(check_raw_write(dst, 16, 16), Ok(()));
    assert_eq!(check_raw_write(dst, 16, 17), Err(BufferError::InvalidSize));
    assert_eq!(check_raw_write(BufferUsage { bits: BUFFER_VERTEX }, 16, 4), Err(BufferError::BufferNotWritable));
    assert!(can_draw_indirect(BufferUsage { bits: BUFFER_INDIRECT | BUFFER_COPY_DST }));
    assert!(!can_draw_indirect(BufferUsage { bits: BUFFER_VERTEX }));
}

#[test]
fn texture_copies_are_checked() {
    let a = CopyTexture { format: TextureFormat::Rgba8Unorm, width: 4, height: 2, mip_level_count: 1 };
    assert_eq!(check_texture_copy(a, a), Ok((4, 2)));
    assert_eq!(check_texture_copy(a, CopyTexture { format: TextureFormat::Bgra8Unorm, ..a }), Err(TextureCopyError::FormatMismatch));
    assert_eq!(check_texture_copy(a, CopyTexture { height: 3, ..a }), Err(TextureCopyError::SizeMismatch));
    assert_eq!(check_texture_copy(CopyTexture { mip_level_count: 2, ..a }, a), Err(TextureCopyError::SourceMipLevels));
    assert_eq!(check_texture_copy(a, CopyTexture { mip_level_count: 3, ..a }), Err(TextureCopyError::DestinationMipLevels));
    assert_eq!(TextureCopyError::SizeMismatch.message(), "Source and destination textures must have the same size");
}

#[test]
fn image_files_decode_by_their_extension() {
    let png = png_bytes(1, 1, vec![9, 8, 7, 6]);
    let layout = TextureAtlasBuilder::new().add_texture_file("a", "a.png", Some(png.clone())).build().expect("atlas");
    assert_eq!(layout.get_id("a").map(|r| (r.2, r.3)), Some((1, 1)));
    let e = TextureAtlasBuilder::new().add_texture_file("b", "b.txt", Some(png.clone())).build().unwrap_err();
    assert_eq!(e, TextureAtlasBuilderError::InvalidData("b.txt".to_string()));
    let builder = TextureBuilder::new().with_file("c.png");
    assert!(plan_texture_from_source(&builder, Some(&png), None).expect("fits").is_ok());
    let builder = TextureBuilder::new().with_file("c.bin");
    assert_eq!(plan_texture_from_source(&builder, Some(&png), None).expect("fits").unwrap_err(), TextureError::InvalidTextureData);
}

#[test]
fn fonts_come_from_cache_file_or_system() {
    let fonts = vec![
        FontInfo { name: "Sans".to_string(), path: "/f/sans.ttf".to_string(), style: FontStyle::from_bits(0).unwrap() },
        FontInfo { name: "Mono".to_string(), path: "/f/mono.ttf".to_string(), style: FontStyle::from_bits(0).unwrap() },
        FontInfo { name: "Mono".to_string(), path: "/f/mono2.ttf".to_string(), style: FontStyle::from_bits(0).unwrap() },
    ];
    assert_eq!(font_source(true, true, &fonts, "Mono"), FontSource::Cached);
    assert_eq!(font_source(false, true, &fonts, "Mono"), FontSource::File);
    assert_eq!(font_source(false, false, &fonts, "Mono"), FontSource::System(1));
    assert_eq!(font_source(false, false, &fonts, "Serif"), FontSource::Missing);
    let ranges = [(0x20u32, 0x7Eu32)];
    assert_eq!(font_request_key("Mono", &ranges, 16.0f32.to_bits()), font_request_key("Mono", &ranges, 16.0f32.to_bits()));
    assert_ne!(font_request_key("Mono", &ranges, 16.0f32.to_bits()), font_request_key("Mono", &ranges, 18.0f32.to_bits()));
}
