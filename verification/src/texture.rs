//! Textures: how a texture builder's settings become a texture, how texel
//! rows are padded for upload and unpadded after download, and the mapping
//! of a texture's contents.
use vstd::prelude::*;

use crate::texture_types::{
    format_size, is_depth_stencil_format, SampleCount, TextureFormat, TextureUsage,
    USAGE_RENDER_ATTACHMENT,
};

verus! {

/// A rectangle: position and size.
#[derive(Debug, Clone, Copy, PartialEq, Eq, Hash, Structural)]
pub struct Rect {
    pub x: i32,
    pub y: i32,
    pub w: i32,
    pub h: i32,
}

impl Rect {
    /// The rectangle at `(x, y)` of size `w` by `h`.
    pub fn new(x: i32, y: i32, w: i32, h: i32) -> (r: Rect)
        ensures
            r == (Rect { x, y, w, h }),
    {
        Rect { x, y, w, h }
    }
}

/// Bytes per row that a buffer-to-texture copy must be aligned to.
pub const COPY_BYTES_PER_ROW_ALIGNMENT: u32 = 256;

/// Why a texture operation failed.
#[derive(Debug, Clone, Copy, PartialEq, Eq, Hash, Structural)]
pub enum TextureError {
    InvalidGPUContext,
    InvalidTextureData,
    InvalidTextureSize,
    InvalidTextureFormat,
    FailedToWrite,
    FailedToRead,
    AlreadyMapped,
    NotMapped,
}

impl TextureError {
    /// The message of this error.
    pub fn message(&self) -> (r: &'static str)
        ensures
            r@ == texture_error_message(*self),
    {
        match self {
            TextureError::InvalidGPUContext => "Invalid GPU context",
            TextureError::InvalidTextureData => "Invalid texture data",
            TextureError::InvalidTextureSize => "Invalid texture size",
            TextureError::InvalidTextureFormat => "Invalid texture format",
            TextureError::FailedToWrite => "Failed to write to texture",
            TextureError::FailedToRead => "Failed to read from texture",
            TextureError::AlreadyMapped => "Texture is already mapped",
            TextureError::NotMapped => "Texture is not mapped",
        }
    }
}

/// The message of a texture error.
pub open spec fn texture_error_message(e: TextureError) -> Seq<char> {
    match e {
        TextureError::InvalidGPUContext => "Invalid GPU context"@,
        TextureError::InvalidTextureData => "Invalid texture data"@,
        TextureError::InvalidTextureSize => "Invalid texture size"@,
        TextureError::InvalidTextureFormat => "Invalid texture format"@,
        TextureError::FailedToWrite => "Failed to write to texture"@,
        TextureError::FailedToRead => "Failed to read from texture"@,
        TextureError::AlreadyMapped => "Texture is already mapped"@,
        TextureError::NotMapped => "Texture is not mapped"@,
    }
}

/// Whether a mapped texture is read from or written to.
#[derive(Debug, Clone, Copy, PartialEq, Eq, Hash, Structural)]
pub enum TextureMappedType {
    Read,
    Write,
}

/// Where the contents of a new texture come from.
#[derive(Debug, Clone, Copy)]
pub enum TextureBuilderData<'a> {
    Empty,
    File(&'a str),
    Data(&'a [u8]),
    Raw(Rect, &'a [u8], TextureFormat),
    DepthStencil(Rect, Option<TextureFormat>),
    RenderTarget(Rect, Option<TextureFormat>),
}

/// The settings of a texture to create.
#[derive(Debug, Clone, Copy)]
pub struct TextureBuilder<'a> {
    pub sample_count: SampleCount,
    pub mip_level_count: u32,
    pub usage: TextureUsage,
    pub data: TextureBuilderData<'a>,
}

impl<'a> TextureBuilder<'a> {
    /// One sample, one mip level, no usage, no contents.
    pub fn new() -> (r: TextureBuilder<'a>)
        ensures
            r.sample_count == SampleCount::SampleCount1,
            r.mip_level_count == 1,
            r.usage.bits == 0,
            r.data is Empty,
    {
        TextureBuilder {
            sample_count: SampleCount::SampleCount1,
            mip_level_count: 1,
            usage: TextureUsage::none(),
            data: TextureBuilderData::Empty,
        }
    }

    /// Contents decoded from an image file.
    pub fn with_file(self, file_path: &'a str) -> (r: TextureBuilder<'a>)
        ensures
            r == (TextureBuilder { data: TextureBuilderData::File(file_path), ..self }),
    {
        TextureBuilder { data: TextureBuilderData::File(file_path), ..self }
    }

    /// Contents decoded from an encoded image in memory.
    pub fn with_data(self, data: &'a [u8]) -> (r: TextureBuilder<'a>)
        ensures
            r == (TextureBuilder { data: TextureBuilderData::Data(data), ..self }),
    {
        TextureBuilder { data: TextureBuilderData::Data(data), ..self }
    }

    /// Raw texels of the given size and format; depth and stencil formats
    /// cannot take raw data (the library panics on them).
    pub fn with_raw(self, data: &'a [u8], size: Rect, format: TextureFormat) -> (r: TextureBuilder<'a>)
        requires
            !is_depth_stencil_format(format),
        ensures
            r == (TextureBuilder { data: TextureBuilderData::Raw(size, data, format), ..self }),
    {
        TextureBuilder { data: TextureBuilderData::Raw(size, data, format), ..self }
    }

    /// A render target of the given, non-empty, size; without a format the
    /// surface's format is taken, else `Rgba8UnormSrgb`.
    pub fn with_render_target(self, size: Rect, format: Option<TextureFormat>) -> (r: TextureBuilder<'a>)
        requires
            size.w != 0 && size.h != 0,
        ensures
            r == (TextureBuilder { data: TextureBuilderData::RenderTarget(size, format), ..self }),
    {
        TextureBuilder { data: TextureBuilderData::RenderTarget(size, format), ..self }
    }

    /// The number of samples per texel.
    pub fn with_sample_count(self, sample_count: SampleCount) -> (r: TextureBuilder<'a>)
        ensures
            r == (TextureBuilder { sample_count, ..self }),
    {
        TextureBuilder { sample_count, ..self }
    }

    /// A depth and stencil texture of the given, non-empty, size, in
    /// `Depth32Float` unless another format is given.
    pub fn with_depth_stencil(self, size: Rect, format: Option<TextureFormat>) -> (r: TextureBuilder<'a>)
        requires
            size.w != 0 && size.h != 0,
        ensures
            r == (TextureBuilder {
                data: TextureBuilderData::DepthStencil(
                    size,
                    Some(
                        match format {
                            Some(f) => f,
                            None => TextureFormat::Depth32Float,
                        },
                    ),
                ),
                ..self
            }),
    {
        let f = match format {
            Some(f) => f,
            None => TextureFormat::Depth32Float,
        };
        TextureBuilder { data: TextureBuilderData::DepthStencil(size, Some(f)), ..self }
    }

    /// The number of mip levels.
    pub fn with_mip_level_count(self, mip_level_count: u32) -> (r: TextureBuilder<'a>)
        ensures
            r == (TextureBuilder { mip_level_count, ..self }),
    {
        TextureBuilder { mip_level_count, ..self }
    }

    /// The usage; render attachments are made with
    /// [`TextureBuilder::with_render_target`] only (the library panics on
    /// such a usage here).
    pub fn with_usage(self, usage: TextureUsage) -> (r: TextureBuilder<'a>)
        requires
            usage.bits & USAGE_RENDER_ATTACHMENT != USAGE_RENDER_ATTACHMENT,
        ensures
            r == (TextureBuilder { usage, ..self }),
    {
        TextureBuilder { usage, ..self }
    }
}

// ---------------------------------------------------------------------------
// Row padding
// ---------------------------------------------------------------------------

/// `n` rounded up to a multiple of 256.
pub open spec fn padded_row(n: int) -> int {
    ((n + 255) / 256) * 256
}

/// The bytes of `height` rows of `row` bytes each, every row followed by
/// zeros up to a multiple of 256 bytes.
pub open spec fn padded_rows(data: Seq<u8>, row: int, height: int) -> Seq<u8> {
    Seq::new(
        (padded_row(row) * height) as nat,
        |i: int| {
            let c = i % padded_row(row);
            if c < row {
                data[(i / padded_row(row)) * row + c]
            } else {
                0u8
            }
        },
    )
}

/// The first `row` bytes of each of `height` rows of `stride` bytes.
pub open spec fn unpadded_rows(raw: Seq<u8>, row: int, stride: int, height: int) -> Seq<u8> {
    Seq::new((row * height) as nat, |i: int| raw[(i / row) * stride + i % row])
}

/// Bytes per row padded to the copy alignment.
pub fn padded_bytes_per_row(unpadded: u32) -> (r: u32)
    requires
        unpadded as int + 255 <= u32::MAX,
    ensures
        r as int == padded_row(unpadded as int),
{
    ((unpadded + 255) / 256) * 256
}

proof fn lemma_padded_row_bounds(n: int)
    requires
        n >= 0,
    ensures
        n <= padded_row(n) < n + 256,
        padded_row(n) % 256 == 0,
{
    assert(((n + 255) / 256) * 256 <= n + 255) by (nonlinear_arith)
        requires n >= 0;
    assert(((n + 255) / 256) * 256 >= n) by (nonlinear_arith)
        requires n >= 0;
    assert((((n + 255) / 256) * 256) % 256 == 0) by (nonlinear_arith)
        requires n >= 0;
}

/// Pads each of `height` rows of `width` texels of `bytes_per_pixel` bytes
/// with zeros to a multiple of 256 bytes, as a texture upload needs.
pub fn pad_rows(data: &[u8], bytes_per_pixel: u32, width: u32, height: u32) -> (r: Vec<u8>)
    requires
        bytes_per_pixel as int * width as int + 255 <= u32::MAX,
        data@.len() >= bytes_per_pixel as int * width as int * height as int,
        padded_row(bytes_per_pixel as int * width as int) * height as int <= usize::MAX,
    ensures
        r@ == padded_rows(data@, bytes_per_pixel as int * width as int, height as int),
{
    let row = bytes_per_pixel * width;
    let padded = padded_bytes_per_row(row);
    proof {
        lemma_padded_row_bounds(row as int);
    }
    let ghost target = padded_rows(data@, row as int, height as int);
    let dlen = data.len();
    let mut out: Vec<u8> = Vec::new();
    let mut y: usize = 0;
    while y < height as usize
        invariant
            dlen == data@.len(),
            row as int == bytes_per_pixel as int * width as int,
            padded as int == padded_row(row as int),
            row <= padded,
            padded > 0 || row == 0,
            y <= height,
            data@.len() >= row as int * height as int,
            padded as int * height as int <= usize::MAX,
            target == padded_rows(data@, row as int, height as int),
            out@ == target.take(y as int * padded as int),
        decreases height - y,
    {
        let mut x: usize = 0;
        while x < padded as usize
            invariant
                dlen == data@.len(),
                row as int == bytes_per_pixel as int * width as int,
                padded as int == padded_row(row as int),
                row <= padded,
                y < height,
                x <= padded,
                data@.len() >= row as int * height as int,
                padded as int * height as int <= usize::MAX,
                target == padded_rows(data@, row as int, height as int),
                out@ == target.take(y as int * padded as int + x as int),
            decreases padded - x,
        {
            proof {
                assert(y as int * padded as int + x < height as int * padded as int) by (nonlinear_arith)
                    requires y < height, x < padded;
                assert(height as int * padded as int == padded as int * height as int) by (nonlinear_arith);
            }
            let b: u8 = if x < row as usize {
                proof {
                    assert((y as int * row as int + x) < row as int * height as int) by (nonlinear_arith)
                        requires y < height, x < row, row >= 0;
                }
                data[y * row as usize + x]
            } else {
                0
            };
            proof {
                let i = y as int * padded as int + x as int;
                assert(i / padded as int == y as int && i % padded as int == x as int) by (nonlinear_arith)
                    requires i == y as int * padded as int + x as int, 0 <= x < padded, y >= 0;
                assert(target[i] == b);
                assert(target.take(i + 1) =~= target.take(i).push(b));
            }
            out.push(b);
            x = x + 1;
        }
        proof {
            assert(y as int * padded as int + padded as int == (y + 1) as int * padded as int) by (nonlinear_arith);
        }
        y = y + 1;
    }
    proof {
        assert(height as int * padded as int == padded as int * height as int) by (nonlinear_arith);
        assert(target.take(height as int * padded as int) =~= target);
    }
    out
}

/// Keeps the first `row` bytes of each of `height` rows of `stride` bytes,
/// as the download of a texture needs.
pub fn unpad_rows(raw: &[u8], row: u32, stride: u32, height: u32) -> (r: Vec<u8>)
    requires
        row <= stride,
        raw@.len() >= stride as int * height as int,
        row as int * height as int <= usize::MAX,
    ensures
        r@ == unpadded_rows(raw@, row as int, stride as int, height as int),
{
    let ghost target = unpadded_rows(raw@, row as int, stride as int, height as int);
    let rlen = raw.len();
    let mut out: Vec<u8> = Vec::new();
    let mut y: usize = 0;
    while y < height as usize
        invariant
            rlen == raw@.len(),
            row <= stride,
            y <= height,
            raw@.len() >= stride as int * height as int,
            row as int * height as int <= usize::MAX,
            target == unpadded_rows(raw@, row as int, stride as int, height as int),
            out@ == target.take(y as int * row as int),
        decreases height - y,
    {
        let mut x: usize = 0;
        while x < row as usize
            invariant
                rlen == raw@.len(),
                row <= stride,
                y < height,
                x <= row,
                raw@.len() >= stride as int * height as int,
                row as int * height as int <= usize::MAX,
                target == unpadded_rows(raw@, row as int, stride as int, height as int),
                out@ == target.take(y as int * row as int + x as int),
            decreases row - x,
        {
            proof {
                assert(y as int * stride as int + x < stride as int * height as int) by (nonlinear_arith)
                    requires y < height, x < row, row <= stride;
                assert(y as int * row as int + x < row as int * height as int) by (nonlinear_arith)
                    requires y < height, x < row;
                                assert(y as int * stride as int <= usize::MAX);
            }
            let b = raw[y * stride as usize + x];
            proof {
                let i = y as int * row as int + x as int;
                assert(i / row as int == y as int && i % row as int == x as int) by (nonlinear_arith)
                    requires i == y as int * row as int + x as int, 0 <= x < row, y >= 0;
                assert(target[i] == b);
                assert(target.take(i + 1) =~= target.take(i).push(b));
            }
            out.push(b);
            x = x + 1;
        }
        proof {
            assert(y as int * row as int + row as int == (y + 1) as int * row as int) by (nonlinear_arith);
        }
        y = y + 1;
    }
    proof {
        assert(height as int * row as int == row as int * height as int) by (nonlinear_arith);
        assert(target.take(height as int * row as int) =~= target);
    }
    out
}

/// Padding rows for upload and taking the rows back after download gives
/// the texels back.
pub proof fn lemma_unpad_pad(data: Seq<u8>, row: int, height: int)
    requires
        row > 0,
        height >= 0,
        data.len() == row * height,
    ensures
        unpadded_rows(padded_rows(data, row, height), row, padded_row(row), height) == data,
{
    lemma_padded_row_bounds(row);
    let p = padded_row(row);
    let padded = padded_rows(data, row, height);
    let back = unpadded_rows(padded, row, p, height);
    assert forall|i: int| 0 <= i < data.len() implies back[i] == data[i] by {
        let y = i / row;
        let x = i % row;
        assert(0 <= x < row && 0 <= y < height && i == y * row + x) by (nonlinear_arith)
            requires 0 <= i < row * height, row > 0, y == i / row, x == i % row;
        let j = y * p + x;
        assert(0 <= j < p * height && j / p == y && j % p == x) by (nonlinear_arith)
            requires 0 <= x < row, row <= p, 0 <= y < height, j == y * p + x;
        assert(padded[j] == data[y * row + x]);
    }
    assert(back =~= data);
}

// ---------------------------------------------------------------------------
// Creation
// ---------------------------------------------------------------------------

/// What creating a texture comes to: its size, sampling, format and usage,
/// and the padded texel rows to upload, if any.
#[derive(Debug, Clone)]
pub struct TexturePlan {
    pub size: Rect,
    pub sample_count: SampleCount,
    pub mip_level_count: u32,
    pub format: TextureFormat,
    pub usage: TextureUsage,
    pub bytes_per_row: u32,
    pub upload: Option<Vec<u8>>,
}

/// Whether `data` holds enough texels for a `size.w` by `size.h` texture
/// of `format`, with row sizes that fit the machine.
pub open spec fn upload_fits(data: Seq<u8>, size: Rect, format: TextureFormat) -> bool {
    let row = format_size(format) as int * size.w as int;
    &&& size.w >= 0 && size.h >= 0
    &&& row + 255 <= u32::MAX
    &&& padded_row(row) * size.h as int <= usize::MAX
    &&& data.len() >= row * size.h as int
}

/// Plans a texture with contents: fails with `InvalidTextureData` for an
/// empty size (a texture of no texels cannot be made) or empty contents;
/// otherwise the contents' rows padded for upload.
pub fn plan_upload(
    size: Rect,
    sample_count: SampleCount,
    mip_level_count: u32,
    format: TextureFormat,
    usage: TextureUsage,
    data: &[u8],
) -> (res: Result<TexturePlan, TextureError>)
    requires
        size.w != 0 && size.h != 0 && data@.len() != 0 ==> upload_fits(data@, size, format),
    ensures
        (size.w == 0 || size.h == 0 || data@.len() == 0) <==> res is Err,
        res is Err ==> res == Err::<TexturePlan, TextureError>(TextureError::InvalidTextureData),
        res matches Ok(p) ==> p.size == size && p.sample_count == sample_count && p.mip_level_count == mip_level_count
            && p.format == format && p.usage == usage
            && p.bytes_per_row as int == padded_row(format_size(format) as int * size.w as int)
            && p.upload is Some && p.upload->Some_0@ == padded_rows(data@, format_size(format) as int * size.w as int, size.h as int),
{
    if size.w == 0 || size.h == 0 {
        return Err(TextureError::InvalidTextureData);
    }
    if data.len() == 0 {
        return Err(TextureError::InvalidTextureData);
    }
    let bpp = format.get_size();
    let width = size.w as u32;
    let height = size.h as u32;
    let upload = pad_rows(data, bpp, width, height);
    let bytes_per_row = padded_bytes_per_row(bpp * width);
    Ok(TexturePlan { size, sample_count, mip_level_count, format, usage, bytes_per_row, upload: Some(upload) })
}

/// Plans a texture that is rendered into: fails with `InvalidTextureData`
/// for an empty size; its usage gains the render attachment bit.
pub fn plan_attachment(
    size: Rect,
    sample_count: SampleCount,
    mip_level_count: u32,
    format: TextureFormat,
    usage: TextureUsage,
) -> (res: Result<TexturePlan, TextureError>)
    requires
        size.w >= 0,
        format_size(format) as int * size.w as int + 255 <= u32::MAX,
    ensures
        (size.w == 0 || size.h == 0) <==> res is Err,
        res is Err ==> res == Err::<TexturePlan, TextureError>(TextureError::InvalidTextureData),
        res matches Ok(p) ==> p.size == size && p.sample_count == sample_count && p.mip_level_count == mip_level_count
            && p.format == format && p.usage.bits == usage.bits | USAGE_RENDER_ATTACHMENT && p.upload is None
            && p.bytes_per_row as int == padded_row(format_size(format) as int * size.w as int),
{
    if size.w == 0 || size.h == 0 {
        return Err(TextureError::InvalidTextureData);
    }
    let bytes_per_row = padded_bytes_per_row(format.get_size() * size.w as u32);
    Ok(TexturePlan {
        size,
        sample_count,
        mip_level_count,
        format,
        usage: usage.union(TextureUsage::render_attachment()),
        bytes_per_row,
        upload: None,
    })
}

/// The format a render target takes: the one asked for, else the surface's,
/// else `Rgba8UnormSrgb`.
pub open spec fn render_target_format(asked: Option<TextureFormat>, surface: Option<TextureFormat>) -> TextureFormat {
    match asked {
        Some(f) => f,
        None => match surface {
            Some(f) => f,
            None => TextureFormat::Rgba8UnormSrgb,
        },
    }
}

/// Plans the texture that a builder describes. `decoded` holds, for file or
/// encoded contents, the decoded image as width, height and RGBA texels
/// (`None` where it could not be decoded); `surface` is the format of the
/// window surface, if there is one. Decoded images become `Rgba8Unorm`
/// textures; raw texels keep their format; depth textures and render
/// targets are rendered into. Empty builders, undecodable images, empty
/// sizes and empty contents fail with `InvalidTextureData`.
pub fn plan_texture(
    builder: &TextureBuilder,
    decoded: Option<(u32, u32, Vec<u8>)>,
    surface: Option<TextureFormat>,
) -> (res: Result<TexturePlan, TextureError>)
    requires
        match builder.data {
            TextureBuilderData::File(_) | TextureBuilderData::Data(_) => match decoded {
                Some((w, h, px)) => w <= i32::MAX && h <= i32::MAX && w != 0 && h != 0 && px@.len() != 0
                    ==> upload_fits(px@, Rect { x: 0, y: 0, w: w as i32, h: h as i32 }, TextureFormat::Rgba8Unorm),
                None => true,
            },
            TextureBuilderData::Raw(size, data, format) => size.w != 0 && size.h != 0 && data@.len() != 0
                ==> upload_fits(data@, size, format),
            TextureBuilderData::DepthStencil(size, format) => format is Some && size.w >= 0
                && format_size(format->Some_0) as int * size.w as int + 255 <= u32::MAX,
            TextureBuilderData::RenderTarget(size, format) => size.w >= 0
                && format_size(render_target_format(format, surface)) as int * size.w as int + 255 <= u32::MAX,
            TextureBuilderData::Empty => true,
        },
    ensures
        match builder.data {
            TextureBuilderData::Empty => res == Err::<TexturePlan, TextureError>(TextureError::InvalidTextureData),
            TextureBuilderData::File(_) | TextureBuilderData::Data(_) => match decoded {
                None => res == Err::<TexturePlan, TextureError>(TextureError::InvalidTextureData),
                Some((w, h, px)) => if w > i32::MAX || h > i32::MAX || w == 0 || h == 0 || px@.len() == 0 {
                    res == Err::<TexturePlan, TextureError>(TextureError::InvalidTextureData)
                } else {
                    res matches Ok(p) && p.size == (Rect { x: 0, y: 0, w: w as i32, h: h as i32 })
                        && p.format == TextureFormat::Rgba8Unorm && p.usage == builder.usage
                        && p.sample_count == builder.sample_count && p.mip_level_count == builder.mip_level_count
                        && p.upload is Some && p.upload->Some_0@ == padded_rows(px@, 4 * w as int, h as int)
                },
            },
            TextureBuilderData::Raw(size, data, format) => if size.w == 0 || size.h == 0 || data@.len() == 0 {
                res == Err::<TexturePlan, TextureError>(TextureError::InvalidTextureData)
            } else {
                res matches Ok(p) && p.size == size && p.format == format && p.usage == builder.usage
                    && p.sample_count == builder.sample_count && p.mip_level_count == builder.mip_level_count
                    && p.upload is Some && p.upload->Some_0@ == padded_rows(data@, format_size(format) as int * size.w as int, size.h as int)
            },
            TextureBuilderData::DepthStencil(size, format) => if size.w == 0 || size.h == 0 {
                res == Err::<TexturePlan, TextureError>(TextureError::InvalidTextureData)
            } else {
                res matches Ok(p) && p.size == size && p.format == format->Some_0
                    && p.usage.bits == builder.usage.bits | USAGE_RENDER_ATTACHMENT && p.upload is None
                    && p.sample_count == builder.sample_count && p.mip_level_count == builder.mip_level_count
            },
            TextureBuilderData::RenderTarget(size, format) => if size.w == 0 || size.h == 0 {
                res == Err::<TexturePlan, TextureError>(TextureError::InvalidTextureData)
            } else {
                res matches Ok(p) && p.size == size && p.format == render_target_format(format, surface)
                    && p.usage.bits == builder.usage.bits | USAGE_RENDER_ATTACHMENT && p.upload is None
                    && p.sample_count == builder.sample_count && p.mip_level_count == builder.mip_level_count
            },
        },
{
    match builder.data {
        TextureBuilderData::Empty => Err(TextureError::InvalidTextureData),
        TextureBuilderData::File(_) | TextureBuilderData::Data(_) => match decoded {
            None => Err(TextureError::InvalidTextureData),
            Some((w, h, px)) => {
                if w > i32::MAX as u32 || h > i32::MAX as u32 {
                    return Err(TextureError::InvalidTextureData);
                }
                let size = Rect { x: 0, y: 0, w: w as i32, h: h as i32 };
                plan_upload(size, builder.sample_count, builder.mip_level_count, TextureFormat::Rgba8Unorm, builder.usage, px.as_slice())
            },
        },
        TextureBuilderData::Raw(size, data, format) => {
            plan_upload(size, builder.sample_count, builder.mip_level_count, format, builder.usage, data)
        },
        TextureBuilderData::DepthStencil(size, format) => {
            let f = match format {
                Some(f) => f,
                None => {
                    assert(false);
                    return Err(TextureError::InvalidTextureFormat);
                },
            };
            plan_attachment(size, builder.sample_count, builder.mip_level_count, f, builder.usage)
        },
        TextureBuilderData::RenderTarget(size, format) => {
            let f = match format {
                Some(f) => f,
                None => match surface {
                    Some(f) => f,
                    None => TextureFormat::Rgba8UnormSrgb,
                },
            };
            plan_attachment(size, builder.sample_count, builder.mip_level_count, f, builder.usage)
        },
    }
}

/// What decoding an encoded image gives: its width, height and RGBA
/// texels, or `None` where the bytes are no image the decoder reads.
pub uninterp spec fn decoded_rgba(data: Seq<u8>) -> Option<(u32, u32, Seq<u8>)>;

/// Calls `image::load_from_memory` and `to_rgba8`: decodes an image whose
/// format is guessed from its bytes, and gives its size and its texels as
/// RGBA, four bytes per texel, at least width times height of them.
#[verifier::external_body]
pub(crate) fn decode_image_rgba(data: &[u8]) -> (r: Option<(u32, u32, Vec<u8>)>)
    ensures
        match r {
            Some((w, h, px)) => decoded_rgba(data@) == Some((w, h, px@)) && px@.len() >= w as int * h as int * 4,
            None => decoded_rgba(data@) is None,
        },
{
    match image::load_from_memory(data) {
        Ok(img) => {
            let rgba = img.to_rgba8();
            let (w, h) = rgba.dimensions();
            Some((w, h, rgba.into_raw()))
        },
        Err(_) => None,
    }
}

/// What `image::open` gives for a file at `path` with these contents: the
/// format is the one the path's extension names (none, and so no image,
/// where it names none), and the result is the width, height and RGBA
/// texels of the decoded image, or `None` where the contents are no image
/// of that format.
pub uninterp spec fn decoded_file_rgba(path: Seq<char>, data: Seq<u8>) -> Option<(u32, u32, Seq<u8>)>;

/// Calls `image::ImageFormat::from_path`, `image::load_from_memory_with_format`
/// and `to_rgba8`: decodes the contents of the file at `path` in the format
/// its extension names, as `image::open` does, and gives its size and its
/// texels as RGBA, four bytes per texel, at least width times height of
/// them.
#[verifier::external_body]
pub(crate) fn decode_image_file_rgba(path: &str, data: &[u8]) -> (r: Option<(u32, u32, Vec<u8>)>)
    ensures
        match r {
            Some((w, h, px)) => decoded_file_rgba(path@, data@) == Some((w, h, px@)) && px@.len() >= w as int * h as int * 4,
            None => decoded_file_rgba(path@, data@) is None,
        },
{
    let format = match image::ImageFormat::from_path(path) {
        Ok(f) => f,
        Err(_) => return None,
    };
    match image::load_from_memory_with_format(data, format) {
        Ok(img) => {
            let rgba = img.to_rgba8();
            let (w, h) = rgba.dimensions();
            Some((w, h, rgba.into_raw()))
        },
        Err(_) => None,
    }
}

/// Whether a decoded image fits the machine's sizes for upload.
pub open spec fn decoded_fits(w: u32, h: u32, px: Seq<u8>) -> bool {
    w <= i32::MAX && h <= i32::MAX && (w != 0 && h != 0 && px.len() != 0
        ==> upload_fits(px, Rect { x: 0, y: 0, w: w as i32, h: h as i32 }, TextureFormat::Rgba8Unorm))
}

fn check_decoded_fits(w: u32, h: u32, px: &Vec<u8>) -> (r: bool)
    ensures
        r == decoded_fits(w, h, px@),
{
    if w > i32::MAX as u32 || h > i32::MAX as u32 {
        return false;
    }
    if w == 0 || h == 0 || px.len() == 0 {
        return true;
    }
    let row: u64 = 4 * w as u64;
    if row + 255 > u32::MAX as u64 {
        return false;
    }
    let padded: u64 = (row + 255) / 256 * 256;
    assert(padded as int * h as int <= 0x1_0000_0000_0000_0000_0000) by (nonlinear_arith)
        requires padded <= 0x1_0000_0000 + 255, h <= 0xFFFF_FFFF;
    assert(row as int * h as int <= 0x1_0000_0000_0000_0000_0000) by (nonlinear_arith)
        requires row <= 0x1_0000_0000, h <= 0xFFFF_FFFF;
    let total: u128 = padded as u128 * h as u128;
    if total > usize::MAX as u128 {
        return false;
    }
    (px.len() as u128) >= row as u128 * h as u128
}

/// Plans the texture a builder describes, decoding file contents (`None`
/// where the file could not be read) with [`decode_image_file_rgba`] or
/// encoded data with [`decode_image_rgba`]. Returns `None` only where a decoded image is too
/// large for the machine's sizes; otherwise what [`plan_texture`] plans
/// with the decoded image.
pub fn plan_texture_from_source(
    builder: &TextureBuilder,
    file_contents: Option<&[u8]>,
    surface: Option<TextureFormat>,
) -> (res: Option<Result<TexturePlan, TextureError>>)
    requires
        match builder.data {
            TextureBuilderData::Raw(size, data, format) => size.w != 0 && size.h != 0 && data@.len() != 0
                ==> upload_fits(data@, size, format),
            TextureBuilderData::DepthStencil(size, format) => format is Some && size.w >= 0
                && format_size(format->Some_0) as int * size.w as int + 255 <= u32::MAX,
            TextureBuilderData::RenderTarget(size, format) => size.w >= 0
                && format_size(render_target_format(format, surface)) as int * size.w as int + 255 <= u32::MAX,
            _ => true,
        },
    ensures
        match builder.data {
            TextureBuilderData::File(path) => match file_contents {
                None => res == Some(Err::<TexturePlan, TextureError>(TextureError::InvalidTextureData)),
                Some(bytes) => match decoded_file_rgba(path@, bytes@) {
                    None => res == Some(Err::<TexturePlan, TextureError>(TextureError::InvalidTextureData)),
                    Some((w, h, px)) => decoded_fits(w, h, px) <==> res is Some,
                },
            },
            TextureBuilderData::Data(bytes) => match decoded_rgba(bytes@) {
                None => res == Some(Err::<TexturePlan, TextureError>(TextureError::InvalidTextureData)),
                Some((w, h, px)) => decoded_fits(w, h, px) <==> res is Some,
            },
            _ => res is Some,
        },
{
    let decoded = match builder.data {
        TextureBuilderData::File(path) => match file_contents {
            None => return Some(Err(TextureError::InvalidTextureData)),
            Some(bytes) => decode_image_file_rgba(path, bytes),
        },
        TextureBuilderData::Data(bytes) => decode_image_rgba(bytes),
        _ => None,
    };
    match &decoded {
        Some((w, h, px)) => {
            if !check_decoded_fits(*w, *h, px) {
                return None;
            }
        },
        None => {},
    }
    Some(plan_texture(builder, decoded, surface))
}

// ---------------------------------------------------------------------------
// Mapping
// ---------------------------------------------------------------------------

/// Whether a texture's contents are mapped, how, and the mapped bytes.
#[derive(Debug, Clone)]
pub struct TextureMapping {
    pub mapped: bool,
    pub mapped_type: TextureMappedType,
    pub buffer: Vec<u8>,
}

impl TextureMapping {
    /// A texture that is not mapped.
    pub fn new() -> (r: TextureMapping)
        ensures
            !r.mapped,
            r.mapped_type == TextureMappedType::Write,
            r.buffer@.len() == 0,
    {
        TextureMapping { mapped: false, mapped_type: TextureMappedType::Write, buffer: Vec::new() }
    }

    /// Maps the texture for reading, with the texels read back from it
    /// (or the failure of that read). A mapped texture fails with
    /// `AlreadyMapped`. The texture counts as mapped even when the read
    /// fails.
    pub fn map_read(&mut self, read: Result<Vec<u8>, TextureError>) -> (res: Result<(), TextureError>)
        ensures
            old(self).mapped ==> res == Err::<(), TextureError>(TextureError::AlreadyMapped)
                && final(self).mapped == old(self).mapped && final(self).mapped_type == old(self).mapped_type
                && final(self).buffer@ == old(self).buffer@,
            !old(self).mapped ==> final(self).mapped && final(self).mapped_type == TextureMappedType::Read
                && match read {
                    Ok(b) => res is Ok && final(self).buffer@ == b@,
                    Err(e) => res == Err::<(), TextureError>(e) && final(self).buffer@ == old(self).buffer@,
                },
    {
        if self.mapped {
            return Err(TextureError::AlreadyMapped);
        }
        self.mapped = true;
        self.mapped_type = TextureMappedType::Read;
        match read {
            Ok(b) => {
                self.buffer = b;
                Ok(())
            },
            Err(e) => Err(e),
        }
    }

    /// Maps a `width` by `height` texture for writing: the buffer becomes
    /// four zero bytes per texel. A mapped texture fails with
    /// `AlreadyMapped`.
    pub fn map_write(&mut self, width: u32, height: u32) -> (res: Result<(), TextureError>)
        requires
            width as int * height as int * 4 <= usize::MAX,
        ensures
            old(self).mapped ==> res == Err::<(), TextureError>(TextureError::AlreadyMapped)
                && final(self).mapped == old(self).mapped && final(self).mapped_type == old(self).mapped_type
                && final(self).buffer@ == old(self).buffer@,
            !old(self).mapped ==> res is Ok && final(self).mapped && final(self).mapped_type == TextureMappedType::Write
                && final(self).buffer@ == Seq::new((width as int * height as int * 4) as nat, |i: int| 0u8),
    {
        if self.mapped {
            return Err(TextureError::AlreadyMapped);
        }
        self.mapped = true;
        self.mapped_type = TextureMappedType::Write;
        let n = width as usize * height as usize * 4;
        self.buffer = vec![0u8; n];
        assert(self.buffer@ =~= Seq::new((width as int * height as int * 4) as nat, |i: int| 0u8));
        Ok(())
    }

    /// Unmaps the texture. One that is not mapped fails with `NotMapped`.
    /// A read mapping drops its bytes; a write mapping hands back the bytes
    /// to upload, which stay until [`TextureMapping::finish_write`].
    pub fn unmap(&mut self) -> (res: Result<Option<Vec<u8>>, TextureError>)
        ensures
            !old(self).mapped ==> res == Err::<Option<Vec<u8>>, TextureError>(TextureError::NotMapped)
                && final(self).mapped == old(self).mapped && final(self).buffer@ == old(self).buffer@,
            old(self).mapped ==> !final(self).mapped && final(self).mapped_type == old(self).mapped_type
                && match old(self).mapped_type {
                    TextureMappedType::Read => res matches Ok(None) && final(self).buffer@.len() == 0,
                    TextureMappedType::Write => res matches Ok(Some(b)) && b@ == old(self).buffer@
                        && final(self).buffer@ == old(self).buffer@,
                },
    {
        if !self.mapped {
            return Err(TextureError::NotMapped);
        }
        self.mapped = false;
        match self.mapped_type {
            TextureMappedType::Read => {
                self.buffer.clear();
                Ok(None)
            },
            TextureMappedType::Write => {
                let b = vstd::slice::slice_to_vec(self.buffer.as_slice());
                Ok(Some(b))
            },
        }
    }

    /// Drops the bytes of a write mapping once they are uploaded.
    pub fn finish_write(&mut self)
        ensures
            final(self).buffer@.len() == 0,
            final(self).mapped == old(self).mapped,
            final(self).mapped_type == old(self).mapped_type,
    {
        self.buffer = Vec::new();
    }
}

/// What copying one texture into another needs to know of each: its
/// format, size and number of mip levels.
#[derive(Debug, Clone, Copy, PartialEq, Eq, Structural)]
pub struct CopyTexture {
    pub format: TextureFormat,
    pub width: u32,
    pub height: u32,
    pub mip_level_count: u32,
}

/// Why a texture cannot be copied into another.
#[derive(Debug, Clone, Copy, PartialEq, Eq, Structural)]
pub enum TextureCopyError {
    FormatMismatch,
    SizeMismatch,
    SourceMipLevels,
    DestinationMipLevels,
}

impl TextureCopyError {
    /// The message of this error.
    pub fn message(&self) -> (r: &'static str)
        ensures
            r@ == match *self {
                TextureCopyError::FormatMismatch => "Source and destination textures must have the same format"@,
                TextureCopyError::SizeMismatch => "Source and destination textures must have the same size"@,
                TextureCopyError::SourceMipLevels => "Source texture must have only one mip level"@,
                TextureCopyError::DestinationMipLevels => "Destination texture must have only one mip level"@,
            },
    {
        match self {
            TextureCopyError::FormatMismatch => "Source and destination textures must have the same format",
            TextureCopyError::SizeMismatch => "Source and destination textures must have the same size",
            TextureCopyError::SourceMipLevels => "Source texture must have only one mip level",
            TextureCopyError::DestinationMipLevels => "Destination texture must have only one mip level",
        }
    }
}

/// Checks a copy of the texture `src` into `dst`, in this order: the
/// formats must match, then the sizes, and each must have one mip level.
/// On success, the extent to copy: the source's width and height.
pub fn check_texture_copy(src: CopyTexture, dst: CopyTexture) -> (r: Result<(u32, u32), TextureCopyError>)
    ensures
        r == if src.format != dst.format {
            Err(TextureCopyError::FormatMismatch)
        } else if src.width != dst.width || src.height != dst.height {
            Err(TextureCopyError::SizeMismatch)
        } else if src.mip_level_count != 1 {
            Err(TextureCopyError::SourceMipLevels)
        } else if dst.mip_level_count != 1 {
            Err(TextureCopyError::DestinationMipLevels)
        } else {
            Ok::<(u32, u32), TextureCopyError>((src.width, src.height))
        },
{
    if src.format != dst.format {
        Err(TextureCopyError::FormatMismatch)
    } else if src.width != dst.width || src.height != dst.height {
        Err(TextureCopyError::SizeMismatch)
    } else if src.mip_level_count != 1 {
        Err(TextureCopyError::SourceMipLevels)
    } else if dst.mip_level_count != 1 {
        Err(TextureCopyError::DestinationMipLevels)
    } else {
        Ok((src.width, src.height))
    }
}

} // verus!
