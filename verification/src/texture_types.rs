//! Texture formats, usages, blending and sampling settings.
use vstd::prelude::*;

verus! {

/// How a texture may be used: a set of the bits `SAMPLER` (1), `STORAGE`
/// (2) and `RENDER_ATTACHMENT` (4).
#[derive(Debug, Clone, Copy, PartialEq, Eq, PartialOrd, Ord, Hash, Structural)]
pub struct TextureUsage {
    pub bits: u32,
}

/// Bit of [`TextureUsage`] for sampled textures.
pub const USAGE_SAMPLER: u32 = 1;
/// Bit of [`TextureUsage`] for storage textures.
pub const USAGE_STORAGE: u32 = 2;
/// Bit of [`TextureUsage`] for render attachments.
pub const USAGE_RENDER_ATTACHMENT: u32 = 4;

impl TextureUsage {
    /// No usage.
    pub fn none() -> (r: TextureUsage)
        ensures
            r.bits == 0,
    {
        TextureUsage { bits: 0 }
    }

    /// Sampled in shaders.
    pub fn sampler() -> (r: TextureUsage)
        ensures
            r.bits == USAGE_SAMPLER,
    {
        TextureUsage { bits: USAGE_SAMPLER }
    }

    /// Bound as a storage texture.
    pub fn storage() -> (r: TextureUsage)
        ensures
            r.bits == USAGE_STORAGE,
    {
        TextureUsage { bits: USAGE_STORAGE }
    }

    /// Rendered into.
    pub fn render_attachment() -> (r: TextureUsage)
        ensures
            r.bits == USAGE_RENDER_ATTACHMENT,
    {
        TextureUsage { bits: USAGE_RENDER_ATTACHMENT }
    }

    /// Whether every bit of `other` is set in `self`.
    pub fn contains(&self, other: TextureUsage) -> (r: bool)
        ensures
            r == (self.bits & other.bits == other.bits),
    {
        self.bits & other.bits == other.bits
    }

    /// The bits of `self` and of `other`.
    pub fn union(&self, other: TextureUsage) -> (r: TextureUsage)
        ensures
            r.bits == self.bits | other.bits,
    {
        TextureUsage { bits: self.bits | other.bits }
    }
}

/// Number of samples per texel.
#[derive(Debug, Clone, Copy, PartialEq, Eq, PartialOrd, Ord, Hash, Structural)]
pub enum SampleCount {
    SampleCount1,
    SampleCount2,
    SampleCount4,
    SampleCount8,
}

/// The number of samples a sample count stands for.
pub open spec fn sample_count_value(s: SampleCount) -> u32 {
    match s {
        SampleCount::SampleCount1 => 1,
        SampleCount::SampleCount2 => 2,
        SampleCount::SampleCount4 => 4,
        SampleCount::SampleCount8 => 8,
    }
}

impl SampleCount {
    /// The number of samples.
    pub fn value(&self) -> (r: u32)
        ensures
            r == sample_count_value(*self),
    {
        match self {
            SampleCount::SampleCount1 => 1,
            SampleCount::SampleCount2 => 2,
            SampleCount::SampleCount4 => 4,
            SampleCount::SampleCount8 => 8,
        }
    }
}

/// How source and destination are combined.
#[derive(Debug, Clone, Copy, PartialEq, Eq, PartialOrd, Ord, Hash, Structural)]
pub enum BlendOperation {
    Add,
    Subtract,
    ReverseSubtract,
    Min,
    Max,
}

/// A factor of the blend equation.
#[derive(Debug, Clone, Copy, PartialEq, Eq, PartialOrd, Ord, Hash, Structural)]
pub enum BlendFactor {
    Zero,
    One,
    SrcColor,
    OneMinusSrcColor,
    DstColor,
    OneMinusDstColor,
    SrcAlpha,
    OneMinusSrcAlpha,
    DstAlpha,
    OneMinusDstAlpha,
    ConstantColor,
    OneMinusConstantColor,
    SrcAlphaSaturated,
    BlendColor,
    OneMinusBlendColor,
}

/// Blending of a render target. `color_blend_constant` holds, per channel
/// (red, green, blue, alpha), the value whose low bits decide whether the
/// channel is written.
#[derive(Debug, Clone, Copy, PartialEq, Eq, PartialOrd, Ord, Hash)]
pub struct TextureBlend {
    pub color_blend: BlendOperation,
    pub alpha_blend: BlendOperation,
    pub color_src_factor: BlendFactor,
    pub color_dst_factor: BlendFactor,
    pub alpha_src_factor: BlendFactor,
    pub alpha_dst_factor: BlendFactor,
    pub color_blend_constant: [u32; 4],
}

/// Color write bit for the red channel.
pub const WRITE_RED: u32 = 1;
/// Color write bit for the green channel.
pub const WRITE_GREEN: u32 = 2;
/// Color write bit for the blue channel.
pub const WRITE_BLUE: u32 = 4;
/// Color write bit for the alpha channel.
pub const WRITE_ALPHA: u32 = 8;
/// All color write bits.
pub const WRITE_ALL: u32 = 15;

/// The four channel values packed into one word, a byte per channel.
pub open spec fn packed_write_mask(c: [u32; 4]) -> u32 {
    c@[0] | (c@[1] << 8u32) | (c@[2] << 16u32) | (c@[3] << 24u32)
}

/// The color write bits of a packed word: bit 0 for red, 8 for green, 16
/// for blue, 24 for alpha; all channels where none is set.
pub open spec fn write_bits_of(w: u32) -> u32 {
    let m = (if w & 0x1 != 0 { WRITE_RED } else { 0 }) | (if w & 0x100 != 0 { WRITE_GREEN } else { 0 })
        | (if w & 0x1_0000 != 0 { WRITE_BLUE } else { 0 }) | (if w & 0x100_0000 != 0 { WRITE_ALPHA } else { 0 });
    if m == 0 {
        WRITE_ALL
    } else {
        m
    }
}

/// The channel values for a set of color write bits: 0xFF for each written
/// channel, 0 for the others (all 0 where no mask is given).
pub open spec fn write_mask_channels(mask: Option<u32>) -> Seq<u32> {
    match mask {
        Some(m) => seq![
            if m & WRITE_RED != 0 { 0xFFu32 } else { 0 },
            if m & WRITE_GREEN != 0 { 0xFFu32 } else { 0 },
            if m & WRITE_BLUE != 0 { 0xFFu32 } else { 0 },
            if m & WRITE_ALPHA != 0 { 0xFFu32 } else { 0 },
        ],
        None => seq![0u32, 0, 0, 0],
    }
}

impl TextureBlend {
    /// A blend with these operations, factors and channel values.
    pub fn new(
        color_blend: BlendOperation,
        alpha_blend: BlendOperation,
        color_src_factor: BlendFactor,
        color_dst_factor: BlendFactor,
        alpha_src_factor: BlendFactor,
        alpha_dst_factor: BlendFactor,
        color_blend_constant: [u32; 4],
    ) -> (r: TextureBlend)
        ensures
            r == (TextureBlend {
                color_blend,
                alpha_blend,
                color_src_factor,
                color_dst_factor,
                alpha_src_factor,
                alpha_dst_factor,
                color_blend_constant,
            }),
    {
        TextureBlend {
            color_blend,
            alpha_blend,
            color_src_factor,
            color_dst_factor,
            alpha_src_factor,
            alpha_dst_factor,
            color_blend_constant,
        }
    }

    /// No blending: the source replaces the destination, all channels
    /// written.
    pub fn none() -> (r: TextureBlend)
        ensures
            r.color_blend == BlendOperation::Add && r.alpha_blend == BlendOperation::Add,
            r.color_src_factor == BlendFactor::One && r.color_dst_factor == BlendFactor::Zero,
            r.alpha_src_factor == BlendFactor::One && r.alpha_dst_factor == BlendFactor::Zero,
            r.color_blend_constant@ == seq![0xFFu32, 0xFF, 0xFF, 0xFF],
    {
        let r = TextureBlend::new(
            BlendOperation::Add, BlendOperation::Add, BlendFactor::One, BlendFactor::Zero,
            BlendFactor::One, BlendFactor::Zero, [0xFF, 0xFF, 0xFF, 0xFF],
        );
        assert(r.color_blend_constant@ =~= seq![0xFFu32, 0xFF, 0xFF, 0xFF]);
        r
    }

    /// Alpha blending: source weighted by its alpha over the destination.
    pub fn alpha_blend() -> (r: TextureBlend)
        ensures
            r.color_blend == BlendOperation::Add && r.alpha_blend == BlendOperation::Add,
            r.color_src_factor == BlendFactor::SrcAlpha && r.color_dst_factor == BlendFactor::OneMinusSrcAlpha,
            r.alpha_src_factor == BlendFactor::One && r.alpha_dst_factor == BlendFactor::Zero,
            r.color_blend_constant@ == seq![0xFFu32, 0xFF, 0xFF, 0xFF],
    {
        let r = TextureBlend::new(
            BlendOperation::Add, BlendOperation::Add, BlendFactor::SrcAlpha, BlendFactor::OneMinusSrcAlpha,
            BlendFactor::One, BlendFactor::Zero, [0xFF, 0xFF, 0xFF, 0xFF],
        );
        assert(r.color_blend_constant@ =~= seq![0xFFu32, 0xFF, 0xFF, 0xFF]);
        r
    }

    /// Additive blending: source added to destination.
    pub fn additive_blend() -> (r: TextureBlend)
        ensures
            r.color_blend == BlendOperation::Add && r.alpha_blend == BlendOperation::Add,
            r.color_src_factor == BlendFactor::One && r.color_dst_factor == BlendFactor::One,
            r.alpha_src_factor == BlendFactor::One && r.alpha_dst_factor == BlendFactor::Zero,
            r.color_blend_constant@ == seq![0xFFu32, 0xFF, 0xFF, 0xFF],
    {
        let r = TextureBlend::new(
            BlendOperation::Add, BlendOperation::Add, BlendFactor::One, BlendFactor::One,
            BlendFactor::One, BlendFactor::Zero, [0xFF, 0xFF, 0xFF, 0xFF],
        );
        assert(r.color_blend_constant@ =~= seq![0xFFu32, 0xFF, 0xFF, 0xFF]);
        r
    }

    /// Multiplicative blending: source times destination.
    pub fn multiply_blend() -> (r: TextureBlend)
        ensures
            r.color_blend == BlendOperation::Add && r.alpha_blend == BlendOperation::Add,
            r.color_src_factor == BlendFactor::DstColor && r.color_dst_factor == BlendFactor::Zero,
            r.alpha_src_factor == BlendFactor::DstAlpha && r.alpha_dst_factor == BlendFactor::Zero,
            r.color_blend_constant@ == seq![0xFFu32, 0xFF, 0xFF, 0xFF],
    {
        let r = TextureBlend::new(
            BlendOperation::Add, BlendOperation::Add, BlendFactor::DstColor, BlendFactor::Zero,
            BlendFactor::DstAlpha, BlendFactor::Zero, [0xFF, 0xFF, 0xFF, 0xFF],
        );
        assert(r.color_blend_constant@ =~= seq![0xFFu32, 0xFF, 0xFF, 0xFF]);
        r
    }

    /// Modulating blend: source color times destination color added to the
    /// destination color times itself.
    pub fn modulate_blend() -> (r: TextureBlend)
        ensures
            r.color_blend == BlendOperation::Add && r.alpha_blend == BlendOperation::Add,
            r.color_src_factor == BlendFactor::SrcColor && r.color_dst_factor == BlendFactor::DstColor,
            r.alpha_src_factor == BlendFactor::SrcAlpha && r.alpha_dst_factor == BlendFactor::DstAlpha,
            r.color_blend_constant@ == seq![0xFFu32, 0xFF, 0xFF, 0xFF],
    {
        let r = TextureBlend::new(
            BlendOperation::Add, BlendOperation::Add, BlendFactor::SrcColor, BlendFactor::DstColor,
            BlendFactor::SrcAlpha, BlendFactor::DstAlpha, [0xFF, 0xFF, 0xFF, 0xFF],
        );
        assert(r.color_blend_constant@ =~= seq![0xFFu32, 0xFF, 0xFF, 0xFF]);
        r
    }

    /// The color write bits of this blend: each channel whose value has its
    /// low bit in the packed word set, or all channels where none has.
    pub fn color_write_mask(&self) -> (r: u32)
        ensures
            r == write_bits_of(packed_write_mask(self.color_blend_constant)),
    {
        let c = self.color_blend_constant;
        let w = c[0] | (c[1] << 8u32) | (c[2] << 16u32) | (c[3] << 24u32);
        assert(w == packed_write_mask(c));
        let m: u32 = (if w & 0x1 != 0 { WRITE_RED } else { 0 }) | (if w & 0x100 != 0 { WRITE_GREEN } else { 0 })
            | (if w & 0x1_0000 != 0 { WRITE_BLUE } else { 0 }) | (if w & 0x100_0000 != 0 { WRITE_ALPHA } else { 0 });
        if m == 0 {
            WRITE_ALL
        } else {
            m
        }
    }
}

/// The channel values for a set of color write bits, as a blend read back
/// from a pipeline holds them.
pub fn write_mask_constant(mask: Option<u32>) -> (r: [u32; 4])
    ensures
        r@ == write_mask_channels(mask),
{
    let mut c: [u32; 4] = [0, 0, 0, 0];
    match mask {
        Some(m) => {
            if m & WRITE_RED != 0 {
                c[0] = 0xFF;
            }
            if m & WRITE_GREEN != 0 {
                c[1] = 0xFF;
            }
            if m & WRITE_BLUE != 0 {
                c[2] = 0xFF;
            }
            if m & WRITE_ALPHA != 0 {
                c[3] = 0xFF;
            }
        },
        None => {},
    }
    assert(c@ =~= write_mask_channels(mask));
    c
}

/// Reading a blend's write mask back gives the mask it was made from; an
/// empty mask reads back as all channels.
pub proof fn lemma_write_mask_round_trip(m: u32, c: [u32; 4])
    requires
        m <= WRITE_ALL,
        c@ == write_mask_channels(Some(m)),
    ensures
        write_bits_of(packed_write_mask(c)) == if m == 0 { WRITE_ALL } else { m },
{
    let c0 = c@[0];
    let c1 = c@[1];
    let c2 = c@[2];
    let c3 = c@[3];
    assert(c0 == (if m & 1 != 0 { 0xFFu32 } else { 0 }));
    assert(c1 == (if m & 2 != 0 { 0xFFu32 } else { 0 }));
    assert(c2 == (if m & 4 != 0 { 0xFFu32 } else { 0 }));
    assert(c3 == (if m & 8 != 0 { 0xFFu32 } else { 0 }));
    let w = c0 | (c1 << 8u32) | (c2 << 16u32) | (c3 << 24u32);
    assert(w == packed_write_mask(c));
    assert(write_bits_of(w) == if m == 0 { 15u32 } else { m }) by (bit_vector)
        requires
            m <= 15,
            c0 == (if m & 1 != 0 { 0xFFu32 } else { 0u32 }),
            c1 == (if m & 2 != 0 { 0xFFu32 } else { 0u32 }),
            c2 == (if m & 4 != 0 { 0xFFu32 } else { 0u32 }),
            c3 == (if m & 8 != 0 { 0xFFu32 } else { 0u32 }),
            w == c0 | (c1 << 8u32) | (c2 << 16u32) | (c3 << 24u32),
    ;
}

/// How texture coordinates outside [0, 1] are resolved.
#[derive(Debug, Clone, Copy, PartialEq, Eq, PartialOrd, Ord, Hash, Structural)]
pub enum AddressMode {
    ClampToEdge,
    Repeat,
    MirrorRepeat,
    ClampToBorder,
}

/// How texels are filtered.
#[derive(Debug, Clone, Copy, PartialEq, Eq, PartialOrd, Ord, Hash, Structural)]
pub enum FilterMode {
    Nearest,
    Linear,
}

/// The comparison of a comparison sampler.
#[derive(Debug, Clone, Copy, PartialEq, Eq, PartialOrd, Ord, Hash, Structural)]
pub enum CompareFunction {
    Never,
    Less,
    Equal,
    LessEqual,
    Greater,
    NotEqual,
    GreaterEqual,
    Always,
}

/// The border color of a sampler that clamps to its border.
#[derive(Debug, Clone, Copy, PartialEq, Eq, PartialOrd, Ord, Hash, Structural)]
pub enum SamplerBorderColor {
    TransparentBlack,
    OpaqueBlack,
    OpaqueWhite,
}

/// A texel format.
#[derive(Debug, Clone, Copy, PartialEq, Eq, PartialOrd, Ord, Hash, Structural)]
pub enum TextureFormat {
    R8Unorm,
    R8Snorm,
    R8Uint,
    R8Sint,
    R16Uint,
    R16Sint,
    R16Float,
    Rg8Unorm,
    Rg8Snorm,
    Rg8Uint,
    Rg8Sint,
    R32Uint,
    R32Sint,
    R32Float,
    Rg16Uint,
    Rg16Sint,
    Rg16Float,
    Rgba8Unorm,
    Rgba8UnormSrgb,
    Rgba8Snorm,
    Rgba8Uint,
    Rgba8Sint,
    Bgra8Unorm,
    Bgra8UnormSrgb,
    Rgb9e5Ufloat,
    Rgb10a2Uint,
    Rgb10a2Unorm,
    Rg11b10Ufloat,
    Rg32Uint,
    Rg32Sint,
    Rg32Float,
    Rgba16Uint,
    Rgba16Sint,
    Rgba16Float,
    Rgba32Uint,
    Rgba32Sint,
    Rgba32Float,
    Stencil8,
    Depth16Unorm,
    Depth24Plus,
    Depth24PlusStencil8,
    Depth32Float,
    Depth32FloatStencil8,
}

/// Bytes per texel of a format.
pub open spec fn format_size(f: TextureFormat) -> u32 {
    match f {
        TextureFormat::R8Unorm => 1,
        TextureFormat::R8Snorm => 1,
        TextureFormat::R8Uint => 1,
        TextureFormat::R8Sint => 1,
        TextureFormat::R16Uint => 2,
        TextureFormat::R16Sint => 2,
        TextureFormat::R16Float => 2,
        TextureFormat::Rg8Unorm => 2,
        TextureFormat::Rg8Snorm => 2,
        TextureFormat::Rg8Uint => 2,
        TextureFormat::Rg8Sint => 2,
        TextureFormat::R32Uint => 4,
        TextureFormat::R32Sint => 4,
        TextureFormat::R32Float => 4,
        TextureFormat::Rg16Uint => 4,
        TextureFormat::Rg16Sint => 4,
        TextureFormat::Rg16Float => 4,
        TextureFormat::Rgba8Unorm => 4,
        TextureFormat::Rgba8UnormSrgb => 4,
        TextureFormat::Rgba8Snorm => 4,
        TextureFormat::Rgba8Uint => 4,
        TextureFormat::Rgba8Sint => 4,
        TextureFormat::Bgra8Unorm => 4,
        TextureFormat::Bgra8UnormSrgb => 4,
        TextureFormat::Rgb9e5Ufloat => 4,
        TextureFormat::Rgb10a2Uint => 4,
        TextureFormat::Rgb10a2Unorm => 4,
        TextureFormat::Rg11b10Ufloat => 4,
        TextureFormat::Rg32Uint => 8,
        TextureFormat::Rg32Sint => 8,
        TextureFormat::Rg32Float => 8,
        TextureFormat::Rgba16Uint => 8,
        TextureFormat::Rgba16Sint => 8,
        TextureFormat::Rgba16Float => 8,
        TextureFormat::Rgba32Uint => 16,
        TextureFormat::Rgba32Sint => 16,
        TextureFormat::Rgba32Float => 16,
        TextureFormat::Stencil8 => 1,
        TextureFormat::Depth16Unorm => 2,
        TextureFormat::Depth24Plus => 3,
        TextureFormat::Depth24PlusStencil8 => 4,
        TextureFormat::Depth32Float => 4,
        TextureFormat::Depth32FloatStencil8 => 5,
    }
}

impl TextureFormat {
    /// Bytes per texel of this format.
    pub fn get_size(&self) -> (r: u32)
        ensures
            r == format_size(*self),
    {
        match self {
            TextureFormat::R8Unorm => 1,
            TextureFormat::R8Snorm => 1,
            TextureFormat::R8Uint => 1,
            TextureFormat::R8Sint => 1,
            TextureFormat::R16Uint => 2,
            TextureFormat::R16Sint => 2,
            TextureFormat::R16Float => 2,
            TextureFormat::Rg8Unorm => 2,
            TextureFormat::Rg8Snorm => 2,
            TextureFormat::Rg8Uint => 2,
            TextureFormat::Rg8Sint => 2,
            TextureFormat::R32Uint => 4,
            TextureFormat::R32Sint => 4,
            TextureFormat::R32Float => 4,
            TextureFormat::Rg16Uint => 4,
            TextureFormat::Rg16Sint => 4,
            TextureFormat::Rg16Float => 4,
            TextureFormat::Rgba8Unorm => 4,
            TextureFormat::Rgba8UnormSrgb => 4,
            TextureFormat::Rgba8Snorm => 4,
            TextureFormat::Rgba8Uint => 4,
            TextureFormat::Rgba8Sint => 4,
            TextureFormat::Bgra8Unorm => 4,
            TextureFormat::Bgra8UnormSrgb => 4,
            TextureFormat::Rgb9e5Ufloat => 4,
            TextureFormat::Rgb10a2Uint => 4,
            TextureFormat::Rgb10a2Unorm => 4,
            TextureFormat::Rg11b10Ufloat => 4,
            TextureFormat::Rg32Uint => 8,
            TextureFormat::Rg32Sint => 8,
            TextureFormat::Rg32Float => 8,
            TextureFormat::Rgba16Uint => 8,
            TextureFormat::Rgba16Sint => 8,
            TextureFormat::Rgba16Float => 8,
            TextureFormat::Rgba32Uint => 16,
            TextureFormat::Rgba32Sint => 16,
            TextureFormat::Rgba32Float => 16,
            TextureFormat::Stencil8 => 1,
            TextureFormat::Depth16Unorm => 2,
            TextureFormat::Depth24Plus => 3,
            TextureFormat::Depth24PlusStencil8 => 4,
            TextureFormat::Depth32Float => 4,
            TextureFormat::Depth32FloatStencil8 => 5,
        }
    }

    /// Whether this is one of the depth and stencil formats.
    pub fn is_depth_stencil(&self) -> (r: bool)
        ensures
            r == is_depth_stencil_format(*self),
    {
        match self {
            TextureFormat::Stencil8 | TextureFormat::Depth16Unorm | TextureFormat::Depth24Plus
            | TextureFormat::Depth24PlusStencil8 | TextureFormat::Depth32Float
            | TextureFormat::Depth32FloatStencil8 => true,
            _ => false,
        }
    }
}

/// Whether `f` is one of the depth and stencil formats, the last six.
pub open spec fn is_depth_stencil_format(f: TextureFormat) -> bool {
    f is Stencil8 || f is Depth16Unorm || f is Depth24Plus || f is Depth24PlusStencil8 || f is Depth32Float
        || f is Depth32FloatStencil8
}


} // verus!
