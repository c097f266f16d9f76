//! The font cache file: a baked font atlas with its glyph metrics, stored
//! zlib-compressed behind a small header.
//!
//! Layout of the file: the magic `eFONT`, the compressed size and the
//! uncompressed size (little-endian `u32`), then the compressed payload.
//! Layout of the payload: the family name (its byte length as `u32`, then
//! UTF-8), the style byte, the glyph count (`u32`) and the glyph records of
//! 14 `u32` each, the atlas width and height (`u32`, at most 2048 each), the
//! atlas texels (one byte each), and the ascender, descender, line height
//! and space width. Metrics are `f32` values, kept here as their bits.
use vstd::prelude::*;
use vstd::slice::slice_subrange;
use vstd::utf8::*;
use crate::binary_shader::{le_u32_value, le_read_u32, string_from_utf8};
use crate::font::FontStyle;

verus! {

/// The greatest width or height of a cached atlas.
pub const CACHE_MAX_ATLAS_SIZE: u32 = 2048;

/// The metrics of one glyph, each `f32` kept as its bits.
#[derive(Debug, Clone, Copy, PartialEq, Eq, Structural)]
pub struct GlyphBits {
    pub codepoint: u32,
    pub advance: u32,
    pub atlas_start_x: u32,
    pub atlas_start_y: u32,
    pub atlas_end_x: u32,
    pub atlas_end_y: u32,
    pub width: u32,
    pub height: u32,
    pub bearing_x: u32,
    pub bearing_y: u32,
    pub advance_x: u32,
    pub advance_y: u32,
    pub ascender: u32,
    pub descender: u32,
}

/// A baked font as the cache file stores it. Glyphs come in file order;
/// a font looks a codepoint up in the last record that has it.
#[derive(Debug, Clone)]
pub struct FontCache {
    pub name: String,
    pub style: FontStyle,
    pub glyphs: Vec<GlyphBits>,
    pub texture_width: u32,
    pub texture_height: u32,
    pub texture_buffer: Vec<u8>,
    pub ascender: u32,
    pub descender: u32,
    pub line_height: u32,
    pub space_width: u32,
}

/// The value a [`FontCache`] stands for.
pub struct CacheView {
    pub name: Seq<char>,
    pub style: u8,
    pub glyphs: Seq<GlyphBits>,
    pub texture_width: u32,
    pub texture_height: u32,
    pub texture_buffer: Seq<u8>,
    pub ascender: u32,
    pub descender: u32,
    pub line_height: u32,
    pub space_width: u32,
}

impl View for FontCache {
    type V = CacheView;

    open spec fn view(&self) -> CacheView {
        CacheView {
            name: self.name@,
            style: self.style.bits,
            glyphs: self.glyphs@,
            texture_width: self.texture_width,
            texture_height: self.texture_height,
            texture_buffer: self.texture_buffer@,
            ascender: self.ascender,
            descender: self.descender,
            line_height: self.line_height,
            space_width: self.space_width,
        }
    }
}

/// Why a font cache could not be read.
#[derive(Debug, Clone, Copy, PartialEq, Eq, Structural)]
pub enum FontCacheError {
    UnexpectedEof,
    InvalidMagic,
    InvalidUtf8,
    InvalidStyle,
    InvalidTextureSize,
    Decompress,
}

/// The little-endian `u32` at byte `p`.
pub open spec fn word(d: Seq<u8>, p: int) -> u32 {
    le_u32_value(d.subrange(p, p + 4)) as u32
}

/// The glyph record at byte `p`.
pub open spec fn glyph_at(d: Seq<u8>, p: int) -> GlyphBits {
    GlyphBits {
        codepoint: word(d, p),
        advance: word(d, p + 4),
        atlas_start_x: word(d, p + 8),
        atlas_start_y: word(d, p + 12),
        atlas_end_x: word(d, p + 16),
        atlas_end_y: word(d, p + 20),
        width: word(d, p + 24),
        height: word(d, p + 28),
        bearing_x: word(d, p + 32),
        bearing_y: word(d, p + 36),
        advance_x: word(d, p + 40),
        advance_y: word(d, p + 44),
        ascender: word(d, p + 48),
        descender: word(d, p + 52),
    }
}

/// The glyph records from byte `p` on.
pub open spec fn glyphs_at(d: Seq<u8>, p: int, count: nat) -> Seq<GlyphBits> {
    Seq::new(count, |k: int| glyph_at(d, p + 56 * k))
}

/// What a cache payload holds, or the first reason it cannot be read: a
/// field cut short, a name that is not UTF-8, a style with an unknown bit,
/// or an atlas wider or higher than 2048. Bytes after the last field are
/// not read.
pub open spec fn spec_parse_payload(d: Seq<u8>) -> Result<CacheView, FontCacheError> {
    if d.len() < 4 {
        Err(FontCacheError::UnexpectedEof)
    } else {
        let p1 = 4 + word(d, 0);
        if p1 > d.len() {
            Err(FontCacheError::UnexpectedEof)
        } else if !valid_utf8(d.subrange(4, p1)) {
            Err(FontCacheError::InvalidUtf8)
        } else if p1 + 1 > d.len() {
            Err(FontCacheError::UnexpectedEof)
        } else if d[p1] > 3 {
            Err(FontCacheError::InvalidStyle)
        } else if p1 + 5 > d.len() {
            Err(FontCacheError::UnexpectedEof)
        } else {
            let count = word(d, p1 + 1);
            let p2 = p1 + 5;
            let p3 = p2 + 56 * count;
            if p3 + 8 > d.len() {
                Err(FontCacheError::UnexpectedEof)
            } else {
                let w = word(d, p3);
                let h = word(d, p3 + 4);
                if w > CACHE_MAX_ATLAS_SIZE || h > CACHE_MAX_ATLAS_SIZE {
                    Err(FontCacheError::InvalidTextureSize)
                } else {
                    let p4 = p3 + 8 + w * h;
                    if p4 + 16 > d.len() {
                        Err(FontCacheError::UnexpectedEof)
                    } else {
                        Ok(CacheView {
                            name: decode_utf8(d.subrange(4, p1)),
                            style: d[p1],
                            glyphs: glyphs_at(d, p2, count as nat),
                            texture_width: w,
                            texture_height: h,
                            texture_buffer: d.subrange(p3 + 8, p4),
                            ascender: word(d, p4),
                            descender: word(d, p4 + 4),
                            line_height: word(d, p4 + 8),
                            space_width: word(d, p4 + 12),
                        })
                    }
                }
            }
        }
    }
}

/// Reads the little-endian `u32` at byte `p`.
fn word_at(d: &[u8], p: usize) -> (r: u32)
    requires
        p + 4 <= d@.len(),
    ensures
        r == word(d@, p as int),
{
    let n = d.len();
    assert(p + 4 <= n);
    let b = slice_subrange(d, p, p + 4);
    le_read_u32(b)
}

/// Reads the glyph record at byte `p`.
fn glyph_record_at(d: &[u8], p: usize) -> (r: GlyphBits)
    requires
        p + 56 <= d@.len(),
    ensures
        r == glyph_at(d@, p as int),
{
    let n = d.len();
    assert(p + 56 <= n);
    GlyphBits {
        codepoint: word_at(d, p),
        advance: word_at(d, p + 4),
        atlas_start_x: word_at(d, p + 8),
        atlas_start_y: word_at(d, p + 12),
        atlas_end_x: word_at(d, p + 16),
        atlas_end_y: word_at(d, p + 20),
        width: word_at(d, p + 24),
        height: word_at(d, p + 28),
        bearing_x: word_at(d, p + 32),
        bearing_y: word_at(d, p + 36),
        advance_x: word_at(d, p + 40),
        advance_y: word_at(d, p + 44),
        ascender: word_at(d, p + 48),
        descender: word_at(d, p + 52),
    }
}

/// Copies the bytes `[start, end)`.
fn copy_bytes(d: &[u8], start: usize, end: usize) -> (r: Vec<u8>)
    requires
        start <= end <= d@.len(),
    ensures
        r@ == d@.subrange(start as int, end as int),
{
    let mut r: Vec<u8> = Vec::new();
    let mut i: usize = start;
    while i < end
        invariant
            start <= i <= end,
            end <= d@.len(),
            r@ == d@.subrange(start as int, i as int),
        decreases end - i,
    {
        r.push(d[i]);
        i += 1;
        proof {
            assert(r@ =~= d@.subrange(start as int, i as int));
        }
    }
    r
}

/// Reads a cache payload (the decompressed part of the file).
pub fn parse_font_cache_payload(d: &[u8]) -> (r: Result<FontCache, FontCacheError>)
    ensures
        match spec_parse_payload(d@) {
            Ok(v) => r matches Ok(c) && c@ == v,
            Err(e) => r == Err::<FontCache, FontCacheError>(e),
        },
{
    let n = d.len();
    if n < 4 {
        return Err(FontCacheError::UnexpectedEof);
    }
    let name_len = word_at(d, 0);
    if name_len as usize > n - 4 {
        return Err(FontCacheError::UnexpectedEof);
    }
    let p1: usize = 4 + name_len as usize;
    let name_bytes = copy_bytes(d, 4, p1);
    let name = match string_from_utf8(name_bytes) {
        Some(s) => s,
        None => return Err(FontCacheError::InvalidUtf8),
    };
    if p1 >= n {
        return Err(FontCacheError::UnexpectedEof);
    }
    let style = match FontStyle::from_bits(d[p1]) {
        Some(s) => s,
        None => return Err(FontCacheError::InvalidStyle),
    };
    if n - p1 < 5 {
        return Err(FontCacheError::UnexpectedEof);
    }
    let count = word_at(d, p1 + 1);
    let p2: usize = p1 + 5;
    if count as usize > (n - p2) / 56 {
        proof {
            assert(56 * count > n - p2) by (nonlinear_arith)
                requires count > (n - p2) / 56, n >= p2;
        }
        return Err(FontCacheError::UnexpectedEof);
    }
    proof {
        assert(56 * count <= n - p2) by (nonlinear_arith)
            requires count <= (n - p2) / 56, n >= p2;
    }
    let mut glyphs: Vec<GlyphBits> = Vec::new();
    let mut k: usize = 0;
    while k < count as usize
        invariant
            k <= count,
            p2 + 56 * count <= n,
            n == d@.len(),
            glyphs@ == glyphs_at(d@, p2 as int, k as nat),
        decreases count - k,
    {
        proof {
            assert(56 * k + 56 <= 56 * count) by (nonlinear_arith)
                requires k < count;
        }
        let g = glyph_record_at(d, p2 + 56 * k);
        glyphs.push(g);
        k += 1;
        proof {
            assert(glyphs@ =~= glyphs_at(d@, p2 as int, k as nat));
        }
    }
    let p3: usize = p2 + 56 * count as usize;
    if n - p3 < 8 {
        return Err(FontCacheError::UnexpectedEof);
    }
    let w = word_at(d, p3);
    let h = word_at(d, p3 + 4);
    if w > CACHE_MAX_ATLAS_SIZE || h > CACHE_MAX_ATLAS_SIZE {
        return Err(FontCacheError::InvalidTextureSize);
    }
    proof {
        assert(w * h <= 2048 * 2048) by (nonlinear_arith)
            requires w <= 2048, h <= 2048;
    }
    let area: usize = (w * h) as usize;
    if area > n - (p3 + 8) || n - (p3 + 8) - area < 16 {
        return Err(FontCacheError::UnexpectedEof);
    }
    let p4: usize = p3 + 8 + area;
    let texture_buffer = copy_bytes(d, p3 + 8, p4);
    let ascender = word_at(d, p4);
    let descender = word_at(d, p4 + 4);
    let line_height = word_at(d, p4 + 8);
    let space_width = word_at(d, p4 + 12);
    Ok(FontCache {
        name,
        style,
        glyphs,
        texture_width: w,
        texture_height: h,
        texture_buffer,
        ascender,
        descender,
        line_height,
        space_width,
    })
}

/// The little-endian bytes of a `u32`.
pub open spec fn le_bytes(n: u32) -> Seq<u8> {
    seq![(n & 0xff) as u8, ((n >> 8) & 0xff) as u8, ((n >> 16) & 0xff) as u8, ((n >> 24) & 0xff) as u8]
}

/// The bytes of a glyph record.
pub open spec fn glyph_bytes(g: GlyphBits) -> Seq<u8> {
    le_bytes(g.codepoint) + le_bytes(g.advance) + le_bytes(g.atlas_start_x) + le_bytes(g.atlas_start_y)
        + le_bytes(g.atlas_end_x) + le_bytes(g.atlas_end_y) + le_bytes(g.width) + le_bytes(g.height)
        + le_bytes(g.bearing_x) + le_bytes(g.bearing_y) + le_bytes(g.advance_x) + le_bytes(g.advance_y)
        + le_bytes(g.ascender) + le_bytes(g.descender)
}

/// The bytes of glyph records, one after the other.
pub open spec fn glyphs_bytes(gs: Seq<GlyphBits>) -> Seq<u8>
    decreases gs.len(),
{
    if gs.len() == 0 {
        Seq::empty()
    } else {
        glyphs_bytes(gs.drop_last()) + glyph_bytes(gs.last())
    }
}

/// The payload that stores a font: the fields in the order of the layout,
/// lengths and counts as `u32`.
pub open spec fn spec_encode_payload(c: CacheView) -> Seq<u8> {
    let name = encode_utf8(c.name);
    le_bytes(name.len() as u32) + name + seq![c.style] + le_bytes(c.glyphs.len() as u32)
        + glyphs_bytes(c.glyphs) + le_bytes(c.texture_width) + le_bytes(c.texture_height)
        + c.texture_buffer + le_bytes(c.ascender) + le_bytes(c.descender) + le_bytes(c.line_height)
        + le_bytes(c.space_width)
}

/// Appends the little-endian bytes of `n`.
fn push_le(v: &mut Vec<u8>, n: u32)
    ensures
        final(v)@ == old(v)@ + le_bytes(n),
{
    v.push((n & 0xff) as u8);
    v.push(((n >> 8) & 0xff) as u8);
    v.push(((n >> 16) & 0xff) as u8);
    v.push(((n >> 24) & 0xff) as u8);
    assert(final(v)@ =~= old(v)@ + le_bytes(n));
}

/// Appends bytes.
fn push_all(v: &mut Vec<u8>, s: &[u8])
    ensures
        final(v)@ == old(v)@ + s@,
{
    let mut i: usize = 0;
    while i < s.len()
        invariant
            i <= s@.len(),
            v@ == old(v)@ + s@.take(i as int),
        decreases s@.len() - i,
    {
        v.push(s[i]);
        i += 1;
        proof {
            assert(v@ =~= old(v)@ + s@.take(i as int));
        }
    }
    proof {
        assert(s@.take(s@.len() as int) =~= s@);
    }
}

/// Appends a glyph record.
fn push_glyph(v: &mut Vec<u8>, g: GlyphBits)
    ensures
        final(v)@ == old(v)@ + glyph_bytes(g),
{
    push_le(v, g.codepoint);
    push_le(v, g.advance);
    push_le(v, g.atlas_start_x);
    push_le(v, g.atlas_start_y);
    push_le(v, g.atlas_end_x);
    push_le(v, g.atlas_end_y);
    push_le(v, g.width);
    push_le(v, g.height);
    push_le(v, g.bearing_x);
    push_le(v, g.bearing_y);
    push_le(v, g.advance_x);
    push_le(v, g.advance_y);
    push_le(v, g.ascender);
    push_le(v, g.descender);
    assert(final(v)@ =~= old(v)@ + glyph_bytes(g));
}

/// Writes the payload that stores a font.
pub fn encode_font_cache_payload(c: &FontCache) -> (r: Vec<u8>)
    ensures
        r@ == spec_encode_payload(c@),
{
    let mut v: Vec<u8> = Vec::new();
    let name: &str = c.name.as_str();
    let name_bytes: &[u8] = name.as_bytes();
    push_le(&mut v, name_bytes.len() as u32);
    push_all(&mut v, name_bytes);
    v.push(c.style.bits);
    push_le(&mut v, c.glyphs.len() as u32);
    let ghost head = v@;
    let mut k: usize = 0;
    while k < c.glyphs.len()
        invariant
            k <= c.glyphs@.len(),
            v@ == head + glyphs_bytes(c.glyphs@.take(k as int)),
        decreases c.glyphs@.len() - k,
    {
        let ghost before = v@;
        push_glyph(&mut v, c.glyphs[k]);
        k += 1;
        proof {
            let gs = c.glyphs@.take(k as int);
            assert(gs.drop_last() =~= c.glyphs@.take(k - 1));
            assert(v@ =~= head + glyphs_bytes(gs));
        }
    }
    proof {
        assert(c.glyphs@.take(c.glyphs@.len() as int) =~= c.glyphs@);
    }
    push_le(&mut v, c.texture_width);
    push_le(&mut v, c.texture_height);
    push_all(&mut v, c.texture_buffer.as_slice());
    push_le(&mut v, c.ascender);
    push_le(&mut v, c.descender);
    push_le(&mut v, c.line_height);
    push_le(&mut v, c.space_width);
    proof {
        assert(v@ =~= spec_encode_payload(c@));
    }
    v
}

/// Little-endian bytes read back give the number written.
pub proof fn lemma_le_bytes(n: u32)
    ensures
        le_u32_value(le_bytes(n)) == n,
{
    let b = le_bytes(n);
    assert(((n & 0xff) as u8) as u32 + (((n >> 8) & 0xff) as u8) as u32 * 0x100
        + (((n >> 16) & 0xff) as u8) as u32 * 0x1_0000 + (((n >> 24) & 0xff) as u8) as u32 * 0x100_0000 == n) by (bit_vector);
    assert(le_u32_value(b) == b[0] as int + b[1] as int * 0x100 + b[2] as int * 0x1_0000 + b[3] as int * 0x100_0000);
}

/// A font that the payload format can hold: a name of at most `u32::MAX`
/// bytes, at most `u32::MAX` glyphs, a known style, an atlas of at most
/// 2048 by 2048 texels and one byte per texel.
pub open spec fn cache_encodable(c: CacheView) -> bool {
    &&& encode_utf8(c.name).len() <= u32::MAX
    &&& c.glyphs.len() <= u32::MAX
    &&& c.style <= 3
    &&& c.texture_width <= CACHE_MAX_ATLAS_SIZE
    &&& c.texture_height <= CACHE_MAX_ATLAS_SIZE
    &&& c.texture_buffer.len() == c.texture_width * c.texture_height
}

/// The four bytes at `p` read back as the number they encode.
proof fn lemma_word_of(d: Seq<u8>, p: int, n: u32)
    requires
        0 <= p,
        p + 4 <= d.len(),
        d.subrange(p, p + 4) == le_bytes(n),
    ensures
        word(d, p) == n,
{
    lemma_le_bytes(n);
}

/// A field of a glyph record reads back as the number it encodes.
proof fn lemma_record_word(d: Seq<u8>, p: int, gb: Seq<u8>, o: int, n: u32)
    requires
        0 <= p,
        p + 56 <= d.len(),
        gb.len() == 56,
        d.subrange(p, p + 56) == gb,
        0 <= o <= 52,
        gb.subrange(o, o + 4) == le_bytes(n),
    ensures
        word(d, p + o) == n,
{
    assert forall|i: int| 0 <= i < 4 implies #[trigger] d.subrange(p + o, p + o + 4)[i] == gb.subrange(o, o + 4)[i] by {
        assert(d.subrange(p, p + 56)[o + i] == gb[o + i]);
    }
    assert(d.subrange(p + o, p + o + 4) =~= gb.subrange(o, o + 4));
    lemma_word_of(d, p + o, n);
}

/// A glyph record reads back as the glyph it encodes.
proof fn lemma_glyph_of(d: Seq<u8>, p: int, g: GlyphBits)
    requires
        0 <= p,
        p + 56 <= d.len(),
        d.subrange(p, p + 56) == glyph_bytes(g),
    ensures
        glyph_at(d, p) == g,
{
    let gb = glyph_bytes(g);
    assert(gb.subrange(0, 4) =~= le_bytes(g.codepoint));
    lemma_record_word(d, p, gb, 0, g.codepoint);
    assert(gb.subrange(4, 8) =~= le_bytes(g.advance));
    lemma_record_word(d, p, gb, 4, g.advance);
    assert(gb.subrange(8, 12) =~= le_bytes(g.atlas_start_x));
    lemma_record_word(d, p, gb, 8, g.atlas_start_x);
    assert(gb.subrange(12, 16) =~= le_bytes(g.atlas_start_y));
    lemma_record_word(d, p, gb, 12, g.atlas_start_y);
    assert(gb.subrange(16, 20) =~= le_bytes(g.atlas_end_x));
    lemma_record_word(d, p, gb, 16, g.atlas_end_x);
    assert(gb.subrange(20, 24) =~= le_bytes(g.atlas_end_y));
    lemma_record_word(d, p, gb, 20, g.atlas_end_y);
    assert(gb.subrange(24, 28) =~= le_bytes(g.width));
    lemma_record_word(d, p, gb, 24, g.width);
    assert(gb.subrange(28, 32) =~= le_bytes(g.height));
    lemma_record_word(d, p, gb, 28, g.height);
    assert(gb.subrange(32, 36) =~= le_bytes(g.bearing_x));
    lemma_record_word(d, p, gb, 32, g.bearing_x);
    assert(gb.subrange(36, 40) =~= le_bytes(g.bearing_y));
    lemma_record_word(d, p, gb, 36, g.bearing_y);
    assert(gb.subrange(40, 44) =~= le_bytes(g.advance_x));
    lemma_record_word(d, p, gb, 40, g.advance_x);
    assert(gb.subrange(44, 48) =~= le_bytes(g.advance_y));
    lemma_record_word(d, p, gb, 44, g.advance_y);
    assert(gb.subrange(48, 52) =~= le_bytes(g.ascender));
    lemma_record_word(d, p, gb, 48, g.ascender);
    assert(gb.subrange(52, 56) =~= le_bytes(g.descender));
    lemma_record_word(d, p, gb, 52, g.descender);
}

/// Glyph records take 56 bytes each, the record `k` at byte `56 * k`.
proof fn lemma_glyphs_bytes(gs: Seq<GlyphBits>)
    ensures
        glyphs_bytes(gs).len() == 56 * gs.len(),
        forall|k: int| 0 <= k < gs.len() ==> #[trigger] glyphs_bytes(gs).subrange(56 * k, 56 * k + 56) == glyph_bytes(gs[k]),
    decreases gs.len(),
{
    if gs.len() > 0 {
        let init = gs.drop_last();
        lemma_glyphs_bytes(init);
        let all = glyphs_bytes(gs);
        let head = glyphs_bytes(init);
        let n = init.len();
        assert(glyph_bytes(gs.last()).len() == 56);
        assert forall|k: int| 0 <= k < gs.len() implies #[trigger] glyphs_bytes(gs).subrange(56 * k, 56 * k + 56) == glyph_bytes(gs[k]) by {
            if k < n {
                assert(56 * k + 56 <= 56 * n) by (nonlinear_arith)
                    requires k < n;
                assert(all.subrange(56 * k, 56 * k + 56) =~= head.subrange(56 * k, 56 * k + 56));
                assert(init[k] == gs[k]);
            } else {
                assert(all.subrange(56 * k, 56 * k + 56) =~= glyph_bytes(gs.last()));
            }
        }
    }
}

/// A payload written for a font reads back as that font.
#[verifier::spinoff_prover]
#[verifier::rlimit(80)]
pub proof fn lemma_payload_round_trip(c: CacheView)
    requires
        cache_encodable(c),
    ensures
        spec_parse_payload(spec_encode_payload(c)) == Ok::<CacheView, FontCacheError>(c),
{
    let nm = encode_utf8(c.name);
    let l = nm.len() as int;
    let g = c.glyphs.len() as int;
    let gb = glyphs_bytes(c.glyphs);
    lemma_glyphs_bytes(c.glyphs);
    let wh = c.texture_width * c.texture_height;
    let s1 = le_bytes(nm.len() as u32);
    let s2 = s1 + nm;
    let s3 = s2 + seq![c.style];
    let s4 = s3 + le_bytes(c.glyphs.len() as u32);
    let s5 = s4 + gb;
    let s6 = s5 + le_bytes(c.texture_width);
    let s7 = s6 + le_bytes(c.texture_height);
    let s8 = s7 + c.texture_buffer;
    let s9 = s8 + le_bytes(c.ascender);
    let s10 = s9 + le_bytes(c.descender);
    let s11 = s10 + le_bytes(c.line_height);
    let d = s11 + le_bytes(c.space_width);
    assert(d == spec_encode_payload(c));
    let p1 = 4 + l;
    let p2 = p1 + 5;
    let p3 = p2 + 56 * g;
    let p4 = p3 + 8 + wh;
    assert(d.len() == p4 + 16);
    assert(d.subrange(0, 4) =~= s1);
    lemma_word_of(d, 0, nm.len() as u32);
    assert(d.subrange(4, p1) =~= nm);
    encode_utf8_valid_utf8(c.name);
    encode_utf8_decode_utf8(c.name);
    assert(d[p1] == c.style);
    assert(d.subrange(p1 + 1, p1 + 5) =~= le_bytes(c.glyphs.len() as u32));
    lemma_word_of(d, p1 + 1, c.glyphs.len() as u32);
    assert(d.subrange(p2, p3) =~= gb);
    assert(glyphs_at(d, p2, g as nat) =~= c.glyphs) by {
        assert forall|k: int| 0 <= k < g implies glyph_at(d, p2 + 56 * k) == c.glyphs[k] by {
            assert(56 * k + 56 <= 56 * g) by (nonlinear_arith)
                requires k < g;
            assert(gb.subrange(56 * k, 56 * k + 56) == glyph_bytes(c.glyphs[k]));
            assert(d.subrange(p2 + 56 * k, p2 + 56 * k + 56) =~= gb.subrange(56 * k, 56 * k + 56));
            lemma_glyph_of(d, p2 + 56 * k, c.glyphs[k]);
        }
    }
    assert(d.subrange(p3, p3 + 4) =~= le_bytes(c.texture_width));
    lemma_word_of(d, p3, c.texture_width);
    assert(d.subrange(p3 + 4, p3 + 8) =~= le_bytes(c.texture_height));
    lemma_word_of(d, p3 + 4, c.texture_height);
    assert(d.subrange(p3 + 8, p4) =~= c.texture_buffer);
    assert(d.subrange(p4, p4 + 4) =~= le_bytes(c.ascender));
    lemma_word_of(d, p4, c.ascender);
    assert(d.subrange(p4 + 4, p4 + 8) =~= le_bytes(c.descender));
    lemma_word_of(d, p4 + 4, c.descender);
    assert(d.subrange(p4 + 8, p4 + 12) =~= le_bytes(c.line_height));
    lemma_word_of(d, p4 + 8, c.line_height);
    assert(d.subrange(p4 + 12, p4 + 16) =~= le_bytes(c.space_width));
    lemma_word_of(d, p4 + 12, c.space_width);
}

/// The bytes that zlib decompression makes of `data`; `None` where `data`
/// does not start with a valid zlib stream.
pub uninterp spec fn zlib_inflated(data: Seq<u8>) -> Option<Seq<u8>>;

/// The zlib stream that `flate2` writes for `data` at its default level.
pub uninterp spec fn zlib_deflated(data: Seq<u8>) -> Seq<u8>;

/// Decompresses with `flate2::read::ZlibDecoder`, reading to the end of the
/// stream. The result is the name [`zlib_inflated`] of the input: the
/// decompressed bytes, or `None` where the decoder reports an error.
#[verifier::external_body]
fn zlib_inflate(data: &[u8]) -> (r: Option<Vec<u8>>)
    ensures
        match zlib_inflated(data@) {
            Some(v) => r matches Some(x) && x@ == v,
            None => r is None,
        },
{
    let mut decoder = flate2::read::ZlibDecoder::new(data);
    let mut out: Vec<u8> = Vec::new();
    match std::io::Read::read_to_end(&mut decoder, &mut out) {
        Ok(_) => Some(out),
        Err(_) => None,
    }
}

/// Compresses with `flate2::write::ZlibEncoder` at the default level into a
/// vector. The encoder writes into a `Vec`, whose writes never fail, and is
/// fed once and then finished, so it reports no error: the result is always
/// there. It is the name [`zlib_deflated`] of the input, and, zlib being
/// lossless, decompresses to the input.
#[verifier::external_body]
fn zlib_deflate(data: &[u8]) -> (r: Option<Vec<u8>>)
    ensures
        r is Some,
        r matches Some(v) ==> v@ == zlib_deflated(data@) && zlib_inflated(v@) == Some(data@),
{
    let mut encoder = flate2::write::ZlibEncoder::new(Vec::new(), flate2::Compression::default());
    match std::io::Write::write_all(&mut encoder, data) {
        Ok(()) => encoder.finish().ok(),
        Err(_) => None,
    }
}

/// The magic that opens a cache file: `eFONT`.
pub open spec fn cache_magic() -> Seq<u8> {
    seq![0x65u8, 0x46u8, 0x4fu8, 0x4eu8, 0x54u8]
}

/// What a cache file holds, or the first reason it cannot be read: a
/// header cut short, a wrong magic, compressed data cut short, data that
/// does not decompress, or the payload's own error. The uncompressed size
/// in the header is not checked.
pub open spec fn spec_parse_file(d: Seq<u8>) -> Result<CacheView, FontCacheError> {
    if d.len() < 5 {
        Err(FontCacheError::UnexpectedEof)
    } else if d.subrange(0, 5) != cache_magic() {
        Err(FontCacheError::InvalidMagic)
    } else if d.len() < 13 {
        Err(FontCacheError::UnexpectedEof)
    } else {
        let cs = word(d, 5);
        if 13 + cs > d.len() {
            Err(FontCacheError::UnexpectedEof)
        } else {
            match zlib_inflated(d.subrange(13, 13 + cs)) {
                None => Err(FontCacheError::Decompress),
                Some(p) => spec_parse_payload(p),
            }
        }
    }
}

/// The file that stores a font whose payload compresses to `z`.
pub open spec fn spec_encode_file(c: CacheView, z: Seq<u8>) -> Seq<u8> {
    cache_magic() + le_bytes(z.len() as u32) + le_bytes(spec_encode_payload(c).len() as u32) + z
}

/// Reads a font cache file.
pub fn parse_font_cache(d: &[u8]) -> (r: Result<FontCache, FontCacheError>)
    ensures
        match spec_parse_file(d@) {
            Ok(v) => r matches Ok(c) && c@ == v,
            Err(e) => r == Err::<FontCache, FontCacheError>(e),
        },
{
    let n = d.len();
    if n < 5 {
        return Err(FontCacheError::UnexpectedEof);
    }
    if !(d[0] == 0x65 && d[1] == 0x46 && d[2] == 0x4f && d[3] == 0x4e && d[4] == 0x54) {
        assert(d@.subrange(0, 5) != cache_magic()) by {
            if d@.subrange(0, 5) == cache_magic() {
                assert(d@.subrange(0, 5)[0] == d@[0]);
                assert(d@.subrange(0, 5)[1] == d@[1]);
                assert(d@.subrange(0, 5)[2] == d@[2]);
                assert(d@.subrange(0, 5)[3] == d@[3]);
                assert(d@.subrange(0, 5)[4] == d@[4]);
            }
        }
        return Err(FontCacheError::InvalidMagic);
    }
    assert(d@.subrange(0, 5) =~= cache_magic());
    if n < 13 {
        return Err(FontCacheError::UnexpectedEof);
    }
    let cs = word_at(d, 5);
    if cs as usize > n - 13 {
        return Err(FontCacheError::UnexpectedEof);
    }
    let compressed = slice_subrange(d, 13, 13 + cs as usize);
    match zlib_inflate(compressed) {
        None => Err(FontCacheError::Decompress),
        Some(payload) => parse_font_cache_payload(payload.as_slice()),
    }
}

/// A file written for a font whose payload compresses to `z` reads back as
/// that font.
pub proof fn lemma_file_round_trip(c: CacheView, z: Seq<u8>)
    requires
        cache_encodable(c),
        zlib_inflated(z) == Some(spec_encode_payload(c)),
        z.len() <= u32::MAX,
    ensures
        spec_parse_file(spec_encode_file(c, z)) == Ok::<CacheView, FontCacheError>(c),
{
    let d = spec_encode_file(c, z);
    let a = cache_magic() + le_bytes(z.len() as u32);
    let b = a + le_bytes(spec_encode_payload(c).len() as u32);
    assert(d.subrange(0, 5) =~= cache_magic());
    assert(d.subrange(5, 9) =~= le_bytes(z.len() as u32));
    lemma_word_of(d, 5, z.len() as u32);
    assert(d.subrange(13, 13 + z.len() as int) =~= z);
    lemma_payload_round_trip(c);
}

/// Writes the cache file of a font: its payload, compressed. Compressing
/// into memory does not fail, so the file is always there. A font that the
/// format can hold, with a compressed payload of at most `u32::MAX` bytes,
/// reads back as itself.
pub fn encode_font_cache(c: &FontCache) -> (r: Option<Vec<u8>>)
    ensures
        r is Some,
        r matches Some(v) ==> exists|z: Seq<u8>| {
            &&& v@ == spec_encode_file(c@, z)
            &&& z == zlib_deflated(spec_encode_payload(c@))
            &&& (cache_encodable(c@) && z.len() <= u32::MAX ==> spec_parse_file(v@) == Ok::<CacheView, FontCacheError>(c@))
        },
{
    let payload = encode_font_cache_payload(c);
    let compressed = match zlib_deflate(payload.as_slice()) {
        Some(z) => z,
        None => return None,
    };
    let mut v: Vec<u8> = Vec::new();
    v.push(0x65u8);
    v.push(0x46u8);
    v.push(0x4fu8);
    v.push(0x4eu8);
    v.push(0x54u8);
    push_le(&mut v, compressed.len() as u32);
    push_le(&mut v, payload.len() as u32);
    push_all(&mut v, compressed.as_slice());
    proof {
        assert(v@ =~= spec_encode_file(c@, compressed@));
        if cache_encodable(c@) && compressed@.len() <= u32::MAX {
            lemma_file_round_trip(c@, compressed@);
        }
    }
    Some(v)
}

} // verus!
