//! Fonts: styles, the information read from a font file, the sizes of glyph
//! atlases, and the copying of glyph bitmaps into them.
use vstd::prelude::*;
use crate::atlas::{new_packer, packer_pack, packer_config, packer_taken, shadows, all_apart, apart, no_room, lemma_free_apart};

verus! {

/// Style flags of a font: `BOLD` (1) and `ITALIC` (2).
#[derive(Debug, Clone, Copy, PartialEq, Eq, Hash, Structural)]
pub struct FontStyle {
    pub bits: u8,
}

/// Bit of [`FontStyle`] for bold faces.
pub const FONT_BOLD: u8 = 1;
/// Bit of [`FontStyle`] for italic faces.
pub const FONT_ITALIC: u8 = 2;

impl FontStyle {
    /// No style flag.
    pub fn empty() -> (r: FontStyle)
        ensures
            r.bits == 0,
    {
        FontStyle { bits: 0 }
    }

    /// The flags with these bits; `None` where a bit names no flag.
    pub fn from_bits(bits: u8) -> (r: Option<FontStyle>)
        ensures
            r is Some <==> bits <= 3,
            r matches Some(s) ==> s.bits == bits,
    {
        if bits <= 3 {
            Some(FontStyle { bits })
        } else {
            None
        }
    }

    /// Whether every flag of `other` is set.
    pub fn contains(&self, other: FontStyle) -> (r: bool)
        ensures
            r == (self.bits & other.bits == other.bits),
    {
        self.bits & other.bits == other.bits
    }
}

/// A font found on the system or loaded from a path.
#[derive(Debug, Clone, PartialEq, Eq)]
pub struct FontInfo {
    pub name: String,
    pub path: String,
    pub style: FontStyle,
}

/// The texel format of baked text.
#[derive(Debug, Clone, Copy, PartialEq, Eq, Hash, Structural)]
pub enum FontBakeFormat {
    GrayScale,
    Rgba,
}

/// An error of the input/output library of std.
#[verifier::external_type_specification]
#[verifier::external_body]
pub struct ExIoError(std::io::Error);

/// Why a font operation failed.
#[derive(Debug)]
pub enum FontError {
    InvalidFontData(String),
    GlyphNotFound(u32),
    IoError(std::io::Error),
}

/// Largest width and height of a glyph atlas.
pub const MAX_ATLAS_SIZE: usize = 2048;

/// Two to the `k`.
pub open spec fn two_pow(k: nat) -> nat
    decreases k,
{
    if k == 0 {
        1
    } else {
        2 * two_pow((k - 1) as nat)
    }
}

/// The least power of two at least `n` (1 for 0).
pub fn power_of_two(n: usize) -> (r: usize)
    requires
        n <= usize::MAX / 2 + 1,
    ensures
        exists|k: nat| r == #[trigger] two_pow(k),
        r >= n,
        r == 1 || r / 2 < n,
{
    let mut power: usize = 1;
    let ghost mut k: nat = 0;
    assert(power == two_pow(0));
    while power < n
        invariant
            power == two_pow(k),
            n <= usize::MAX / 2 + 1,
            power == 1 || power / 2 < n,
            power >= 1,
        decreases usize::MAX - power,
    {
        proof {
            assert(two_pow(k + 1) == 2 * two_pow(k));
            k = k + 1;
        }
        power = power * 2;
    }
    power
}

// ---------------------------------------------------------------------------
// Font information
// ---------------------------------------------------------------------------

/// The name ids of a face's naming table, in order, and whether the face is
/// bold and italic; `None` where the data is no face.
pub uninterp spec fn face_summary(data: Seq<u8>) -> Option<(Seq<u16>, bool, bool)>;

/// The text of the name at `index` of a face's naming table, where it has
/// one.
pub uninterp spec fn face_name_text(data: Seq<u8>, index: u16) -> Option<Seq<char>>;

/// Calls `ttf_parser::Face::parse` (face 0), and of the face it gives
/// `names()` (the name id of each record its iterator yields), `is_bold` and
/// `is_italic`.
#[verifier::external_body]
fn ttf_face_summary(data: &[u8]) -> (r: Option<(Vec<u16>, bool, bool)>)
    ensures
        match r {
            Some((ids, bold, italic)) => face_summary(data@) == Some((ids@, bold, italic)) && ids@.len() <= u16::MAX,
            None => face_summary(data@) is None,
        },
{
    let face = ttf_parser::Face::parse(data, 0).ok()?;
    let ids: Vec<u16> = face.names().into_iter().map(|n| n.name_id).collect();
    Some((ids, face.is_bold(), face.is_italic()))
}

/// Calls `ttf_parser::Face::parse` (face 0), then `names().get(index)` and
/// the name's `to_string`.
#[verifier::external_body]
fn ttf_name_string(data: &[u8], index: u16) -> (r: Option<String>)
    ensures
        match r {
            Some(s) => face_name_text(data@, index) == Some(s@),
            None => face_name_text(data@, index) is None,
        },
{
    let face = ttf_parser::Face::parse(data, 0).ok()?;
    face.names().get(index).and_then(|n| n.to_string())
}

/// Whether a name id is one the library takes a font's name from: family
/// (1), subfamily (2) or full name (4).
pub open spec fn is_font_name_id(id: u16) -> bool {
    id == 1 || id == 2 || id == 4
}

/// Index of the first name id from `k` that names the font, or -1.
pub open spec fn first_name_index(ids: Seq<u16>, k: int) -> int
    decreases ids.len() - k,
{
    if k < 0 || k >= ids.len() {
        -1
    } else if is_font_name_id(ids[k]) {
        k
    } else {
        first_name_index(ids, k + 1)
    }
}

/// The information of a font file's data, found at `path`: the text of the
/// first family, subfamily or full name of face 0, bold and italic as the
/// face reports them. `None` where the data is no face, has no such name,
/// or that name has no text.
pub fn font_info_from_data(data: &[u8], path: String) -> (r: Option<FontInfo>)
    ensures
        match face_summary(data@) {
            None => r is None,
            Some((ids, bold, italic)) => {
                let i = first_name_index(ids, 0);
                if i < 0 {
                    r is None
                } else {
                    match face_name_text(data@, i as u16) {
                        None => r is None,
                        Some(name) => r matches Some(info) && info.name@ == name && info.path == path
                            && info.style.bits == (if bold { FONT_BOLD } else { 0 }) + (if italic { FONT_ITALIC } else { 0 }),
                    }
                }
            },
        },
{
    let (ids, bold, italic) = match ttf_face_summary(data) {
        Some(s) => s,
        None => return None,
    };
    let mut i: usize = 0;
    while i < ids.len() && !(ids[i] == 1 || ids[i] == 2 || ids[i] == 4)
        invariant
            i <= ids@.len(),
            first_name_index(ids@, 0) == first_name_index(ids@, i as int),
        decreases ids@.len() - i,
    {
        i = i + 1;
    }
    if i >= ids.len() {
        return None;
    }
    let name = match ttf_name_string(data, i as u16) {
        Some(n) => n,
        None => return None,
    };
    let bits: u8 = (if bold { FONT_BOLD } else { 0 }) + (if italic { FONT_ITALIC } else { 0 });
    Some(FontInfo { name, path, style: FontStyle { bits } })
}

// ---------------------------------------------------------------------------
// Glyph bitmaps
// ---------------------------------------------------------------------------

/// The atlas after copying the first `n` texels (row order) of a glyph of
/// width `w` at `(x, y)` into an atlas `aw` texels wide, skipping texels
/// that fall outside the atlas or the bitmap.
pub open spec fn glyph_writes(dst: Seq<u8>, aw: int, x: int, y: int, w: int, bitmap: Seq<u8>, n: nat) -> Seq<u8>
    decreases n,
{
    if n == 0 || w <= 0 {
        dst
    } else {
        let t = n - 1;
        let d = (y + t / w) * aw + x + t % w;
        let prev = glyph_writes(dst, aw, x, y, w, bitmap, (n - 1) as nat);
        if d < prev.len() && t < bitmap.len() {
            prev.update(d, bitmap[t])
        } else {
            prev
        }
    }
}

/// Copies a `w` by `h` glyph bitmap to `(x, y)` of an atlas `aw` texels
/// wide, one byte per texel, skipping what falls outside.
pub fn blit_glyph(dst: &mut Vec<u8>, aw: usize, x: usize, y: usize, w: usize, h: usize, bitmap: &Vec<u8>)
    requires
        y + h <= usize::MAX,
        (y + h) * aw + x + w <= usize::MAX,
        w * h <= usize::MAX,
    ensures
        final(dst)@ == glyph_writes(old(dst)@, aw as int, x as int, y as int, w as int, bitmap@, (w * h) as nat),
        final(dst)@.len() == old(dst)@.len(),
{
    let n = w * h;
    let mut t: usize = 0;
    while t < n
        invariant
            n == w * h,
            y + h <= usize::MAX,
            (y + h) * aw + x + w <= usize::MAX,
            t <= n,
            dst@.len() == old(dst)@.len(),
            dst@ == glyph_writes(old(dst)@, aw as int, x as int, y as int, w as int, bitmap@, t as nat),
        decreases n - t,
    {
        assert(w > 0) by (nonlinear_arith)
            requires t < n, n == w * h;
        let j = t / w;
        let i = t % w;
        proof {
            assert(j < h) by (nonlinear_arith)
                requires t < n, n == w * h, j == t / w, w > 0;
            assert((y + j) * aw <= (y + h) * aw) by (nonlinear_arith)
                requires j < h;
            assert((y + j) * aw + x + i <= (y + h) * aw + x + w);
            assert(y + j <= usize::MAX);
            assert((y + j) * aw <= usize::MAX);
        }
        let row = y + j;
        let d = row * aw + x + i;
        if d < dst.len() && t < bitmap.len() {
            dst.set(d, bitmap[t]);
        }
        t = t + 1;
    }
}

/// Each gray byte as an RGBA texel: the byte in red, green and blue, and an
/// alpha of 0 for a zero byte, 255 otherwise.
pub open spec fn gray_to_rgba(gray: Seq<u8>) -> Seq<u8> {
    Seq::new(gray.len() * 4, |i: int| if i % 4 < 3 { gray[i / 4] } else if gray[i / 4] == 0 { 0u8 } else { 255u8 })
}

/// Expands gray texels to RGBA, transparent where the gray is zero.
pub fn expand_gray_to_rgba(gray: &Vec<u8>) -> (r: Vec<u8>)
    requires
        gray@.len() * 4 <= usize::MAX,
    ensures
        r@ == gray_to_rgba(gray@),
{
    let mut out: Vec<u8> = Vec::new();
    let mut i: usize = 0;
    while i < gray.len()
        invariant
            i <= gray@.len(),
            gray@.len() * 4 <= usize::MAX,
            out@ == gray_to_rgba(gray@).take(i as int * 4),
        decreases gray@.len() - i,
    {
        let b = gray[i];
        let a: u8 = if b == 0 { 0 } else { 255 };
        proof {
            let g = gray_to_rgba(gray@);
            assert(g[i * 4] == b && g[i * 4 + 1] == b && g[i * 4 + 2] == b && g[i * 4 + 3] == a);
            assert(g.take(i * 4 + 4) =~= g.take(i * 4).push(b).push(b).push(b).push(a));
        }
        out.push(b);
        out.push(b);
        out.push(b);
        out.push(a);
        i = i + 1;
    }
    proof {
        assert(gray_to_rgba(gray@).take(i as int * 4) =~= gray_to_rgba(gray@));
    }
    out
}

/// The first `count` gray texels as opaque RGBA texels: the byte in red,
/// green and blue, alpha 255.
pub open spec fn gray_to_opaque_rgba(gray: Seq<u8>, count: int) -> Seq<u8> {
    Seq::new((count * 4) as nat, |i: int| if i % 4 < 3 { gray[i / 4] } else { 255u8 })
}

/// Expands the first `count` gray texels to opaque RGBA texels.
pub fn expand_gray_to_opaque_rgba(gray: &Vec<u8>, count: usize) -> (r: Vec<u8>)
    requires
        count <= gray@.len(),
        count * 4 <= usize::MAX,
    ensures
        r@ == gray_to_opaque_rgba(gray@, count as int),
{
    let mut out: Vec<u8> = Vec::new();
    let mut i: usize = 0;
    while i < count
        invariant
            i <= count,
            count <= gray@.len(),
            count * 4 <= usize::MAX,
            out@ == gray_to_opaque_rgba(gray@, count as int).take(i as int * 4),
        decreases count - i,
    {
        let b = gray[i];
        proof {
            let g = gray_to_opaque_rgba(gray@, count as int);
            assert(g[i * 4] == b && g[i * 4 + 1] == b && g[i * 4 + 2] == b && g[i * 4 + 3] == 255);
            assert(g.take(i * 4 + 4) =~= g.take(i * 4).push(b).push(b).push(b).push(255u8));
        }
        out.push(b);
        out.push(b);
        out.push(b);
        out.push(255);
        i = i + 1;
    }
    proof {
        assert(gray_to_opaque_rgba(gray@, count as int).take(i as int * 4) =~= gray_to_opaque_rgba(gray@, count as int));
    }
    out
}

// ---------------------------------------------------------------------------
// Finding a font to load
// ---------------------------------------------------------------------------

/// The hash, by `std`'s `DefaultHasher` with its fixed keys, of a font
/// request: the font's name or path, its glyph ranges and the bits of its
/// size.
pub uninterp spec fn font_request_hash(name: Seq<char>, ranges: Seq<(u32, u32)>, size_bits: u32) -> u64;

/// Hashes a font request with `std::hash::BuildHasher::hash_one` over
/// `DefaultHasher`, whose keys are fixed, so that the same arguments hash
/// alike within a program (which value they hash to is left unsaid): the
/// result is the name [`font_request_hash`] of the arguments.
#[verifier::external_body]
fn hash_font_request(name: &str, ranges: &[(u32, u32)], size_bits: u32) -> (r: u64)
    ensures
        r == font_request_hash(name@, ranges@, size_bits),
{
    std::hash::BuildHasher::hash_one(&std::hash::BuildHasherDefault::<std::hash::DefaultHasher>::default(), (name, ranges, size_bits))
}

/// The key a loaded font is cached under: the hash of its name or path,
/// its glyph ranges and the bits of its size.
pub fn font_request_key(name: &str, ranges: &[(u32, u32)], size_bits: u32) -> (r: u64)
    ensures
        r == font_request_hash(name@, ranges@, size_bits),
{
    hash_font_request(name, ranges, size_bits)
}

/// Where a requested font comes from.
#[derive(Debug, Clone, Copy, PartialEq, Eq, Structural)]
pub enum FontSource {
    /// A font loaded before under the same key.
    Cached,
    /// The font file at the path the name gives.
    File,
    /// The system font at this index.
    System(usize),
    /// Nowhere: the font is not found.
    Missing,
}

/// The index of the first font of `fonts` with this name, from `k`, or -1.
pub open spec fn first_named(fonts: Seq<FontInfo>, name: Seq<char>, k: int) -> int
    decreases fonts.len() - k,
{
    if k < 0 || k >= fonts.len() {
        -1
    } else if fonts[k].name@ == name {
        k
    } else {
        first_named(fonts, name, k + 1)
    }
}

/// Decides where a requested font comes from: a font cached under its key
/// is used again; else a name that is the path of an existing file is that
/// file; else the first system font of that name; else it is missing.
pub fn font_source(cached: bool, path_exists: bool, fonts: &Vec<FontInfo>, name: &str) -> (r: FontSource)
    ensures
        r == if cached {
            FontSource::Cached
        } else if path_exists {
            FontSource::File
        } else if first_named(fonts@, name@, 0) >= 0 {
            FontSource::System(first_named(fonts@, name@, 0) as usize)
        } else {
            FontSource::Missing
        },
{
    if cached {
        return FontSource::Cached;
    }
    if path_exists {
        return FontSource::File;
    }
    let key = name.to_owned();
    let mut i: usize = 0;
    while i < fonts.len()
        invariant
            i <= fonts@.len(),
            key@ == name@,
            !cached && !path_exists,
            first_named(fonts@, name@, 0) == first_named(fonts@, name@, i as int),
        decreases fonts@.len() - i,
    {
        if fonts[i].name == key {
            proof {
                assert(fonts@[i as int].name@ == name@);
                assert(first_named(fonts@, name@, i as int) == i as int);
            }
            return FontSource::System(i);
        }
        i = i + 1;
    }
    FontSource::Missing
}

// ---------------------------------------------------------------------------
// Baking glyphs into an atlas
// ---------------------------------------------------------------------------

/// One rasterized glyph: its bitmap's width and height and its gray
/// texels.
#[derive(Debug, Clone)]
pub struct GlyphBitmap {
    pub width: i32,
    pub height: i32,
    pub bitmap: Vec<u8>,
}

/// A baked glyph atlas: where each glyph stands (`None` for a glyph with an
/// empty bitmap), the atlas's width and height, and its gray texels.
#[derive(Debug, Clone)]
pub struct GlyphAtlas {
    pub placements: Vec<Option<(i32, i32)>>,
    pub width: i32,
    pub height: i32,
    pub buffer: Vec<u8>,
}

/// The farthest right edge among the first `k` placed glyphs (0 for none).
pub open spec fn glyph_right(gs: Seq<GlyphBitmap>, ps: Seq<Option<(i32, i32)>>, k: nat) -> int
    decreases k,
{
    if k == 0 {
        0
    } else {
        let m = glyph_right(gs, ps, (k - 1) as nat);
        match ps[k - 1] {
            Some((x, _)) => if x + gs[k - 1].width > m { x + gs[k - 1].width } else { m },
            None => m,
        }
    }
}

/// The farthest bottom edge among the first `k` placed glyphs (0 for none).
pub open spec fn glyph_bottom(gs: Seq<GlyphBitmap>, ps: Seq<Option<(i32, i32)>>, k: nat) -> int
    decreases k,
{
    if k == 0 {
        0
    } else {
        let m = glyph_bottom(gs, ps, (k - 1) as nat);
        match ps[k - 1] {
            Some((_, y)) => if y + gs[k - 1].height > m { y + gs[k - 1].height } else { m },
            None => m,
        }
    }
}

/// The atlas texels after copying the first `k` placed glyphs onto `base`.
pub open spec fn baked_texels(gs: Seq<GlyphBitmap>, ps: Seq<Option<(i32, i32)>>, aw: int, k: nat, base: Seq<u8>) -> Seq<u8>
    decreases k,
{
    if k == 0 {
        base
    } else {
        let prev = baked_texels(gs, ps, aw, (k - 1) as nat, base);
        match ps[k - 1] {
            Some((x, y)) => glyph_writes(prev, aw, x as int, y as int, gs[k - 1].width as int, gs[k - 1].bitmap@,
                (gs[k - 1].width * gs[k - 1].height) as nat),
            None => prev,
        }
    }
}

/// Where the glyphs stand: one place per glyph, none exactly for empty
/// bitmaps, each placed glyph inside a square area of side `side`.
pub open spec fn glyphs_placed(gs: Seq<GlyphBitmap>, ps: Seq<Option<(i32, i32)>>, side: int) -> bool {
    &&& ps.len() == gs.len()
    &&& forall|k: int| 0 <= k < gs.len() ==> ((#[trigger] gs[k]).bitmap@.len() == 0 <==> ps[k] is None)
    &&& forall|k: int| 0 <= k < gs.len() && (#[trigger] ps[k]) is Some ==> {
        let (x, y) = ps[k]->Some_0;
        x >= 0 && y >= 0 && x + gs[k].width <= side && y + gs[k].height <= side
    }
}

/// The rectangles of the placed glyphs: corner, width and height (`None`
/// for a glyph left out).
pub open spec fn glyph_rects(gs: Seq<GlyphBitmap>, ps: Seq<Option<(i32, i32)>>) -> Seq<Option<(int, int, int, int)>> {
    Seq::new(ps.len(), |i: int| match ps[i] {
        Some((x, y)) => Some((x as int, y as int, gs[i].width as int, gs[i].height as int)),
        None => None,
    })
}

/// A glyph of width `w` and height `h` finds no room in a square area of
/// side `side` once the glyphs are placed at `ps`: no place is free for
/// it, grown by two texels, of the columns that they take.
pub open spec fn glyphs_full(gs: Seq<GlyphBitmap>, ps: Seq<Option<(i32, i32)>>, side: int, w: int, h: int) -> bool {
    no_room(side, 0, 2, shadows(0, 2, glyph_rects(gs, ps)), w, h)
}

/// Packs glyph bitmaps into a square area of side `tex_width`, two texels
/// apart, and copies them into an atlas as wide and tall as the farthest
/// placed edges. Glyphs with an empty bitmap are left out. `Err(k)` where
/// glyph `k` finds no room: its size is not positive, or the glyphs before
/// it were placed (inside the area, apart) so that no place is left for it.
pub fn bake_glyphs(tex_width: i32, glyphs: &Vec<GlyphBitmap>) -> (r: Result<GlyphAtlas, usize>)
    requires
        0 <= tex_width <= 2048,
        forall|k: int| 0 <= k < glyphs@.len() ==> 0 <= (#[trigger] glyphs@[k]).width <= 2048 && 0 <= glyphs@[k].height <= 2048,
    ensures
        match r {
            Ok(a) => {
                &&& glyphs_placed(glyphs@, a.placements@, tex_width as int)
                &&& all_apart(glyph_rects(glyphs@, a.placements@), 2)
                &&& a.width == glyph_right(glyphs@, a.placements@, glyphs@.len())
                &&& a.height == glyph_bottom(glyphs@, a.placements@, glyphs@.len())
                &&& a.buffer@ == baked_texels(glyphs@, a.placements@, a.width as int, glyphs@.len(),
                    Seq::new((a.width * a.height) as nat, |i: int| 0u8))
            },
            Err(k) => k < glyphs@.len() && glyphs@[k as int].bitmap@.len() > 0 && ({
                let g = glyphs@[k as int];
                ||| g.width <= 0 || g.height <= 0
                ||| exists|ps: Seq<Option<(i32, i32)>>| #[trigger] glyphs_placed(glyphs@.take(k as int), ps, tex_width as int)
                    && all_apart(glyph_rects(glyphs@, ps), 2) && glyphs_full(glyphs@, ps, tex_width as int, g.width as int, g.height as int)
            }),
        },
{
    let mut packer = new_packer(tex_width, 0, 2);
    let mut placements: Vec<Option<(i32, i32)>> = Vec::new();
    let mut aw: i32 = 0;
    let mut ah: i32 = 0;
    let mut k: usize = 0;
    while k < glyphs.len()
        invariant
            k <= glyphs@.len(),
            0 <= tex_width <= 2048,
            packer_config(packer) == (tex_width, tex_width, 0i32, 2i32),
            forall|j: int| 0 <= j < glyphs@.len() ==> 0 <= (#[trigger] glyphs@[j]).width <= 2048 && 0 <= glyphs@[j].height <= 2048,
            glyphs_placed(glyphs@.take(k as int), placements@, tex_width as int),
            packer_taken(packer) == shadows(0, 2, glyph_rects(glyphs@, placements@)),
            all_apart(glyph_rects(glyphs@, placements@), 2),
            aw == glyph_right(glyphs@, placements@, k as nat),
            ah == glyph_bottom(glyphs@, placements@, k as nat),
            0 <= aw <= tex_width,
            0 <= ah <= tex_width,
        decreases glyphs@.len() - k,
    {
        let g = &glyphs[k];
        let ghost before = placements@;
        if g.bitmap.len() == 0 {
            placements.push(None);
            proof {
                let rs = glyph_rects(glyphs@, placements@);
                assert(rs =~= glyph_rects(glyphs@, before).push(None));
                assert(rs.drop_last() =~= glyph_rects(glyphs@, before));
                assert forall|i: int, j: int| 0 <= i < j < rs.len() && (#[trigger] rs[i]) is Some && (#[trigger] rs[j]) is Some
                    implies apart(rs[i]->Some_0, rs[j]->Some_0, 2) by {
                    assert(rs[i] == glyph_rects(glyphs@, before)[i]);
                    assert(rs[j] == glyph_rects(glyphs@, before)[j]);
                }
            }
        } else {
            let (x, y) = match packer_pack(&mut packer, g.width, g.height) {
                Some((x, y, _, _)) => (x, y),
                None => {
                    proof {
                        assert(placements@.len() == glyphs@.take(k as int).len());
                    }
                    return Err(k);
                },
            };
            placements.push(Some((x, y)));
            proof {
                let nr = (x as int, y as int, g.width as int, g.height as int);
                assert(glyph_rects(glyphs@, placements@) =~= glyph_rects(glyphs@, before).push(Some(nr)));
                assert(glyph_rects(glyphs@, placements@).drop_last() =~= glyph_rects(glyphs@, before));
                assert forall|i: int| 0 <= i < glyph_rects(glyphs@, before).len() && (#[trigger] glyph_rects(glyphs@, before)[i]) is Some implies {
                    let r = glyph_rects(glyphs@, before)[i]->Some_0;
                    r.1 >= 0 && 0 <= r.0 <= i32::MAX && 0 <= r.1 <= i32::MAX && r.2 >= 0 && r.3 >= 0
                } by {
                    assert(glyphs@.take(k as int)[i] == glyphs@[i]);
                    assert(before[i] is Some);
                }
                lemma_free_apart(0, 2, glyph_rects(glyphs@, before), nr);
                let rs = glyph_rects(glyphs@, placements@);
                assert forall|i: int, j: int| 0 <= i < j < rs.len() && (#[trigger] rs[i]) is Some && (#[trigger] rs[j]) is Some
                    implies apart(rs[i]->Some_0, rs[j]->Some_0, 2) by {
                    assert(rs[i] == glyph_rects(glyphs@, before)[i]);
                    if j < k {
                        assert(rs[j] == glyph_rects(glyphs@, before)[j]);
                    }
                }
            }
            if x + g.width > aw {
                aw = x + g.width;
            }
            if y + g.height > ah {
                ah = y + g.height;
            }
        }
        proof {
            let gs = glyphs@.take(k + 1);
            assert forall|j: int| 0 <= j < gs.len() implies ((#[trigger] gs[j]).bitmap@.len() == 0 <==> placements@[j] is None) by {
                if j < k {
                    assert(gs[j] == glyphs@.take(k as int)[j]);
                    assert(placements@[j] == before[j]);
                }
            }
            assert forall|j: int| 0 <= j < gs.len() && (#[trigger] placements@[j]) is Some implies {
                let (x, y) = placements@[j]->Some_0;
                x >= 0 && y >= 0 && x + gs[j].width <= tex_width && y + gs[j].height <= tex_width
            } by {
                if j < k {
                    assert(gs[j] == glyphs@.take(k as int)[j]);
                    assert(placements@[j] == before[j]);
                }
            }
            assert(glyph_right(glyphs@, before, k as nat) == glyph_right(glyphs@, placements@, k as nat)) by {
                lemma_glyph_edges_prefix(glyphs@, before, placements@, k as nat);
            }
            assert(glyph_bottom(glyphs@, before, k as nat) == glyph_bottom(glyphs@, placements@, k as nat)) by {
                lemma_glyph_edges_prefix(glyphs@, before, placements@, k as nat);
            }
        }
        k = k + 1;
    }
    proof {
        assert(glyphs@.take(k as int) =~= glyphs@);
    }
    assert(aw * ah <= 2048 * 2048) by (nonlinear_arith)
        requires 0 <= aw <= 2048, 0 <= ah <= 2048;
    let area: usize = (aw as usize) * (ah as usize);
    let mut buffer: Vec<u8> = vec![0u8; area];
    proof {
        assert(buffer@ =~= Seq::new((aw * ah) as nat, |i: int| 0u8));
    }
    let ghost base = buffer@;
    let mut j: usize = 0;
    while j < glyphs.len()
        invariant
            j <= glyphs@.len(),
            placements@.len() == glyphs@.len(),
            0 <= aw <= 2048,
            0 <= ah <= 2048,
            glyphs_placed(glyphs@, placements@, tex_width as int),
            tex_width <= 2048,
            forall|i: int| 0 <= i < glyphs@.len() ==> 0 <= (#[trigger] glyphs@[i]).width <= 2048 && 0 <= glyphs@[i].height <= 2048,
            buffer@ == baked_texels(glyphs@, placements@, aw as int, j as nat, base),
        decreases glyphs@.len() - j,
    {
        match placements[j] {
            Some((x, y)) => {
                let g = &glyphs[j];
                assert(placements@[j as int] is Some);
                proof {
                    assert((y + g.height) * aw + x + g.width <= 4096 * 2048 + 4096) by (nonlinear_arith)
                        requires 0 <= y + g.height <= 4096, 0 <= aw <= 2048, 0 <= x + g.width <= 4096;
                    assert(g.width * g.height <= 2048 * 2048) by (nonlinear_arith)
                        requires 0 <= g.width <= 2048, 0 <= g.height <= 2048;
                }
                blit_glyph(&mut buffer, aw as usize, x as usize, y as usize, g.width as usize, g.height as usize, &g.bitmap);
            },
            None => {},
        }
        j = j + 1;
    }
    Ok(GlyphAtlas { placements, width: aw, height: ah, buffer })
}

/// Adding a place for one more glyph leaves the edges of the earlier ones.
proof fn lemma_glyph_edges_prefix(gs: Seq<GlyphBitmap>, a: Seq<Option<(i32, i32)>>, b: Seq<Option<(i32, i32)>>, k: nat)
    requires
        a.len() >= k,
        b.len() >= k,
        forall|i: int| 0 <= i < k ==> a[i] == b[i],
    ensures
        glyph_right(gs, a, k) == glyph_right(gs, b, k),
        glyph_bottom(gs, a, k) == glyph_bottom(gs, b, k),
    decreases k,
{
    if k > 0 {
        lemma_glyph_edges_prefix(gs, a, b, (k - 1) as nat);
    }
}

} // verus!
