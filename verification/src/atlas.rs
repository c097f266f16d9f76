//! Texture atlases: images packed into one texture of at most 2048 by 2048
//! texels, each at its own place.
use vstd::prelude::*;

use crate::texture::{decode_image_rgba, decoded_rgba, decode_image_file_rgba, decoded_file_rgba};
use crate::binary_shader::{decimal, push_decimal};

verus! {

/// Largest width and height of an atlas.
pub const MAX_ATLAS_SIZE: i32 = 2048;

/// A rectangle packer of the `rect_packer` crate.
#[verifier::external_type_specification]
#[verifier::external_body]
pub struct ExPacker(rect_packer::Packer);

/// The width, height, border padding and rectangle padding that a packer
/// was made with.
pub uninterp spec fn packer_config(p: rect_packer::Packer) -> (i32, i32, i32, i32);

/// The cells that a packer counts as taken, in the coordinates its `pack`
/// answers in (shifted by the border padding): in each column of its area,
/// every cell below its skyline.
pub uninterp spec fn packer_taken(p: rect_packer::Packer) -> Set<(i32, i32)>;

/// The cells of the rectangle at `(x, y)` of width `w` and height `h`.
pub open spec fn cells(x: int, y: int, w: int, h: int) -> Set<(i32, i32)> {
    Set::new(|c: (i32, i32)| x <= c.0 < x + w && y <= c.1 < y + h)
}

/// No cell of the rectangle at `(x, y)` of width `w` and height `h` is in
/// `taken`.
pub open spec fn free_at(taken: Set<(i32, i32)>, x: int, y: int, w: int, h: int) -> bool {
    forall|c: (i32, i32)| #[trigger] cells(x, y, w, h).contains(c) ==> !taken.contains(c)
}

/// The side of the square area that a packer of side `side`, border
/// padding `border` and rectangle padding `pad` packs into.
pub open spec fn inner_side(side: int, border: int, pad: int) -> int {
    if side + pad - 2 * border > 0 { side + pad - 2 * border } else { 0 }
}

/// A rectangle at `(x, y)` of width `w` and height `h` lies in the area of
/// a packer of side `side` and these paddings.
pub open spec fn in_area(side: int, border: int, pad: int, x: int, y: int, w: int, h: int) -> bool {
    &&& border <= x && x + w <= border + inner_side(side, border, pad)
    &&& border <= y && y + h <= border + inner_side(side, border, pad)
}

/// The cells that placing a rectangle at `(x, y)` of width `w` and height
/// `h` takes: its columns from the top of the area down to its bottom.
pub open spec fn shadow(border: int, x: int, y: int, w: int, h: int) -> Set<(i32, i32)> {
    cells(x, border, w, y + h - border)
}

/// The cells taken by placing these rectangles (`None` places nothing),
/// each grown by `pad`, one after another: the union of their shadows.
pub open spec fn shadows(border: int, pad: int, rects: Seq<Option<(int, int, int, int)>>) -> Set<(i32, i32)>
    decreases rects.len(),
{
    if rects.len() == 0 {
        Set::empty()
    } else {
        let before = shadows(border, pad, rects.drop_last());
        match rects.last() {
            Some(r) => before.union(shadow(border, r.0, r.1, r.2 + pad, r.3 + pad)),
            None => before,
        }
    }
}

/// The rectangles `a` and `b`, each given as its corner, width and height,
/// lie at least `pad` cells apart, side by side or one above the other.
pub open spec fn apart(a: (int, int, int, int), b: (int, int, int, int), pad: int) -> bool {
    ||| a.0 + a.2 + pad <= b.0
    ||| b.0 + b.2 + pad <= a.0
    ||| a.1 + a.3 + pad <= b.1
    ||| b.1 + b.3 + pad <= a.1
}

/// Every two placed rectangles lie at least `pad` cells apart.
pub open spec fn all_apart(rects: Seq<Option<(int, int, int, int)>>, pad: int) -> bool {
    forall|i: int, j: int| 0 <= i < j < rects.len() && (#[trigger] rects[i]) is Some && (#[trigger] rects[j]) is Some
        ==> apart(rects[i]->Some_0, rects[j]->Some_0, pad)
}

/// No place in the area of a packer of side `side` and these paddings is
/// free of `taken` for a rectangle of width `w` and height `h`, grown by
/// `pad`.
pub open spec fn no_room(side: int, border: int, pad: int, taken: Set<(i32, i32)>, w: int, h: int) -> bool {
    forall|x: int, y: int| #[trigger] in_area(side, border, pad, x, y, w + pad, h + pad) ==> !free_at(taken, x, y, w + pad, h + pad)
}

/// A cell of a placed rectangle, grown by `pad`, lies in the shadows of the
/// rectangles.
pub proof fn lemma_in_shadows(border: int, pad: int, rects: Seq<Option<(int, int, int, int)>>, i: int, c: (i32, i32))
    requires
        0 <= i < rects.len(),
        rects[i] matches Some(r) && r.1 >= border && cells(r.0, r.1, r.2 + pad, r.3 + pad).contains(c),
    ensures
        shadows(border, pad, rects).contains(c),
    decreases rects.len(),
{
    if i < rects.len() - 1 {
        lemma_in_shadows(border, pad, rects.drop_last(), i, c);
    }
}

/// A rectangle placed free of the shadows of earlier rectangles lies
/// `pad` cells apart from each of them.
pub proof fn lemma_free_apart(border: int, pad: int, rects: Seq<Option<(int, int, int, int)>>, n: (int, int, int, int))
    requires
        free_at(shadows(border, pad, rects), n.0, n.1, n.2 + pad, n.3 + pad),
        pad > 0,
        0 <= n.0 <= i32::MAX && 0 <= n.1 <= i32::MAX && n.2 >= 0 && n.3 >= 0,
        forall|i: int| 0 <= i < rects.len() && (#[trigger] rects[i]) is Some ==> {
            let r = rects[i]->Some_0;
            r.1 >= border && 0 <= r.0 <= i32::MAX && 0 <= r.1 <= i32::MAX && r.2 >= 0 && r.3 >= 0
        },
    ensures
        forall|i: int| 0 <= i < rects.len() && (#[trigger] rects[i]) is Some ==> apart(rects[i]->Some_0, n, pad),
{
    assert forall|i: int| 0 <= i < rects.len() && (#[trigger] rects[i]) is Some implies apart(rects[i]->Some_0, n, pad) by {
        let r = rects[i]->Some_0;
        if !apart(r, n, pad) {
            let cx: int = if r.0 > n.0 { r.0 } else { n.0 };
            let cy: int = if r.1 > n.1 { r.1 } else { n.1 };
            let c: (i32, i32) = (cx as i32, cy as i32);
            assert(c.0 as int == cx && c.1 as int == cy);
            assert(cells(r.0, r.1, r.2 + pad, r.3 + pad).contains(c));
            lemma_in_shadows(border, pad, rects, i, c);
            assert(cells(n.0, n.1, n.2 + pad, n.3 + pad).contains(c));
        }
    }
}

/// Calls `rect_packer::Packer::new` with a square configuration of this
/// side and these paddings. As its source shows, it keeps the
/// configuration and starts with nothing taken; the sizes it computes fit
/// in `i32`.
#[verifier::external_body]
pub(crate) fn new_packer(side: i32, border_padding: i32, rectangle_padding: i32) -> (p: rect_packer::Packer)
    requires
        0 <= side,
        0 <= border_padding,
        0 <= rectangle_padding,
        side as int + rectangle_padding as int <= i32::MAX,
        2 * border_padding as int <= i32::MAX,
    ensures
        packer_config(p) == (side, side, border_padding, rectangle_padding),
        packer_taken(p) == Set::<(i32, i32)>::empty(),
{
    rect_packer::Packer::new(rect_packer::Config { width: side, height: side, border_padding, rectangle_padding })
}

/// Calls `rect_packer::Packer::pack` without rotation on a square packer.
/// As its source shows: it refuses empty sizes and keeps its
/// configuration; it places the rectangle, grown by the rectangle padding,
/// inside its area on cells it had not taken, and then takes the columns
/// of that grown rectangle down to its bottom; it answers `None`, taking
/// nothing, exactly where no place in its area is free for the grown
/// rectangle.
#[verifier::external_body]
pub(crate) fn packer_pack(p: &mut rect_packer::Packer, width: i32, height: i32) -> (r: Option<(i32, i32, i32, i32)>)
    requires
        packer_config(*old(p)).0 == packer_config(*old(p)).1,
        0 <= packer_config(*old(p)).0,
        0 <= packer_config(*old(p)).2,
        0 <= packer_config(*old(p)).3,
        packer_config(*old(p)).0 as int + 2 * packer_config(*old(p)).3 as int + width as int <= i32::MAX,
        packer_config(*old(p)).0 as int + 2 * packer_config(*old(p)).3 as int + height as int <= i32::MAX,
    ensures
        packer_config(*final(p)) == packer_config(*old(p)),
        width <= 0 || height <= 0 ==> r is None,
        r is None ==> packer_taken(*final(p)) == packer_taken(*old(p)),
        r is None && width > 0 && height > 0 ==> no_room(
            packer_config(*old(p)).0 as int,
            packer_config(*old(p)).2 as int,
            packer_config(*old(p)).3 as int,
            packer_taken(*old(p)),
            width as int,
            height as int,
        ),
        r matches Some((x, y, w, h)) ==> {
            let (side, _, border, pad) = packer_config(*old(p));
            &&& w == width && h == height
            &&& in_area(side as int, border as int, pad as int, x as int, y as int, w + pad, h + pad)
            &&& free_at(packer_taken(*old(p)), x as int, y as int, w + pad, h + pad)
            &&& packer_taken(*final(p)) == packer_taken(*old(p)).union(shadow(border as int, x as int, y as int, w + pad, h + pad))
        },
{
    match p.pack(width, height, false) {
        Some(rect) => Some((rect.x, rect.y, rect.width, rect.height)),
        None => None,
    }
}

/// Why building an atlas failed.
#[derive(Debug, Clone, PartialEq, Eq)]
pub enum TextureAtlasBuilderError {
    EmptyAtlas,
    ExceedsMaxSize(i32, i32),
    FileNotFound(String),
    InvalidData(String),
}

/// A signed integer in decimal, with a leading `-` when negative.
pub open spec fn signed_decimal(i: int) -> Seq<char> {
    if i < 0 { seq!['-'] + decimal((-i) as nat) } else { decimal(i as nat) }
}

/// Appends `i` in decimal to `s`, with a leading `-` when negative.
fn push_signed_decimal(s: &mut String, i: i32)
    ensures
        final(s)@ == old(s)@ + signed_decimal(i as int),
{
    if i < 0 {
        s.append("-");
        proof {
            reveal_strlit("-");
        }
        let m: u64 = (-(i as i64)) as u64;
        push_decimal(s, m);
        assert(s@ =~= old(s)@ + signed_decimal(i as int));
    } else {
        push_decimal(s, i as u64);
    }
}

/// `prefix`, then `w`, `x` and `h` in decimal.
fn format_size_pair(prefix: &str, w: i32, h: i32) -> (r: String)
    ensures
        r@ == prefix@ + signed_decimal(w as int) + seq!['x'] + signed_decimal(h as int),
{
    let mut s = prefix.to_owned();
    push_signed_decimal(&mut s, w);
    s.append("x");
    proof {
        reveal_strlit("x");
    }
    push_signed_decimal(&mut s, h);
    assert(s@ =~= prefix@ + signed_decimal(w as int) + seq!['x'] + signed_decimal(h as int));
    s
}

/// `prefix` followed by `text`.
fn format_with_text(prefix: &str, text: &str) -> (r: String)
    ensures
        r@ == prefix@ + text@,
{
    let mut s = prefix.to_owned();
    s.append(text);
    s
}

impl TextureAtlasBuilderError {
    /// The error as a sentence.
    pub fn message(&self) -> (r: String)
        ensures
            r@ == match self {
                TextureAtlasBuilderError::EmptyAtlas => "Texture atlas cannot be empty"@,
                TextureAtlasBuilderError::ExceedsMaxSize(w, h) => "Texture atlas exceeds maximum size: "@
                    + signed_decimal(*w as int) + seq!['x'] + signed_decimal(*h as int),
                TextureAtlasBuilderError::FileNotFound(f) => "Texture file not found: "@ + f@,
                TextureAtlasBuilderError::InvalidData(id) => "Invalid texture data for id: "@ + id@,
            },
    {
        match self {
            TextureAtlasBuilderError::EmptyAtlas => "Texture atlas cannot be empty".to_owned(),
            TextureAtlasBuilderError::ExceedsMaxSize(w, h) => format_size_pair("Texture atlas exceeds maximum size: ", *w, *h),
            TextureAtlasBuilderError::FileNotFound(f) => format_with_text("Texture file not found: ", f.as_str()),
            TextureAtlasBuilderError::InvalidData(id) => format_with_text("Invalid texture data for id: ", id.as_str()),
        }
    }
}

/// Where the image of an atlas entry comes from: a file (its path, and its
/// contents where it could be read), encoded bytes, or raw RGBA texels of a
/// given width and height.
#[derive(Debug, Clone)]
pub enum ItemQueue {
    File(String, Option<Vec<u8>>),
    Memory(Vec<u8>),
    Raw(Vec<u8>, u32, u32),
}

/// An image of the atlas: its id, its RGBA texels, its width and height.
#[derive(Debug, Clone)]
pub struct AtlasImage {
    pub id: String,
    pub data: Vec<u8>,
    pub width: i32,
    pub height: i32,
}

/// Where an image stands in the atlas.
#[derive(Debug, Clone)]
pub struct AtlasPlacement {
    pub id: String,
    pub x: i32,
    pub y: i32,
    pub width: i32,
    pub height: i32,
}

/// A built atlas: its size, where each image stands, and its RGBA texels.
#[derive(Debug, Clone)]
pub struct AtlasLayout {
    pub width: i32,
    pub height: i32,
    pub placements: Vec<AtlasPlacement>,
    pub pixels: Vec<u8>,
}

impl AtlasLayout {
    /// Where the image under `id` stands: the corner, width and height of
    /// the first placement with that id, or `None` where no placement has
    /// it.
    pub fn get_id(&self, id: &str) -> (r: Option<(i32, i32, i32, i32)>)
        ensures
            match r {
                Some((x, y, w, h)) => exists|i: int| 0 <= i < self.placements@.len() && (#[trigger] self.placements@[i]).id@ == id@
                    && (forall|j: int| 0 <= j < i ==> (#[trigger] self.placements@[j]).id@ != id@)
                    && x == self.placements@[i].x && y == self.placements@[i].y
                    && w == self.placements@[i].width && h == self.placements@[i].height,
                None => forall|i: int| 0 <= i < self.placements@.len() ==> (#[trigger] self.placements@[i]).id@ != id@,
            },
    {
        let key = id.to_owned();
        let mut i: usize = 0;
        while i < self.placements.len()
            invariant
                i <= self.placements@.len(),
                key@ == id@,
                forall|j: int| 0 <= j < i ==> (#[trigger] self.placements@[j]).id@ != id@,
            decreases self.placements@.len() - i,
        {
            let p = &self.placements[i];
            if p.id == key {
                return Some((p.x, p.y, p.width, p.height));
            }
            i = i + 1;
        }
        None
    }
}

/// The atlas texels after copying the first `n` texels (in row order) of an
/// image of width `w` at `(x, y)` into an atlas `aw` texels wide.
pub open spec fn blit_writes(dst: Seq<u8>, aw: int, x: int, y: int, w: int, data: Seq<u8>, n: nat) -> Seq<u8>
    decreases n,
{
    if n == 0 || w <= 0 {
        dst
    } else {
        let t = n - 1;
        let base = ((y + t / w) * aw + x + t % w) * 4;
        blit_writes(dst, aw, x, y, w, data, (n - 1) as nat)
            .update(base, data[t * 4])
            .update(base + 1, data[t * 4 + 1])
            .update(base + 2, data[t * 4 + 2])
            .update(base + 3, data[t * 4 + 3])
    }
}

/// The atlas texels after copying the first `k` images (given by their
/// texels) to their places.
pub open spec fn blit_all(dst: Seq<u8>, aw: int, placements: Seq<AtlasPlacement>, datas: Seq<Seq<u8>>, k: nat) -> Seq<u8>
    decreases k,
{
    if k == 0 {
        dst
    } else {
        let p = placements[k - 1];
        blit_writes(
            blit_all(dst, aw, placements, datas, (k - 1) as nat),
            aw,
            p.x as int,
            p.y as int,
            p.width as int,
            datas[k - 1],
            (p.width as int * p.height as int) as nat,
        )
    }
}

fn blit_image(dst: &mut Vec<u8>, aw: i32, ah: i32, p: &AtlasPlacement, data: &Vec<u8>)
    requires
        p.x >= 0 && p.y >= 0 && p.width >= 0 && p.height >= 0,
        p.x as int + p.width as int <= aw,
        p.y as int + p.height as int <= ah,
        old(dst)@.len() == aw as int * ah as int * 4,
        data@.len() >= p.width as int * p.height as int * 4,
        aw as int * ah as int * 4 <= usize::MAX,
    ensures
        final(dst)@ == blit_writes(old(dst)@, aw as int, p.x as int, p.y as int, p.width as int, data@, (p.width as int * p.height as int) as nat),
        final(dst)@.len() == old(dst)@.len(),
{
    let w = p.width as usize;
    let h = p.height as usize;
    let x = p.x as usize;
    let y = p.y as usize;
    let awu = aw as usize;
    assert(w as int * h as int <= aw as int * ah as int) by (nonlinear_arith)
        requires w <= aw, h <= ah, w >= 0, h >= 0;
    let n = w * h;
    let dl = data.len();
    let mut t: usize = 0;
    while t < n
        invariant
            dl == data@.len(),
            n == w as int * h as int,
            w == p.width && h == p.height && x == p.x && y == p.y && awu == aw,
            p.x as int + p.width as int <= aw,
            p.y as int + p.height as int <= ah,
            t <= n,
            dst@.len() == aw as int * ah as int * 4,
            data@.len() >= n * 4,
            aw as int * ah as int * 4 <= usize::MAX,
            dst@ == blit_writes(old(dst)@, aw as int, x as int, y as int, w as int, data@, t as nat),
        decreases n - t,
    {
        assert(w > 0) by (nonlinear_arith)
            requires t < n, n == w * h, w >= 0, h >= 0;
        let j = t / w;
        let i = t % w;
        proof {
            assert(j < h) by (nonlinear_arith)
                requires t < n, n == w * h, j == t / w, w > 0;
            assert(i < w);
            assert(((y + j) * awu + x + i) * 4 + 3 < aw as int * ah as int * 4) by (nonlinear_arith)
                requires j < h, i < w, x + w <= aw, y + h <= ah, awu == aw;
            assert(t * 4 + 3 < n * 4);
        }
        let base = ((y + j) * awu + x + i) * 4;
        let src = t * 4;
        dst.set(base, data[src]);
        dst.set(base + 1, data[src + 1]);
        dst.set(base + 2, data[src + 2]);
        dst.set(base + 3, data[src + 3]);
        t = t + 1;
    }
}

/// The image an entry yields, as texels, width and height; `None` where
/// its source fails.
pub open spec fn item_image(item: ItemQueue) -> Option<(Seq<u8>, i32, i32)> {
    match item {
        ItemQueue::File(_, None) => None,
        ItemQueue::File(path, Some(bytes)) => match decoded_file_rgba(path@, bytes@) {
            Some((w, h, px)) => Some((px, w as i32, h as i32)),
            None => None,
        },
        ItemQueue::Memory(bytes) => match decoded_rgba(bytes@) {
            Some((w, h, px)) => Some((px, w as i32, h as i32)),
            None => None,
        },
        ItemQueue::Raw(data, w, h) => if data@.len() == w as int * h as int * 4 {
            Some((data@, w as i32, h as i32))
        } else {
            None
        },
    }
}

/// Whether `e` is the error of an entry whose source fails: a missing file
/// gives its path, an undecodable file its path, other failures the id.
pub open spec fn item_error(id: Seq<char>, item: ItemQueue, e: TextureAtlasBuilderError) -> bool {
    match item {
        ItemQueue::File(path, None) => e matches TextureAtlasBuilderError::FileNotFound(p) && p@ == path@,
        ItemQueue::File(path, Some(_)) => e matches TextureAtlasBuilderError::InvalidData(p) && p@ == path@,
        _ => e matches TextureAtlasBuilderError::InvalidData(p) && p@ == id,
    }
}

/// Whether `img` is the image that the entry `item` yields.
pub open spec fn image_of(img: AtlasImage, item: (String, ItemQueue)) -> bool {
    match item_image(item.1) {
        Some((px, w, h)) => img.id@ == item.0@ && img.data@ == px && img.width == w && img.height == h,
        None => false,
    }
}

proof fn lemma_cast_image(w: u32, h: u32, len: int)
    requires
        len >= w as int * h as int * 4,
    ensures
        (w as i32) < 0 || (h as i32) < 0 || len >= (w as i32) as int * (h as i32) as int * 4,
{
    if w <= 0x7FFF_FFFF && h <= 0x7FFF_FFFF {
        assert((w as i32) as int == w as int && (h as i32) as int == h as int);
    } else if w > 0x7FFF_FFFF {
        assert(w > 0x7FFF_FFFFu32 ==> (w as i32) < 0i32) by (bit_vector);
    } else {
        assert(h > 0x7FFF_FFFFu32 ==> (h as i32) < 0i32) by (bit_vector);
    }
}

/// Reads the image of each entry, in order, stopping at the first entry
/// whose source fails with that entry's error.
pub fn load_atlas_images(items: Vec<(String, ItemQueue)>) -> (res: Result<Vec<AtlasImage>, TextureAtlasBuilderError>)
    ensures
        match res {
            Ok(imgs) => imgs@.len() == items@.len() && images_ok(imgs@)
                && forall|i: int| 0 <= i < imgs@.len() ==> image_of(#[trigger] imgs@[i], items@[i]),
            Err(e) => exists|k: int| 0 <= k < items@.len() && (forall|i: int| 0 <= i < k ==> (#[trigger] item_image(items@[i].1)) is Some)
                && item_image(items@[k].1) is None && item_error(items@[k].0@, items@[k].1, e),
        },
{
    let mut out: Vec<AtlasImage> = Vec::new();
    let mut rest = items;
    let ghost orig = rest@;
    let n = rest.len();
    let mut k: usize = 0;
    proof {
        assert(rest@ =~= orig.skip(0));
    }
    while k < n
        invariant
            k <= n,
            n == orig.len(),
            orig == items@,
            rest@ == orig.skip(k as int),
            out@.len() == k,
            forall|i: int| 0 <= i < k ==> image_of(#[trigger] out@[i], orig[i]),
            images_ok(out@),
        decreases n - k,
    {
        let (id, item) = rest.remove(0);
        proof {
            assert((id, item) == orig[k as int]);
            assert(rest@ =~= orig.skip(k + 1));
            assert forall|i: int| 0 <= i < k implies (#[trigger] item_image(orig[i].1)) is Some by {
                assert(image_of(out@[i], orig[i]));
            }
        }
        let img = match item {
            ItemQueue::File(path, contents) => {
                let bytes = match contents {
                    Some(b) => b,
                    None => return Err(TextureAtlasBuilderError::FileNotFound(path)),
                };
                match decode_image_file_rgba(path.as_str(), bytes.as_slice()) {
                    Some((w, h, px)) => {
                        proof {
                            lemma_cast_image(w, h, px@.len() as int);
                        }
                        AtlasImage { id, data: px, width: w as i32, height: h as i32 }
                    },
                    None => return Err(TextureAtlasBuilderError::InvalidData(path)),
                }
            },
            ItemQueue::Memory(bytes) => match decode_image_rgba(bytes.as_slice()) {
                Some((w, h, px)) => {
                    proof {
                        lemma_cast_image(w, h, px@.len() as int);
                    }
                    AtlasImage { id, data: px, width: w as i32, height: h as i32 }
                },
                None => return Err(TextureAtlasBuilderError::InvalidData(id)),
            },
            ItemQueue::Raw(data, w, h) => {
                assert(w as int * h as int * 4 <= 0x10_0000_0000_0000_0000) by (nonlinear_arith)
                    requires w <= 0xFFFF_FFFFu32, h <= 0xFFFF_FFFFu32;
                if data.len() as u128 != w as u128 * h as u128 * 4 {
                    return Err(TextureAtlasBuilderError::InvalidData(id));
                }
                proof {
                    lemma_cast_image(w, h, data@.len() as int);
                }
                AtlasImage { id, data, width: w as i32, height: h as i32 }
            },
        };
        let ghost before = out@;
        out.push(img);
        proof {
            assert forall|i: int| 0 <= i < k + 1 implies image_of(#[trigger] out@[i], orig[i]) by {
                if i < k {
                    assert(out@[i] == before[i]);
                }
            }
            assert forall|i: int| 0 <= i < out@.len() implies (#[trigger] out@[i]).width < 0 || out@[i].height < 0
                || out@[i].data@.len() >= out@[i].width as int * out@[i].height as int * 4 by {
                if i < k {
                    assert(out@[i] == before[i]);
                }
            }
        }
        k = k + 1;
    }
    proof {
        assert(out@.len() == items@.len());
        assert forall|i: int| 0 <= i < out@.len() implies image_of(#[trigger] out@[i], items@[i]) by {
            assert(image_of(out@[i], orig[i]));
        }
    }
    Ok(out)
}

/// Whether the texels of each image cover its size.
pub open spec fn images_ok(images: Seq<AtlasImage>) -> bool {
    forall|i: int| 0 <= i < images.len() ==> (#[trigger] images[i]).width < 0 || images[i].height < 0
        || images[i].data@.len() >= images[i].width as int * images[i].height as int * 4
}

/// Whether the placements put each image, at its own size, inside the
/// packing area, at least one texel from its edges.
pub open spec fn placements_ok(placements: Seq<AtlasPlacement>, images: Seq<AtlasImage>) -> bool {
    &&& placements.len() == images.len()
    &&& forall|i: int| 0 <= i < placements.len() ==> {
        let p = #[trigger] placements[i];
        &&& p.id@ == images[i].id@
        &&& p.width == images[i].width && p.height == images[i].height
        &&& p.x >= 1 && p.y >= 1 && p.width > 0 && p.height > 0
        &&& p.x as int + p.width as int <= MAX_ATLAS_SIZE - 1
        &&& p.y as int + p.height as int <= MAX_ATLAS_SIZE - 1
    }
}

/// The largest right edge among the first `k` placements (0 for none).
pub open spec fn max_right(placements: Seq<AtlasPlacement>, k: nat) -> int
    decreases k,
{
    if k == 0 {
        0
    } else {
        let r = placements[k - 1].x as int + placements[k - 1].width as int;
        let m = max_right(placements, (k - 1) as nat);
        if r > m { r } else { m }
    }
}

/// The largest bottom edge among the first `k` placements (0 for none).
pub open spec fn max_bottom(placements: Seq<AtlasPlacement>, k: nat) -> int
    decreases k,
{
    if k == 0 {
        0
    } else {
        let b = placements[k - 1].y as int + placements[k - 1].height as int;
        let m = max_bottom(placements, (k - 1) as nat);
        if b > m { b } else { m }
    }
}

proof fn lemma_max_prefix(s: Seq<AtlasPlacement>, t: Seq<AtlasPlacement>, k: nat)
    requires
        k <= s.len(),
        k <= t.len(),
        forall|i: int| 0 <= i < k ==> s[i] == t[i],
    ensures
        max_right(s, k) == max_right(t, k),
        max_bottom(s, k) == max_bottom(t, k),
    decreases k,
{
    if k > 0 {
        lemma_max_prefix(s, t, (k - 1) as nat);
    }
}

/// The message for an image that found no room.
pub open spec fn msg_pack_failed(id: Seq<char>) -> Seq<char> {
    "Failed to pack texture with id: "@ + id
}


/// The rectangles of the placements: corner, width and height.
pub open spec fn atlas_rects(ps: Seq<AtlasPlacement>) -> Seq<Option<(int, int, int, int)>> {
    Seq::new(ps.len(), |i: int| Some((ps[i].x as int, ps[i].y as int, ps[i].width as int, ps[i].height as int)))
}

/// An image of width `w` and height `h` finds no room in the atlas area
/// once the placements `ps` are made: no place is free for it, grown by
/// one texel, of the columns that they take.
pub open spec fn atlas_full(ps: Seq<AtlasPlacement>, w: int, h: int) -> bool {
    no_room(MAX_ATLAS_SIZE as int, 1, 1, shadows(1, 1, atlas_rects(ps)), w, h)
}

/// Packs the images in order into a 2048 by 2048 area with one texel of
/// border and of spacing. An image wider or taller than 2048 fails with
/// `ExceedsMaxSize` of its size; one that finds no room fails with
/// `InvalidData` naming it: its size is not positive, or the images before
/// it were placed (at their sizes, inside the area, apart) so that no place
/// is left for it. On success, the placements keep each image's id and
/// size, lie inside the area at least one texel apart, and the atlas is as
/// wide and tall as the farthest placed edges.
pub fn pack_atlas(images: &Vec<AtlasImage>) -> (res: Result<(Vec<AtlasPlacement>, i32, i32), TextureAtlasBuilderError>)
    ensures
        match res {
            Ok((ps, w, h)) => placements_ok(ps@, images@) && all_apart(atlas_rects(ps@), 1)
                && w == max_right(ps@, ps@.len()) && h == max_bottom(ps@, ps@.len()),
            Err(TextureAtlasBuilderError::ExceedsMaxSize(w, h)) => exists|k: int| 0 <= k < images@.len()
                && (#[trigger] images@[k]).width == w && images@[k].height == h && (w > MAX_ATLAS_SIZE || h > MAX_ATLAS_SIZE)
                && forall|i: int| 0 <= i < k ==> (#[trigger] images@[i]).width <= MAX_ATLAS_SIZE && images@[i].height <= MAX_ATLAS_SIZE,
            Err(TextureAtlasBuilderError::InvalidData(m)) => exists|k: int| 0 <= k < images@.len()
                && m@ == msg_pack_failed((#[trigger] images@[k]).id@) && images@[k].width <= MAX_ATLAS_SIZE && images@[k].height <= MAX_ATLAS_SIZE
                && (forall|i: int| 0 <= i < k ==> (#[trigger] images@[i]).width <= MAX_ATLAS_SIZE && images@[i].height <= MAX_ATLAS_SIZE)
                && (images@[k].width <= 0 || images@[k].height <= 0 || exists|ps: Seq<AtlasPlacement>| #[trigger] placements_ok(ps, images@.take(k))
                    && all_apart(atlas_rects(ps), 1) && atlas_full(ps, images@[k].width as int, images@[k].height as int)),
            Err(_) => false,
        },
{
    let mut packer = new_packer(MAX_ATLAS_SIZE, 1, 1);
    let mut placements: Vec<AtlasPlacement> = Vec::new();
    let mut aw: i32 = 0;
    let mut ah: i32 = 0;
    let mut k: usize = 0;
    while k < images.len()
        invariant
            k <= images@.len(),
            packer_config(packer) == (MAX_ATLAS_SIZE, MAX_ATLAS_SIZE, 1i32, 1i32),
            packer_taken(packer) == shadows(1, 1, atlas_rects(placements@)),
            all_apart(atlas_rects(placements@), 1),
            placements@.len() == k,
            placements_ok(placements@, images@.take(k as int)),
            aw == max_right(placements@, k as nat),
            ah == max_bottom(placements@, k as nat),
            0 <= aw <= MAX_ATLAS_SIZE - 1,
            0 <= ah <= MAX_ATLAS_SIZE - 1,
            forall|i: int| 0 <= i < k ==> (#[trigger] images@[i]).width <= MAX_ATLAS_SIZE && images@[i].height <= MAX_ATLAS_SIZE,
        decreases images@.len() - k,
    {
        let img = &images[k];
        if img.width > MAX_ATLAS_SIZE || img.height > MAX_ATLAS_SIZE {
            return Err(TextureAtlasBuilderError::ExceedsMaxSize(img.width, img.height));
        }
        let rect = packer_pack(&mut packer, img.width, img.height);
        let (x, y, w, h) = match rect {
            Some(r) => r,
            None => {
                proof {
                    assert(images@.take(k as int).len() == k);
                }
                return Err(TextureAtlasBuilderError::InvalidData(format_with_text("Failed to pack texture with id: ", img.id.as_str())));
            },
        };
        let ghost before = placements@;
        placements.push(AtlasPlacement { id: img.id.clone(), x, y, width: w, height: h });
        proof {
            assert forall|i: int| 0 <= i < placements@.len() implies {
                let p = #[trigger] placements@[i];
                &&& p.id@ == images@.take(k + 1)[i].id@
                &&& p.width == images@.take(k + 1)[i].width && p.height == images@.take(k + 1)[i].height
                &&& p.x >= 1 && p.y >= 1 && p.width > 0 && p.height > 0
                &&& p.x as int + p.width as int <= MAX_ATLAS_SIZE - 1
                &&& p.y as int + p.height as int <= MAX_ATLAS_SIZE - 1
            } by {
                if i < k {
                    assert(placements@[i] == before[i]);
                    assert(images@.take(k + 1)[i] == images@.take(k as int)[i]);
                }
            }
            assert(placements@.len() == images@.take(k + 1).len());
            lemma_max_prefix(before, placements@, k as nat);
            let nr = (x as int, y as int, w as int, h as int);
            assert(atlas_rects(placements@) =~= atlas_rects(before).push(Some(nr)));
            assert(atlas_rects(placements@).drop_last() =~= atlas_rects(before));
            lemma_free_apart(1, 1, atlas_rects(before), nr);
            assert forall|i: int, j: int| 0 <= i < j < atlas_rects(placements@).len() && (#[trigger] atlas_rects(placements@)[i]) is Some
                && (#[trigger] atlas_rects(placements@)[j]) is Some implies apart(atlas_rects(placements@)[i]->Some_0, atlas_rects(placements@)[j]->Some_0, 1) by {
                if j < k {
                    assert(atlas_rects(placements@)[i] == atlas_rects(before)[i]);
                    assert(atlas_rects(placements@)[j] == atlas_rects(before)[j]);
                } else {
                    assert(atlas_rects(placements@)[i] == atlas_rects(before)[i]);
                    assert(atlas_rects(before)[i] is Some);
                }
            }
        }
        if x + w > aw {
            aw = x + w;
        }
        if y + h > ah {
            ah = y + h;
        }
        k = k + 1;
    }
    if aw > MAX_ATLAS_SIZE || ah > MAX_ATLAS_SIZE {
        return Err(TextureAtlasBuilderError::ExceedsMaxSize(aw, ah));
    }
    proof {
        assert(images@.take(k as int) =~= images@);
    }
    Ok((placements, aw, ah))
}

/// The texels of each image.
pub open spec fn images_data(images: Seq<AtlasImage>) -> Seq<Seq<u8>> {
    images.map_values(|img: AtlasImage| img.data@)
}

/// Copies every image to its place in a zeroed atlas of `aw` by `ah`
/// texels.
pub fn blit_atlas(placements: &Vec<AtlasPlacement>, images: &Vec<AtlasImage>, aw: i32, ah: i32) -> (pixels: Vec<u8>)
    requires
        placements_ok(placements@, images@),
        images_ok(images@),
        0 <= aw <= MAX_ATLAS_SIZE,
        0 <= ah <= MAX_ATLAS_SIZE,
        forall|i: int| 0 <= i < placements@.len() ==> (#[trigger] placements@[i]).x as int + placements@[i].width as int <= aw
            && placements@[i].y as int + placements@[i].height as int <= ah,
    ensures
        pixels@ == blit_all(
            Seq::new((aw as int * ah as int * 4) as nat, |i: int| 0u8),
            aw as int,
            placements@,
            images_data(images@),
            placements@.len(),
        ),
{
    assert(aw as int * ah as int * 4 <= 2048 * 2048 * 4) by (nonlinear_arith)
        requires 0 <= aw <= 2048, 0 <= ah <= 2048;
    let total = aw as usize * ah as usize * 4;
    let mut pixels = vec![0u8; total];
    let ghost zero = Seq::new((aw as int * ah as int * 4) as nat, |i: int| 0u8);
    assert(pixels@ =~= zero);
    let mut k: usize = 0;
    while k < placements.len()
        invariant
            k <= placements@.len(),
            placements_ok(placements@, images@),
            images_ok(images@),
            0 <= aw <= MAX_ATLAS_SIZE,
            0 <= ah <= MAX_ATLAS_SIZE,
            aw as int * ah as int * 4 <= 2048 * 2048 * 4,
            forall|i: int| 0 <= i < placements@.len() ==> (#[trigger] placements@[i]).x as int + placements@[i].width as int <= aw
                && placements@[i].y as int + placements@[i].height as int <= ah,
            pixels@.len() == aw as int * ah as int * 4,
            pixels@ == blit_all(zero, aw as int, placements@, images_data(images@), k as nat),
        decreases placements@.len() - k,
    {
        let p = &placements[k];
        let img = &images[k];
        assert(placements@[k as int] == *p);
        assert(images_data(images@)[k as int] == img.data@);
        assert(img.width >= 0 && img.height >= 0);
        blit_image(&mut pixels, aw, ah, p, &img.data);
        k = k + 1;
    }
    pixels
}

/// Images to pack into an atlas, each under an id.
#[derive(Debug, Clone)]
pub struct TextureAtlasBuilder {
    pub items: Vec<(String, ItemQueue)>,
}

/// Index of the first entry with this id from `k`, or -1.
pub open spec fn find_id(items: Seq<(String, ItemQueue)>, id: Seq<char>, k: int) -> int
    decreases items.len() - k,
{
    if k < 0 || k >= items.len() {
        -1
    } else if items[k].0@ == id {
        k
    } else {
        find_id(items, id, k + 1)
    }
}

/// Where an entry under `id` goes: over the entry of that id, else last.
pub open spec fn slot_of(items: Seq<(String, ItemQueue)>, id: Seq<char>) -> int {
    let f = find_id(items, id, 0);
    if f >= 0 { f } else { items.len() as int }
}

/// Whether `new` is `old` with the entry at `slot_of(old, id)` under `id`
/// and every other entry kept.
pub open spec fn placed_at(old: Seq<(String, ItemQueue)>, new: Seq<(String, ItemQueue)>, id: Seq<char>) -> bool {
    let i = slot_of(old, id);
    &&& new.len() == if i < old.len() { old.len() } else { old.len() + 1 }
    &&& new[i].0@ == id
    &&& forall|j: int| 0 <= j < old.len() && j != i ==> #[trigger] new[j] == old[j]
}

impl TextureAtlasBuilder {
    /// A builder with no image.
    pub fn new() -> (r: TextureAtlasBuilder)
        ensures
            r.items@.len() == 0,
    {
        TextureAtlasBuilder { items: Vec::new() }
    }

    /// Whether no two entries share an id.
    pub open spec fn ids_unique(&self) -> bool {
        forall|i: int, j: int| 0 <= i < j < self.items@.len() ==> (#[trigger] self.items@[i]).0@ != (#[trigger] self.items@[j]).0@
    }

    fn add(self, id: &str, item: ItemQueue) -> (r: TextureAtlasBuilder)
        requires
            self.ids_unique(),
        ensures
            r.ids_unique(),
            placed_at(self.items@, r.items@, id@),
            r.items@[slot_of(self.items@, id@)].1 == item,
    {
        let mut items = self.items;
        let ghost old_items = items@;
        let key = id.to_owned();
        let mut i: usize = 0;
        while i < items.len()
            invariant
                i <= items@.len(),
                items@ == old_items,
                old_items == self.items@,
                key@ == id@,
                forall|a: int, b: int| 0 <= a < b < old_items.len() ==> (#[trigger] old_items[a]).0@ != (#[trigger] old_items[b]).0@,
                find_id(old_items, id@, 0) == find_id(old_items, id@, i as int),
                forall|j: int| 0 <= j < i ==> (#[trigger] items@[j]).0@ != id@,
            decreases items@.len() - i,
        {
            if items[i].0 == key {
                proof {
                    assert(old_items[i as int].0@ == id@);
                    assert(find_id(old_items, id@, i as int) == i as int);
                }
                items.set(i, (key, item));
                proof {
                    assert forall|a: int, b: int| 0 <= a < b < items@.len() implies (#[trigger] items@[a]).0@ != (#[trigger] items@[b]).0@ by {
                        assert(old_items[a].0@ != old_items[b].0@);
                    }
                }
                return TextureAtlasBuilder { items };
            }
            i = i + 1;
        }
        items.push((key, item));
        proof {
            assert forall|a: int, b: int| 0 <= a < b < items@.len() implies (#[trigger] items@[a]).0@ != (#[trigger] items@[b]).0@ by {
                if b < old_items.len() {
                    assert(old_items[a].0@ != old_items[b].0@);
                }
            }
        }
        TextureAtlasBuilder { items }
    }

    /// Adds an image file under `id`: its path, and its contents where the
    /// file could be read.
    pub fn add_texture_file(self, id: &str, file: &str, contents: Option<Vec<u8>>) -> (r: TextureAtlasBuilder)
        requires
            self.ids_unique(),
        ensures
            r.ids_unique(),
            placed_at(self.items@, r.items@, id@),
            r.items@[slot_of(self.items@, id@)].1 matches ItemQueue::File(p, c) && p@ == file@ && c == contents,
    {
        let path = file.to_owned();
        self.add(id, ItemQueue::File(path, contents))
    }

    /// Adds an encoded image under `id`.
    pub fn add_texture_file_buf(self, id: &str, data: &[u8]) -> (r: TextureAtlasBuilder)
        requires
            self.ids_unique(),
        ensures
            r.ids_unique(),
            placed_at(self.items@, r.items@, id@),
            r.items@[slot_of(self.items@, id@)].1 matches ItemQueue::Memory(d) && d@ == data@,
    {
        self.add(id, ItemQueue::Memory(vstd::slice::slice_to_vec(data)))
    }

    /// Adds raw RGBA texels of the given size under `id`.
    pub fn add_texture_raw(self, id: &str, data: Vec<u8>, width: u32, height: u32) -> (r: TextureAtlasBuilder)
        requires
            self.ids_unique(),
        ensures
            r.ids_unique(),
            placed_at(self.items@, r.items@, id@),
            r.items@[slot_of(self.items@, id@)].1 matches ItemQueue::Raw(d, w, h) && d@ == data@ && w == width && h == height,
    {
        self.add(id, ItemQueue::Raw(data, width, height))
    }
}

/// The texels of each entry's image.
pub open spec fn items_data(items: Seq<(String, ItemQueue)>) -> Seq<Seq<u8>> {
    items.map_values(|e: (String, ItemQueue)| item_image(e.1)->Some_0.0)
}

/// `e` is the error of the first entry whose image cannot be read, as
/// [`load_atlas_images`] reports it.
pub open spec fn load_failure(items: Seq<(String, ItemQueue)>, e: TextureAtlasBuilderError) -> bool {
    exists|k: int| 0 <= k < items.len() && (forall|i: int| 0 <= i < k ==> (#[trigger] item_image(items[i].1)) is Some)
        && item_image(items[k].1) is None && item_error(items[k].0@, items[k].1, e)
}

/// Whether the placements put the images of the entries, in order, each
/// under its id and at its size, inside the packing area.
pub open spec fn placements_fit_items(placements: Seq<AtlasPlacement>, items: Seq<(String, ItemQueue)>) -> bool {
    &&& placements.len() == items.len()
    &&& forall|i: int| 0 <= i < placements.len() ==> {
        let p = #[trigger] placements[i];
        &&& item_image(items[i].1) matches Some((px, w, h))
        &&& p.id@ == items[i].0@ && p.width == w && p.height == h
        &&& p.x >= 1 && p.y >= 1 && p.width > 0 && p.height > 0
        &&& p.x as int + p.width as int <= MAX_ATLAS_SIZE - 1
        &&& p.y as int + p.height as int <= MAX_ATLAS_SIZE - 1
    }
}

/// The image of the entry is at most 2048 texels wide and tall.
pub open spec fn item_fits_max(item: (String, ItemQueue)) -> bool {
    item_image(item.1)->Some_0.1 <= MAX_ATLAS_SIZE && item_image(item.1)->Some_0.2 <= MAX_ATLAS_SIZE
}

/// Every image could be read and `e` is a packing error of
/// [`pack_atlas`] for the first entry that fails: an image too large, with
/// its own size, or one without room, by its id.
pub open spec fn pack_failure(items: Seq<(String, ItemQueue)>, e: TextureAtlasBuilderError) -> bool {
    &&& forall|i: int| 0 <= i < items.len() ==> (#[trigger] item_image(items[i].1)) is Some
    &&& match e {
        TextureAtlasBuilderError::ExceedsMaxSize(w, h) => exists|k: int| 0 <= k < items.len()
            && (#[trigger] item_image(items[k].1))->Some_0.1 == w && item_image(items[k].1)->Some_0.2 == h
            && (w > MAX_ATLAS_SIZE || h > MAX_ATLAS_SIZE)
            && forall|i: int| 0 <= i < k ==> item_fits_max(#[trigger] items[i]),
        TextureAtlasBuilderError::InvalidData(m) => exists|k: int| 0 <= k < items.len()
            && m@ == msg_pack_failed((#[trigger] items[k]).0@) && item_fits_max(items[k])
            && (forall|i: int| 0 <= i < k ==> item_fits_max(#[trigger] items[i])) && ({
                let (_, w, h) = item_image(items[k].1)->Some_0;
                ||| w <= 0 || h <= 0
                ||| exists|ps: Seq<AtlasPlacement>| #[trigger] placements_fit_items(ps, items.take(k))
                    && all_apart(atlas_rects(ps), 1) && atlas_full(ps, w as int, h as int)
            }),
        _ => false,
    }
}

impl TextureAtlasBuilder {
    /// Builds the atlas: no entry fails with `EmptyAtlas`; each entry's
    /// image is read as [`load_atlas_images`] does, packed as
    /// [`pack_atlas`] does (at least one texel apart from the others), and
    /// copied to its place in an atlas as large as the farthest placed
    /// edges.
    pub fn build(self) -> (res: Result<AtlasLayout, TextureAtlasBuilderError>)
        ensures
            self.items@.len() == 0 ==> res == Err::<AtlasLayout, TextureAtlasBuilderError>(TextureAtlasBuilderError::EmptyAtlas),
            (exists|k: int| 0 <= k < self.items@.len() && (#[trigger] item_image(self.items@[k].1)) is None) ==> res is Err,
            res matches Err(e) ==> self.items@.len() == 0 || load_failure(self.items@, e) || pack_failure(self.items@, e),
            res matches Ok(layout) ==> {
                &&& layout.placements@.len() == self.items@.len()
                &&& forall|i: int| 0 <= i < self.items@.len() ==> {
                    let p = #[trigger] layout.placements@[i];
                    &&& item_image(self.items@[i].1) matches Some((px, w, h))
                    &&& p.id@ == self.items@[i].0@ && p.width == w && p.height == h
                    &&& p.x >= 1 && p.y >= 1 && p.x as int + w as int <= MAX_ATLAS_SIZE - 1 && p.y as int + h as int <= MAX_ATLAS_SIZE - 1
                }
                &&& all_apart(atlas_rects(layout.placements@), 1)
                &&& layout.width == max_right(layout.placements@, layout.placements@.len())
                &&& layout.height == max_bottom(layout.placements@, layout.placements@.len())
                &&& layout.pixels@ == blit_all(
                    Seq::new((layout.width as int * layout.height as int * 4) as nat, |i: int| 0u8),
                    layout.width as int,
                    layout.placements@,
                    items_data(self.items@),
                    layout.placements@.len(),
                )
            },
    {
        if self.items.len() == 0 {
            return Err(TextureAtlasBuilderError::EmptyAtlas);
        }
        let ghost items = self.items@;
        let images = match load_atlas_images(self.items) {
            Ok(imgs) => imgs,
            Err(e) => return Err(e),
        };
        proof {
            assert forall|k: int| 0 <= k < items.len() implies (#[trigger] item_image(items[k].1)) is Some by {
                assert(image_of(images@[k], items[k]));
            }
        }
        let (placements, aw, ah) = match pack_atlas(&images) {
            Ok(r) => r,
            Err(e) => {
                proof {
                    if e is InvalidData {
                        let m = e->InvalidData_0;
                        let k = choose|k: int| 0 <= k < images@.len()
                            && m@ == msg_pack_failed((#[trigger] images@[k]).id@) && images@[k].width <= MAX_ATLAS_SIZE && images@[k].height <= MAX_ATLAS_SIZE
                            && (forall|i: int| 0 <= i < k ==> (#[trigger] images@[i]).width <= MAX_ATLAS_SIZE && images@[i].height <= MAX_ATLAS_SIZE)
                            && (images@[k].width <= 0 || images@[k].height <= 0 || exists|ps: Seq<AtlasPlacement>| #[trigger] placements_ok(ps, images@.take(k))
                                && all_apart(atlas_rects(ps), 1) && atlas_full(ps, images@[k].width as int, images@[k].height as int));
                        assert(image_of(images@[k], items[k]));
                        assert forall|i: int| 0 <= i < k implies item_fits_max(#[trigger] items[i]) by {
                            assert(image_of(images@[i], items[i]));
                            assert(images@[i].width <= MAX_ATLAS_SIZE);
                        }
                        if !(images@[k].width <= 0 || images@[k].height <= 0) {
                            let ps = choose|ps: Seq<AtlasPlacement>| #[trigger] placements_ok(ps, images@.take(k))
                                && all_apart(atlas_rects(ps), 1) && atlas_full(ps, images@[k].width as int, images@[k].height as int);
                            assert forall|i: int| 0 <= i < ps.len() implies {
                                let p = #[trigger] ps[i];
                                &&& item_image(items.take(k)[i].1) matches Some((px, w, h))
                                &&& p.id@ == items.take(k)[i].0@ && p.width == w && p.height == h
                                &&& p.x >= 1 && p.y >= 1 && p.width > 0 && p.height > 0
                                &&& p.x as int + p.width as int <= MAX_ATLAS_SIZE - 1
                                &&& p.y as int + p.height as int <= MAX_ATLAS_SIZE - 1
                            } by {
                                assert(images@.take(k)[i] == images@[i]);
                                assert(items.take(k)[i] == items[i]);
                                assert(image_of(images@[i], items[i]));
                            }
                            assert(placements_fit_items(ps, items.take(k)));
                        }
                    }
                    if e is ExceedsMaxSize {
                        let (w, h) = (e->ExceedsMaxSize_0, e->ExceedsMaxSize_1);
                        let k = choose|k: int| 0 <= k < images@.len()
                            && (#[trigger] images@[k]).width == w && images@[k].height == h && (w > MAX_ATLAS_SIZE || h > MAX_ATLAS_SIZE)
                            && forall|i: int| 0 <= i < k ==> (#[trigger] images@[i]).width <= MAX_ATLAS_SIZE && images@[i].height <= MAX_ATLAS_SIZE;
                        assert(image_of(images@[k], items[k]));
                        assert forall|i: int| 0 <= i < k implies item_fits_max(#[trigger] items[i]) by {
                            assert(image_of(images@[i], items[i]));
                            assert(images@[i].width <= MAX_ATLAS_SIZE);
                        }
                        assert(item_image(items[k].1)->Some_0.1 == w);
                    }
                }
                return Err(e);
            },
        };
        proof {
            lemma_max_bounds(placements@, placements@.len());
            assert forall|i: int| 0 <= i < placements@.len() implies (#[trigger] placements@[i]).x as int + placements@[i].width as int <= aw
                && placements@[i].y as int + placements@[i].height as int <= ah by {
                lemma_max_covers(placements@, placements@.len(), i);
            }
            assert(images_data(images@) =~= items_data(items)) by {
                assert forall|i: int| 0 <= i < images@.len() implies #[trigger] images_data(images@)[i] == items_data(items)[i] by {
                    assert(image_of(images@[i], items[i]));
                }
            }
        }
        let pixels = blit_atlas(&placements, &images, aw, ah);
        proof {
            assert forall|i: int| 0 <= i < items.len() implies {
                let p = #[trigger] placements@[i];
                &&& item_image(items[i].1) matches Some((px, w, h))
                &&& p.id@ == items[i].0@ && p.width == w && p.height == h
                &&& p.x >= 1 && p.y >= 1 && p.x as int + w as int <= MAX_ATLAS_SIZE - 1 && p.y as int + h as int <= MAX_ATLAS_SIZE - 1
            } by {
                assert(image_of(images@[i], items[i]));
                assert(placements@[i].id@ == images@[i].id@);
            }
        }
        Ok(AtlasLayout { width: aw, height: ah, placements, pixels })
    }
}

proof fn lemma_max_bounds(ps: Seq<AtlasPlacement>, k: nat)
    requires
        k <= ps.len(),
        forall|i: int| 0 <= i < ps.len() ==> (#[trigger] ps[i]).x as int + ps[i].width as int <= MAX_ATLAS_SIZE - 1
            && ps[i].y as int + ps[i].height as int <= MAX_ATLAS_SIZE - 1 && ps[i].x >= 1 && ps[i].width > 0 && ps[i].y >= 1 && ps[i].height > 0,
    ensures
        0 <= max_right(ps, k) <= MAX_ATLAS_SIZE - 1,
        0 <= max_bottom(ps, k) <= MAX_ATLAS_SIZE - 1,
    decreases k,
{
    if k > 0 {
        lemma_max_bounds(ps, (k - 1) as nat);
        assert(ps[k - 1].x as int + ps[k - 1].width as int <= MAX_ATLAS_SIZE - 1);
    }
}

proof fn lemma_max_covers(ps: Seq<AtlasPlacement>, k: nat, i: int)
    requires
        k <= ps.len(),
        0 <= i < k,
    ensures
        ps[i].x as int + ps[i].width as int <= max_right(ps, k),
        ps[i].y as int + ps[i].height as int <= max_bottom(ps, k),
    decreases k,
{
    if i < k - 1 {
        lemma_max_covers(ps, (k - 1) as nat, i);
    }
}

} // verus!
