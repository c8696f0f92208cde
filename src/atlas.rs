//! The glyph atlas: a linear store of every glyph's bitmap back to back,
//! and the single-row packing of that store into one grayscale image.

use vstd::prelude::*;

use crate::glyph::{bytes_per_texel, GlyphBitmap, GlyphDesc, PixelBitSize, PixelMode};

verus! {

/// What can go wrong between a font file and a text mesh.
#[derive(Clone, Copy, Debug, PartialEq, Eq, Structural)]
pub enum TextError {
    /// The font library could not be set up.
    LibraryInit,
    /// The font file is missing or corrupt, or has no face at that index.
    FaceLoad,
    /// The rasterizer could not render the glyph of this character code.
    GlyphRender { code: usize },
    /// The glyph's bitmap flows upwards (negative pitch), which is not supported.
    NegativePitch { code: usize },
    /// The glyph's bitmap has negative dimensions, or its buffer does not
    /// hold `rows * pitch` bytes.
    MalformedBitmap { code: usize },
    /// The glyphs' pixels take less than one byte each.
    UnsupportedPixelMode,
    /// The packed atlas would not fit in memory.
    AtlasTooLarge,
    /// There is no glyph, or the atlas has no area.
    EmptyAtlas,
    /// The character has no glyph in the atlas.
    CharacterOutOfRange { ch: char },
}

pub open spec fn imax(a: int, b: int) -> int {
    if a >= b { a } else { b }
}

/// Sum of the pitches of the first `i` glyphs: the column at which glyph `i`
/// starts in the packed atlas, and for `i == ds.len()` the atlas's width in bytes.
pub open spec fn pitch_before(ds: Seq<GlyphDesc>, i: int) -> int
    decreases i,
{
    if i <= 0 { 0 } else { pitch_before(ds, i - 1) + ds[i - 1].pitch }
}

/// Bytes taken by the bitmaps of the first `i` glyphs in the linear store.
pub open spec fn bytes_before(ds: Seq<GlyphDesc>, i: int) -> int
    decreases i,
{
    if i <= 0 { 0 } else { bytes_before(ds, i - 1) + ds[i - 1].h * ds[i - 1].pitch }
}

/// Largest bearing above the baseline among the first `i` glyphs, and at least 0.
pub open spec fn ascent_upto(ds: Seq<GlyphDesc>, i: int) -> int
    decreases i,
{
    if i <= 0 { 0 } else { imax(ascent_upto(ds, i - 1), ds[i - 1].bearing_y as int) }
}

/// Largest extent below the baseline among the first `i` glyphs, and at least 0.
pub open spec fn descent_upto(ds: Seq<GlyphDesc>, i: int) -> int
    decreases i,
{
    if i <= 0 { 0 } else { imax(descent_upto(ds, i - 1), ds[i - 1].h - ds[i - 1].bearing_y) }
}

/// The bitmaps of the first `i` glyphs, concatenated.
pub open spec fn bytes_upto(gs: Seq<GlyphBitmap>, i: int) -> Seq<u8>
    decreases i,
{
    if i <= 0 { seq![] } else { bytes_upto(gs, i - 1) + gs[i - 1].buffer@ }
}

/// The descriptors of a linear store built from `gs`.
pub open spec fn descs_of(gs: Seq<GlyphBitmap>) -> Seq<GlyphDesc> {
    Seq::new(gs.len(), |i: int| GlyphDesc::of_bitmap(gs[i], bytes_upto(gs, i).len() as int))
}

/// What is wrong with the bitmap of character `code`, if anything.
pub open spec fn bitmap_fault(g: GlyphBitmap, code: int) -> Option<TextError> {
    if g.pitch < 0 {
        Some(TextError::NegativePitch { code: code as usize })
    } else if g.rows < 0 || g.width < 0 || g.buffer@.len() != g.rows * g.pitch {
        Some(TextError::MalformedBitmap { code: code as usize })
    } else {
        None
    }
}

/// The fault of the first faulty bitmap among the first `i`.
pub open spec fn first_fault(gs: Seq<GlyphBitmap>, i: int) -> Option<TextError>
    decreases i,
{
    if i <= 0 {
        None
    } else {
        match first_fault(gs, i - 1) {
            Some(e) => Some(e),
            None => bitmap_fault(gs[i - 1], i - 1),
        }
    }
}

proof fn lemma_first_fault_stays(gs: Seq<GlyphBitmap>, j: int, i: int)
    requires
        j <= i,
        first_fault(gs, j) is Some,
    ensures
        first_fault(gs, i) == first_fault(gs, j),
    decreases i - j,
{
    if j < i {
        lemma_first_fault_stays(gs, j, i - 1);
    }
}

/// An atlas of `width` bytes by `height` rows has 32-bit pixel coordinates
/// and can be allocated in one buffer.
pub open spec fn atlas_fits(width: int, height: int) -> bool {
    &&& 0 <= width <= u32::MAX
    &&& 0 <= height <= u32::MAX
    &&& width * height <= usize::MAX
}

/// Why no linear store can be built from `gs`, if it can't.
pub open spec fn linear_fault(gs: Seq<GlyphBitmap>) -> Option<TextError> {
    let ds = descs_of(gs);
    let n = gs.len() as int;
    if n == 0 {
        Some(TextError::EmptyAtlas)
    } else if first_fault(gs, n) is Some {
        first_fault(gs, n)
    } else if bytes_per_texel(gs[n - 1].pixel_mode) == 0 {
        Some(TextError::UnsupportedPixelMode)
    } else if !atlas_fits(pitch_before(ds, n), ascent_upto(ds, n) + descent_upto(ds, n)) {
        Some(TextError::AtlasTooLarge)
    } else {
        None
    }
}

/// Every glyph's bitmap, back to back, with the aggregate metrics that the
/// packer needs.
pub struct LinearTextAtlas {
    /// Sum of all pitches: the packed atlas's width in bytes.
    pub sum_pitch: usize,
    /// Largest ascent above the baseline.
    pub max_y_max: usize,
    /// Largest descent below the baseline.
    pub max_y_min: usize,
    pub pixel_mode: PixelMode,
    pub descriptors: Vec<GlyphDesc>,
    pub bytes: Vec<u8>,
}

impl LinearTextAtlas {
    pub open spec fn wf(&self) -> bool {
        let ds = self.descriptors@;
        let n = ds.len() as int;
        &&& n > 0
        &&& forall|i: int| 0 <= i < n ==> ds[i].h >= 0 && ds[i].w >= 0 && ds[i].pitch >= 0
        &&& forall|i: int| 0 <= i < n ==> #[trigger] ds[i].x_start == bytes_before(ds, i)
        &&& self.bytes@.len() == bytes_before(ds, n)
        &&& self.sum_pitch == pitch_before(ds, n)
        &&& self.max_y_max == ascent_upto(ds, n)
        &&& self.max_y_min == descent_upto(ds, n)
        &&& bytes_per_texel(self.pixel_mode) > 0
        &&& atlas_fits(self.sum_pitch as int, self.max_y_max + self.max_y_min)
    }

    /// Builds the linear store from the rendered glyphs, character code `i`
    /// being `glyphs[i]`. The store takes the pixel mode of the last glyph.
    pub fn from_glyphs(glyphs: &Vec<GlyphBitmap>) -> (r: Result<LinearTextAtlas, TextError>)
        ensures
            match r {
                Ok(a) => {
                    &&& linear_fault(glyphs@) is None
                    &&& a.wf()
                    &&& a.descriptors@ == descs_of(glyphs@)
                    &&& a.bytes@ == bytes_upto(glyphs@, glyphs@.len() as int)
                    &&& a.pixel_mode == glyphs@.last().pixel_mode
                },
                Err(e) => linear_fault(glyphs@) == Some(e),
            },
    {
        let n = glyphs.len();
        if n == 0 {
            return Err(TextError::EmptyAtlas);
        }
        let ghost gs = glyphs@;
        let ghost all = descs_of(gs);
        let mut descriptors: Vec<GlyphDesc> = Vec::with_capacity(n);
        let mut bytes: Vec<u8> = Vec::new();
        let mut sum_pitch: u128 = 0;
        let mut ascent: i32 = 0;
        let mut descent: i64 = 0;
        let mut k: usize = 0;
        while k < n
            invariant
                n == gs.len(),
                gs == glyphs@,
                all == descs_of(gs),
                k <= n,
                first_fault(gs, k as int) is None,
                forall|i: int| 0 <= i < k ==> (#[trigger] bitmap_fault(gs[i], i)) is None,
                descriptors@ == all.take(k as int),
                bytes@ == bytes_upto(gs, k as int),
                bytes@.len() == bytes_before(all, k as int),
                forall|i: int| 0 <= i < k ==> #[trigger] all[i].x_start == bytes_before(all, i),
                sum_pitch == pitch_before(all, k as int),
                sum_pitch <= k * 0x7fff_ffff,
                ascent == ascent_upto(all, k as int),
                0 <= ascent,
                descent == descent_upto(all, k as int),
                0 <= descent <= 0x1_0000_0000,
            decreases n - k,
        {
            let g = &glyphs[k];
            if g.pitch < 0 {
                proof {
                    lemma_first_fault_stays(gs, k + 1, n as int);
                }
                return Err(TextError::NegativePitch { code: k });
            }
            if g.rows < 0 || g.width < 0 {
                proof {
                    lemma_first_fault_stays(gs, k + 1, n as int);
                }
                return Err(TextError::MalformedBitmap { code: k });
            }
            let (rows, pitch) = (g.rows as u64, g.pitch as u64);
            assert(rows * pitch <= 0x7fff_ffff * 0x7fff_ffff) by (nonlinear_arith)
                requires
                    rows <= 0x7fff_ffff,
                    pitch <= 0x7fff_ffff,
            ;
            if g.buffer.len() as u64 != rows * pitch {
                proof {
                    lemma_first_fault_stays(gs, k + 1, n as int);
                }
                return Err(TextError::MalformedBitmap { code: k });
            }
            let offset = bytes.len();
            let desc = GlyphDesc::from_bitmap(g, offset);
            assert(desc == all[k as int]);
            descriptors.push(desc);
            bytes.extend_from_slice(g.buffer.as_slice());
            assert(bytes@ =~= bytes_upto(gs, k + 1));
            assert(descriptors@ =~= all.take(k + 1));
            sum_pitch = sum_pitch + g.pitch as u128;
            if g.top > ascent {
                ascent = g.top;
            }
            let below = g.rows as i64 - g.top as i64;
            if below > descent {
                descent = below;
            }
            k = k + 1;
        }
        let mode = glyphs[n - 1].pixel_mode;
        if mode.get_size() / 8 == 0 {
            return Err(TextError::UnsupportedPixelMode);
        }
        let height: i64 = ascent as i64 + descent;
        if sum_pitch > u32::MAX as u128 || height > u32::MAX as i64 {
            return Err(TextError::AtlasTooLarge);
        }
        let h = height as u128;
        assert(h * sum_pitch <= 0xffff_ffff * 0xffff_ffff) by (nonlinear_arith)
            requires
                h <= 0xffff_ffff,
                sum_pitch <= 0xffff_ffff,
        ;
        assert(sum_pitch * h == h * sum_pitch) by (nonlinear_arith);
        if h * sum_pitch > usize::MAX as u128 {
            return Err(TextError::AtlasTooLarge);
        }
        assert forall|i: int| 0 <= i < n implies all[i].h >= 0 && all[i].w >= 0 && all[i].pitch >= 0 by {
            assert(bitmap_fault(gs[i], i) is None);
        }
        assert(descriptors@ =~= all);
        Ok(LinearTextAtlas {
            sum_pitch: sum_pitch as usize,
            max_y_max: ascent as usize,
            max_y_min: descent as usize,
            pixel_mode: mode,
            descriptors,
            bytes,
        })
    }
}

/// Where a glyph landed in the packed atlas, in pixel coordinates, both
/// corners inclusive. A glyph with no width or no height gets a rect whose
/// bottom-right lies left of or above its top-left.
#[derive(Clone, Copy, Debug, PartialEq, Eq)]
pub struct GlyphRect {
    pub tl: (i64, i64),
    pub br: (i64, i64),
}

/// An exact texture coordinate: the fraction `num / den` of the atlas's
/// extent along one axis.
#[derive(Clone, Copy, Debug, PartialEq, Eq, Structural)]
pub struct TexCoord {
    pub num: i64,
    pub den: usize,
}

impl TexCoord {
    /// The pixel coordinate this fraction names along an axis `extent` long.
    pub open spec fn scaled(self, extent: int) -> int {
        (self.num * extent) / (self.den as int)
    }
}

/// A rect's corners as fractions of an atlas `h` rows high and `w` texels
/// wide: `((x / w, y / h) of the top-left, (x / w, y / h) of the bottom-right)`.
pub open spec fn normalize(r: GlyphRect, h: usize, w: usize) -> ((TexCoord, TexCoord), (TexCoord, TexCoord)) {
    (
        (TexCoord { num: r.tl.0, den: w }, TexCoord { num: r.tl.1, den: h }),
        (TexCoord { num: r.br.0, den: w }, TexCoord { num: r.br.1, den: h }),
    )
}

impl GlyphRect {
    pub fn new(tl: (i64, i64), br: (i64, i64)) -> (r: GlyphRect)
        ensures
            r.tl == tl,
            r.br == br,
    {
        GlyphRect { tl, br }
    }

    /// The rect's corners as exact fractions of an atlas `h` rows high and
    /// `w` texels wide; an atlas with no area has no such fractions.
    pub fn normalized(&self, h: usize, w: usize) -> (r: Result<((TexCoord, TexCoord), (TexCoord, TexCoord)), TextError>)
        ensures
            h == 0 || w == 0 ==> r == Err::<((TexCoord, TexCoord), (TexCoord, TexCoord)), TextError>(TextError::EmptyAtlas),
            h != 0 && w != 0 ==> r == Ok::<((TexCoord, TexCoord), (TexCoord, TexCoord)), TextError>(normalize(*self, h, w)),
    {
        if h == 0 || w == 0 {
            return Err(TextError::EmptyAtlas);
        }
        Ok((
            (TexCoord { num: self.tl.0, den: w }, TexCoord { num: self.tl.1, den: h }),
            (TexCoord { num: self.br.0, den: w }, TexCoord { num: self.br.1, den: h }),
        ))
    }
}

/// Normalization round trip: normalizing a rect against an atlas of some
/// size and scaling the fractions back by that size gives back the rect's
/// integer corners exactly.
pub proof fn lemma_normalize_round_trip(r: GlyphRect, h: usize, w: usize)
    requires
        h > 0,
        w > 0,
    ensures
        normalize(r, h, w).0.0.scaled(w as int) == r.tl.0,
        normalize(r, h, w).0.1.scaled(h as int) == r.tl.1,
        normalize(r, h, w).1.0.scaled(w as int) == r.br.0,
        normalize(r, h, w).1.1.scaled(h as int) == r.br.1,
{
    broadcast use vstd::arithmetic::div_mod::lemma_div_multiples_vanish;
    assert(r.tl.0 * (w as int) == (w as int) * r.tl.0) by (nonlinear_arith);
    assert(r.tl.1 * (h as int) == (h as int) * r.tl.1) by (nonlinear_arith);
    assert(r.br.0 * (w as int) == (w as int) * r.br.0) by (nonlinear_arith);
    assert(r.br.1 * (h as int) == (h as int) * r.br.1) by (nonlinear_arith);
}

/// Index of pixel (`row`, `col`) in a row-major image `width` bytes wide.
pub open spec fn pixel_index(width: int, row: int, col: int) -> int {
    row * width + col
}

/// The row at which glyph `i`'s top edge lands, `ascent` being the baseline row.
pub open spec fn glyph_top(ds: Seq<GlyphDesc>, ascent: int, i: int) -> int {
    ascent - ds[i].bearing_y
}

/// The rect of glyph `i` in an atlas whose baseline is row `ascent`.
pub open spec fn rect_of(ds: Seq<GlyphDesc>, ascent: int, i: int) -> GlyphRect {
    let x = pitch_before(ds, i);
    let y = glyph_top(ds, ascent, i);
    GlyphRect {
        tl: (x as i64, y as i64),
        br: ((x + ds[i].w - 1) as i64, (y + ds[i].h - 1) as i64),
    }
}

/// The descriptor of glyph `i` once packed: the same metrics, starting at
/// its atlas column.
pub open spec fn packed_desc(ds: Seq<GlyphDesc>, i: int) -> GlyphDesc {
    GlyphDesc { x_start: pitch_before(ds, i) as usize, ..ds[i] }
}

/// Index in the atlas of byte (`r`, `c`) of glyph `i`'s bitmap.
pub open spec fn atlas_index(ds: Seq<GlyphDesc>, ascent: int, width: int, i: int, r: int, c: int) -> int {
    pixel_index(width, glyph_top(ds, ascent, i) + r, pitch_before(ds, i) + c)
}

/// Index in the linear store of byte (`r`, `c`) of glyph `i`'s bitmap.
pub open spec fn store_index(ds: Seq<GlyphDesc>, i: int, r: int, c: int) -> int {
    ds[i].x_start + r * ds[i].pitch + c
}

/// Pixel (`row`, `col`) lies inside the bitmap of glyph `i` once packed.
pub open spec fn in_glyph(ds: Seq<GlyphDesc>, ascent: int, i: int, row: int, col: int) -> bool {
    &&& glyph_top(ds, ascent, i) <= row < glyph_top(ds, ascent, i) + ds[i].h
    &&& pitch_before(ds, i) <= col < pitch_before(ds, i) + ds[i].pitch
}

/// Pixel (`row`, `col`) lies inside the bitmap of some glyph once packed.
pub open spec fn covered(ds: Seq<GlyphDesc>, ascent: int, row: int, col: int) -> bool {
    exists|i: int| 0 <= i < ds.len() && #[trigger] in_glyph(ds, ascent, i, row, col)
}

/// All glyph bitmaps in one image, on one row, their baselines aligned.
pub struct TextAtlas {
    pub descriptors: Vec<GlyphDesc>,
    pub rects: Vec<GlyphRect>,
    /// Width in texels.
    pub w: usize,
    /// Height in rows.
    pub h: usize,
    /// Width in bytes: the length of one row of `bytes`.
    pub stride: usize,
    pub bytes: Vec<u8>,
}

impl TextAtlas {
    /// Every glyph has a rect.
    pub open spec fn wf(&self) -> bool {
        self.rects@.len() == self.descriptors@.len()
    }

    /// `self` is the single-row packing of `lin`: glyph `i` starts at the
    /// column given by the pitches before it, its top edge as far below row
    /// `max_y_max` as its bearing is above the baseline; every byte of its
    /// bitmap is copied there, and every byte outside all glyphs is zero.
    pub open spec fn is_packing_of(&self, lin: LinearTextAtlas) -> bool {
        let ds = lin.descriptors@;
        let n = ds.len() as int;
        let a = lin.max_y_max as int;
        let w = lin.sum_pitch as int;
        let h = lin.max_y_max + lin.max_y_min;
        &&& self.descriptors@.len() == n
        &&& forall|i: int| 0 <= i < n ==> #[trigger] self.descriptors@[i] == packed_desc(ds, i)
        &&& self.rects@.len() == n
        &&& forall|i: int| 0 <= i < n ==> #[trigger] self.rects@[i] == rect_of(ds, a, i)
        &&& self.h == h
        &&& self.stride == w
        &&& self.w == w / (bytes_per_texel(lin.pixel_mode) as int)
        &&& self.bytes@.len() == h * w
        &&& forall|i: int, r: int, c: int|
            0 <= i < n && 0 <= r < ds[i].h && 0 <= c < ds[i].pitch
                ==> self.bytes@[#[trigger] atlas_index(ds, a, w, i, r, c)]
                == lin.bytes@[store_index(ds, i, r, c)]
        &&& forall|r: int, c: int|
            0 <= r < h && 0 <= c < w && !covered(ds, a, r, c)
                ==> self.bytes@[#[trigger] pixel_index(w, r, c)] == 0
    }
}

proof fn lemma_pitch_monotone(ds: Seq<GlyphDesc>, i: int, j: int)
    requires
        0 <= i <= j <= ds.len(),
        forall|k: int| 0 <= k < ds.len() ==> #[trigger] ds[k].pitch >= 0,
    ensures
        0 <= pitch_before(ds, i) <= pitch_before(ds, j),
    decreases j,
{
    if j > i {
        lemma_pitch_monotone(ds, i, j - 1);
    } else if i > 0 {
        lemma_pitch_monotone(ds, i - 1, i - 1);
    }
}

proof fn lemma_bytes_monotone(ds: Seq<GlyphDesc>, i: int, j: int)
    requires
        0 <= i <= j <= ds.len(),
        forall|k: int| 0 <= k < ds.len() ==> #[trigger] ds[k].pitch >= 0 && ds[k].h >= 0,
    ensures
        0 <= bytes_before(ds, i) <= bytes_before(ds, j),
    decreases j,
{
    if j > i {
        lemma_bytes_monotone(ds, i, j - 1);
        let (h, p) = (ds[j - 1].h as int, ds[j - 1].pitch as int);
        assert(h * p >= 0) by (nonlinear_arith)
            requires
                h >= 0,
                p >= 0,
        ;
    } else if i > 0 {
        lemma_bytes_monotone(ds, i - 1, i - 1);
        let (h, p) = (ds[i - 1].h as int, ds[i - 1].pitch as int);
        assert(h * p >= 0) by (nonlinear_arith)
            requires
                h >= 0,
                p >= 0,
        ;
    }
}

/// The ascent and descent bound every glyph's.
proof fn lemma_extents(ds: Seq<GlyphDesc>, n: int)
    requires
        0 <= n <= ds.len(),
    ensures
        ascent_upto(ds, n) >= 0,
        descent_upto(ds, n) >= 0,
        forall|i: int|
            0 <= i < n ==> ascent_upto(ds, n) >= #[trigger] ds[i].bearing_y && descent_upto(ds, n)
                >= ds[i].h - ds[i].bearing_y,
    decreases n,
{
    if n > 0 {
        lemma_extents(ds, n - 1);
    }
}

/// Within an image `width` bytes wide, the index of (`r`, `c`) falls in the
/// run of `len` bytes from (`r0`, `c0`) exactly when the pixel lies on that
/// row within those columns.
proof fn lemma_run_index(width: int, r: int, c: int, r0: int, c0: int, len: int)
    requires
        0 <= c < width,
        0 <= c0,
        0 <= len,
        c0 + len <= width,
        0 <= r,
        0 <= r0,
    ensures
        (pixel_index(width, r0, c0) <= pixel_index(width, r, c) < pixel_index(width, r0, c0) + len)
            <==> (r == r0 && c0 <= c < c0 + len),
{
    if r < r0 {
        assert((r + 1) * width <= r0 * width) by (nonlinear_arith)
            requires
                r + 1 <= r0,
                width >= 0,
        ;
        assert((r + 1) * width == r * width + width) by (nonlinear_arith);
    } else if r > r0 {
        assert((r0 + 1) * width <= r * width) by (nonlinear_arith)
            requires
                r0 + 1 <= r,
                width >= 0,
        ;
        assert((r0 + 1) * width == r0 * width + width) by (nonlinear_arith);
    }
}

proof fn lemma_index_below(width: int, height: int, r: int, c: int)
    requires
        0 <= r < height,
        0 <= c <= width,
    ensures
        0 <= pixel_index(width, r, c),
        pixel_index(width, r, c) + (width - c) <= height * width,
        r * width <= height * width,
{
    assert((r + 1) * width <= height * width) by (nonlinear_arith)
        requires
            r + 1 <= height,
            width >= 0,
    ;
    assert((r + 1) * width == r * width + width) by (nonlinear_arith);
    assert(r * width >= 0) by (nonlinear_arith)
        requires
            r >= 0,
            width >= 0,
    ;
}

/// A buffer of `len` zero bytes.
fn zeroed(len: usize) -> (r: Vec<u8>)
    ensures
        r@.len() == len,
        forall|k: int| 0 <= k < len ==> #[trigger] r@[k] == 0,
{
    let mut r: Vec<u8> = Vec::with_capacity(len);
    let mut k: usize = 0;
    while k < len
        invariant
            k <= len,
            r@.len() == k,
            forall|j: int| 0 <= j < k ==> #[trigger] r@[j] == 0,
        decreases len - k,
    {
        r.push(0);
        k = k + 1;
    }
    r
}

/// Copies `len` bytes of `src` from `src_start` into `dst` from `dst_start`.
fn copy_row(dst: &mut Vec<u8>, dst_start: usize, src: &Vec<u8>, src_start: usize, len: usize)
    requires
        dst_start + len <= old(dst)@.len(),
        src_start + len <= src@.len(),
    ensures
        final(dst)@.len() == old(dst)@.len(),
        forall|k: int|
            0 <= k < old(dst)@.len() ==> #[trigger] final(dst)@[k] == if dst_start <= k < dst_start
                + len {
                src@[src_start + k - dst_start]
            } else {
                old(dst)@[k]
            },
{
    let (dst_len, src_len) = (dst.len(), src.len());
    let mut j: usize = 0;
    while j < len
        invariant
            j <= len,
            dst_len == dst@.len(),
            src_len == src@.len(),
            dst_start + len <= dst@.len(),
            src_start + len <= src@.len(),
            dst@.len() == old(dst)@.len(),
            forall|k: int|
                0 <= k < old(dst)@.len() ==> #[trigger] dst@[k] == if dst_start <= k < dst_start
                    + j {
                    src@[src_start + k - dst_start]
                } else {
                    old(dst)@[k]
                },
        decreases len - j,
    {
        let v = src[src_start + j];
        dst.set(dst_start + j, v);
        j = j + 1;
    }
}

impl TextAtlas {
    /// Packs every glyph of the linear store side by side on one row.
    pub fn create(linear_atlas: &LinearTextAtlas) -> (r: TextAtlas)
        requires
            linear_atlas.wf(),
        ensures
            r.is_packing_of(*linear_atlas),
    {
        let ghost ds = linear_atlas.descriptors@;
        let ghost src = linear_atlas.bytes@;
        let n = linear_atlas.descriptors.len();
        let fit_w = linear_atlas.sum_pitch;
        let zero = linear_atlas.max_y_max;
        let fit_h = zero + linear_atlas.max_y_min;
        proof {
            lemma_extents(ds, n as int);
            lemma_pitch_monotone(ds, 0, n as int);
        }
        let mut descriptors: Vec<GlyphDesc> = Vec::with_capacity(n);
        let mut rects: Vec<GlyphRect> = Vec::with_capacity(n);
        let mut bytes: Vec<u8> = zeroed(fit_h * fit_w);
        let ghost (a, w, h) = (zero as int, fit_w as int, fit_h as int);
        let src_len = linear_atlas.bytes.len();
        assert(h * w <= usize::MAX) by (nonlinear_arith)
            requires
                w * h <= usize::MAX,
        ;

        assert forall|r: int, c: int|
            0 <= r < h && 0 <= c < w && !covered(ds, a, r, c) implies bytes@[#[trigger] pixel_index(
            w,
            r,
            c,
        )] == 0 by {
            lemma_index_below(w, h, r, c);
        }
        let mut x_start: usize = 0;
        let mut k: usize = 0;
        while k < n
            invariant
                linear_atlas.wf(),
                ds == linear_atlas.descriptors@,
                src == linear_atlas.bytes@,
                n == ds.len(),
                a == zero,
                a == linear_atlas.max_y_max,
                w == fit_w,
                w == linear_atlas.sum_pitch,
                h == fit_h,
                h == linear_atlas.max_y_max + linear_atlas.max_y_min,
                k <= n,
                src_len == src.len(),
                h * w <= usize::MAX,
                x_start == pitch_before(ds, k as int),
                forall|i: int| 0 <= i < n ==> a >= #[trigger] ds[i].bearing_y && linear_atlas.max_y_min
                    >= ds[i].h - ds[i].bearing_y,
                descriptors@.len() == k,
                forall|i: int| 0 <= i < k ==> #[trigger] descriptors@[i] == packed_desc(ds, i),
                rects@.len() == k,
                forall|i: int| 0 <= i < k ==> #[trigger] rects@[i] == rect_of(ds, a, i),
                bytes@.len() == h * w,
                forall|i: int, r: int, c: int|
                    0 <= i < k && 0 <= r < ds[i].h && 0 <= c < ds[i].pitch
                        ==> bytes@[#[trigger] atlas_index(ds, a, w, i, r, c)]
                        == src[store_index(ds, i, r, c)],
                forall|r: int, c: int|
                    0 <= r < h && 0 <= c < w && !covered(ds, a, r, c)
                        ==> bytes@[#[trigger] pixel_index(w, r, c)] == 0,
            decreases n - k,
        {
            let d = linear_atlas.descriptors[k];
            let ghost kk = k as int;
            proof {
                lemma_pitch_monotone(ds, kk + 1, n as int);
                lemma_pitch_monotone(ds, kk, kk + 1);
                lemma_bytes_monotone(ds, kk + 1, n as int);
            }
            let y: usize = (zero as i64 - d.bearing_y as i64) as usize;
            assert(y == glyph_top(ds, a, kk));
            let rect = GlyphRect::new(
                (x_start as i64, y as i64),
                (x_start as i64 + d.w as i64 - 1, y as i64 + d.h as i64 - 1),
            );
            rects.push(rect);
            descriptors.push(GlyphDesc { x_start, ..d });
            let pitch = d.pitch as usize;
            let rows = d.h as usize;
            let mut i: usize = 0;
            while i < rows
                invariant
                    linear_atlas.wf(),
                    ds == linear_atlas.descriptors@,
                    src == linear_atlas.bytes@,
                    n == ds.len(),
                    0 <= kk < n,
                    d == ds[kk],
                    pitch == d.pitch,
                    rows == d.h,
                    y == glyph_top(ds, a, kk),
                    y + rows <= h,
                    x_start == pitch_before(ds, kk),
                    x_start + pitch <= w,
                    d.x_start + rows * pitch <= src.len(),
                    i <= rows,
                    forall|j: int| 0 <= j < n ==> a >= #[trigger] ds[j].bearing_y && linear_atlas.max_y_min
                        >= ds[j].h - ds[j].bearing_y,
                    a == zero,
                    a == linear_atlas.max_y_max,
                    w == fit_w,
                    w == linear_atlas.sum_pitch,
                    h == fit_h,
                    h == linear_atlas.max_y_max + linear_atlas.max_y_min,
                    src_len == src.len(),
                    h * w <= usize::MAX,
                    bytes@.len() == h * w,
                    forall|j: int, r: int, c: int|
                        0 <= j < kk && 0 <= r < ds[j].h && 0 <= c < ds[j].pitch
                            ==> bytes@[#[trigger] atlas_index(ds, a, w, j, r, c)]
                            == src[store_index(ds, j, r, c)],
                    forall|r: int, c: int|
                        0 <= r < i && 0 <= c < pitch
                            ==> bytes@[#[trigger] atlas_index(ds, a, w, kk, r, c)]
                            == src[store_index(ds, kk, r, c)],
                    forall|r: int, c: int|
                        0 <= r < h && 0 <= c < w && !covered(ds, a, r, c)
                            ==> bytes@[#[trigger] pixel_index(w, r, c)] == 0,
                decreases rows - i,
            {
                let ghost ii = i as int;
                proof {
                    lemma_index_below(w, h, y + ii, x_start as int);
                    assert(ii * pitch + pitch <= rows * pitch) by (nonlinear_arith)
                        requires
                            ii < rows,
                            pitch >= 0,
                    ;
                }
                let dst_start = (y + i) * fit_w + x_start;
                let src_start = d.x_start + i * pitch;
                copy_row(&mut bytes, dst_start, &linear_atlas.bytes, src_start, pitch);
                proof {
                    assert forall|j: int, r: int, c: int|
                        0 <= j < kk && 0 <= r < ds[j].h && 0 <= c < ds[j].pitch implies bytes@[
                        #[trigger] atlas_index(ds, a, w, j, r, c)] == src[store_index(ds, j, r, c)] by {
                        lemma_pitch_monotone(ds, j + 1, kk);
                        lemma_pitch_monotone(ds, j, j + 1);
                        lemma_run_index(w, glyph_top(ds, a, j) + r, pitch_before(ds, j) + c, y + ii,
                            x_start as int, pitch as int);
                        lemma_index_below(w, h, glyph_top(ds, a, j) + r, pitch_before(ds, j) + c);
                    }
                    assert forall|r: int, c: int|
                        0 <= r < i + 1 && 0 <= c < pitch implies bytes@[
                        #[trigger] atlas_index(ds, a, w, kk, r, c)] == src[store_index(ds, kk, r, c)] by {
                        lemma_run_index(w, y + r, x_start + c, y + ii, x_start as int, pitch as int);
                        lemma_index_below(w, h, y + r, x_start + c);
                    }
                    assert forall|r: int, c: int|
                        0 <= r < h && 0 <= c < w && !covered(ds, a, r, c) implies bytes@[
                        #[trigger] pixel_index(w, r, c)] == 0 by {
                        lemma_run_index(w, r, c, y + ii, x_start as int, pitch as int);
                        lemma_index_below(w, h, r, c);
                        if y + ii == r && x_start <= c < x_start + pitch {
                            assert(in_glyph(ds, a, kk, r, c));
                        }
                    }
                }
                i = i + 1;
            }
            x_start = x_start + pitch;
            k = k + 1;
        }
        TextAtlas {
            descriptors,
            rects,
            h: fit_h,
            w: fit_w / (linear_atlas.pixel_mode.get_size() / 8) as usize,
            stride: fit_w,
            bytes,
        }
    }
}


/// Glyph `i`'s rect, in the packing of a well-formed store, with its
/// coordinates as plain integers.
proof fn lemma_rect_values(lin: LinearTextAtlas, i: int)
    requires
        lin.wf(),
        0 <= i < lin.descriptors@.len(),
    ensures
        ({
            let ds = lin.descriptors@;
            let rect = rect_of(ds, lin.max_y_max as int, i);
            let x = pitch_before(ds, i);
            let y = lin.max_y_max - ds[i].bearing_y;
            &&& rect.tl.0 == x
            &&& rect.tl.1 == y
            &&& rect.br.0 == x + ds[i].w - 1
            &&& rect.br.1 == y + ds[i].h - 1
            &&& 0 <= x
            &&& x + ds[i].pitch <= lin.sum_pitch
            &&& 0 <= y
            &&& y + ds[i].h <= lin.max_y_max + lin.max_y_min
        }),
{
    let ds = lin.descriptors@;
    let n = ds.len() as int;
    lemma_extents(ds, n);
    lemma_pitch_monotone(ds, 0, i);
    lemma_pitch_monotone(ds, i + 1, n);
}

/// Row containment: every glyph's rect lies within the atlas's rows, and
/// spans exactly the glyph's height.
pub proof fn lemma_rows_contained(lin: LinearTextAtlas, atlas: TextAtlas, i: int)
    requires
        lin.wf(),
        atlas.is_packing_of(lin),
        0 <= i < atlas.rects@.len(),
    ensures
        atlas.rects@[i].tl.1 >= 0,
        atlas.rects@[i].br.1 < atlas.h,
        atlas.rects@[i].br.1 - atlas.rects@[i].tl.1 == atlas.descriptors@[i].h - 1,
{
    lemma_rect_values(lin, i);
}

/// Contiguous packing: each glyph starts exactly one pitch to the right of
/// the glyph before it, so the glyphs run left to right without gaps, and
/// strictly so past a glyph with a nonzero pitch.
pub proof fn lemma_packed_without_gaps(lin: LinearTextAtlas, atlas: TextAtlas, i: int)
    requires
        lin.wf(),
        atlas.is_packing_of(lin),
        0 <= i,
        i + 1 < atlas.rects@.len(),
    ensures
        atlas.rects@[i + 1].tl.0 == atlas.rects@[i].tl.0 + atlas.descriptors@[i].pitch,
        atlas.descriptors@[i].x_start == atlas.rects@[i].tl.0,
        atlas.descriptors@[i].pitch > 0 ==> atlas.rects@[i].tl.0 < atlas.rects@[i + 1].tl.0,
{
    lemma_rect_values(lin, i);
    lemma_rect_values(lin, i + 1);
}

proof fn lemma_pitch_sum_of_packed(ds: Seq<GlyphDesc>, packed: Seq<GlyphDesc>, i: int)
    requires
        0 <= i <= ds.len(),
        packed.len() == ds.len(),
        forall|k: int| 0 <= k < ds.len() ==> #[trigger] packed[k].pitch == ds[k].pitch,
    ensures
        pitch_before(packed, i) == pitch_before(ds, i),
    decreases i,
{
    if i > 0 {
        lemma_pitch_sum_of_packed(ds, packed, i - 1);
    }
}

/// Width invariant: the atlas's width in texels, times the bytes per texel,
/// is the sum of all glyph pitches, whenever that sum is a whole number of
/// texels.
pub proof fn lemma_width_in_texels(lin: LinearTextAtlas, atlas: TextAtlas)
    requires
        lin.wf(),
        atlas.is_packing_of(lin),
        lin.sum_pitch as int % (bytes_per_texel(lin.pixel_mode) as int) == 0,
    ensures
        atlas.w * bytes_per_texel(lin.pixel_mode) == pitch_before(
            atlas.descriptors@,
            atlas.descriptors@.len() as int,
        ),
        atlas.stride == pitch_before(atlas.descriptors@, atlas.descriptors@.len() as int),
{
    let ds = lin.descriptors@;
    assert forall|k: int| 0 <= k < ds.len() implies #[trigger] atlas.descriptors@[k].pitch
        == ds[k].pitch by {
        assert(atlas.descriptors@[k] == packed_desc(ds, k));
    }
    lemma_pitch_sum_of_packed(ds, atlas.descriptors@, ds.len() as int);
    let b = bytes_per_texel(lin.pixel_mode) as int;
    let s = lin.sum_pitch as int;
    assert((s / b) * b == s) by (nonlinear_arith)
        requires
            b > 0,
            s % b == 0,
    ;
}

/// Baseline alignment: every glyph's top edge lies as many rows below the
/// atlas's top as its bearing lies below the largest ascent, so all
/// baselines fall on row `max_y_max`.
pub proof fn lemma_baselines_aligned(lin: LinearTextAtlas, atlas: TextAtlas, i: int)
    requires
        lin.wf(),
        atlas.is_packing_of(lin),
        0 <= i < atlas.rects@.len(),
    ensures
        lin.max_y_max - atlas.descriptors@[i].bearing_y == atlas.rects@[i].tl.1,
{
    lemma_rect_values(lin, i);
}


impl LinearTextAtlas {
    /// The descriptor of character `ch` and its bitmap's bytes, or `None`
    /// for a character the store has no glyph for.
    pub fn get_glyph_texture(&self, ch: usize) -> (r: Option<(&GlyphDesc, &[u8])>)
        requires
            self.wf(),
        ensures
            ch >= self.descriptors@.len() ==> r is None,
            ch < self.descriptors@.len() ==> (r matches Some((d, px)) && {
                let g = self.descriptors@[ch as int];
                &&& *d == g
                &&& px@ == self.bytes@.subrange(g.x_start as int, g.x_start + g.h * g.pitch)
            }),
    {
        if ch >= self.descriptors.len() {
            return None;
        }
        let ghost ds = self.descriptors@;
        proof {
            lemma_bytes_monotone(ds, ch as int + 1, ds.len() as int);
        }
        let total = self.bytes.len();
        let desc = &self.descriptors[ch];
        assert(desc.x_start + desc.h * desc.pitch <= total);
        let start = desc.x_start;
        let size = (desc.h as usize) * (desc.pitch as usize);
        Some((desc, vstd::slice::slice_subrange(self.bytes.as_slice(), start, start + size)))
    }
}

} // verus!
