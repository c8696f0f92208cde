//! Laying a string out as textured quads over a packed atlas.

use vstd::prelude::*;

use crate::atlas::{normalize, GlyphRect, TexCoord, TextAtlas, TextError};
use crate::glyph::GlyphDesc;

verus! {

/// One corner of a glyph quad: its position in whole pixels, and where it
/// samples the atlas.
#[derive(Clone, Copy, Debug, PartialEq, Eq)]
pub struct TextVertex {
    pub position: (i128, i128),
    pub tex_coords: (TexCoord, TexCoord),
}

/// The atlas entry that character `ch` uses.
pub open spec fn glyph_code(ch: char) -> int {
    ch as u32 as int
}

/// How far the pen moves after a glyph, in whole pixels: the advance in
/// 1/64 pixels, shifted right by six.
pub open spec fn advance_px(d: GlyphDesc) -> int {
    (d.advance >> 6u64) as int
}

/// The pen's offset after laying out `s`.
pub open spec fn pen_after(ds: Seq<GlyphDesc>, s: Seq<char>) -> int
    decreases s.len(),
{
    if s.len() == 0 {
        0
    } else {
        pen_after(ds, s.drop_last()) + advance_px(ds[glyph_code(s.last())])
    }
}

/// The six corners of the two triangles of the quad of glyph `code`, the
/// pen at `pen` on the baseline at height `baseline`: top-left,
/// bottom-left, bottom-right, bottom-right, top-right, top-left.
pub open spec fn quad_of(atlas: TextAtlas, code: int, pen: int, baseline: int) -> Seq<TextVertex> {
    let d = atlas.descriptors@[code];
    let uv = normalize(atlas.rects@[code], atlas.h, atlas.w);
    let (tl, br) = (uv.0, uv.1);
    let x0 = (pen + d.bearing_x) as i128;
    let x1 = (pen + d.bearing_x + d.w) as i128;
    let y0 = (baseline + d.bearing_y - d.h) as i128;
    let y1 = (baseline + d.bearing_y) as i128;
    seq![
        TextVertex { position: (x0, y1), tex_coords: (tl.0, tl.1) },
        TextVertex { position: (x0, y0), tex_coords: (tl.0, br.1) },
        TextVertex { position: (x1, y0), tex_coords: (br.0, br.1) },
        TextVertex { position: (x1, y0), tex_coords: (br.0, br.1) },
        TextVertex { position: (x1, y1), tex_coords: (br.0, tl.1) },
        TextVertex { position: (x0, y1), tex_coords: (tl.0, tl.1) },
    ]
}

/// The vertices of every glyph quad of `s`, in order, the pen starting at
/// `anchor` on the baseline.
pub open spec fn text_vertices(atlas: TextAtlas, s: Seq<char>, anchor: (i64, i64)) -> Seq<TextVertex>
    decreases s.len(),
{
    if s.len() == 0 {
        seq![]
    } else {
        text_vertices(atlas, s.drop_last(), anchor) + quad_of(
            atlas,
            glyph_code(s.last()),
            anchor.0 + pen_after(atlas.descriptors@, s.drop_last()),
            anchor.1 as int,
        )
    }
}

/// The first character among the first `i` of `s` that has no glyph among `n`.
pub open spec fn first_missing(n: int, s: Seq<char>, i: int) -> Option<char>
    decreases i,
{
    if i <= 0 {
        None
    } else {
        match first_missing(n, s, i - 1) {
            Some(c) => Some(c),
            None => if glyph_code(s[i - 1]) >= n { Some(s[i - 1]) } else { None },
        }
    }
}

/// Why `s` cannot be laid out over `atlas`, if it can't.
pub open spec fn layout_fault(atlas: TextAtlas, s: Seq<char>) -> Option<TextError> {
    if atlas.h == 0 || atlas.w == 0 {
        Some(TextError::EmptyAtlas)
    } else {
        match first_missing(atlas.descriptors@.len() as int, s, s.len() as int) {
            Some(ch) => Some(TextError::CharacterOutOfRange { ch }),
            None => None,
        }
    }
}

proof fn lemma_first_missing_stays(n: int, s: Seq<char>, j: int, i: int)
    requires
        j <= i,
        first_missing(n, s, j) is Some,
    ensures
        first_missing(n, s, i) == first_missing(n, s, j),
    decreases i - j,
{
    if j < i {
        lemma_first_missing_stays(n, s, j, i - 1);
    }
}

proof fn lemma_shift_bounds(a: i64)
    ensures
        -0x200_0000_0000_0000 <= (a >> 6u64) <= 0x1ff_ffff_ffff_ffff,
{
    assert(-0x200_0000_0000_0000i64 <= (a >> 6u64) && (a >> 6u64) <= 0x1ff_ffff_ffff_ffffi64)
        by (bit_vector);
}

/// Lays `text` out over `atlas` as one quad of two triangles per
/// character, six vertices each, the pen starting at `anchor` on the
/// baseline and moving right by each glyph's advance in whole pixels.
pub fn build_text_mesh(atlas: &TextAtlas, text: &str, anchor: (i64, i64)) -> (r: Result<
    Vec<TextVertex>,
    TextError,
>)
    requires
        atlas.wf(),
    ensures
        match r {
            Ok(vs) => layout_fault(*atlas, text@) is None && vs@ == text_vertices(*atlas, text@, anchor),
            Err(e) => layout_fault(*atlas, text@) == Some(e),
        },
{
    if atlas.h == 0 || atlas.w == 0 {
        return Err(TextError::EmptyAtlas);
    }
    let n = atlas.descriptors.len();
    let len = text.unicode_len();
    let ghost s = text@;
    let ghost ds = atlas.descriptors@;
    let mut vertices: Vec<TextVertex> = Vec::new();
    let mut pen: i128 = 0;
    let mut i: usize = 0;
    while i < len
        invariant
            atlas.wf(),
            atlas.h != 0 && atlas.w != 0,
            ds == atlas.descriptors@,
            n == ds.len(),
            s == text@,
            len == s.len(),
            i <= len,
            first_missing(n as int, s, i as int) is None,
            vertices@ == text_vertices(*atlas, s.take(i as int), anchor),
            pen == pen_after(ds, s.take(i as int)),
            -(i as int) * 0x200_0000_0000_0000 <= pen <= (i as int) * 0x200_0000_0000_0000,
        decreases len - i,
    {
        let ch = text.get_char(i);
        let code = ch as u32 as usize;
        if code >= n {
            proof {
                lemma_first_missing_stays(n as int, s, i + 1, len as int);
            }
            return Err(TextError::CharacterOutOfRange { ch });
        }
        let d = atlas.descriptors[code];
        let rect: GlyphRect = atlas.rects[code];
        let uv = rect.normalized(atlas.h, atlas.w);
        let (tl, br) = match uv {
            Ok(corners) => corners,
            Err(e) => {
                return Err(e);
            },
        };
        let x0 = anchor.0 as i128 + pen + d.bearing_x as i128;
        let x1 = x0 + d.w as i128;
        let y0 = anchor.1 as i128 + d.bearing_y as i128 - d.h as i128;
        let y1 = anchor.1 as i128 + d.bearing_y as i128;
        vertices.push(TextVertex { position: (x0, y1), tex_coords: (tl.0, tl.1) });
        vertices.push(TextVertex { position: (x0, y0), tex_coords: (tl.0, br.1) });
        vertices.push(TextVertex { position: (x1, y0), tex_coords: (br.0, br.1) });
        vertices.push(TextVertex { position: (x1, y0), tex_coords: (br.0, br.1) });
        vertices.push(TextVertex { position: (x1, y1), tex_coords: (br.0, tl.1) });
        vertices.push(TextVertex { position: (x0, y1), tex_coords: (tl.0, tl.1) });
        proof {
            lemma_shift_bounds(d.advance);
            let t = s.take(i + 1);
            assert(t.drop_last() =~= s.take(i as int));
            assert(t.last() == ch);
            assert(vertices@ =~= text_vertices(*atlas, t, anchor));
        }
        pen = pen + (d.advance >> 6) as i128;
        i = i + 1;
    }
    assert(s.take(len as int) =~= s);
    Ok(vertices)
}

/// Six vertices per character: a laid-out string has two triangles, six
/// corners, for each of its characters.
pub proof fn lemma_six_vertices_per_char(atlas: TextAtlas, s: Seq<char>, anchor: (i64, i64))
    ensures
        text_vertices(atlas, s, anchor).len() == 6 * s.len(),
    decreases s.len(),
{
    if s.len() > 0 {
        lemma_six_vertices_per_char(atlas, s.drop_last(), anchor);
    }
}

/// The quad of the `k`-th character sits at the pen position reached after
/// the characters before it, each of which moved the pen right by its
/// advance shifted down to whole pixels.
pub proof fn lemma_quad_at_pen(atlas: TextAtlas, s: Seq<char>, anchor: (i64, i64), k: int)
    requires
        0 <= k < s.len(),
    ensures
        text_vertices(atlas, s, anchor).subrange(6 * k, 6 * k + 6) == quad_of(
            atlas,
            glyph_code(s[k]),
            anchor.0 + pen_after(atlas.descriptors@, s.take(k)),
            anchor.1 as int,
        ),
        pen_after(atlas.descriptors@, s.take(k + 1)) == pen_after(atlas.descriptors@, s.take(k))
            + advance_px(atlas.descriptors@[glyph_code(s[k])]),
    decreases s.len(),
{
    let t = s.drop_last();
    lemma_six_vertices_per_char(atlas, t, anchor);
    assert(s.take(k + 1).drop_last() =~= s.take(k));
    if k == s.len() - 1 {
        assert(t =~= s.take(k));
        assert(text_vertices(atlas, s, anchor).subrange(6 * k, 6 * k + 6) =~= quad_of(
            atlas,
            glyph_code(s[k]),
            anchor.0 + pen_after(atlas.descriptors@, s.take(k)),
            anchor.1 as int,
        ));
    } else {
        lemma_quad_at_pen(atlas, t, anchor, k);
        assert(t.take(k) =~= s.take(k));
        assert(t[k] == s[k]);
        assert(text_vertices(atlas, s, anchor).subrange(6 * k, 6 * k + 6) =~= text_vertices(
            atlas,
            t,
            anchor,
        ).subrange(6 * k, 6 * k + 6));
    }
}

proof fn lemma_none_missing(n: int, s: Seq<char>, i: int)
    requires
        0 <= i <= s.len(),
        forall|j: int| 0 <= j < s.len() ==> glyph_code(#[trigger] s[j]) < n,
    ensures
        first_missing(n, s, i) is None,
    decreases i,
{
    if i > 0 {
        lemma_none_missing(n, s, i - 1);
    }
}

/// Layout succeeds on an atlas with area when every character has a glyph:
/// `build_text_mesh` then returns six vertices per character.
pub proof fn lemma_layout_succeeds(atlas: TextAtlas, s: Seq<char>, anchor: (i64, i64))
    requires
        atlas.h > 0,
        atlas.w > 0,
        forall|j: int| 0 <= j < s.len() ==> glyph_code(#[trigger] s[j]) < atlas.descriptors@.len(),
    ensures
        layout_fault(atlas, s) is None,
        text_vertices(atlas, s, anchor).len() == 6 * s.len(),
{
    lemma_none_missing(atlas.descriptors@.len() as int, s, s.len() as int);
    lemma_six_vertices_per_char(atlas, s, anchor);
}

} // verus!
