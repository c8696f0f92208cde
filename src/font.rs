//! Fonts through FreeType: rendering the glyphs of a face into a linear
//! store, and the registry of loaded fonts.

use vstd::prelude::*;

use crate::atlas::{LinearTextAtlas, TextAtlas, TextError};
use crate::glyph::{GlyphBitmap, PixelMode};
use freetype::bitmap::PixelMode as FtPixelMode;

verus! {

#[verifier::external_type_specification]
#[verifier::external_body]
pub struct ExLibrary(freetype::Library);

#[verifier::external_type_specification]
#[verifier::external_body]
#[verifier::reject_recursive_types(BYTES)]
pub struct ExFace<BYTES>(freetype::face::Face<BYTES>);

#[verifier::external_type_specification]
#[verifier::external_body]
pub struct ExFtError(freetype::Error);

#[verifier::external_type_specification]
#[verifier::external_body]
pub struct ExFtPixelMode(FtPixelMode);

/// Where fonts are looked up by name.
pub const FONTS_DIR: &'static str = "C:/Windows/Fonts";

/// Number of character codes rendered into an atlas: the ASCII range.
pub const GLYPH_COUNT: usize = 128;

/// Character width in 1/64 points that glyphs are rendered at; a height
/// and resolutions of zero take their defaults from it.
pub const CHAR_SIZE: isize = 30 * 64;

/// Relies on freetype's `Library::init`: creates a library instance with
/// the default modules, or fails.
#[verifier::external_body]
fn init_library() -> (r: Result<freetype::Library, freetype::Error>) {
    freetype::Library::init()
}

/// Relies on freetype's `Library::new_face`: opens face `face_index` of
/// the font file at `path`, or fails.
#[verifier::external_body]
fn open_face(library: &freetype::Library, path: &str, face_index: isize) -> (r: Result<
    freetype::face::Face,
    freetype::Error,
>) {
    library.new_face(path, face_index)
}

/// Relies on freetype's `Face::set_char_size`: sets the size, in 1/64
/// points, and the resolution, in dots per inch, that the face renders at.
#[verifier::external_body]
fn set_char_size(
    face: &freetype::face::Face,
    width: isize,
    height: isize,
    horz_resolution: u32,
    vert_resolution: u32,
) -> (r: Result<(), freetype::Error>) {
    face.set_char_size(width, height, horz_resolution, vert_resolution)
}

/// Relies on freetype's `Face::load_char` with `LoadFlag::RENDER`: loads the
/// glyph of `char_code` into the face's glyph slot and renders its bitmap.
#[verifier::external_body]
fn load_rendered_char(face: &freetype::face::Face, char_code: usize) -> (r: Result<
    (),
    freetype::Error,
>) {
    face.load_char(char_code, freetype::face::LoadFlag::RENDER)
}

/// Relies on freetype's `bitmap::PixelMode`: the same pixel format under
/// the library's own name.
#[verifier::external_body]
fn pixel_mode_of(mode: FtPixelMode) -> (r: PixelMode) {
    match mode {
        FtPixelMode::None => PixelMode::Undefined,
        FtPixelMode::Mono => PixelMode::Mono,
        FtPixelMode::Gray => PixelMode::Gray,
        FtPixelMode::Gray2 => PixelMode::Gray2,
        FtPixelMode::Gray4 => PixelMode::Gray4,
        FtPixelMode::Lcd => PixelMode::Lcd,
        FtPixelMode::LcdV => PixelMode::LcdV,
        FtPixelMode::Bgra => PixelMode::Bgra,
    }
}

/// The bytes in one row of `g`'s bitmap, whichever way the rows flow.
pub open spec fn abs_pitch(g: GlyphBitmap) -> int {
    if g.pitch < 0 { -g.pitch } else { g.pitch as int }
}

/// Relies on freetype's `GlyphSlot` (`bitmap`, `bitmap_left`, `bitmap_top`,
/// `advance`) and `Bitmap` (`buffer`, `rows`, `width`, `pitch`,
/// `pixel_mode`): copies the glyph last rendered into the face's slot out
/// as plain values. Fails on a pixel mode that freetype does not know.
/// `Bitmap::buffer` holds `|pitch| * rows` bytes, none when that is zero.
#[verifier::external_body]
fn rendered_glyph(face: &freetype::face::Face) -> (r: Result<GlyphBitmap, freetype::Error>)
    ensures
        r matches Ok(g) ==> (g.rows >= 0 && g.pitch > i32::MIN && abs_pitch(g) * g.rows
            <= i32::MAX ==> g.buffer@.len() == abs_pitch(g) * g.rows),
{
    let slot = face.glyph();
    let bitmap = slot.bitmap();
    let mode = bitmap.pixel_mode()?;
    Ok(GlyphBitmap {
        buffer: bitmap.buffer().to_vec(),
        rows: bitmap.rows(),
        width: bitmap.width(),
        pitch: bitmap.pitch(),
        left: slot.bitmap_left(),
        top: slot.bitmap_top(),
        advance: slot.advance().x as i64,
        pixel_mode: pixel_mode_of(mode),
    })
}

/// The directory and the file name joined by `/`.
fn join_path(dir: &str, name: &str) -> (r: String)
    ensures
        r@ == dir@ + seq!['/'] + name@,
{
    let mut path = dir.to_owned();
    path.append("/");
    path.append(name);
    proof {
        reveal_strlit("/");
    }
    path
}

impl LinearTextAtlas {
    /// Renders character codes `0..GLYPH_COUNT` of `face` at `CHAR_SIZE` and
    /// stores them back to back. Any glyph that cannot be rendered fails
    /// the whole build.
    pub fn create(face: &freetype::face::Face) -> (r: Result<LinearTextAtlas, TextError>)
        ensures
            r matches Ok(a) ==> a.wf() && a.descriptors@.len() == GLYPH_COUNT,
    {
        let mut glyphs: Vec<GlyphBitmap> = Vec::with_capacity(GLYPH_COUNT);
        let mut ch: usize = 0;
        while ch < GLYPH_COUNT
            invariant
                ch <= GLYPH_COUNT,
                glyphs@.len() == ch,
            decreases GLYPH_COUNT - ch,
        {
            if set_char_size(face, CHAR_SIZE, 0, 0, 0).is_err() {
                return Err(TextError::GlyphRender { code: ch });
            }
            if load_rendered_char(face, ch).is_err() {
                return Err(TextError::GlyphRender { code: ch });
            }
            match rendered_glyph(face) {
                Ok(g) => glyphs.push(g),
                Err(_) => {
                    return Err(TextError::GlyphRender { code: ch });
                },
            }
            ch = ch + 1;
        }
        LinearTextAtlas::from_glyphs(&glyphs)
    }
}

/// A font face, its glyphs' linear store and the atlas packed from it.
pub struct FontContainer {
    pub face: freetype::face::Face,
    pub linear_atlas: LinearTextAtlas,
    pub atlas: TextAtlas,
}

impl FontContainer {
    pub open spec fn wf(&self) -> bool {
        &&& self.linear_atlas.wf()
        &&& self.atlas.is_packing_of(self.linear_atlas)
    }

    /// Opens face `face_index` of the font at `font_path` and builds its atlas.
    pub fn new(library: &freetype::Library, font_path: &str, face_index: isize) -> (r: Result<
        FontContainer,
        TextError,
    >)
        ensures
            r matches Ok(f) ==> f.wf() && f.linear_atlas.descriptors@.len() == GLYPH_COUNT,
    {
        let face = match open_face(library, font_path, face_index) {
            Ok(face) => face,
            Err(_) => {
                return Err(TextError::FaceLoad);
            },
        };
        let linear_atlas = match LinearTextAtlas::create(&face) {
            Ok(a) => a,
            Err(e) => {
                return Err(e);
            },
        };
        let atlas = TextAtlas::create(&linear_atlas);
        Ok(FontContainer { face, linear_atlas, atlas })
    }

    /// The descriptor and bitmap of character `ch`, if the font has it.
    pub fn get_glyph_texture(&self, ch: usize) -> (r: Option<(&crate::glyph::GlyphDesc, &[u8])>)
        requires
            self.wf(),
        ensures
            r is Some <==> ch < self.linear_atlas.descriptors@.len(),
            r matches Some((d, px)) ==> {
                let g = self.linear_atlas.descriptors@[ch as int];
                &&& *d == g
                &&& px@ == self.linear_atlas.bytes@.subrange(g.x_start as int, g.x_start + g.h * g.pitch)
            },
    {
        self.linear_atlas.get_glyph_texture(ch)
    }
}

/// The names of a sequence of registry entries.
pub open spec fn names_of(entries: Seq<(String, FontContainer)>) -> Seq<Seq<char>> {
    entries.map_values(|e: (String, FontContainer)| e.0@)
}

/// `after` is `before` with `entry` stored under its name: in place of the
/// entry of that name if there is one, else appended at the end.
pub open spec fn registers(
    before: Seq<(String, FontContainer)>,
    after: Seq<(String, FontContainer)>,
    entry: (String, FontContainer),
) -> bool {
    ||| exists|i: int|
        0 <= i < before.len() && names_of(before)[i] == entry.0@ && after == before.update(i, entry)
    ||| !names_of(before).contains(entry.0@) && after == before.push(entry)
}

/// The loaded fonts, by name. Each name occurs at most once.
pub struct TextMap {
    pub library: freetype::Library,
    pub fonts: Vec<(String, FontContainer)>,
}

impl TextMap {
    /// The names of the loaded fonts, in load order.
    pub open spec fn names(&self) -> Seq<Seq<char>> {
        names_of(self.fonts@)
    }

    pub open spec fn wf(&self) -> bool {
        &&& self.names().no_duplicates()
        &&& forall|i: int| 0 <= i < self.fonts@.len() ==> (#[trigger] self.fonts@[i]).1.wf()
    }

    /// Sets up the font library, with no font loaded yet.
    pub fn new() -> (r: Result<TextMap, TextError>)
        ensures
            r matches Ok(m) ==> m.wf() && m.fonts@.len() == 0,
    {
        match init_library() {
            Ok(library) => Ok(TextMap { library, fonts: Vec::new() }),
            Err(_) => Err(TextError::LibraryInit),
        }
    }

    /// Where in `fonts` the font called `name` is.
    fn position(&self, name: &String) -> (r: Option<usize>)
        requires
            self.wf(),
        ensures
            r matches Some(i) ==> i < self.fonts@.len() && self.names()[i as int] == name@,
            r is None ==> !self.names().contains(name@),
    {
        let mut i: usize = 0;
        while i < self.fonts.len()
            invariant
                i <= self.fonts@.len(),
                forall|j: int| 0 <= j < i ==> self.names()[j] != name@,
            decreases self.fonts@.len() - i,
        {
            if self.fonts[i].0 == *name {
                return Some(i);
            }
            i = i + 1;
        }
        None
    }

    /// The font called `name`, if it is loaded.
    pub fn get(&self, name: &String) -> (r: Option<&FontContainer>)
        requires
            self.wf(),
        ensures
            r is Some <==> self.names().contains(name@),
            r matches Some(f) ==> f.wf() && exists|i: int|
                0 <= i < self.fonts@.len() && self.names()[i] == name@ && self.fonts@[i].1 == *f,
    {
        match self.position(name) {
            Some(i) => Some(&self.fonts[i].1),
            None => None,
        }
    }

    /// Stores `container` under the name `font`, in place of a font stored
    /// earlier under that name.
    pub fn insert(&mut self, font: String, container: FontContainer)
        requires
            old(self).wf(),
            container.wf(),
        ensures
            final(self).wf(),
            registers(old(self).fonts@, final(self).fonts@, (font, container)),
    {
        let ghost name = font@;
        match self.position(&font) {
            Some(i) => {
                self.fonts.set(i, (font, container));
                proof {
                    assert(self.names() =~= old(self).names());
                }
            },
            None => {
                let ghost before = self.names();
                self.fonts.push((font, container));
                proof {
                    let now = self.names();
                    assert(now =~= before.push(name));
                    assert forall|a: int, b: int|
                        0 <= a < now.len() && 0 <= b < now.len() && a != b implies now[a]
                        != now[b] by {
                        if a == before.len() {
                            assert(before[b] == now[b]);
                        } else if b == before.len() {
                            assert(before[a] == now[a]);
                        }
                    }
                }
            },
        }
    }

    /// Loads face `face_index` of the font file at `path` under the name
    /// `font`, replacing a font loaded earlier under that name. On failure
    /// the registry stays as it was.
    pub fn generate_from_path(&mut self, font: String, path: &str, face_index: isize) -> (r: Result<
        (),
        TextError,
    >)
        requires
            old(self).wf(),
        ensures
            final(self).wf(),
            r is Err ==> final(self).fonts@ == old(self).fonts@,
            r is Ok ==> exists|c: FontContainer|
                c.wf() && c.linear_atlas.descriptors@.len() == GLYPH_COUNT && registers(
                    old(self).fonts@,
                    final(self).fonts@,
                    (font, c),
                ),
            r is Ok ==> final(self).names().contains(font@),
            r is Ok ==> forall|i: int|
                0 <= i < old(self).fonts@.len() && old(self).names()[i] != font@
                    ==> #[trigger] final(self).fonts@[i] == old(self).fonts@[i],
    {
        let ghost name = font@;
        let ghost font_value = font;
        let container = match FontContainer::new(&self.library, path, face_index) {
            Ok(c) => c,
            Err(e) => {
                return Err(e);
            },
        };
        let ghost c = container;
        self.insert(font, container);
        proof {
            let (before, after) = (old(self).fonts@, self.fonts@);
            if exists|i: int|
                0 <= i < before.len() && names_of(before)[i] == name && after == before.update(
                    i,
                    (font_value, c),
                ) {
                let i = choose|i: int|
                    0 <= i < before.len() && names_of(before)[i] == name && after == before.update(
                        i,
                        (font_value, c),
                    );
                assert(self.names()[i] == name);
            } else {
                assert(self.names()[before.len() as int] == name);
            }
        }
        Ok(())
    }

    /// Loads face `face_index` of the font called `font` from `FONTS_DIR`.
    pub fn generate(&mut self, font: String, face_index: isize) -> (r: Result<(), TextError>)
        requires
            old(self).wf(),
        ensures
            final(self).wf(),
            r is Err ==> final(self).fonts@ == old(self).fonts@,
            r is Ok ==> exists|c: FontContainer|
                c.wf() && c.linear_atlas.descriptors@.len() == GLYPH_COUNT && registers(
                    old(self).fonts@,
                    final(self).fonts@,
                    (font, c),
                ),
            r is Ok ==> final(self).names().contains(font@),
            r is Ok ==> forall|i: int|
                0 <= i < old(self).fonts@.len() && old(self).names()[i] != font@
                    ==> #[trigger] final(self).fonts@[i] == old(self).fonts@[i],
    {
        let path = join_path(FONTS_DIR, font.as_str());
        self.generate_from_path(font, path.as_str(), face_index)
    }
}

} // verus!
