//! Fonts: parsing the configured font files and choosing the font that
//! renders a character.
//!
//! Fonts are parsed and queried by the `ab_glyph` crate. The verifier knows
//! a parsed font by the bytes it was parsed from; what the crate makes of
//! those bytes has a name here and no definition.

use crate::types::{AppConfig, FontConfig, LoadedFont};
use vstd::prelude::*;

verus! {

/// `ab_glyph::FontRef`, a parsed font that borrows its bytes. Nothing of its
/// inside is known here.
#[verifier::external_type_specification]
#[verifier::external_body]
pub struct ExFontRef<'a>(ab_glyph::FontRef<'a>);

/// `ab_glyph::InvalidFont`, the error of a failed parse.
#[verifier::external_type_specification]
#[verifier::external_body]
pub struct ExInvalidFont(ab_glyph::InvalidFont);

/// The bytes that a font was parsed from.
pub uninterp spec fn font_data(font: ab_glyph::FontRef<'_>) -> Seq<u8>;

/// Whether `ab_glyph` accepts a byte string as a font.
pub uninterp spec fn is_font(data: Seq<u8>) -> bool;

/// The glyph index that the font with these bytes gives a character; 0 where
/// it has no glyph for it.
pub uninterp spec fn glyph_index(data: Seq<u8>, c: char) -> u16;

/// `ab_glyph::FontRef::try_from_slice`: the font that the bytes hold, or an
/// error where they hold none.
#[verifier::external_body]
fn parse_font<'a>(data: &'a [u8]) -> (r: Result<ab_glyph::FontRef<'a>, ab_glyph::InvalidFont>)
    ensures
        r is Ok <==> is_font(data@),
        r matches Ok(font) ==> font_data(font) == data@,
{
    ab_glyph::FontRef::try_from_slice(data)
}

/// `ab_glyph::Font::glyph_id` on a `FontRef`: the index of the glyph that
/// the font maps the character to.
#[verifier::external_body]
fn glyph_id(font: &ab_glyph::FontRef<'_>, c: char) -> (id: u16)
    ensures
        id == glyph_index(font_data(*font), c),
{
    ab_glyph::Font::glyph_id(font, c).0
}

/// Why the fonts could not be loaded.
pub enum FontError {
    /// The configuration lists no font.
    NoFonts,
    /// The file at this path could not be read.
    Unreadable(String),
    /// The file at this path holds no font.
    Invalid(String),
}

impl FontError {
    /// The error in words, with the path it is about.
    pub fn message(&self) -> (text: String)
        ensures
            text@ == match *self {
                FontError::NoFonts => "no fonts are configured"@,
                FontError::Unreadable(path) => "cannot read font file: "@ + path@,
                FontError::Invalid(path) => "not a font file: "@ + path@,
            },
    {
        match self {
            FontError::NoFonts => String::from_str("no fonts are configured"),
            FontError::Unreadable(path) => {
                let mut text: String = String::from_str("cannot read font file: ");
                text.append(path.as_str());
                text
            },
            FontError::Invalid(path) => {
                let mut text: String = String::from_str("not a font file: ");
                text.append(path.as_str());
                text
            },
        }
    }
}

/// Whether font `i` of a configuration can be used: its file was read and
/// holds a font. `files[i]` is the content of the file of font `i`, `None`
/// where it could not be read.
pub open spec fn font_usable(files: Seq<Option<Vec<u8>>>, i: int) -> bool {
    &&& i < files.len()
    &&& files[i] matches Some(data) && is_font(data@)
}

/// Whether the file of font `i` was read.
pub open spec fn font_readable(files: Seq<Option<Vec<u8>>>, i: int) -> bool {
    i < files.len() && files[i] is Some
}

/// Parses the configured fonts, in order.
///
/// `files[i]` is the content of the file of font `i`, `None` where it could
/// not be read. The result is the error of the first font that cannot be
/// used; `NoFonts` where none is configured; else all the fonts, each with
/// its configuration.
pub fn load_fonts<'a>(config: &'a AppConfig, files: &'a Vec<Option<Vec<u8>>>) -> (r: Result<
    Vec<LoadedFont<'a>>,
    FontError,
>)
    ensures
        match r {
            Ok(fonts) => {
                &&& config.fonts@.len() > 0
                &&& fonts@.len() == config.fonts@.len()
                &&& forall|i: int| 0 <= i < config.fonts@.len() ==> font_usable(files@, i)
                &&& forall|i: int|
                    0 <= i < fonts@.len() ==> {
                        &&& font_data((#[trigger] fonts@[i]).font_ref) == files@[i]->0@
                        &&& *fonts@[i].config == config.fonts@[i]
                    }
            },
            Err(FontError::NoFonts) => config.fonts@.len() == 0,
            Err(FontError::Unreadable(path)) => exists|k: int|
                {
                    &&& 0 <= k < config.fonts@.len()
                    &&& forall|i: int| 0 <= i < k ==> font_usable(files@, i)
                    &&& !font_readable(files@, k)
                    &&& path@ == (#[trigger] config.fonts@[k]).path@
                },
            Err(FontError::Invalid(path)) => exists|k: int|
                {
                    &&& 0 <= k < config.fonts@.len()
                    &&& forall|i: int| 0 <= i < k ==> font_usable(files@, i)
                    &&& font_readable(files@, k)
                    &&& !font_usable(files@, k)
                    &&& path@ == (#[trigger] config.fonts@[k]).path@
                },
        },
{
    let mut fonts: Vec<LoadedFont<'a>> = Vec::new();
    let n: usize = config.fonts.len();
    let mut i: usize = 0;
    while i < n
        invariant
            n == config.fonts@.len(),
            i <= n,
            fonts@.len() == i,
            forall|j: int| 0 <= j < i ==> font_usable(files@, j),
            forall|j: int|
                0 <= j < i ==> {
                    &&& font_data((#[trigger] fonts@[j]).font_ref) == files@[j]->0@
                    &&& *fonts@[j].config == config.fonts@[j]
                },
        decreases n - i,
    {
        let font_conf: &'a FontConfig = &config.fonts[i];
        if i >= files.len() {
            return Err(FontError::Unreadable(font_conf.path.clone()));
        }
        match &files[i] {
            None => {
                return Err(FontError::Unreadable(font_conf.path.clone()));
            },
            Some(data) => {
                match parse_font(data.as_slice()) {
                    Ok(font_ref) => {
                        fonts.push(LoadedFont { font_ref, config: font_conf });
                    },
                    Err(_) => {
                        return Err(FontError::Invalid(font_conf.path.clone()));
                    },
                }
            },
        }
        i += 1;
    }
    if n == 0 {
        return Err(FontError::NoFonts);
    }
    Ok(fonts)
}

/// Whether a font has a glyph for a character.
pub open spec fn has_glyph(font: LoadedFont<'_>, c: char) -> bool {
    glyph_index(font_data(font.font_ref), c) != 0
}

/// Chooses the font that renders a character: the first in the list that has
/// a glyph for it, and the first of all where none has.
pub fn select_font(fonts: &Vec<LoadedFont<'_>>, c: char) -> (idx: usize)
    ensures
        fonts@.len() > 0 ==> idx < fonts@.len(),
        forall|j: int| 0 <= j < idx ==> !has_glyph(#[trigger] fonts@[j], c),
        idx != 0 ==> has_glyph(fonts@[idx as int], c),
        idx == 0 ==> (fonts@.len() > 0 && has_glyph(fonts@[0], c)) || forall|j: int|
            0 <= j < fonts@.len() ==> !has_glyph(#[trigger] fonts@[j], c),
{
    let n: usize = fonts.len();
    let mut i: usize = 0;
    while i < n
        invariant
            n == fonts@.len(),
            i <= n,
            forall|j: int| 0 <= j < i ==> !has_glyph(#[trigger] fonts@[j], c),
        decreases n - i,
    {
        if glyph_id(&fonts[i].font_ref, c) != 0 {
            return i;
        }
        i += 1;
    }
    0
}

} // verus!
