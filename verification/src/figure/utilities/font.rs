use vstd::prelude::*;
use ab_glyph::{FontRef, InvalidFont};
use crate::figure::utilities::drawerror::DrawError;

verus! {

/// A font of ab_glyph that borrows the bytes it was parsed from.
#[verifier::external_type_specification]
#[verifier::external_body]
pub struct ExFontRef<'a>(FontRef<'a>);

/// The error of ab_glyph for bytes that hold no font.
#[verifier::external_type_specification]
#[verifier::external_body]
pub struct ExInvalidFont(InvalidFont);

/// Whether ab_glyph finds a font in the given bytes.
pub uninterp spec fn font_parses(data: Seq<u8>) -> bool;

/// `FontRef::try_from_slice` of ab_glyph, which parses the bytes as a font
/// file and takes the first font in it. The contract claims only that
/// whether a font comes back depends on the bytes alone.
#[verifier::external_body]
fn font_from_slice<'a>(data: &'a [u8]) -> (r: Result<FontRef<'a>, InvalidFont>)
    ensures
        r is Ok <==> font_parses(data@),
{
    FontRef::try_from_slice(data)
}

/// The path of a font file that the configuration must name: text that
/// needs the font cannot be drawn without it.
pub fn font_path(font: &Option<String>) -> (r: Result<&String, DrawError>)
    ensures
        match font {
            None => r == Err::<&String, DrawError>(DrawError::FontPathMissing),
            Some(path) => r == Ok::<&String, DrawError>(path),
        },
{
    match font {
        None => Err(DrawError::FontPathMissing),
        Some(path) => Ok(path),
    }
}

/// What a parse of font bytes came to, in the library's own terms: the
/// font, or the error for bytes that hold none.
pub fn parsed_font<'a>(parsed: Result<FontRef<'a>, InvalidFont>) -> (r: Result<
    FontRef<'a>,
    DrawError,
>)
    ensures
        match parsed {
            Ok(font) => r == Ok::<FontRef<'a>, DrawError>(font),
            Err(_) => r == Err::<FontRef<'a>, DrawError>(DrawError::FontInvalid),
        },
{
    match parsed {
        Ok(font) => Ok(font),
        Err(_) => Err(DrawError::FontInvalid),
    }
}

/// The font in the bytes of a font file. `None` stands for a file that
/// could not be read. There is a font exactly where the file was read and
/// its bytes hold one.
pub fn load_font<'a>(data: Option<&'a [u8]>) -> (r: Result<FontRef<'a>, DrawError>)
    ensures
        match data {
            None => r == Err::<FontRef<'a>, DrawError>(DrawError::FontUnreadable),
            Some(bytes) => if font_parses(bytes@) {
                r is Ok
            } else {
                r == Err::<FontRef<'a>, DrawError>(DrawError::FontInvalid)
            },
        },
{
    match data {
        None => Err(DrawError::FontUnreadable),
        Some(bytes) => parsed_font(font_from_slice(bytes)),
    }
}

} // verus!
