use ab_glyph::InvalidFont;
use figdraw::figure::utilities::drawerror::DrawError;
use figdraw::figure::utilities::font::{font_path, load_font, parsed_font};

#[test]
fn font_path_is_required() {
    assert_eq!(font_path(&None), Err(DrawError::FontPathMissing));
    let set = Some(String::from("fonts/label.ttf"));
    assert_eq!(font_path(&set).map(|p| p.as_str()), Ok("fonts/label.ttf"));
    let empty = Some(String::new());
    assert_eq!(font_path(&empty).map(|p| p.as_str()), Ok(""));
}

#[test]
fn unread_file_is_unreadable() {
    assert!(matches!(load_font(None), Err(DrawError::FontUnreadable)));
}

#[test]
fn bytes_without_a_font_are_invalid() {
    assert!(matches!(load_font(Some(&[])), Err(DrawError::FontInvalid)));
    assert!(matches!(load_font(Some(b"not a font")), Err(DrawError::FontInvalid)));
    assert!(matches!(load_font(Some(&[0, 1, 0, 0, 0, 0])), Err(DrawError::FontInvalid)));
    assert!(matches!(load_font(Some(&[0u8; 64])), Err(DrawError::FontInvalid)));
}

#[test]
fn failed_parse_is_invalid() {
    assert!(matches!(parsed_font(Err(InvalidFont)), Err(DrawError::FontInvalid)));
}

fn tiny_font(units_per_em: u16, glyphs: u8) -> Vec<u8> {
    let mut f = vec![0u8; 156];
    f[1] = 1;
    f[5] = 3;
    let tables: [(&[u8; 4], u8, u8); 3] = [(b"head", 60, 54), (b"hhea", 114, 36), (b"maxp", 150, 6)];
    for (i, (tag, offset, length)) in tables.iter().enumerate() {
        let at = 12 + 16 * i;
        f[at..at + 4].copy_from_slice(*tag);
        f[at + 11] = *offset;
        f[at + 15] = *length;
    }
    f[78..80].copy_from_slice(&units_per_em.to_be_bytes());
    f[152] = 0x50;
    f[155] = glyphs;
    f
}

#[test]
fn bytes_with_a_font_give_the_font() {
    let bytes = tiny_font(1000, 1);
    assert!(load_font(Some(&bytes)).is_ok());
    assert!(parsed_font(ab_glyph::FontRef::try_from_slice(&bytes)).is_ok());
}

#[test]
fn font_with_a_broken_table_is_invalid() {
    assert!(matches!(load_font(Some(&tiny_font(0, 1))), Err(DrawError::FontInvalid)));
    assert!(matches!(load_font(Some(&tiny_font(1000, 0))), Err(DrawError::FontInvalid)));
    let mut cut = tiny_font(1000, 1);
    cut.truncate(100);
    assert!(matches!(load_font(Some(&cut)), Err(DrawError::FontInvalid)));
}
