//! Glyphs: which drawing a character gets, and the SVG symbol that holds a
//! glyph's outline.
use vstd::prelude::*;
use vstd::string::*;
use crate::text::{decimal, format_unsigned};

verus! {

/// The height of the glyphs in the SVG output.
pub const GLYPH_HEIGHT: u32 = 100;

/// How a character is drawn.
#[derive(PartialEq, Eq, Structural, Debug)]
pub enum GlyphKind {
    /// A space is shown as an empty key cap.
    Space,
    /// A newline is shown as a key cap with a return arrow.
    Enter,
    /// Any other character is drawn with the font's outline for it.
    Normal,
}

/// Which drawing the glyph for `ch` gets.
pub fn create_glyph_info(ch: char) -> (r: GlyphKind)
    ensures
        r == (if ch == ' ' {
            GlyphKind::Space
        } else if ch == '\n' {
            GlyphKind::Enter
        } else {
            GlyphKind::Normal
        }),
{
    if ch == ' ' {
        GlyphKind::Space
    } else if ch == '\n' {
        GlyphKind::Enter
    } else {
        GlyphKind::Normal
    }
}

/// The code point of a character.
pub open spec fn code_point(ch: char) -> nat {
    (ch as u32) as nat
}

/// The SVG symbol for the glyph of `ch`: an element with the id
/// `glyph<code point>` whose view box is the glyph's bounding box, holding
/// the glyph's path.
pub open spec fn symbol_text(
    ch: char,
    box_left: Seq<char>,
    box_top: Seq<char>,
    box_width: Seq<char>,
    box_height: Seq<char>,
    path_data: Seq<char>,
) -> Seq<char> {
    "<symbol id=\"glyph"@ + decimal(code_point(ch)) + "\" viewBox=\""@ + box_left + " "@ + box_top
        + " "@ + box_width + " "@ + box_height + "\" width=\""@ + box_width + "\" height=\""@
        + box_height + "\" ><path d=\""@ + path_data + "\"/></symbol>"@
}

/// Creates an SVG symbol element for a glyph with the given (already
/// printed) bounding box and path data.
pub fn create_symbol_path(
    ch: char,
    box_left: &str,
    box_top: &str,
    box_width: &str,
    box_height: &str,
    path_data: &str,
) -> (r: String)
    ensures
        r@ == symbol_text(ch, box_left@, box_top@, box_width@, box_height@, path_data@),
{
    let number = format_unsigned(ch as u64);
    let mut s = String::from_str("<symbol id=\"glyph");
    s.append(number.as_str());
    s.append("\" viewBox=\"");
    s.append(box_left);
    s.append(" ");
    s.append(box_top);
    s.append(" ");
    s.append(box_width);
    s.append(" ");
    s.append(box_height);
    s.append("\" width=\"");
    s.append(box_width);
    s.append("\" height=\"");
    s.append(box_height);
    s.append("\" ><path d=\"");
    s.append(path_data);
    s.append("\"/></symbol>");
    s
}

} // verus!
