//! The SVG document of the typing animation.
//!
//! Every number in the document is printed by the caller, who computes the
//! layout of the glyphs and the timings; this module decides what goes
//! where: the symbols, the background, and for each line the animations
//! that show it, type it character by character, jolt it with each key
//! press and move it away, each line starting when the previous one ends.
use vstd::prelude::*;
use vstd::string::*;
use crate::font::Filter;
use crate::glyph::{code_point, GLYPH_HEIGHT};
use crate::order::views_of;
use crate::text::{decimal, format_unsigned, signed_decimal, lemma_decimal_digits, is_digit_char};
use crate::timing::{
    create_jolt_values,
    is_jolt_values_of,
    jolt_segment,
    jolt_segments,
    jolt_values_text,
    TIME_START,
};

verus! {

/// Configuration for generating SVG output.
pub struct Config {
    /// The font to draw the messages with.
    pub font_filter: Filter,
    pub fg_color: String,
    pub bg_color: String,
    pub strong_color: String,
    /// The lines of text, each ending with a newline.
    pub messages: Vec<String>,
}

/// A typed character placed on its line, with its printed position and the
/// printed fractions of the line's duration at which its key press starts,
/// its emphasis ends and its jolt ends.
pub struct PlacedGlyph {
    pub ch: char,
    pub x: String,
    pub y: String,
    pub timing_start: String,
    pub timing_strong_end: String,
    pub timing_jolt_end: String,
}

/// One line of the animation: its printed duration in ms, the printed
/// fraction of it at which typing is over, and its characters.
pub struct LineLayout {
    pub total_time: String,
    pub timing_last: String,
    pub glyphs: Vec<PlacedGlyph>,
}

/// Everything the document shows: the printed canvas size, the glyph
/// symbols, and the lines.
pub struct Layout {
    pub canvas_width: String,
    pub canvas_height: String,
    pub symbols: Vec<String>,
    pub lines: Vec<LineLayout>,
}

/// The number of times `c` occurs in `s`.
pub open spec fn count_char(s: Seq<char>, c: char) -> nat
    decreases s.len(),
{
    if s.len() == 0 {
        0
    } else {
        count_char(s.drop_last(), c) + (if s.last() == c {
            1nat
        } else {
            0nat
        })
    }
}

/// The key times of one key press of the jolt animation: it starts, jolts
/// and settles.
pub open spec fn key_segment(g: PlacedGlyph) -> Seq<char> {
    g.timing_start@ + ";"@ + g.timing_start@ + ";"@ + g.timing_jolt_end@ + ";"@
}

/// The key times of the first `k` key presses.
pub open spec fn key_segments(glyphs: Seq<PlacedGlyph>, k: int) -> Seq<char>
    decreases k,
{
    if k <= 0 {
        Seq::empty()
    } else {
        key_segments(glyphs, k - 1) + key_segment(glyphs[k - 1])
    }
}

/// The key times of a line's jolt animation.
pub open spec fn key_times_text(glyphs: Seq<PlacedGlyph>) -> Seq<char> {
    "0;"@ + key_segments(glyphs, glyphs.len() as int) + "1"@
}

/// Creates the key times of the jolt animation of a line.
pub fn create_jolt_key_times(glyphs: &Vec<PlacedGlyph>) -> (r: String)
    ensures
        r@ == key_times_text(glyphs@),
{
    let mut s = String::from_str("0;");
    let mut i: usize = 0;
    while i < glyphs.len()
        invariant
            i <= glyphs.len(),
            s@ == "0;"@ + key_segments(glyphs@, i as int),
        decreases glyphs.len() - i,
    {
        let g = &glyphs[i];
        s.append(g.timing_start.as_str());
        s.append(";");
        s.append(g.timing_start.as_str());
        s.append(";");
        s.append(g.timing_jolt_end.as_str());
        s.append(";");
        assert(s@ =~= "0;"@ + key_segments(glyphs@, i + 1));
        i = i + 1;
    }
    s.append("1");
    s
}

proof fn lemma_count_append(a: Seq<char>, b: Seq<char>, c: char)
    ensures
        count_char(a + b, c) == count_char(a, c) + count_char(b, c),
    decreases b.len(),
{
    if b.len() == 0 {
        assert(a + b =~= a);
    } else {
        assert((a + b).drop_last() =~= a + b.drop_last());
        lemma_count_append(a, b.drop_last(), c);
    }
}

proof fn lemma_count_absent(s: Seq<char>, c: char)
    requires
        !s.contains(c),
    ensures
        count_char(s, c) == 0,
    decreases s.len(),
{
    if s.len() > 0 {
        assert(s.last() == s[s.len() - 1]);
        assert(!s.drop_last().contains(c)) by {
            if s.drop_last().contains(c) {
                let j = choose|j: int| 0 <= j < s.drop_last().len() && s.drop_last()[j] == c;
                assert(s[j] == c);
            }
        }
        lemma_count_absent(s.drop_last(), c);
    }
}

proof fn lemma_decimal_no_semicolon(i: int)
    ensures
        count_char(signed_decimal(i), ';') == 0,
{
    let n: nat = if i < 0 { (-i) as nat } else { i as nat };
    lemma_decimal_digits(n);
    let s = signed_decimal(i);
    assert(!s.contains(';')) by {
        if s.contains(';') {
            let j = choose|j: int| 0 <= j < s.len() && s[j] == ';';
            if i < 0 {
                if j > 0 {
                    assert(s[j] == decimal(n)[j - 1]);
                    assert(is_digit_char(decimal(n)[j - 1]));
                }
            } else {
                assert(is_digit_char(decimal(n)[j]));
            }
        }
    }
    lemma_count_absent(s, ';');
}

proof fn lemma_jolt_segments_count(chars: Seq<char>, drawn: Seq<(i64, i64)>, k: int)
    requires
        0 <= k <= chars.len(),
        drawn.len() == chars.len(),
    ensures
        count_char(jolt_segments(chars, drawn, k), ';') == 3 * k,
    decreases k,
{
    reveal_strlit("0 0;");
    reveal_strlit(" ");
    reveal_strlit(";0 0;");
    if k > 0 {
        lemma_jolt_segments_count(chars, drawn, k - 1);
        let (dx, dy) = crate::timing::jolt_of(chars[k - 1], drawn[k - 1]);
        lemma_decimal_no_semicolon(dx);
        lemma_decimal_no_semicolon(dy);
        let a = "0 0;"@;
        let b = signed_decimal(dx);
        let c = " "@;
        let d = signed_decimal(dy);
        let e = ";0 0;"@;
        assert(a =~= seq!['0', ' ', '0', ';']);
        assert(c =~= seq![' ']);
        assert(e =~= seq![';', '0', ' ', '0', ';']);
        reveal_with_fuel(count_char, 6);
        assert(count_char(a, ';') == 1);
        assert(count_char(c, ';') == 0);
        assert(count_char(e, ';') == 2);
        lemma_count_append(a, b, ';');
        lemma_count_append(a + b, c, ';');
        lemma_count_append(a + b + c, d, ';');
        lemma_count_append(a + b + c + d, e, ';');
        lemma_count_append(jolt_segments(chars, drawn, k - 1), jolt_segment(chars[k - 1], drawn[k - 1]), ';');
    }
}

proof fn lemma_key_segments_count(glyphs: Seq<PlacedGlyph>, k: int)
    requires
        0 <= k <= glyphs.len(),
        forall|i: int|
            0 <= i < glyphs.len() ==> !(#[trigger] glyphs[i]).timing_start@.contains(';')
                && !glyphs[i].timing_jolt_end@.contains(';'),
    ensures
        count_char(key_segments(glyphs, k), ';') == 3 * k,
    decreases k,
{
    reveal_strlit(";");
    if k > 0 {
        lemma_key_segments_count(glyphs, k - 1);
        let g = glyphs[k - 1];
        let semi = ";"@;
        assert(semi =~= seq![';']);
        reveal_with_fuel(count_char, 2);
        assert(count_char(semi, ';') == 1);
        lemma_count_absent(g.timing_start@, ';');
        lemma_count_absent(g.timing_jolt_end@, ';');
        let a = g.timing_start@;
        let e = g.timing_jolt_end@;
        lemma_count_append(a, semi, ';');
        lemma_count_append(a + semi, a, ';');
        lemma_count_append(a + semi + a, semi, ';');
        lemma_count_append(a + semi + a + semi, e, ';');
        lemma_count_append(a + semi + a + semi + e, semi, ';');
        lemma_count_append(key_segments(glyphs, k - 1), key_segment(g), ';');
    }
}

/// An SVG animation needs as many key times as values. For the jolt of a
/// line, both lists have three entries per character and one more at each
/// end, whatever offsets were drawn, as long as the printed timings hold no
/// separator.
pub proof fn law_jolt_key_times_match_values(
    chars: Seq<char>,
    drawn: Seq<(i64, i64)>,
    glyphs: Seq<PlacedGlyph>,
)
    requires
        drawn.len() == chars.len(),
        glyphs.len() == chars.len(),
        forall|i: int|
            0 <= i < glyphs.len() ==> !(#[trigger] glyphs[i]).timing_start@.contains(';')
                && !glyphs[i].timing_jolt_end@.contains(';'),
    ensures
        count_char(jolt_values_text(chars, drawn), ';') == 3 * chars.len() + 1,
        count_char(key_times_text(glyphs), ';') == 3 * chars.len() + 1,
{
    reveal_strlit("0 0;");
    reveal_strlit("0 0");
    reveal_strlit("0;");
    reveal_strlit("1");
    lemma_jolt_segments_count(chars, drawn, chars.len() as int);
    lemma_key_segments_count(glyphs, glyphs.len() as int);
    let head = "0 0;"@;
    let tail = "0 0"@;
    assert(head =~= seq!['0', ' ', '0', ';']);
    assert(count_char(head, ';') == 1) by {
        reveal_with_fuel(count_char, 5);
    }
    lemma_count_absent(tail, ';');
    let js = jolt_segments(chars, drawn, chars.len() as int);
    lemma_count_append(head, js, ';');
    lemma_count_append(head + js, tail, ';');
    let khead = "0;"@;
    let ktail = "1"@;
    assert(khead =~= seq!['0', ';']);
    assert(count_char(khead, ';') == 1) by {
        reveal_with_fuel(count_char, 3);
    }
    lemma_count_absent(ktail, ';');
    let ks = key_segments(glyphs, glyphs.len() as int);
    lemma_count_append(khead, ks, ';');
    lemma_count_append(khead + ks, ktail, ';');
}


/// The opening of the document: an SVG canvas of the printed size.
pub open spec fn header_text(w: Seq<char>, h: Seq<char>) -> Seq<char> {
    "<svg xmlns=\"http://www.w3.org/2000/svg\" width=\""@ + w + "\" height=\""@ + h
        + "\" viewBox=\"0 0 "@ + w + " "@ + h + "\" >\n"@
}

/// Each symbol on a line of its own.
pub open spec fn symbol_lines(symbols: Seq<Seq<char>>) -> Seq<char>
    decreases symbols.len(),
{
    if symbols.len() == 0 {
        Seq::empty()
    } else {
        symbol_lines(symbols.drop_last()) + symbols.last() + "\n"@
    }
}

/// The definitions of the glyph symbols.
pub open spec fn defs_text(symbols: Seq<Seq<char>>) -> Seq<char> {
    "<defs>\n"@ + symbol_lines(symbols) + "</defs>\n"@
}

/// The background: a rectangle over the whole canvas.
pub open spec fn background_text(w: Seq<char>, h: Seq<char>, bg: Seq<char>) -> Seq<char> {
    "<rect x=\"0\" y=\"0\" width=\""@ + w + "\" height=\""@ + h + "\" fill=\""@ + bg
        + "\" />\n"@
}

/// The attribute that starts an animation with line `i`.
pub open spec fn begin_attr(i: nat) -> Seq<char> {
    " begin=\"line"@ + decimal(i) + ".begin\""@
}

/// When line `i` of `n` starts: the first line a moment after the start
/// and again whenever the last line has ended, every other line when the
/// line before it ends.
pub open spec fn line_trigger(i: nat, n: nat) -> Seq<char> {
    if i == 0 {
        decimal(TIME_START as nat) + "ms;line"@ + decimal((n - 1) as nat) + ".end"@
    } else {
        "line"@ + decimal((i - 1) as nat) + ".end"@
    }
}

/// The animation that shows line `i` while it is typed and hides it at the
/// end.
pub open spec fn show_text(i: nat, n: nat, total: Seq<char>, last: Seq<char>) -> Seq<char> {
    "<animate attributeName=\"opacity\" id=\"line"@ + decimal(i) + "\" begin=\""@ + line_trigger(
        i,
        n,
    ) + "\" values=\"1;1;0\" dur=\""@ + total + "ms\" keyTimes=\"0;"@ + last + ";1\" />\n"@
}

/// The animation that moves line `i` up by one glyph height once it is
/// typed.
pub open spec fn scroll_text(i: nat, total: Seq<char>, last: Seq<char>) -> Seq<char> {
    "<animateTransform attributeName=\"transform\" type=\"translate\""@ + begin_attr(i)
        + " values=\"0,0;0,0;0,-"@ + decimal(GLYPH_HEIGHT as nat) + "\" dur=\""@ + total
        + "ms\" keyTimes=\"0;"@ + last + ";1\" />\n"@
}

/// The animation that jolts line `i` with each key press.
pub open spec fn jolt_anim_text(i: nat, total: Seq<char>, jolt: Seq<char>, keys: Seq<char>) -> Seq<
    char,
> {
    "<animateTransform attributeName=\"transform\" type=\"translate\""@ + begin_attr(i)
        + " values=\""@ + jolt + "\" dur=\""@ + total + "ms\" keyTimes=\""@ + keys + "\" />\n"@
}

/// The end of an animation of a typed character: the line's duration and
/// the key times at which the character is typed and stops being
/// emphasised.
pub open spec fn timing_tail(total: Seq<char>, ts: Seq<char>, te: Seq<char>) -> Seq<char> {
    " dur=\""@ + total + "ms\" keyTimes=\"0;"@ + ts + ";"@ + ts + ";"@ + te + ";1\" />\n"@
}

/// An animation of attribute `attr` of a typed character through `values`.
pub open spec fn animate_text(attr: Seq<char>, begin: Seq<char>, values: Seq<char>, tail: Seq<char>) -> Seq<char> {
    "<animate attributeName=\""@ + attr + "\""@ + begin + " values=\""@ + values + "\""@ + tail
}

/// The colors a typed character goes through: hidden in the background
/// color, flashing in the strong color, then settling in the foreground
/// color.
pub open spec fn color_values(cfg: Config) -> Seq<char> {
    cfg.bg_color@ + ";"@ + cfg.bg_color@ + ";"@ + cfg.strong_color@ + ";"@ + cfg.fg_color@ + ";"@
        + cfg.fg_color@
}

/// A typed character of line `i`: its glyph placed on the line, colored in
/// as it is typed; a blank or control character's key cap flashes into
/// view, any other glyph gets an outline that flashes.
pub open spec fn glyph_text(cfg: Config, i: nat, total: Seq<char>, g: PlacedGlyph) -> Seq<char> {
    let begin = begin_attr(i);
    let tail = timing_tail(total, g.timing_start@, g.timing_strong_end@);
    "<use href=\"#glyph"@ + decimal(code_point(g.ch)) + "\" x=\""@ + g.x@ + "\" y=\""@ + g.y@
        + "\" fill=\""@ + cfg.fg_color@ + "\" >\n"@ + animate_text(
        "fill"@,
        begin,
        color_values(cfg),
        tail,
    ) + (if code_point(g.ch) <= 0x20 {
        animate_text("opacity"@, begin, "0;0;1;0;0"@, tail)
    } else {
        animate_text("stroke"@, begin, color_values(cfg), tail) + animate_text(
            "stroke-width"@,
            begin,
            "0;0;2;0;0"@,
            tail,
        )
    }) + "</use>\n"@
}

/// The opening of the element that places a typed character's glyph.
pub open spec fn use_open_text(cfg: Config, g: PlacedGlyph) -> Seq<char> {
    "<use href=\"#glyph"@ + decimal(code_point(g.ch)) + "\" x=\""@ + g.x@ + "\" y=\""@ + g.y@
        + "\" fill=\""@ + cfg.fg_color@ + "\" >\n"@
}

/// How a typed character flashes. A visible character (code point above
/// `0x20`, letters with accents included) gets an outline that flashes in
/// the strong color and a stroke width that pulses, and stays visible; only
/// a blank or a control character (code point `0x20` or below), drawn as a
/// key cap, fades in and out instead.
pub proof fn law_visible_glyphs_get_an_outline(cfg: Config, i: nat, total: Seq<char>, g: PlacedGlyph)
    ensures
        (g.ch as u32) > 0x20 ==> glyph_text(cfg, i, total, g) == use_open_text(cfg, g)
            + animate_text(
            "fill"@,
            begin_attr(i),
            color_values(cfg),
            timing_tail(total, g.timing_start@, g.timing_strong_end@),
        ) + animate_text(
            "stroke"@,
            begin_attr(i),
            color_values(cfg),
            timing_tail(total, g.timing_start@, g.timing_strong_end@),
        ) + animate_text(
            "stroke-width"@,
            begin_attr(i),
            "0;0;2;0;0"@,
            timing_tail(total, g.timing_start@, g.timing_strong_end@),
        ) + "</use>\n"@,
        (g.ch as u32) <= 0x20 ==> glyph_text(cfg, i, total, g) == use_open_text(cfg, g)
            + animate_text(
            "fill"@,
            begin_attr(i),
            color_values(cfg),
            timing_tail(total, g.timing_start@, g.timing_strong_end@),
        ) + animate_text(
            "opacity"@,
            begin_attr(i),
            "0;0;1;0;0"@,
            timing_tail(total, g.timing_start@, g.timing_strong_end@),
        ) + "</use>\n"@,
{
    let tail = timing_tail(total, g.timing_start@, g.timing_strong_end@);
    let f = animate_text("fill"@, begin_attr(i), color_values(cfg), tail);
    let a = animate_text("stroke"@, begin_attr(i), color_values(cfg), tail);
    let b = animate_text("stroke-width"@, begin_attr(i), "0;0;2;0;0"@, tail);
    let o = animate_text("opacity"@, begin_attr(i), "0;0;1;0;0"@, tail);
    let u = use_open_text(cfg, g);
    assert(u =~= "<use href=\"#glyph"@ + decimal(code_point(g.ch)) + "\" x=\""@ + g.x@ + "\" y=\""@
        + g.y@ + "\" fill=\""@ + cfg.fg_color@ + "\" >\n"@);
    if (g.ch as u32) > 0x20 {
        assert(u + f + (a + b) + "</use>\n"@ =~= u + f + a + b + "</use>\n"@);
    }
}

/// A letter with an accent, such as `é`, is a visible glyph: it gets the
/// outline animations and keeps showing.
pub proof fn law_accented_letter_keeps_outline(cfg: Config, i: nat, total: Seq<char>, g: PlacedGlyph)
    requires
        g.ch == 'é',
    ensures
        glyph_text(cfg, i, total, g) == use_open_text(cfg, g) + animate_text(
            "fill"@,
            begin_attr(i),
            color_values(cfg),
            timing_tail(total, g.timing_start@, g.timing_strong_end@),
        ) + animate_text(
            "stroke"@,
            begin_attr(i),
            color_values(cfg),
            timing_tail(total, g.timing_start@, g.timing_strong_end@),
        ) + animate_text(
            "stroke-width"@,
            begin_attr(i),
            "0;0;2;0;0"@,
            timing_tail(total, g.timing_start@, g.timing_strong_end@),
        ) + "</use>\n"@,
{
    assert((g.ch as u32) == 233);
    law_visible_glyphs_get_an_outline(cfg, i, total, g);
}

/// The first `k` typed characters of line `i`.
pub open spec fn glyphs_text(cfg: Config, i: nat, total: Seq<char>, glyphs: Seq<PlacedGlyph>, k: int) -> Seq<char>
    decreases k,
{
    if k <= 0 {
        Seq::empty()
    } else {
        glyphs_text(cfg, i, total, glyphs, k - 1) + glyph_text(cfg, i, total, glyphs[k - 1])
    }
}

/// Line `i` of `n`, with the values of its jolt animation.
pub open spec fn line_text(cfg: Config, i: nat, n: nat, line: LineLayout, jolt: Seq<char>) -> Seq<char> {
    let total = line.total_time@;
    let last = line.timing_last@;
    "<g opacity=\"0\">\n"@ + show_text(i, n, total, last) + scroll_text(i, total, last) + "<g>\n"@
        + jolt_anim_text(i, total, jolt, key_times_text(line.glyphs@)) + glyphs_text(
        cfg,
        i,
        total,
        line.glyphs@,
        line.glyphs@.len() as int,
    ) + "</g>\n"@ + "</g>\n"@
}

/// The first `k` lines.
pub open spec fn lines_text(cfg: Config, lines: Seq<LineLayout>, jolts: Seq<Seq<char>>, k: int) -> Seq<char>
    decreases k,
{
    if k <= 0 {
        Seq::empty()
    } else {
        lines_text(cfg, lines, jolts, k - 1) + line_text(
            cfg,
            (k - 1) as nat,
            lines.len(),
            lines[k - 1],
            jolts[k - 1],
        )
    }
}

/// The whole document, given the values of each line's jolt animation.
pub open spec fn document_text(cfg: Config, layout: Layout, jolts: Seq<Seq<char>>) -> Seq<char> {
    header_text(layout.canvas_width@, layout.canvas_height@) + defs_text(
        views_of(layout.symbols@),
    ) + background_text(layout.canvas_width@, layout.canvas_height@, cfg.bg_color@) + lines_text(
        cfg,
        layout.lines@,
        jolts,
        layout.lines@.len() as int,
    ) + "</svg>\n"@
}

fn begin_attr_of(i: usize) -> (r: String)
    ensures
        r@ == begin_attr(i as nat),
{
    let number = format_unsigned(i as u64);
    let mut s = String::from_str(" begin=\"line");
    s.append(number.as_str());
    s.append(".begin\"");
    s
}

fn timing_tail_of(total: &str, ts: &str, te: &str) -> (r: String)
    ensures
        r@ == timing_tail(total@, ts@, te@),
{
    let mut s = String::from_str(" dur=\"");
    s.append(total);
    s.append("ms\" keyTimes=\"0;");
    s.append(ts);
    s.append(";");
    s.append(ts);
    s.append(";");
    s.append(te);
    s.append(";1\" />\n");
    s
}

fn append_animate(out: &mut String, attr: &str, begin: &str, values: &str, tail: &str)
    ensures
        final(out)@ == old(out)@ + animate_text(attr@, begin@, values@, tail@),
{
    out.append("<animate attributeName=\"");
    out.append(attr);
    out.append("\"");
    out.append(begin);
    out.append(" values=\"");
    out.append(values);
    out.append("\"");
    out.append(tail);
    assert(out@ =~= old(out)@ + animate_text(attr@, begin@, values@, tail@));
}

fn color_values_of(cfg: &Config) -> (r: String)
    ensures
        r@ == color_values(*cfg),
{
    let mut s = cfg.bg_color.clone();
    s.append(";");
    s.append(cfg.bg_color.as_str());
    s.append(";");
    s.append(cfg.strong_color.as_str());
    s.append(";");
    s.append(cfg.fg_color.as_str());
    s.append(";");
    s.append(cfg.fg_color.as_str());
    s
}

/// The flash of a typed character: a fade for a blank or control
/// character, an outline for any other.
pub open spec fn flash_text(ch: char, begin: Seq<char>, colors: Seq<char>, tail: Seq<char>) -> Seq<char> {
    if code_point(ch) <= 0x20 {
        animate_text("opacity"@, begin, "0;0;1;0;0"@, tail)
    } else {
        animate_text("stroke"@, begin, colors, tail) + animate_text(
            "stroke-width"@,
            begin,
            "0;0;2;0;0"@,
            tail,
        )
    }
}

fn append_flash(out: &mut String, ch: char, begin: &str, colors: &str, tail: &str)
    ensures
        final(out)@ == old(out)@ + flash_text(ch, begin@, colors@, tail@),
{
    if (ch as u32) <= 0x20 {
        append_animate(out, "opacity", begin, "0;0;1;0;0", tail);
    } else {
        append_animate(out, "stroke", begin, colors, tail);
        let ghost mid = out@;
        append_animate(out, "stroke-width", begin, "0;0;2;0;0", tail);
        assert(out@ =~= old(out)@ + flash_text(ch, begin@, colors@, tail@));
    }
}

fn append_glyph(out: &mut String, cfg: &Config, i: usize, total: &str, g: &PlacedGlyph)
    ensures
        final(out)@ == old(out)@ + glyph_text(*cfg, i as nat, total@, *g),
{
    let begin = begin_attr_of(i);
    let tail = timing_tail_of(total, g.timing_start.as_str(), g.timing_strong_end.as_str());
    let colors = color_values_of(cfg);
    let number = format_unsigned(g.ch as u64);
    out.append("<use href=\"#glyph");
    out.append(number.as_str());
    out.append("\" x=\"");
    out.append(g.x.as_str());
    out.append("\" y=\"");
    out.append(g.y.as_str());
    out.append("\" fill=\"");
    out.append(cfg.fg_color.as_str());
    out.append("\" >\n");
    let ghost opened = out@;
    append_animate(out, "fill", begin.as_str(), colors.as_str(), tail.as_str());
    let ghost filled = out@;
    append_flash(out, g.ch, begin.as_str(), colors.as_str(), tail.as_str());
    let ghost flashed = out@;
    out.append("</use>\n");
    assert(out@ =~= old(out)@ + glyph_text(*cfg, i as nat, total@, *g));
}

fn append_show(out: &mut String, i: usize, n: usize, total: &str, last: &str)
    requires
        i < n,
    ensures
        final(out)@ == old(out)@ + show_text(i as nat, n as nat, total@, last@),
{
    let number = format_unsigned(i as u64);
    out.append("<animate attributeName=\"opacity\" id=\"line");
    out.append(number.as_str());
    out.append("\" begin=\"");
    let ghost before_trigger = out@;
    if i == 0 {
        let start_ms = format_unsigned(TIME_START as u64);
        let previous = format_unsigned((n - 1) as u64);
        out.append(start_ms.as_str());
        out.append("ms;line");
        out.append(previous.as_str());
        out.append(".end");
    } else {
        let previous = format_unsigned((i - 1) as u64);
        out.append("line");
        out.append(previous.as_str());
        out.append(".end");
    }
    assert(out@ =~= before_trigger + line_trigger(i as nat, n as nat));
    out.append("\" values=\"1;1;0\" dur=\"");
    out.append(total);
    out.append("ms\" keyTimes=\"0;");
    out.append(last);
    out.append(";1\" />\n");
    assert(out@ =~= old(out)@ + show_text(i as nat, n as nat, total@, last@));
}

fn append_scroll(out: &mut String, begin: &str, i: usize, total: &str, last: &str)
    requires
        begin@ == begin_attr(i as nat),
    ensures
        final(out)@ == old(out)@ + scroll_text(i as nat, total@, last@),
{
    let height = format_unsigned(GLYPH_HEIGHT as u64);
    out.append("<animateTransform attributeName=\"transform\" type=\"translate\"");
    out.append(begin);
    out.append(" values=\"0,0;0,0;0,-");
    out.append(height.as_str());
    out.append("\" dur=\"");
    out.append(total);
    out.append("ms\" keyTimes=\"0;");
    out.append(last);
    out.append(";1\" />\n");
    assert(out@ =~= old(out)@ + scroll_text(i as nat, total@, last@));
}

fn append_jolt_anim(out: &mut String, begin: &str, i: usize, total: &str, jolt: &str, keys: &str)
    requires
        begin@ == begin_attr(i as nat),
    ensures
        final(out)@ == old(out)@ + jolt_anim_text(i as nat, total@, jolt@, keys@),
{
    out.append("<animateTransform attributeName=\"transform\" type=\"translate\"");
    out.append(begin);
    out.append(" values=\"");
    out.append(jolt);
    out.append("\" dur=\"");
    out.append(total);
    out.append("ms\" keyTimes=\"");
    out.append(keys);
    out.append("\" />\n");
    assert(out@ =~= old(out)@ + jolt_anim_text(i as nat, total@, jolt@, keys@));
}

fn append_line(out: &mut String, cfg: &Config, i: usize, n: usize, line: &LineLayout, jolt: &str)
    requires
        i < n,
    ensures
        final(out)@ == old(out)@ + line_text(*cfg, i as nat, n as nat, *line, jolt@),
{
    let total = line.total_time.as_str();
    let last = line.timing_last.as_str();
    let begin = begin_attr_of(i);
    out.append("<g opacity=\"0\">\n");
    let ghost a = out@;
    // The line shows while it is typed, then moves up out of the way.
    append_show(out, i, n, total, last);
    let ghost b = out@;
    append_scroll(out, begin.as_str(), i, total, last);
    let ghost c = out@;
    out.append("<g>\n");
    let ghost d = out@;
    // Each key press jolts the line.
    let keys = create_jolt_key_times(&line.glyphs);
    append_jolt_anim(out, begin.as_str(), i, total, jolt, keys.as_str());
    let ghost jolted = out@;
    let mut k: usize = 0;
    while k < line.glyphs.len()
        invariant
            k <= line.glyphs.len(),
            out@ == jolted + glyphs_text(*cfg, i as nat, total@, line.glyphs@, k as int),
        decreases line.glyphs.len() - k,
    {
        append_glyph(out, cfg, i, total, &line.glyphs[k]);
        assert(out@ =~= jolted + glyphs_text(*cfg, i as nat, total@, line.glyphs@, k + 1));
        k = k + 1;
    }
    let ghost e = out@;
    out.append("</g>\n");
    out.append("</g>\n");
    assert(out@ =~= old(out)@ + line_text(*cfg, i as nat, n as nat, *line, jolt@));
}

/// The SVG document for the layout, with the given values of each line's
/// jolt animation.
pub fn render_document(config: &Config, layout: &Layout, jolts: &Vec<String>) -> (r: String)
    requires
        jolts.len() == layout.lines.len(),
    ensures
        r@ == document_text(*config, *layout, views_of(jolts@)),
{
    let w = layout.canvas_width.as_str();
    let h = layout.canvas_height.as_str();
    let mut out = String::from_str("<svg xmlns=\"http://www.w3.org/2000/svg\" width=\"");
    out.append(w);
    out.append("\" height=\"");
    out.append(h);
    out.append("\" viewBox=\"0 0 ");
    out.append(w);
    out.append(" ");
    out.append(h);
    out.append("\" >\n");
    assert(out@ =~= header_text(w@, h@));
    // Define a symbol for each glyph.
    out.append("<defs>\n");
    let ghost before_symbols = out@;
    let mut s: usize = 0;
    while s < layout.symbols.len()
        invariant
            s <= layout.symbols.len(),
            out@ == before_symbols + symbol_lines(views_of(layout.symbols@.take(s as int))),
        decreases layout.symbols.len() - s,
    {
        out.append(layout.symbols[s].as_str());
        out.append("\n");
        assert(views_of(layout.symbols@.take(s + 1)).drop_last() =~= views_of(
            layout.symbols@.take(s as int),
        ));
        assert(out@ =~= before_symbols + symbol_lines(views_of(layout.symbols@.take(s + 1))));
        s = s + 1;
    }
    assert(layout.symbols@.take(layout.symbols.len() as int) =~= layout.symbols@);
    out.append("</defs>\n");
    // The background.
    out.append("<rect x=\"0\" y=\"0\" width=\"");
    out.append(w);
    out.append("\" height=\"");
    out.append(h);
    out.append("\" fill=\"");
    out.append(config.bg_color.as_str());
    out.append("\" />\n");
    let ghost before_lines = out@;
    assert(before_lines =~= header_text(w@, h@) + defs_text(views_of(layout.symbols@))
        + background_text(w@, h@, config.bg_color@));
    // Each line of text.
    let n = layout.lines.len();
    let mut i: usize = 0;
    while i < n
        invariant
            i <= n,
            n == layout.lines.len(),
            jolts.len() == n,
            out@ == before_lines + lines_text(*config, layout.lines@, views_of(jolts@), i as int),
        decreases n - i,
    {
        append_line(&mut out, config, i, n, &layout.lines[i], jolts[i].as_str());
        assert(out@ =~= before_lines + lines_text(
            *config,
            layout.lines@,
            views_of(jolts@),
            i + 1,
        ));
        i = i + 1;
    }
    out.append("</svg>\n");
    assert(out@ =~= document_text(*config, *layout, views_of(jolts@)));
    out
}

/// The characters typed on a line.
pub open spec fn line_chars(line: LineLayout) -> Seq<char> {
    line.glyphs@.map_values(|g: PlacedGlyph| g.ch)
}

/// Generates the SVG document of the typing animation for the layout,
/// drawing each line's jolts at random.
pub fn generate(config: &Config, layout: &Layout) -> (r: String)
    ensures
        exists|jolts: Seq<Seq<char>>|
            #![trigger document_text(*config, *layout, jolts)]
            jolts.len() == layout.lines.len() && (forall|i: int|
                0 <= i < jolts.len() ==> is_jolt_values_of(
                    line_chars(layout.lines@[i]),
                    #[trigger] jolts[i],
                )) && r@ == document_text(*config, *layout, jolts),
{
    let mut jolts: Vec<String> = Vec::new();
    let mut i: usize = 0;
    while i < layout.lines.len()
        invariant
            i <= layout.lines.len(),
            jolts.len() == i,
            forall|j: int|
                0 <= j < i ==> is_jolt_values_of(
                    line_chars(layout.lines@[j]),
                    #[trigger] views_of(jolts@)[j],
                ),
        decreases layout.lines.len() - i,
    {
        let glyphs = &layout.lines[i].glyphs;
        let mut chars: Vec<char> = Vec::new();
        let mut k: usize = 0;
        while k < glyphs.len()
            invariant
                k <= glyphs.len(),
                chars@ == glyphs@.take(k as int).map_values(|g: PlacedGlyph| g.ch),
            decreases glyphs.len() - k,
        {
            chars.push(glyphs[k].ch);
            assert(chars@ =~= glyphs@.take(k + 1).map_values(|g: PlacedGlyph| g.ch));
            k = k + 1;
        }
        assert(glyphs@.take(glyphs.len() as int) =~= glyphs@);
        let jolt = create_jolt_values(&chars);
        let ghost before = jolts@;
        jolts.push(jolt);
        assert forall|j: int| 0 <= j < i + 1 implies is_jolt_values_of(
            line_chars(layout.lines@[j]),
            #[trigger] views_of(jolts@)[j],
        ) by {
            if j < i {
                assert(views_of(jolts@)[j] == views_of(before)[j]);
            }
        }
        i = i + 1;
    }
    let r = render_document(config, layout, &jolts);
    assert(views_of(jolts@).len() == layout.lines.len());
    r
}

} // verus!
