use typebang::font::{Filter, Source};
use typebang::glyph::{create_glyph_info, create_symbol_path, GlyphKind};
use typebang::number::trim_decimal_zeros;
use typebang::svg::{
    create_jolt_key_times, generate, render_document, Config, Layout, LineLayout, PlacedGlyph,
};
use typebang::svg_path::SvgPathBuilder;
use typebang::text::{format_signed, format_unsigned};
use typebang::timing::{
    create_char_info_list, create_jolt_values, decide_wait_time, extract_unique_characters,
    jolt_values_from, WaitTime,
};

fn placed(ch: char, x: &str, ts: &str, te: &str, tj: &str) -> PlacedGlyph {
    PlacedGlyph {
        ch,
        x: x.to_string(),
        y: "40".to_string(),
        timing_start: ts.to_string(),
        timing_strong_end: te.to_string(),
        timing_jolt_end: tj.to_string(),
    }
}

fn config() -> Config {
    Config {
        font_filter: Filter { source: Source::System, name: Some("monospace".to_string()) },
        fg_color: "black".to_string(),
        bg_color: "white".to_string(),
        strong_color: "#ff2000".to_string(),
        messages: vec!["a \n".to_string()],
    }
}

fn emit(out: &mut String, text: String) {
    out.push_str(&text);
    out.push('\n');
}

/// The document as the templates of the SVG writer produce it, for the
/// same printed values.
fn templated(cfg: &Config, layout: &Layout, jolts: &[String]) -> String {
    let mut out = String::new();
    let canvas_width = &layout.canvas_width;
    let canvas_height = &layout.canvas_height;
    let bg_color = &cfg.bg_color;
    emit(&mut out, format!("<svg \
            xmlns=\"http://www.w3.org/2000/svg\" \
            width=\"{canvas_width}\" \
            height=\"{canvas_height}\" \
            viewBox=\"0 0 {canvas_width} {canvas_height}\" \
        >",
    ));
    emit(&mut out, format!("<defs>"));
    for s in &layout.symbols {
        emit(&mut out, format!("{}", s));
    }
    emit(&mut out, format!("</defs>"));
    emit(&mut out, format!("<rect \
            x=\"0\" \
            y=\"0\" \
            width=\"{canvas_width}\" \
            height=\"{canvas_height}\" \
            fill=\"{bg_color}\" \
        />"
    ));
    let n = layout.lines.len();
    for (i, line) in layout.lines.iter().enumerate() {
        let total_time = &line.total_time;
        let timing_last = &line.timing_last;
        let trigger = if i == 0 {
            format!("500ms;line{}.end", n - 1)
        } else {
            format!("line{}.end", i - 1)
        };
        let line_begin_trigger = format!("line{i}.begin");
        emit(&mut out, format!("<g opacity=\"0\">"));
        emit(&mut out, format!("<animate \
                attributeName=\"opacity\" \
                id=\"line{i}\" \
                begin=\"{trigger}\" \
                values=\"1;1;0\" \
                dur=\"{total_time}ms\" \
                keyTimes=\"0;{timing_last};1\" \
            />"
        ));
        emit(&mut out, format!("<animateTransform \
                attributeName=\"transform\" \
                type=\"translate\" \
                begin=\"{line_begin_trigger}\" \
                values=\"0,0;0,0;0,-100\" \
                dur=\"{total_time}ms\" \
                keyTimes=\"0;{timing_last};1\" \
            />"
        ));
        emit(&mut out, format!("<g>"));
        let jolt_values = &jolts[i];
        let mut jolt_key_times = String::from("0;");
        for g in &line.glyphs {
            jolt_key_times += &format!("{};{};{};", g.timing_start, g.timing_start, g.timing_jolt_end);
        }
        jolt_key_times += "1";
        emit(&mut out, format!("<animateTransform \
                attributeName=\"transform\" \
                type=\"translate\" \
                begin=\"{line_begin_trigger}\" \
                values=\"{jolt_values}\" \
                dur=\"{total_time}ms\" \
                keyTimes=\"{jolt_key_times}\" \
            />"
        ));
        for g in &line.glyphs {
            let glyph_number = u32::from(g.ch);
            let x = &g.x;
            let y = &g.y;
            let fg = &cfg.fg_color;
            let bg = &cfg.bg_color;
            let st = &cfg.strong_color;
            let timing_start = &g.timing_start;
            let timing_strong_end = &g.timing_strong_end;
            emit(&mut out, format!("<use \
                    href=\"#glyph{glyph_number}\" \
                    x=\"{x}\" \
                    y=\"{y}\" \
                    fill=\"{fg}\" \
                >"
            ));
            emit(&mut out, format!("<animate \
                    attributeName=\"fill\" \
                    begin=\"{line_begin_trigger}\" \
                    values=\"{bg};{bg};{st};{fg};{fg}\" \
                    dur=\"{total_time}ms\" \
                    keyTimes=\"0;{timing_start};{timing_start};{timing_strong_end};1\" \
                />"
            ));
            if glyph_number <= 0x20 {
                emit(&mut out, format!("<animate \
                        attributeName=\"opacity\" \
                        begin=\"{line_begin_trigger}\" \
                        values=\"0;0;1;0;0\" \
                        dur=\"{total_time}ms\" \
                        keyTimes=\"0;{timing_start};{timing_start};{timing_strong_end};1\" \
                    />"
                ));
            } else {
                emit(&mut out, format!("<animate \
                        attributeName=\"stroke\" \
                        begin=\"{line_begin_trigger}\" \
                        values=\"{bg};{bg};{st};{fg};{fg}\" \
                        dur=\"{total_time}ms\" \
                        keyTimes=\"0;{timing_start};{timing_start};{timing_strong_end};1\" \
                    />"
                ));
                emit(&mut out, format!("<animate \
                        attributeName=\"stroke-width\" \
                        begin=\"{line_begin_trigger}\" \
                        values=\"0;0;2;0;0\" \
                        dur=\"{total_time}ms\" \
                        keyTimes=\"0;{timing_start};{timing_start};{timing_strong_end};1\" \
                    />"
                ));
            }
            emit(&mut out, format!("</use>"));
        }
        emit(&mut out, format!("</g>"));
        emit(&mut out, format!("</g>"));
    }
    emit(&mut out, format!("</svg>"));
    out
}

fn layout() -> Layout {
    Layout {
        canvas_width: "166.67".to_string(),
        canvas_height: "166".to_string(),
        symbols: vec!["<symbol id=\"glyph32\"/>".to_string(), "<symbol id=\"glyph97\"/>".to_string()],
        lines: vec![
            LineLayout {
                total_time: "2361.5".to_string(),
                timing_last: "0.58".to_string(),
                glyphs: vec![
                    placed('a', "33", "0", "0.42", "0.04"),
                    placed(' ', "93", "0.19", "0.61", "0.23"),
                    placed('\n', "153", "0.37", "0.8", "0.41"),
                ],
            },
            LineLayout {
                total_time: "1500".to_string(),
                timing_last: "0.33".to_string(),
                glyphs: vec![placed('a', "33", "0", "0.67", "0.07")],
            },
        ],
    }
}

#[test]
fn document_matches_templates() {
    let cfg = config();
    let lay = layout();
    let jolts = vec!["0 0;J;0 0".to_string(), "0 0;K;0 0".to_string()];
    assert_eq!(render_document(&cfg, &lay, &jolts), templated(&cfg, &lay, &jolts));
}

#[test]
fn single_line_starts_after_itself() {
    let cfg = config();
    let mut lay = layout();
    lay.lines.truncate(1);
    let jolts = vec!["x".to_string()];
    let doc = render_document(&cfg, &lay, &jolts);
    assert!(doc.contains("id=\"line0\" begin=\"500ms;line0.end\""));
    assert_eq!(doc, templated(&cfg, &lay, &jolts));
}

#[test]
fn empty_document() {
    let cfg = config();
    let lay = Layout {
        canvas_width: "66".to_string(),
        canvas_height: "166".to_string(),
        symbols: vec![],
        lines: vec![],
    };
    assert_eq!(
        render_document(&cfg, &lay, &vec![]),
        "<svg xmlns=\"http://www.w3.org/2000/svg\" width=\"66\" height=\"166\" viewBox=\"0 0 66 166\" >\n<defs>\n</defs>\n<rect x=\"0\" y=\"0\" width=\"66\" height=\"166\" fill=\"white\" />\n</svg>\n"
    );
}

fn check_jolt_values(chars: &[char], values: &str) {
    let entries: Vec<&str> = values.split(';').collect();
    assert_eq!(entries.len(), 3 * chars.len() + 2);
    assert_eq!(entries[0], "0 0");
    assert_eq!(entries[entries.len() - 1], "0 0");
    for (i, ch) in chars.iter().enumerate() {
        assert_eq!(entries[1 + 3 * i], "0 0");
        assert_eq!(entries[3 + 3 * i], "0 0");
        let parts: Vec<i64> =
            entries[2 + 3 * i].split(' ').map(|p| p.parse::<i64>().unwrap()).collect();
        if *ch == '\n' {
            assert_eq!(parts, vec![-9, 10]);
        } else {
            assert!([-4, -2, 0, 2, 4].contains(&parts[0]));
            assert!((3..=5).contains(&parts[1]));
        }
    }
}

#[test]
fn generated_document_has_valid_jolts() {
    let cfg = config();
    let lay = layout();
    for _ in 0..20 {
        let doc = generate(&cfg, &lay);
        assert!(doc.starts_with("<svg xmlns="));
        assert!(doc.ends_with("</svg>\n"));
        let mut found = 0;
        for line in doc.lines() {
            if let Some(start) = line.find(" values=\"0 0;") {
                let rest = &line[start + 9..];
                let values = &rest[..rest.find('"').unwrap()];
                let chars: Vec<char> = if found == 0 { vec!['a', ' ', '\n'] } else { vec!['a'] };
                check_jolt_values(&chars, values);
                found += 1;
            }
        }
        assert_eq!(found, 2);
    }
}

#[test]
fn jolt_values_with_given_offsets() {
    assert_eq!(
        jolt_values_from(&vec!['a', '\n', 'b'], &vec![(2, 4), (0, 3), (-4, 5)]),
        "0 0;0 0;2 4;0 0;0 0;-9 10;0 0;0 0;-4 5;0 0;0 0"
    );
    assert_eq!(jolt_values_from(&vec![], &vec![]), "0 0;0 0");
}

#[test]
fn random_jolt_values_stay_in_range() {
    let chars = vec!['H', 'i', '\n', 'x', 'y'];
    for _ in 0..200 {
        check_jolt_values(&chars, &create_jolt_values(&chars));
    }
}

#[test]
fn jolt_key_times_follow_the_glyphs() {
    let glyphs = vec![placed('a', "0", "0", "0.5", "0.1"), placed('b', "0", "0.25", "0.75", "0.3")];
    assert_eq!(create_jolt_key_times(&glyphs), "0;0;0;0.1;0.25;0.25;0.3;1");
    assert_eq!(create_jolt_key_times(&vec![]), "0;1");
}

#[test]
fn jolt_key_times_and_values_have_equal_counts() {
    let glyphs = vec![placed('a', "0", "0", "0.5", "0.1"), placed('\n', "0", "0.25", "0.75", "0.3")];
    let keys = create_jolt_key_times(&glyphs);
    let values = create_jolt_values(&vec!['a', '\n']);
    assert_eq!(keys.split(';').count(), values.split(';').count());
}

#[test]
fn symbol_for_a_glyph() {
    assert_eq!(
        create_symbol_path('A', "1.5", "0", "50", "70", "M0 0Z"),
        "<symbol id=\"glyph65\" viewBox=\"1.5 0 50 70\" width=\"50\" height=\"70\" ><path d=\"M0 0Z\"/></symbol>"
    );
    assert!(create_symbol_path('\n', "0", "0", "1", "1", "").starts_with("<symbol id=\"glyph10\""));
    assert!(create_symbol_path('é', "0", "0", "1", "1", "").starts_with("<symbol id=\"glyph233\""));
}

#[test]
fn glyph_kinds() {
    assert_eq!(create_glyph_info(' '), GlyphKind::Space);
    assert_eq!(create_glyph_info('\n'), GlyphKind::Enter);
    assert_eq!(create_glyph_info('x'), GlyphKind::Normal);
    assert_eq!(create_glyph_info('\t'), GlyphKind::Normal);
}

#[test]
fn path_builder_commands() {
    let mut b = SvgPathBuilder::new();
    b.move_to("1", "2");
    b.line_to("1", "2");
    b.line_to("1", "5");
    b.line_to("3", "5");
    b.line_to("4", "6");
    b.quad_to("1", "1", "2", "2");
    b.curve_to("1", "2", "3", "4", "5", "6");
    b.close();
    assert_eq!(b.path_data, "M1 2V5H3L4 6Q1 1 2 2C1 2 3 4 5 6Z");
    assert_eq!(b.current_x, "1");
    assert_eq!(b.current_y, "2");
    b.line_to("1", "2");
    assert_eq!(b.path_data, "M1 2V5H3L4 6Q1 1 2 2C1 2 3 4 5 6Z");
}

#[test]
fn new_path_builder_starts_at_origin() {
    let mut b = SvgPathBuilder::new();
    assert_eq!(b.path_data, "");
    b.line_to("0", "0");
    assert_eq!(b.path_data, "");
    b.line_to("0", "-3.5");
    assert_eq!(b.path_data, "V-3.5");
}

fn round_float(value: f32) -> String {
    format!("{:.2}", value).trim_end_matches('0').trim_end_matches('.').to_string()
}

#[test]
fn trimming_matches_rounding_of_floats() {
    for v in [0.0f32, 1.0, -1.0, 12.5, 3.14159, -0.001, 100.0, 33.0, 0.05, 1e6, -2.675, 0.996] {
        assert_eq!(trim_decimal_zeros(&format!("{:.2}", v)), round_float(v), "value {v}");
    }
    assert_eq!(trim_decimal_zeros("12.50"), "12.5");
    assert_eq!(trim_decimal_zeros("3.00"), "3");
    assert_eq!(trim_decimal_zeros("-0.00"), "-0");
    assert_eq!(trim_decimal_zeros("0.05"), "0.05");
}

#[test]
fn wait_times() {
    assert_eq!(decide_wait_time('\n', Some('a')), WaitTime { base_ms: 500, jitter_ms: 0 });
    assert_eq!(decide_wait_time('b', Some('a')), WaitTime { base_ms: 200, jitter_ms: 200 });
    assert_eq!(decide_wait_time('b', Some('A')), WaitTime { base_ms: 200, jitter_ms: 200 });
    assert_eq!(decide_wait_time('B', Some('a')), WaitTime { base_ms: 400, jitter_ms: 100 });
    assert_eq!(decide_wait_time('1', Some('a')), WaitTime { base_ms: 400, jitter_ms: 100 });
    assert_eq!(decide_wait_time('a', None), WaitTime { base_ms: 400, jitter_ms: 100 });
    assert_eq!(decide_wait_time('é', Some('a')), WaitTime { base_ms: 400, jitter_ms: 100 });
}

#[test]
fn char_steps_skip_missing_glyphs() {
    let steps = create_char_info_list("ab c", &vec!['a', 'b', 'c']);
    let chars: Vec<char> = steps.iter().map(|s| s.ch).collect();
    assert_eq!(chars, vec!['a', 'b', 'c']);
    assert_eq!(steps[0].wait, WaitTime { base_ms: 400, jitter_ms: 100 });
    assert_eq!(steps[1].wait, WaitTime { base_ms: 200, jitter_ms: 200 });
    // The space has no glyph here, so `c` follows `b` directly.
    assert_eq!(steps[2].wait, WaitTime { base_ms: 200, jitter_ms: 200 });
}

#[test]
fn unique_characters() {
    let chars = extract_unique_characters(&vec!["hello".to_string(), "world\n".to_string()]);
    let mut sorted = chars.clone();
    sorted.sort();
    sorted.dedup();
    assert_eq!(sorted.len(), chars.len());
    let expected: std::collections::BTreeSet<char> = "helloworld\n".chars().collect();
    assert_eq!(sorted, expected.into_iter().collect::<Vec<_>>());
}

#[test]
fn decimal_formatting() {
    assert_eq!(format_unsigned(0), "0");
    assert_eq!(format_unsigned(1234567890), "1234567890");
    assert_eq!(format_unsigned(u64::MAX), u64::MAX.to_string());
    assert_eq!(format_signed(-9), "-9");
    assert_eq!(format_signed(10), "10");
    assert_eq!(format_signed(i64::MIN), i64::MIN.to_string());
}

#[test]
fn line_ids_are_distinct() {
    let cfg = config();
    let mut lay = layout();
    let template = lay.lines.pop().unwrap();
    lay.lines.clear();
    for _ in 0..12 {
        lay.lines.push(LineLayout {
            total_time: template.total_time.clone(),
            timing_last: template.timing_last.clone(),
            glyphs: vec![placed('a', "33", "0", "0.67", "0.07")],
        });
    }
    let jolts: Vec<String> = (0..12).map(|_| "0 0".to_string()).collect();
    let doc = render_document(&cfg, &lay, &jolts);
    assert_eq!(doc.matches(" id=\"line").count(), 12);
    let unique: std::collections::BTreeSet<&str> = doc
        .lines()
        .filter_map(|l| l.split(" id=\"").nth(1).map(|r| r.split('"').next().unwrap()))
        .filter(|id| id.starts_with("line"))
        .collect();
    assert_eq!(unique.len(), 12);
    assert!(doc.contains("begin=\"500ms;line11.end\""));
    assert!(doc.contains("id=\"line11\" begin=\"line10.end\""));
    assert_eq!(doc, templated(&cfg, &lay, &jolts));
}
