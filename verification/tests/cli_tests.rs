use typebang::cli::{
    create_font_filter, get_valid_path, is_used_stdin, keep_input_lines, run, split_message,
    Action, Args,
};
use typebang::font::Source;

fn args(list_fonts: bool, list_faces: bool, messages: &[&str]) -> Args {
    Args {
        font: "monospace".to_string(),
        font_face: None,
        output: None,
        fg_color: "black".to_string(),
        bg_color: "white".to_string(),
        strong_color: "#ff2000".to_string(),
        list_fonts,
        list_faces,
        messages: messages.iter().map(|s| s.to_string()).collect(),
    }
}

fn strings(v: &[&str]) -> Vec<String> {
    v.iter().map(|s| s.to_string()).collect()
}

#[test]
fn run_prefers_listing_fonts() {
    assert_eq!(run(&args(true, true, &["hi"])), Action::ListFonts);
    assert_eq!(run(&args(true, false, &[])), Action::ListFonts);
}

#[test]
fn run_lists_faces_when_asked() {
    assert_eq!(run(&args(false, true, &["hi"])), Action::ListFaces);
}

#[test]
fn run_generates_by_default() {
    assert_eq!(run(&args(false, false, &["hi"])), Action::Generate);
}

#[test]
fn stdin_is_used_without_messages_or_with_dash() {
    assert!(is_used_stdin(&strings(&[])));
    assert!(is_used_stdin(&strings(&["-"])));
    assert!(!is_used_stdin(&strings(&["-", "-"])));
    assert!(!is_used_stdin(&strings(&["hello"])));
    assert!(!is_used_stdin(&strings(&["--"])));
}

#[test]
fn split_message_splits_at_newlines() {
    let lines = split_message(&strings(&["Hello\nWorld", "again"]));
    assert_eq!(lines, strings(&["Hello\n", "World\n", "again\n"]));
}

#[test]
fn split_message_keeps_empty_pieces() {
    assert_eq!(split_message(&strings(&[""])), strings(&["\n"]));
    assert_eq!(split_message(&strings(&["a\n"])), strings(&["a\n", "\n"]));
    assert_eq!(split_message(&strings(&["\n\nb"])), strings(&["\n", "\n", "b\n"]));
    assert_eq!(split_message(&strings(&[])), Vec::<String>::new());
}

#[test]
fn split_lines_rejoin_to_message_with_newline() {
    let message = "one\ntwo\n\nthree";
    let joined: String = split_message(&strings(&[message])).concat();
    assert_eq!(joined, format!("{message}\n"));
}

#[test]
fn input_lines_drop_blank_ones() {
    let kept = keep_input_lines(&strings(&["first", "", "   ", "\t\u{3000}", " second "]));
    assert_eq!(kept, strings(&["first\n", " second \n"]));
}

#[test]
fn valid_path_needs_a_separator() {
    assert_eq!(get_valid_path("fonts/a.ttf"), Some("fonts/a.ttf".to_string()));
    assert_eq!(get_valid_path("C:\\a.ttf"), Some("C:\\a.ttf".to_string()));
    assert_eq!(get_valid_path("DejaVu Sans"), None);
}

#[test]
fn font_filter_for_a_file() {
    let f = create_font_filter("./font.otf", &Some("Bold".to_string()));
    assert!(matches!(f.source, Source::File(ref p) if p == "./font.otf"));
    assert_eq!(f.name, Some("Bold".to_string()));
    let g = create_font_filter("./font.otf", &None);
    assert_eq!(g.name, None);
}

#[test]
fn font_filter_for_a_name() {
    let f = create_font_filter("monospace", &Some("Bold".to_string()));
    assert!(matches!(f.source, Source::System));
    assert_eq!(f.name, Some("monospace".to_string()));
}
