//! The command line's decisions: which action the arguments ask for, where
//! the messages come from and how they split into lines, and which font
//! the font argument names.
use vstd::prelude::*;
use vstd::string::*;
use crate::font::{Filter, Source};
use crate::order::views_of;
use crate::text::{contains_char, push_char, str_equals};

verus! {

/// The command-line arguments.
pub struct Args {
    /// Font name to use for rendering text.
    pub font: String,
    /// Font face to use for rendering text (only applicable when font is a
    /// file path).
    pub font_face: Option<String>,
    /// Output file path.
    pub output: Option<String>,
    /// Foreground color to use for rendering text.
    pub fg_color: String,
    /// Background color to use for rendering text.
    pub bg_color: String,
    /// Strong color to use for rendering text.
    pub strong_color: String,
    /// List available fonts.
    pub list_fonts: bool,
    /// List available faces.
    pub list_faces: bool,
    /// Text messages to render.
    pub messages: Vec<String>,
}

/// What the program does for a set of arguments.
#[derive(PartialEq, Eq, Structural, Debug)]
pub enum Action {
    /// List the available font families.
    ListFonts,
    /// List the faces of the chosen font.
    ListFaces,
    /// Render the messages as an SVG animation.
    Generate,
}

/// Runs the main logic of the program: decides what the arguments ask for.
/// Listing fonts takes precedence over listing faces, and both over
/// rendering.
pub fn run(args: &Args) -> (r: Action)
    ensures
        r == (if args.list_fonts {
            Action::ListFonts
        } else if args.list_faces {
            Action::ListFaces
        } else {
            Action::Generate
        }),
{
    if args.list_fonts {
        Action::ListFonts
    } else if args.list_faces {
        Action::ListFaces
    } else {
        Action::Generate
    }
}

/// The messages ask for input from standard input: there are none, or the
/// only one is `-`.
pub open spec fn uses_stdin(messages: Seq<String>) -> bool {
    messages.len() == 0 || (messages.len() == 1 && messages[0]@ == "-"@)
}

/// Checks if the messages indicate that input should be read from stdin.
pub fn is_used_stdin(messages: &Vec<String>) -> (r: bool)
    ensures
        r == uses_stdin(messages@),
{
    messages.len() == 0 || (messages.len() == 1 && str_equals(messages[0].as_str(), "-"))
}

/// The pieces of `s` between newlines, the first one continuing `cur`.
pub open spec fn split_from(s: Seq<char>, cur: Seq<char>) -> Seq<Seq<char>>
    decreases s.len(),
{
    if s.len() == 0 {
        seq![cur]
    } else if s[0] == '\n' {
        seq![cur] + split_from(s.drop_first(), Seq::empty())
    } else {
        split_from(s.drop_first(), cur.push(s[0]))
    }
}

/// The pieces of `s` between newlines, as `str::split('\n')` yields them:
/// one more piece than `s` has newlines.
pub open spec fn split_lines(s: Seq<char>) -> Seq<Seq<char>> {
    split_from(s, Seq::empty())
}

/// Each piece with a newline after it.
pub open spec fn with_newlines(pieces: Seq<Seq<char>>) -> Seq<Seq<char>> {
    pieces.map_values(|p: Seq<char>| p.push('\n'))
}

/// The lines that the messages make: each message split at its newlines,
/// each piece ended by a newline, message after message.
pub open spec fn message_lines(messages: Seq<String>) -> Seq<Seq<char>>
    decreases messages.len(),
{
    if messages.len() == 0 {
        Seq::empty()
    } else {
        message_lines(messages.drop_last()) + with_newlines(split_lines(messages.last()@))
    }
}

/// The strings joined together, in order.
pub open spec fn concat(parts: Seq<Seq<char>>) -> Seq<char>
    decreases parts.len(),
{
    if parts.len() == 0 {
        Seq::empty()
    } else {
        concat(parts.drop_last()) + parts.last()
    }
}

proof fn lemma_split_step(s: Seq<char>, i: int, cur: Seq<char>)
    requires
        0 <= i < s.len(),
    ensures
        s[i] == '\n' ==> split_from(s.skip(i), cur) == seq![cur] + split_from(
            s.skip(i + 1),
            Seq::empty(),
        ),
        s[i] != '\n' ==> split_from(s.skip(i), cur) == split_from(s.skip(i + 1), cur.push(s[i])),
{
    assert(s.skip(i).drop_first() =~= s.skip(i + 1));
    assert(s.skip(i)[0] == s[i]);
}

/// The pieces of `s` between newlines.
pub fn split_on_newline(s: &str) -> (r: Vec<String>)
    ensures
        views_of(r@) == split_lines(s@),
{
    let chars = crate::text::chars_of(s);
    let mut out: Vec<String> = Vec::new();
    let mut cur = String::new();
    let mut i: usize = 0;
    assert(chars@.skip(0) =~= chars@);
    while i < chars.len()
        invariant
            chars@ == s@,
            i <= chars.len(),
            views_of(out@) + split_from(chars@.skip(i as int), cur@) == split_lines(s@),
        decreases chars.len() - i,
    {
        let c = chars[i];
        proof {
            lemma_split_step(chars@, i as int, cur@);
        }
        if c == '\n' {
            let ghost old_out = out@;
            let piece = cur;
            cur = String::new();
            out.push(piece);
            assert(views_of(out@) =~= views_of(old_out).push(piece@));
            assert(views_of(out@) + split_from(chars@.skip(i + 1), cur@) =~= views_of(old_out) + (
            seq![piece@] + split_from(chars@.skip(i + 1), Seq::empty())));
        } else {
            push_char(&mut cur, c);
        }
        i = i + 1;
    }
    let ghost old_out = out@;
    out.push(cur);
    assert(chars@.skip(i as int) =~= Seq::<char>::empty());
    assert(views_of(out@) =~= views_of(old_out) + split_from(chars@.skip(i as int), cur@));
    out
}

/// Splits messages into lines and appends a newline to each line.
pub fn split_message(messages: &Vec<String>) -> (r: Vec<String>)
    ensures
        views_of(r@) == message_lines(messages@),
{
    let mut out: Vec<String> = Vec::new();
    let mut k: usize = 0;
    while k < messages.len()
        invariant
            k <= messages.len(),
            views_of(out@) == message_lines(messages@.take(k as int)),
        decreases messages.len() - k,
    {
        let pieces = split_on_newline(messages[k].as_str());
        let ghost before = out@;
        let mut j: usize = 0;
        while j < pieces.len()
            invariant
                j <= pieces.len(),
                views_of(out@) == views_of(before) + with_newlines(views_of(pieces@.take(j as int))),
            decreases pieces.len() - j,
        {
            let mut line = pieces[j].clone();
            push_char(&mut line, '\n');
            let ghost prev = out@;
            out.push(line);
            assert(views_of(out@) =~= views_of(prev).push(pieces@[j as int]@.push('\n')));
            assert(with_newlines(views_of(pieces@.take(j + 1))) =~= with_newlines(
                views_of(pieces@.take(j as int)),
            ).push(pieces@[j as int]@.push('\n')));
            assert(views_of(out@) =~= views_of(before) + with_newlines(
                views_of(pieces@.take(j + 1)),
            ));
            j = j + 1;
        }
        assert(pieces@.take(pieces.len() as int) =~= pieces@);
        assert(messages@.take(k + 1).drop_last() =~= messages@.take(k as int));
        assert(views_of(out@) =~= message_lines(messages@.take(k + 1)));
        k = k + 1;
    }
    assert(messages@.take(messages.len() as int) =~= messages@);
    out
}

proof fn lemma_concat_append(a: Seq<Seq<char>>, b: Seq<Seq<char>>)
    ensures
        concat(a + b) == concat(a) + concat(b),
    decreases b.len(),
{
    if b.len() == 0 {
        assert(a + b =~= a);
        assert(concat(a) + concat(b) =~= concat(a));
    } else {
        assert((a + b).drop_last() =~= a + b.drop_last());
        lemma_concat_append(a, b.drop_last());
        assert(concat(a) + concat(b) =~= concat(a) + concat(b.drop_last()) + b.last());
    }
}

proof fn lemma_concat_single(a: Seq<char>)
    ensures
        concat(seq![a]) == a,
{
    let one = seq![a];
    assert(one.drop_last() =~= Seq::<Seq<char>>::empty());
    assert(concat(one.drop_last()) =~= Seq::<char>::empty());
    assert(one.last() == a);
    assert(Seq::<char>::empty() + a =~= a);
}

proof fn lemma_split_from_joins(s: Seq<char>, cur: Seq<char>)
    ensures
        concat(with_newlines(split_from(s, cur))) == cur + s.push('\n'),
        forall|k: int|
            0 <= k < split_from(s, cur).len() ==> (!cur.contains('\n') ==> !(#[trigger] split_from(
                s,
                cur,
            )[k]).contains('\n')),
    decreases s.len(),
{
    if s.len() == 0 {
        let one = seq![cur];
        assert(with_newlines(one) =~= seq![cur.push('\n')]);
        lemma_concat_single(cur.push('\n'));
        assert(cur + s.push('\n') =~= cur.push('\n'));
    } else if s[0] == '\n' {
        let rest = split_from(s.drop_first(), Seq::empty());
        lemma_split_from_joins(s.drop_first(), Seq::empty());
        assert(with_newlines(seq![cur] + rest) =~= seq![cur.push('\n')] + with_newlines(rest));
        lemma_concat_append(seq![cur.push('\n')], with_newlines(rest));
        lemma_concat_single(cur.push('\n'));
        assert(Seq::<char>::empty() + s.drop_first().push('\n') =~= s.drop_first().push('\n'));
        assert(cur.push('\n') + s.drop_first().push('\n') =~= cur + s.push('\n'));
        assert forall|k: int|
            0 <= k < split_from(s, cur).len() && !cur.contains('\n') implies !(
            #[trigger] split_from(s, cur)[k]).contains('\n') by {
            if k > 0 {
                assert(split_from(s, cur)[k] == rest[k - 1]);
            }
        }
    } else {
        lemma_split_from_joins(s.drop_first(), cur.push(s[0]));
        assert(cur.push(s[0]) + s.drop_first().push('\n') =~= cur + s.push('\n'));
        if !cur.contains('\n') {
            assert(!cur.push(s[0]).contains('\n')) by {
                if cur.push(s[0]).contains('\n') {
                    let j = choose|j: int|
                        0 <= j < cur.push(s[0]).len() && #[trigger] cur.push(s[0])[j] == '\n';
                    if j < cur.len() {
                        assert(cur[j] == '\n');
                    }
                }
            }
        }
    }
}

/// Splitting a message into lines loses nothing and adds only the final
/// newline: the lines joined together are the message followed by a
/// newline, and no line holds a newline but at its end.
pub proof fn law_split_lines_rejoin(message: Seq<char>)
    ensures
        concat(with_newlines(split_lines(message))) == message.push('\n'),
        forall|k: int|
            0 <= k < split_lines(message).len() ==> !(#[trigger] split_lines(message)[k]).contains(
                '\n',
            ),
{
    lemma_split_from_joins(message, Seq::empty());
    assert(Seq::<char>::empty() + message.push('\n') =~= message.push('\n'));
}

/// Whether `c` has the Unicode `White_Space` property, as
/// `char::is_whitespace` decides it.
pub open spec fn is_white_space(c: char) -> bool {
    ||| ('\u{9}' <= c && c <= '\u{D}')
    ||| c == ' '
    ||| c == '\u{85}'
    ||| c == '\u{A0}'
    ||| c == '\u{1680}'
    ||| ('\u{2000}' <= c && c <= '\u{200A}')
    ||| c == '\u{2028}'
    ||| c == '\u{2029}'
    ||| c == '\u{202F}'
    ||| c == '\u{205F}'
    ||| c == '\u{3000}'
}

/// Whether `c` is white space.
pub fn is_whitespace(c: char) -> (r: bool)
    ensures
        r == is_white_space(c),
{
    ('\u{9}' <= c && c <= '\u{D}') || c == ' ' || c == '\u{85}' || c == '\u{A0}' || c == '\u{1680}'
        || ('\u{2000}' <= c && c <= '\u{200A}') || c == '\u{2028}' || c == '\u{2029}' || c
        == '\u{202F}' || c == '\u{205F}' || c == '\u{3000}'
}

/// A line is blank: trimming its white space leaves nothing.
pub open spec fn is_blank(s: Seq<char>) -> bool {
    forall|j: int| 0 <= j < s.len() ==> is_white_space(#[trigger] s[j])
}

/// Whether the line is blank.
pub fn is_blank_line(s: &str) -> (r: bool)
    ensures
        r == is_blank(s@),
{
    let v = crate::text::chars_of(s);
    let mut i: usize = 0;
    while i < v.len()
        invariant
            v@ == s@,
            i <= v.len(),
            forall|j: int| 0 <= j < i ==> is_white_space(#[trigger] v@[j]),
        decreases v.len() - i,
    {
        if !is_whitespace(v[i]) {
            return false;
        }
        i = i + 1;
    }
    true
}

/// The lines read from standard input that are kept: the ones that are not
/// blank, each followed by a newline.
pub open spec fn kept_input_lines(lines: Seq<String>) -> Seq<Seq<char>>
    decreases lines.len(),
{
    if lines.len() == 0 {
        Seq::empty()
    } else {
        let rest = kept_input_lines(lines.drop_last());
        if is_blank(lines.last()@) {
            rest
        } else {
            rest.push(lines.last()@.push('\n'))
        }
    }
}

/// The messages that lines of standard input make: blank lines are
/// dropped, and every other line gets its newline back.
pub fn keep_input_lines(lines: &Vec<String>) -> (r: Vec<String>)
    ensures
        views_of(r@) == kept_input_lines(lines@),
{
    let mut out: Vec<String> = Vec::new();
    let mut i: usize = 0;
    while i < lines.len()
        invariant
            i <= lines.len(),
            views_of(out@) == kept_input_lines(lines@.take(i as int)),
        decreases lines.len() - i,
    {
        assert(lines@.take(i + 1).drop_last() =~= lines@.take(i as int));
        if !is_blank_line(lines[i].as_str()) {
            let mut line = lines[i].clone();
            push_char(&mut line, '\n');
            out.push(line);
        }
        assert(views_of(out@) =~= kept_input_lines(lines@.take(i + 1)));
        i = i + 1;
    }
    assert(lines@.take(lines.len() as int) =~= lines@);
    out
}

/// The argument names a file: it holds a `/` or a `\`.
pub open spec fn is_path(s: Seq<char>) -> bool {
    s.contains('/') || s.contains('\\')
}

/// The path that the font argument names, if it looks like a path.
pub fn get_valid_path(path: &str) -> (r: Option<String>)
    ensures
        r matches Some(p) ==> p@ == path@,
        r is Some <==> is_path(path@),
{
    if !contains_char(path, '/') && !contains_char(path, '\\') {
        return None;
    }
    Some(String::from_str(path))
}

/// The filter that the font argument and the face argument select: a font
/// file and, optionally, a face of it; or the system font with that name.
pub open spec fn font_filter_for(font: Seq<char>, face: Option<String>, filter: Filter) -> bool {
    if is_path(font) {
        &&& filter.source matches Source::File(p) && p@ == font
        &&& match (filter.name, face) {
            (Some(n), Some(f)) => n@ == f@,
            (None, None) => true,
            _ => false,
        }
    } else {
        &&& filter.source matches Source::System
        &&& filter.name matches Some(n) && n@ == font
    }
}

/// A font argument that holds a `/` or a `\\` names a font file: the filter
/// reads that very file, whether or not a face is given, and keeps the
/// given face (or none). Any other argument names a system font.
pub proof fn law_path_argument_selects_the_file(font: Seq<char>, face: Option<String>, filter: Filter)
    requires
        font_filter_for(font, face, filter),
    ensures
        (font.contains('/') || font.contains('\\')) ==> (filter.source matches Source::File(p) && p@
            == font),
        (font.contains('/') || font.contains('\\')) && face is None ==> filter.name is None,
        (font.contains('/') || font.contains('\\')) && face is Some ==> (filter.name matches Some(n)
            && n@ == face->0@),
        !(font.contains('/') || font.contains('\\')) ==> (filter.source is System
            && (filter.name matches Some(n) && n@ == font)),
{
}

/// The font filter for the font argument (a path or a font name) and the
/// optional face argument.
pub fn create_font_filter(font_path_or_name: &str, font_face: &Option<String>) -> (r: Filter)
    ensures
        font_filter_for(font_path_or_name@, *font_face, r),
        (font_path_or_name@.contains('/') || font_path_or_name@.contains('\\'))
            ==> (r.source matches Source::File(p) && p@ == font_path_or_name@),
        (font_path_or_name@.contains('/') || font_path_or_name@.contains('\\')) ==> (r.name is Some
            <==> font_face is Some),
        (font_path_or_name@.contains('/') || font_path_or_name@.contains('\\')) ==> (r.name matches Some(
            n,
        ) ==> (font_face matches Some(f) && n@ == f@)),
        !(font_path_or_name@.contains('/') || font_path_or_name@.contains('\\')) ==> (r.source is System
            && (r.name matches Some(n) && n@ == font_path_or_name@)),
{
    if let Some(path) = get_valid_path(font_path_or_name) {
        let name = match font_face {
            Some(f) => Some(f.clone()),
            None => None,
        };
        Filter { source: Source::File(path), name }
    } else {
        Filter { source: Source::System, name: Some(String::from_str(font_path_or_name)) }
    }
}

} // verus!
