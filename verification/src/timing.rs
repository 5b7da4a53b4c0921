//! The rhythm of the typing animation: the characters a font must provide,
//! how long each key press takes, and the small jolt that each key press
//! gives the line.
use vstd::prelude::*;
use vstd::string::*;
use crate::text::{format_signed, signed_decimal};

verus! {

/// The time to wait before starting the first line of text, in ms.
pub const TIME_START: u32 = 500;
/// The time to wait after displaying a line of text before starting the
/// next line, in ms.
pub const TIME_BETWEEN_LINES: u32 = 1000;
/// The time for typing a character quickly, in ms.
pub const TIME_QUICK_PUNCH: u32 = 200;
/// The time for typing a normal character, in ms.
pub const TIME_KEY_PUNCH: u32 = 400;
/// The time for typing a newline, in ms.
pub const TIME_ENTER_KEY: u32 = 500;
/// How long a typed character stays emphasised, in ms.
pub const TIME_EMPHASIS_EFFECT: u32 = 1000;
/// How long the jolt of a key press lasts, in ms.
pub const TIME_JOLT_EFFECT: u32 = 100;

/// Some message holds the character `c`.
pub open spec fn occurs_in(messages: Seq<String>, c: char) -> bool {
    exists|i: int| 0 <= i < messages.len() && (#[trigger] messages[i])@.contains(c)
}

fn vec_contains(v: &Vec<char>, c: char) -> (r: bool)
    ensures
        r == v@.contains(c),
{
    let mut m: usize = 0;
    while m < v.len()
        invariant
            m <= v.len(),
            forall|j: int| 0 <= j < m ==> v@[j] != c,
        decreases v.len() - m,
    {
        if v[m] == c {
            return true;
        }
        m = m + 1;
    }
    false
}

/// Extracts the characters of the messages, each once, in order of first
/// appearance.
pub fn extract_unique_characters(messages: &Vec<String>) -> (r: Vec<char>)
    ensures
        forall|c: char| r@.contains(c) <==> occurs_in(messages@, c),
        r@.no_duplicates(),
{
    let mut out: Vec<char> = Vec::new();
    let mut k: usize = 0;
    while k < messages.len()
        invariant
            k <= messages.len(),
            out@.no_duplicates(),
            forall|c: char| out@.contains(c) <==> occurs_in(messages@.take(k as int), c),
        decreases messages.len() - k,
    {
        let chars = crate::text::chars_of(messages[k].as_str());
        let ghost before = out@;
        let mut j: usize = 0;
        while j < chars.len()
            invariant
                j <= chars.len(),
                k < messages.len(),
                chars@ == messages@[k as int]@,
                out@.no_duplicates(),
                forall|d: char|
                    #![trigger out@.contains(d)]
                    out@.contains(d) <==> (before.contains(d) || chars@.take(j as int).contains(d)),
            decreases chars.len() - j,
        {
            let c = chars[j];
            let ghost prev = out@;
            let ghost t0 = chars@.take(j as int);
            let ghost t1 = chars@.take(j + 1);
            assert(t1 =~= t0.push(c));
            if !vec_contains(&out, c) {
                out.push(c);
                assert forall|a: int, b: int| 0 <= a < b < out@.len() implies out@[a]
                    != out@[b] by {
                    if b == out@.len() - 1 {
                        assert(prev[a] == out@[a]);
                        assert(prev.contains(prev[a]));
                    }
                }
            }
            assert forall|d: char|
                #![trigger out@.contains(d)]
                out@.contains(d) <==> (before.contains(d) || t1.contains(d)) by {
                if out@.contains(d) {
                    let w = choose|w: int| 0 <= w < out@.len() && #[trigger] out@[w] == d;
                    if w < prev.len() {
                        assert(prev[w] == d);
                        assert(prev.contains(d));
                        if t0.contains(d) {
                            let v = choose|v: int| 0 <= v < t0.len() && #[trigger] t0[v] == d;
                            assert(t1[v] == d);
                        }
                    } else {
                        assert(t1[j as int] == d);
                    }
                }
                if before.contains(d) {
                    assert(prev.contains(d));
                    let w = choose|w: int| 0 <= w < prev.len() && #[trigger] prev[w] == d;
                    assert(out@[w] == d);
                }
                if t1.contains(d) {
                    let v = choose|v: int| 0 <= v < t1.len() && #[trigger] t1[v] == d;
                    if v < j {
                        assert(t0[v] == d);
                        assert(prev.contains(d));
                        let w = choose|w: int| 0 <= w < prev.len() && #[trigger] prev[w] == d;
                        assert(out@[w] == d);
                    } else if prev.contains(d) {
                        let w = choose|w: int| 0 <= w < prev.len() && #[trigger] prev[w] == d;
                        assert(out@[w] == d);
                    } else {
                        assert(out@[prev.len() as int] == d);
                    }
                }
            }
            j = j + 1;
        }
        assert(chars@.take(chars.len() as int) =~= chars@);
        assert forall|c: char|
            #![trigger out@.contains(c)]
            out@.contains(c) <==> occurs_in(messages@.take(k + 1), c) by {
            let pre = messages@.take(k as int);
            let post = messages@.take(k + 1);
            if occurs_in(pre, c) {
                let i = choose|i: int| 0 <= i < pre.len() && (#[trigger] pre[i])@.contains(c);
                assert(post[i] == pre[i]);
            }
            if chars@.contains(c) {
                assert(post[k as int] == messages@[k as int]);
            }
            if occurs_in(post, c) {
                let i = choose|i: int| 0 <= i < post.len() && (#[trigger] post[i])@.contains(c);
                if i < k {
                    assert(post[i] == pre[i]);
                } else {
                    assert(post[i] == messages@[k as int]);
                }
            }
        }
        k = k + 1;
    }
    assert(messages@.take(messages.len() as int) =~= messages@);
    out
}

/// `c` is an ASCII letter.
pub open spec fn ascii_letter(c: char) -> bool {
    ('a' <= c && c <= 'z') || ('A' <= c && c <= 'Z')
}

/// `c` is an ASCII lowercase letter.
pub open spec fn ascii_lower(c: char) -> bool {
    'a' <= c && c <= 'z'
}

/// `c` is an ASCII uppercase letter.
pub open spec fn ascii_upper(c: char) -> bool {
    'A' <= c && c <= 'Z'
}

fn is_ascii_alphabetic(c: char) -> (r: bool)
    ensures
        r == ascii_letter(c),
{
    ('a' <= c && c <= 'z') || ('A' <= c && c <= 'Z')
}

/// How long typing a character takes: at least `base_ms`, plus a random
/// part below `jitter_ms`.
#[derive(PartialEq, Eq, Structural, Debug, Clone, Copy)]
pub struct WaitTime {
    pub base_ms: u32,
    pub jitter_ms: u32,
}

/// Typing goes quickly from one letter to the next, unless the next one
/// starts a new word in camel case (a lowercase letter followed by an
/// uppercase one).
pub open spec fn quick_follow(ch: char, prev: Option<char>) -> bool {
    match prev {
        Some(p) => ascii_letter(p) && ascii_letter(ch) && !(ascii_lower(p) && ascii_upper(ch)),
        None => false,
    }
}

/// How long typing `ch` after `prev` takes.
pub open spec fn wait_time(ch: char, prev: Option<char>) -> WaitTime {
    if ch == '\n' {
        WaitTime { base_ms: TIME_ENTER_KEY, jitter_ms: 0 }
    } else if quick_follow(ch, prev) {
        WaitTime { base_ms: TIME_QUICK_PUNCH, jitter_ms: 200 }
    } else {
        WaitTime { base_ms: TIME_KEY_PUNCH, jitter_ms: 100 }
    }
}

/// Determines the wait time for a character based on its type and the
/// previous character: a newline takes the enter key's time, a letter that
/// follows a letter is typed quickly, anything else takes a normal key
/// press.
pub fn decide_wait_time(ch: char, prev_ch: Option<char>) -> (r: WaitTime)
    ensures
        r == wait_time(ch, prev_ch),
        ch == '\n' ==> r.base_ms == 500 && r.jitter_ms == 0,
        ch != '\n' ==> (r.base_ms == 200 && r.jitter_ms == 200) || (r.base_ms == 400
            && r.jitter_ms == 100),
        ch != '\n' ==> (r.base_ms == 200 <==> (prev_ch matches Some(p) && (('a' <= p && p <= 'z')
            || ('A' <= p && p <= 'Z')) && (('a' <= ch && ch <= 'z') || ('A' <= ch && ch <= 'Z'))
            && !(('a' <= p && p <= 'z') && ('A' <= ch && ch <= 'Z')))),
{
    if ch == '\n' {
        return WaitTime { base_ms: TIME_ENTER_KEY, jitter_ms: 0 };
    }
    let quick = match prev_ch {
        Some(prev) => is_ascii_alphabetic(prev) && is_ascii_alphabetic(ch) && !(('a' <= prev && prev
            <= 'z') && ('A' <= ch && ch <= 'Z')),
        None => false,
    };
    if quick {
        WaitTime { base_ms: TIME_QUICK_PUNCH, jitter_ms: 200 }
    } else {
        WaitTime { base_ms: TIME_KEY_PUNCH, jitter_ms: 100 }
    }
}

/// Typing speeds up between letters: when a letter follows a letter, the
/// key press is the quick one (200 ms plus up to 200 ms) unless a
/// lowercase letter is followed by an uppercase one, which starts a new
/// camel-case word and takes a normal key press (400 ms plus up to
/// 100 ms). In particular a letter after an uppercase letter is quick.
pub proof fn law_quick_between_letters(prev: char, ch: char)
    requires
        ('a' <= prev && prev <= 'z') || ('A' <= prev && prev <= 'Z'),
        ('a' <= ch && ch <= 'z') || ('A' <= ch && ch <= 'Z'),
    ensures
        ('a' <= prev && prev <= 'z') && ('A' <= ch && ch <= 'Z') ==> wait_time(ch, Some(prev))
            == (WaitTime { base_ms: 400, jitter_ms: 100 }),
        !(('a' <= prev && prev <= 'z') && ('A' <= ch && ch <= 'Z')) ==> wait_time(ch, Some(prev))
            == (WaitTime { base_ms: 200, jitter_ms: 200 }),
        'A' <= prev && prev <= 'Z' ==> wait_time(ch, Some(prev)) == (WaitTime {
            base_ms: 200,
            jitter_ms: 200,
        }),
{
}

/// A key press that does not follow a letter, or is not a letter, takes a
/// normal key press; a newline always takes the enter key's 500 ms.
pub proof fn law_normal_and_enter_presses(prev: Option<char>, ch: char)
    ensures
        ch == '\n' ==> wait_time(ch, prev) == (WaitTime { base_ms: 500, jitter_ms: 0 }),
        ch != '\n' && !(('a' <= ch && ch <= 'z') || ('A' <= ch && ch <= 'Z')) ==> wait_time(ch, prev)
            == (WaitTime { base_ms: 400, jitter_ms: 100 }),
        ch != '\n' && prev is None ==> wait_time(ch, prev) == (WaitTime {
            base_ms: 400,
            jitter_ms: 100,
        }),
{
}

/// A character that is typed, and how long typing it takes.
#[derive(PartialEq, Eq, Structural, Debug, Clone, Copy)]
pub struct CharStep {
    pub ch: char,
    pub wait: WaitTime,
}

/// Typing `ch` after `prev`.
pub open spec fn step_of(ch: char, prev: Option<char>) -> CharStep {
    CharStep { ch: ch, wait: wait_time(ch, prev) }
}

/// The key presses that type `chars`: the characters that have a glyph,
/// each timed after the previously typed one (`prev` before the first).
pub open spec fn char_steps(chars: Seq<char>, has_glyph: Seq<char>, prev: Option<char>) -> Seq<
    CharStep,
>
    decreases chars.len(),
{
    if chars.len() == 0 {
        Seq::empty()
    } else if has_glyph.contains(chars[0]) {
        seq![step_of(chars[0], prev)] + char_steps(
            chars.drop_first(),
            has_glyph,
            Some(chars[0]),
        )
    } else {
        char_steps(chars.drop_first(), has_glyph, prev)
    }
}

/// Only characters that have a glyph are typed, and there are never more
/// key presses than characters.
pub proof fn law_typed_characters_have_glyphs(
    chars: Seq<char>,
    has_glyph: Seq<char>,
    prev: Option<char>,
)
    ensures
        char_steps(chars, has_glyph, prev).len() <= chars.len(),
        forall|i: int|
            0 <= i < char_steps(chars, has_glyph, prev).len() ==> has_glyph.contains(
                (#[trigger] char_steps(chars, has_glyph, prev)[i]).ch,
            ),
    decreases chars.len(),
{
    if chars.len() > 0 {
        let rest_prev = if has_glyph.contains(chars[0]) { Some(chars[0]) } else { prev };
        law_typed_characters_have_glyphs(chars.drop_first(), has_glyph, rest_prev);
        let rest = char_steps(chars.drop_first(), has_glyph, rest_prev);
        if has_glyph.contains(chars[0]) {
            assert forall|i: int|
                0 <= i < char_steps(chars, has_glyph, prev).len() implies has_glyph.contains(
                (#[trigger] char_steps(chars, has_glyph, prev)[i]).ch,
            ) by {
                if i > 0 {
                    assert(char_steps(chars, has_glyph, prev)[i] == rest[i - 1]);
                }
            }
        }
    }
}

proof fn lemma_char_steps_step(chars: Seq<char>, i: int, has_glyph: Seq<char>, prev: Option<char>)
    requires
        0 <= i < chars.len(),
    ensures
        has_glyph.contains(chars[i]) ==> char_steps(chars.skip(i), has_glyph, prev) == seq![
            step_of(chars[i], prev),
        ] + char_steps(chars.skip(i + 1), has_glyph, Some(chars[i])),
        !has_glyph.contains(chars[i]) ==> char_steps(chars.skip(i), has_glyph, prev)
            == char_steps(chars.skip(i + 1), has_glyph, prev),
{
    assert(chars.skip(i).drop_first() =~= chars.skip(i + 1));
    assert(chars.skip(i)[0] == chars[i]);
}

proof fn lemma_push_then_append(before: Seq<CharStep>, step: CharStep, rest: Seq<CharStep>)
    ensures
        before.push(step) + rest == before + (seq![step] + rest),
{
    assert(before.push(step) + rest =~= before + (seq![step] + rest));
}

/// The key presses that type a message: characters without a glyph are
/// skipped, and each typed character is timed after the previously typed
/// one.
pub fn create_char_info_list(message: &str, has_glyph: &Vec<char>) -> (r: Vec<CharStep>)
    ensures
        r@ == char_steps(message@, has_glyph@, None),
{
    let chars = crate::text::chars_of(message);
    let mut out: Vec<CharStep> = Vec::new();
    let mut prev: Option<char> = None;
    let mut i: usize = 0;
    assert(chars@.skip(0) =~= chars@);
    assert(out@ + char_steps(chars@, has_glyph@, prev) =~= char_steps(chars@, has_glyph@, prev));
    while i < chars.len()
        invariant
            chars@ == message@,
            i <= chars.len(),
            out@ + char_steps(chars@.skip(i as int), has_glyph@, prev) == char_steps(
                message@,
                has_glyph@,
                None,
            ),
        decreases chars.len() - i,
    {
        let ch = chars[i];
        proof {
            lemma_char_steps_step(chars@, i as int, has_glyph@, prev);
        }
        if vec_contains(has_glyph, ch) {
            let wait = decide_wait_time(ch, prev);
            proof {
                lemma_push_then_append(
                    out@,
                    step_of(ch, prev),
                    char_steps(chars@.skip(i + 1), has_glyph@, Some(ch)),
                );
            }
            out.push(CharStep { ch, wait });
            prev = Some(ch);
        }
        i = i + 1;
    }
    assert(chars@.skip(i as int) =~= Seq::<char>::empty());
    assert(out@ + Seq::<CharStep>::empty() =~= out@);
    out
}

/// `rand::random_range` over an inclusive range of integers.
/// Trusted: the result lies in `low..=high`; which value comes is left to
/// chance.
#[verifier::external_body]
fn random_between(low: i32, high: i32) -> (r: i32)
    requires
        low <= high,
    ensures
        low <= r <= high,
{
    rand::random_range(low..=high)
}

/// The offset by which a key press jolts the line: a newline always jolts
/// by `(-9, 10)`, any other character by the drawn offset.
pub open spec fn jolt_of(ch: char, drawn: (i64, i64)) -> (int, int) {
    if ch == '\n' {
        (-9, 10)
    } else {
        (drawn.0 as int, drawn.1 as int)
    }
}

/// A drawn jolt is one the random draws can give: twice the sum of two
/// steps in `-1..=1` sideways, `3..=5` downwards.
pub open spec fn jolt_drawable(drawn: (i64, i64)) -> bool {
    -4 <= drawn.0 <= 4 && drawn.0 % 2 == 0 && 3 <= drawn.1 <= 5
}

/// The animation values of one key press: rest, jolted, rest.
pub open spec fn jolt_segment(ch: char, drawn: (i64, i64)) -> Seq<char> {
    "0 0;"@ + signed_decimal(jolt_of(ch, drawn).0) + " "@ + signed_decimal(jolt_of(ch, drawn).1)
        + ";0 0;"@
}

/// The key presses of the first `k` characters.
pub open spec fn jolt_segments(chars: Seq<char>, drawn: Seq<(i64, i64)>, k: int) -> Seq<char>
    decreases k,
{
    if k <= 0 {
        Seq::empty()
    } else {
        jolt_segments(chars, drawn, k - 1) + jolt_segment(chars[k - 1], drawn[k - 1])
    }
}

/// The values of the line's jolt animation: at rest at both ends, and one
/// key press for each character.
pub open spec fn jolt_values_text(chars: Seq<char>, drawn: Seq<(i64, i64)>) -> Seq<char> {
    "0 0;"@ + jolt_segments(chars, drawn, chars.len() as int) + "0 0"@
}

/// The text is the jolt animation of `chars` for some offsets that the
/// random draws can give.
pub open spec fn is_jolt_values_of(chars: Seq<char>, text: Seq<char>) -> bool {
    exists|drawn: Seq<(i64, i64)>|
        drawn.len() == chars.len() && (forall|i: int|
            0 <= i < drawn.len() ==> jolt_drawable(#[trigger] drawn[i])) && text
            == jolt_values_text(chars, drawn)
}

/// The values of the jolt animation for `chars` with the given offsets
/// (the offset given for a newline is not used).
pub fn jolt_values_from(chars: &Vec<char>, drawn: &Vec<(i64, i64)>) -> (r: String)
    requires
        drawn.len() == chars.len(),
    ensures
        r@ == jolt_values_text(chars@, drawn@),
{
    let mut s = String::from_str("0 0;");
    let mut i: usize = 0;
    while i < chars.len()
        invariant
            i <= chars.len(),
            drawn.len() == chars.len(),
            s@ == "0 0;"@ + jolt_segments(chars@, drawn@, i as int),
        decreases chars.len() - i,
    {
        let (dx, dy) = if chars[i] == '\n' {
            (-9i64, 10i64)
        } else {
            drawn[i]
        };
        let dx_text = format_signed(dx);
        let dy_text = format_signed(dy);
        s.append("0 0;");
        s.append(dx_text.as_str());
        s.append(" ");
        s.append(dy_text.as_str());
        s.append(";0 0;");
        assert(s@ =~= "0 0;"@ + jolt_segments(chars@, drawn@, i + 1));
        i = i + 1;
    }
    s.append("0 0");
    s
}

/// Creates the values of the jolt animation for a line of characters,
/// drawing a random offset for every character but a newline.
pub fn create_jolt_values(chars: &Vec<char>) -> (r: String)
    ensures
        is_jolt_values_of(chars@, r@),
{
    let mut drawn: Vec<(i64, i64)> = Vec::new();
    let mut i: usize = 0;
    while i < chars.len()
        invariant
            i <= chars.len(),
            drawn.len() == i,
            forall|j: int| 0 <= j < drawn.len() ==> jolt_drawable(#[trigger] drawn@[j]),
        decreases chars.len() - i,
    {
        if chars[i] == '\n' {
            drawn.push((0, 3));
        } else {
            let a = random_between(-1, 1);
            let b = random_between(-1, 1);
            let rise = random_between(3, 5);
            let dx: i64 = (a as i64 + b as i64) * 2;
            drawn.push((dx, rise as i64));
        }
        i = i + 1;
    }
    let r = jolt_values_from(chars, &drawn);
    assert(drawn@.len() == chars@.len());
    r
}

} // verus!
