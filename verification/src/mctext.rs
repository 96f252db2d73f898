//! Minecraft's formatted text: `§` followed by a code character sets the colour
//! (`0`-`9`, `a`-`f`), adds bold (`l`), strikethrough (`m`), underline (`n`) or
//! italics (`o`), or resets to the plain style (`r`).

use vstd::prelude::*;
use crate::model::Rgb;
use crate::rows::strip_codes;

verus! {

/// What formatting codes set on top of the style the text is drawn with.
#[derive(Clone, Copy, Debug, PartialEq, Eq, Structural)]
pub struct McStyle {
    /// The foreground colour a colour code chose.
    pub color: Option<Rgb>,
    pub bold: bool,
    pub crossed_out: bool,
    pub underlined: bool,
    pub italic: bool,
}

/// A run of text drawn in one style.
#[derive(Debug)]
pub struct McSpan {
    pub text: String,
    pub style: McStyle,
}

/// The style of text before any code: nothing added.
pub open spec fn plain_style() -> McStyle {
    McStyle { color: None, bold: false, crossed_out: false, underlined: false, italic: false }
}

pub open spec fn rgb(r: u8, g: u8, b: u8) -> Rgb {
    Rgb { r, g, b }
}

/// Minecraft's sixteen text colours, by their code character.
pub open spec fn mc_color_spec(code: char) -> Option<Rgb> {
    if code == '0' {
        Some(rgb(0x00, 0x00, 0x00))
    } else if code == '1' {
        Some(rgb(0x00, 0x00, 0xAA))
    } else if code == '2' {
        Some(rgb(0x00, 0xAA, 0x00))
    } else if code == '3' {
        Some(rgb(0x00, 0xAA, 0xAA))
    } else if code == '4' {
        Some(rgb(0xAA, 0x00, 0x00))
    } else if code == '5' {
        Some(rgb(0xAA, 0x00, 0xAA))
    } else if code == '6' {
        Some(rgb(0xFF, 0xAA, 0x00))
    } else if code == '7' {
        Some(rgb(0xAA, 0xAA, 0xAA))
    } else if code == '8' {
        Some(rgb(0x55, 0x55, 0x55))
    } else if code == '9' {
        Some(rgb(0x55, 0x55, 0xFF))
    } else if code == 'a' || code == 'A' {
        Some(rgb(0x55, 0xFF, 0x55))
    } else if code == 'b' || code == 'B' {
        Some(rgb(0x55, 0xFF, 0xFF))
    } else if code == 'c' || code == 'C' {
        Some(rgb(0xFF, 0x55, 0x55))
    } else if code == 'd' || code == 'D' {
        Some(rgb(0xFF, 0x55, 0xFF))
    } else if code == 'e' || code == 'E' {
        Some(rgb(0xFF, 0xFF, 0x55))
    } else if code == 'f' || code == 'F' {
        Some(rgb(0xFF, 0xFF, 0xFF))
    } else {
        None
    }
}

/// The style after the code `code`: a colour code replaces the style by that
/// colour alone, `l` `m` `n` `o` add bold, strikethrough, underline, italics,
/// `r` goes back to the plain style, and any other code changes nothing.
pub open spec fn mc_apply(style: McStyle, code: char) -> McStyle {
    match mc_color_spec(code) {
        Some(c) => McStyle { color: Some(c), ..plain_style() },
        None => if code == 'l' || code == 'L' {
            McStyle { bold: true, ..style }
        } else if code == 'm' || code == 'M' {
            McStyle { crossed_out: true, ..style }
        } else if code == 'n' || code == 'N' {
            McStyle { underlined: true, ..style }
        } else if code == 'o' || code == 'O' {
            McStyle { italic: true, ..style }
        } else if code == 'r' || code == 'R' {
            plain_style()
        } else {
            style
        },
    }
}

/// What each code does to the style it is read in: `l`, `m`, `n`, `o` (either
/// case) turn on bold, strikethrough, underline, italics and keep everything else;
/// `r` goes back to the plain style; a colour code gives that colour with nothing
/// else on; any other code changes nothing.
pub proof fn lemma_code_effects(style: McStyle, code: char)
    ensures
        (code == 'l' || code == 'L') ==> mc_apply(style, code) == (McStyle { bold: true, ..style }),
        (code == 'm' || code == 'M') ==> mc_apply(style, code) == (McStyle { crossed_out: true, ..style }),
        (code == 'n' || code == 'N') ==> {
            let after = mc_apply(style, code);
            &&& after.underlined
            &&& after.crossed_out == style.crossed_out
            &&& after.bold == style.bold
            &&& after.italic == style.italic
            &&& after.color == style.color
        },
        (code == 'o' || code == 'O') ==> mc_apply(style, code) == (McStyle { italic: true, ..style }),
        (code == 'r' || code == 'R') ==> mc_apply(style, code) == plain_style(),
        mc_color_spec(code) matches Some(c) ==> mc_apply(style, code) == (McStyle { color: Some(c), ..plain_style() }),
        (mc_color_spec(code) is None && !(code == 'l' || code == 'L' || code == 'm' || code == 'M' || code == 'n'
            || code == 'N' || code == 'o' || code == 'O' || code == 'r' || code == 'R'))
            ==> mc_apply(style, code) == style,
        mc_color_spec(code) is Some <==> ('0' <= code <= '9' || 'a' <= code <= 'f' || 'A' <= code <= 'F'),
{
}

/// The runs `done` followed by the run `cur` in `style`, when it is not empty.
pub open spec fn flush(done: Seq<(Seq<char>, McStyle)>, cur: Seq<char>, style: McStyle) -> Seq<(Seq<char>, McStyle)> {
    if cur.len() > 0 { done.push((cur, style)) } else { done }
}

/// The runs of `t`, read in `style` after the runs `done` and the pending text
/// `cur`: `§` with a character after it ends the pending run and applies the
/// code; every other character (a final lone `§` too) joins the pending run.
pub open spec fn mc_runs_from(t: Seq<char>, style: McStyle, cur: Seq<char>, done: Seq<(Seq<char>, McStyle)>)
    -> Seq<(Seq<char>, McStyle)>
    decreases t.len(),
{
    if t.len() == 0 {
        flush(done, cur, style)
    } else if t[0] == '\u{00A7}' && t.len() >= 2 {
        mc_runs_from(t.subrange(2, t.len() as int), mc_apply(style, t[1]), Seq::empty(), flush(done, cur, style))
    } else {
        mc_runs_from(t.subrange(1, t.len() as int), style, cur.push(t[0]), done)
    }
}

/// The styled runs of a formatted text.
pub open spec fn mc_runs(t: Seq<char>) -> Seq<(Seq<char>, McStyle)> {
    mc_runs_from(t, plain_style(), Seq::empty(), Seq::empty())
}

/// Text without any `§` is read as one run in the style it starts in.
pub proof fn lemma_plain_text_is_one_run(t: Seq<char>, style: McStyle, cur: Seq<char>, done: Seq<(Seq<char>, McStyle)>)
    requires
        forall|i: int| 0 <= i < t.len() ==> t[i] != '\u{00A7}',
    ensures
        mc_runs_from(t, style, cur, done) == flush(done, cur + t, style),
    decreases t.len(),
{
    if t.len() == 0 {
        assert(cur + t =~= cur);
    } else {
        let rest = t.subrange(1, t.len() as int);
        assert forall|i: int| 0 <= i < rest.len() implies rest[i] != '\u{00A7}' by {
            assert(rest[i] == t[i + 1]);
        }
        lemma_plain_text_is_one_run(rest, style, cur.push(t[0]), done);
        assert(cur.push(t[0]) + rest =~= cur + t);
    }
}

/// A text that opens with `§` and a code and has no other `§` is one run of the
/// rest in the style the code gives to plain text; with `n` that run is
/// underlined and nothing else.
pub proof fn lemma_leading_code_styles_the_text(code: char, t: Seq<char>)
    requires
        t.len() > 0,
        forall|i: int| 0 <= i < t.len() ==> t[i] != '\u{00A7}',
    ensures
        mc_runs(seq!['\u{00A7}', code] + t) == seq![(t, mc_apply(plain_style(), code))],
        (code == 'n' || code == 'N') ==> mc_runs(seq!['\u{00A7}', code] + t)
            == seq![(t, McStyle { underlined: true, ..plain_style() })],
{
    let s = seq!['\u{00A7}', code] + t;
    assert(s[0] == '\u{00A7}' && s[1] == code);
    assert(s.subrange(2, s.len() as int) =~= t);
    lemma_plain_text_is_one_run(t, mc_apply(plain_style(), code), Seq::empty(), Seq::empty());
    assert(Seq::<char>::empty() + t =~= t);
    assert(flush(Seq::<(Seq<char>, McStyle)>::empty(), Seq::<char>::empty(), plain_style()) =~= Seq::<(Seq<char>, McStyle)>::empty());
    assert(Seq::<(Seq<char>, McStyle)>::empty().push((t, mc_apply(plain_style(), code))) =~= seq![(t, mc_apply(plain_style(), code))]);
    lemma_code_effects(plain_style(), code);
}

pub open spec fn span_view(s: McSpan) -> (Seq<char>, McStyle) {
    (s.text@, s.style)
}

/// The characters of runs, one after the other.
pub open spec fn runs_text(runs: Seq<(Seq<char>, McStyle)>) -> Seq<char>
    decreases runs.len(),
{
    if runs.len() == 0 {
        Seq::empty()
    } else {
        runs_text(runs.drop_last()) + runs.last().0
    }
}

/// Whether reading `t` ends on a `§` with no code after it.
pub open spec fn ends_with_lone_mark(t: Seq<char>) -> bool
    decreases t.len(),
{
    if t.len() == 0 {
        false
    } else if t[0] == '\u{00A7}' {
        if t.len() >= 2 { ends_with_lone_mark(t.subrange(2, t.len() as int)) } else { true }
    } else {
        ends_with_lone_mark(t.subrange(1, t.len() as int))
    }
}

/// The colour of a colour code.
pub fn mc_color(code: char) -> (r: Option<Rgb>)
    ensures
        r == mc_color_spec(code),
{
    match code {
        '0' => Some(Rgb { r: 0x00, g: 0x00, b: 0x00 }),
        '1' => Some(Rgb { r: 0x00, g: 0x00, b: 0xAA }),
        '2' => Some(Rgb { r: 0x00, g: 0xAA, b: 0x00 }),
        '3' => Some(Rgb { r: 0x00, g: 0xAA, b: 0xAA }),
        '4' => Some(Rgb { r: 0xAA, g: 0x00, b: 0x00 }),
        '5' => Some(Rgb { r: 0xAA, g: 0x00, b: 0xAA }),
        '6' => Some(Rgb { r: 0xFF, g: 0xAA, b: 0x00 }),
        '7' => Some(Rgb { r: 0xAA, g: 0xAA, b: 0xAA }),
        '8' => Some(Rgb { r: 0x55, g: 0x55, b: 0x55 }),
        '9' => Some(Rgb { r: 0x55, g: 0x55, b: 0xFF }),
        'a' | 'A' => Some(Rgb { r: 0x55, g: 0xFF, b: 0x55 }),
        'b' | 'B' => Some(Rgb { r: 0x55, g: 0xFF, b: 0xFF }),
        'c' | 'C' => Some(Rgb { r: 0xFF, g: 0x55, b: 0x55 }),
        'd' | 'D' => Some(Rgb { r: 0xFF, g: 0x55, b: 0xFF }),
        'e' | 'E' => Some(Rgb { r: 0xFF, g: 0xFF, b: 0x55 }),
        'f' | 'F' => Some(Rgb { r: 0xFF, g: 0xFF, b: 0xFF }),
        _ => None,
    }
}

fn apply_code(style: McStyle, code: char) -> (r: McStyle)
    ensures
        r == mc_apply(style, code),
{
    match mc_color(code) {
        Some(c) => McStyle { color: Some(c), bold: false, crossed_out: false, underlined: false, italic: false },
        None => match code {
            'l' | 'L' => McStyle { bold: true, ..style },
            'm' | 'M' => McStyle { crossed_out: true, ..style },
            'n' | 'N' => McStyle { underlined: true, ..style },
            'o' | 'O' => McStyle { italic: true, ..style },
            'r' | 'R' => McStyle { color: None, bold: false, crossed_out: false, underlined: false, italic: false },
            _ => style,
        },
    }
}

/// Splits formatted text into its styled runs (see `mc_runs_from`).
pub fn parse_mc_text(text: &str) -> (r: Vec<McSpan>)
    ensures
        r@.map_values(|s: McSpan| span_view(s)) == mc_runs(text@),
{
    let n = text.unicode_len();
    let mut spans: Vec<McSpan> = Vec::new();
    let mut style = McStyle { color: None, bold: false, crossed_out: false, underlined: false, italic: false };
    let mut current = String::new();
    let mut i: usize = 0;
    proof {
        assert(text@.subrange(0, n as int) =~= text@);
        assert(current@ =~= Seq::<char>::empty());
        assert(spans@.map_values(|s: McSpan| span_view(s)) =~= Seq::<(Seq<char>, McStyle)>::empty());
    }
    while i < n
        invariant
            i <= n,
            n == text@.len(),
            mc_runs_from(text@.subrange(i as int, n as int), style, current@, spans@.map_values(|s: McSpan| span_view(s)))
                == mc_runs(text@),
        decreases n - i,
    {
        let c = text.get_char(i);
        let ghost rest = text@.subrange(i as int, n as int);
        let ghost before = spans@;
        assert(rest[0] == c);
        if c == '\u{00A7}' && n - i >= 2 {
            let code = text.get_char(i + 1);
            assert(rest[1] == code);
            if current.unicode_len() > 0 {
                let mut run = String::new();
                std::mem::swap(&mut run, &mut current);
                spans.push(McSpan { text: run, style });
                assert(spans@.map_values(|s: McSpan| span_view(s))
                    =~= before.map_values(|s: McSpan| span_view(s)).push((run@, style)));
            }
            assert(current@ =~= Seq::<char>::empty()) by {
                if before.len() == spans@.len() {
                    assert(current@.len() == 0);
                }
            }
            style = apply_code(style, code);
            assert(rest.subrange(2, rest.len() as int) =~= text@.subrange(i + 2, n as int));
            i = i + 2;
        } else {
            crate::text::push_char(&mut current, c);
            assert(rest.subrange(1, rest.len() as int) =~= text@.subrange(i + 1, n as int));
            i = i + 1;
        }
    }
    let ghost before = spans@;
    if current.unicode_len() > 0 {
        spans.push(McSpan { text: current, style });
        assert(spans@.map_values(|s: McSpan| span_view(s))
            =~= before.map_values(|s: McSpan| span_view(s)).push((spans@.last().text@, style)));
    }
    proof {
        assert(text@.subrange(n as int, n as int).len() == 0);
    }
    spans
}

proof fn lemma_runs_text_push(runs: Seq<(Seq<char>, McStyle)>, r: (Seq<char>, McStyle))
    ensures
        runs_text(runs.push(r)) == runs_text(runs) + r.0,
{
    assert(runs.push(r).drop_last() =~= runs);
}

proof fn lemma_runs_from_text(t: Seq<char>, style: McStyle, cur: Seq<char>, done: Seq<(Seq<char>, McStyle)>)
    ensures
        runs_text(mc_runs_from(t, style, cur, done)) == runs_text(done) + cur + strip_codes(t)
            + (if ends_with_lone_mark(t) { seq!['\u{00A7}'] } else { Seq::empty() }),
        forall|k: int| 0 <= k < mc_runs_from(t, style, cur, done).len() && !(0 <= k < done.len())
            ==> (#[trigger] mc_runs_from(t, style, cur, done)[k]).0.len() > 0,
        done.len() <= mc_runs_from(t, style, cur, done).len(),
        forall|k: int| 0 <= k < done.len() ==> #[trigger] mc_runs_from(t, style, cur, done)[k] == done[k],
    decreases t.len(),
{
    if t.len() == 0 {
        if cur.len() > 0 {
            lemma_runs_text_push(done, (cur, style));
        } else {
            assert(cur =~= Seq::<char>::empty());
        }
        assert(runs_text(mc_runs_from(t, style, cur, done)) =~= runs_text(done) + cur + strip_codes(t) + Seq::<char>::empty());
    } else if t[0] == '\u{00A7}' && t.len() >= 2 {
        let rest = t.subrange(2, t.len() as int);
        let flushed = flush(done, cur, style);
        lemma_runs_from_text(rest, mc_apply(style, t[1]), Seq::empty(), flushed);
        if cur.len() > 0 {
            lemma_runs_text_push(done, (cur, style));
        } else {
            assert(cur =~= Seq::<char>::empty());
        }
        let tail: Seq<char> = if ends_with_lone_mark(rest) { seq!['\u{00A7}'] } else { Seq::empty() };
        assert(runs_text(flushed) + Seq::<char>::empty() + strip_codes(rest) + tail
            =~= runs_text(done) + cur + strip_codes(t) + tail);
    } else {
        let rest = t.subrange(1, t.len() as int);
        lemma_runs_from_text(rest, style, cur.push(t[0]), done);
        let tail: Seq<char> = if ends_with_lone_mark(rest) { seq!['\u{00A7}'] } else { Seq::empty() };
        if t[0] == '\u{00A7}' {
            assert(t.len() == 1);
            assert(rest.len() == 0);
            assert(runs_text(done) + cur.push(t[0]) + strip_codes(rest) + tail
                =~= runs_text(done) + cur + strip_codes(t) + seq!['\u{00A7}']);
        } else {
            assert(runs_text(done) + cur.push(t[0]) + strip_codes(rest) + tail
                =~= runs_text(done) + cur + strip_codes(t) + tail);
        }
    }
}

/// The runs of a formatted text hold its characters without the formatting
/// codes (a final `§` with no code after it stays), and none of them is empty.
pub proof fn lemma_runs_are_the_stripped_text(t: Seq<char>)
    ensures
        runs_text(mc_runs(t)) == strip_codes(t) + (if ends_with_lone_mark(t) { seq!['\u{00A7}'] } else { Seq::empty() }),
        forall|k: int| 0 <= k < mc_runs(t).len() ==> (#[trigger] mc_runs(t)[k]).0.len() > 0,
{
    lemma_runs_from_text(t, plain_style(), Seq::empty(), Seq::empty());
    assert(runs_text(Seq::<(Seq<char>, McStyle)>::empty()) + Seq::<char>::empty() =~= Seq::<char>::empty());
}

} // verus!
