//! How the rows of a content list are laid out: the pager under a long list,
//! the description text of a row, the lines that describe a world, the widths
//! left for descriptions and the width of an image icon.

use vstd::prelude::*;
use crate::list::Rect;
use crate::model::{ContentEntry, WorldDetails};
use crate::text::{decimal, decimal_string, trim, trim_spec, trim_end, trim_end_spec};

verus! {

// ---------------------------------------------------------------- rectangles

/// A rectangle at `x`, `y` whose size is cut so that it ends within the screen.
pub open spec fn rect_new_spec(x: u16, y: u16, width: u16, height: u16) -> Rect {
    Rect {
        x,
        y,
        width: (if x + width > u16::MAX { u16::MAX - x } else { width as int }) as u16,
        height: (if y + height > u16::MAX { u16::MAX - y } else { height as int }) as u16,
    }
}

/// `Rect::new`: a rectangle whose right and bottom edges stay on the screen.
pub fn rect_new(x: u16, y: u16, width: u16, height: u16) -> (r: Rect)
    ensures
        r == rect_new_spec(x, y, width, height),
{
    let w: u16 = if width > u16::MAX - x { u16::MAX - x } else { width };
    let h: u16 = if height > u16::MAX - y { u16::MAX - y } else { height };
    Rect { x, y, width: w, height: h }
}

/// The first row below a rectangle, at most the screen's last.
pub open spec fn rect_bottom(area: Rect) -> u16 {
    (if area.y + area.height > u16::MAX { u16::MAX as int } else { area.y + area.height }) as u16
}

/// The rows a content list item takes.
pub const ITEM_HEIGHT: u16 = 3;

/// Where the pager of a list in `area` with `item_count` items goes, and how
/// many items a page holds: none while every item fits.
pub open spec fn pagination_spec(area: Rect, item_count: usize) -> Option<(Rect, usize)> {
    let per_page = if area.height / ITEM_HEIGHT > 1 { area.height / ITEM_HEIGHT } else { 1 };
    if area.height < ITEM_HEIGHT + 1 || item_count <= per_page {
        None
    } else {
        let bottom = rect_bottom(area);
        Some((
            rect_new_spec(area.x, (if bottom >= 1 { bottom - 1 } else { 0 }) as u16, area.width, 1),
            per_page as usize,
        ))
    }
}

/// The list area and, for a list too long for it, its pager line and page size.
pub fn pagination_layout(area: Rect, item_count: usize) -> (r: (Rect, Option<(Rect, usize)>))
    ensures
        r.0 == area,
        r.1 == pagination_spec(area, item_count),
{
    let fit = area.height / ITEM_HEIGHT;
    let per_page: u16 = if fit > 1 { fit } else { 1 };
    if area.height < ITEM_HEIGHT + 1 || item_count <= per_page as usize {
        return (area, None);
    }
    let bottom: u16 = if area.height > u16::MAX - area.y { u16::MAX } else { area.y + area.height };
    let pager = rect_new(area.x, if bottom >= 1 { bottom - 1 } else { 0 }, area.width, 1);
    (area, Some((pager, per_page as usize)))
}

// ---------------------------------------------------------------- pager

/// The page labels of the pager for page `current` of `page_count`: up to four
/// first pages near the start, else the first page, a gap when pages lie
/// between, and three pages around the current one. `None` is a gap.
pub open spec fn pager_spec(current: usize, page_count: usize) -> Seq<Option<usize>> {
    if page_count == 0 {
        seq![]
    } else {
        let core_len: int = if page_count < 3 { page_count as int } else { 3 };
        let cur: int = if current < page_count - 1 { current as int } else { page_count - 1 };
        if cur < 3 {
            Seq::new(if page_count < 4 { page_count as nat } else { 4 }, |i: int| Some(i as usize))
        } else {
            let core_start: int = if cur - 1 < page_count - core_len { cur - 1 } else { page_count - core_len };
            let head: Seq<Option<usize>> = if core_start > 1 {
                seq![Some(0usize), None]
            } else if core_start > 0 {
                seq![Some(0usize)]
            } else {
                seq![]
            };
            head + Seq::new(core_len as nat, |i: int| Some((core_start + i) as usize))
        }
    }
}

/// The page labels the pager shows.
pub fn pager_pages(current: usize, page_count: usize) -> (r: Vec<Option<usize>>)
    ensures
        r@ == pager_spec(current, page_count),
{
    let mut pages: Vec<Option<usize>> = Vec::new();
    if page_count == 0 {
        assert(pages@ =~= pager_spec(current, page_count));
        return pages;
    }
    let core_len: usize = if page_count < 3 { page_count } else { 3 };
    let cur: usize = if current < page_count - 1 { current } else { page_count - 1 };
    if cur < 3 {
        let n: usize = if page_count < 4 { page_count } else { 4 };
        let mut i: usize = 0;
        while i < n
            invariant
                i <= n,
                n <= 4,
                pages@ =~= Seq::new(i as nat, |k: int| Some(k as usize)),
            decreases n - i,
        {
            pages.push(Some(i));
            i = i + 1;
        }
        return pages;
    }
    let core_start: usize = if cur - 1 < page_count - core_len { cur - 1 } else { page_count - core_len };
    if core_start > 0 {
        pages.push(Some(0));
        if core_start > 1 {
            pages.push(None);
        }
    }
    let ghost head = pages@;
    let mut i: usize = 0;
    while i < core_len
        invariant
            i <= core_len,
            core_len <= 3,
            core_start + core_len <= page_count,
            pages@ =~= head + Seq::new(i as nat, |k: int| Some((core_start + k) as usize)),
        decreases core_len - i,
    {
        pages.push(Some(core_start + i));
        i = i + 1;
    }
    pages
}

// ---------------------------------------------------------------- descriptions

/// Text without Minecraft formatting codes: each '§' and the character after it go.
pub open spec fn strip_codes(s: Seq<char>) -> Seq<char>
    decreases s.len(),
{
    if s.len() == 0 {
        s
    } else if s[0] == '\u{00A7}' {
        if s.len() >= 2 {
            strip_codes(s.subrange(2, s.len() as int))
        } else {
            seq![]
        }
    } else {
        seq![s[0]] + strip_codes(s.subrange(1, s.len() as int))
    }
}

/// `text` without its Minecraft formatting codes.
pub fn strip_mc_codes(text: &str) -> (r: String)
    ensures
        r@ == strip_codes(text@),
{
    let n = text.unicode_len();
    let mut out = String::new();
    let mut i: usize = 0;
    assert(text@.subrange(0, n as int) =~= text@);
    while i < n
        invariant
            i <= n,
            n == text@.len(),
            strip_codes(text@) == out@ + strip_codes(text@.subrange(i as int, n as int)),
        decreases n - i,
    {
        let c = text.get_char(i);
        let ghost rest = text@.subrange(i as int, n as int);
        assert(rest[0] == c);
        if c == '\u{00A7}' {
            if n - i >= 2 {
                assert(rest.subrange(2, rest.len() as int) =~= text@.subrange(i + 2, n as int));
                i = i + 2;
            } else {
                assert(strip_codes(rest) =~= Seq::<char>::empty());
                assert(text@.subrange(n as int, n as int) =~= Seq::<char>::empty());
                i = n;
            }
        } else {
            assert(rest.subrange(1, rest.len() as int) =~= text@.subrange(i + 1, n as int));
            crate::text::push_char(&mut out, c);
            assert(out@ + strip_codes(text@.subrange(i + 1, n as int)) =~= out@.drop_last() + (seq![c]
                + strip_codes(text@.subrange(i + 1, n as int))));
            i = i + 1;
        }
    }
    assert(text@.subrange(n as int, n as int) =~= Seq::<char>::empty());
    assert(out@ + Seq::<char>::empty() =~= out@);
    out
}

/// The description a row shows, and whether it has one.
#[derive(Debug)]
pub struct DisplayMetadata {
    pub description: String,
    pub has_description: bool,
}

/// The shown description of a row: without formatting codes, trimmed.
pub open spec fn shown_description(entry: ContentEntry) -> Seq<char> {
    trim_spec(strip_codes(entry.description@))
}

/// The description of a row as it is drawn.
pub fn display_metadata(entry: &ContentEntry) -> (r: DisplayMetadata)
    ensures
        r.description@ == shown_description(*entry),
        r.has_description == (shown_description(*entry).len() > 0),
{
    let stripped = strip_mc_codes(entry.description.as_str());
    let description = trim(stripped.as_str());
    let has_description = description.as_str().unicode_len() > 0;
    DisplayMetadata { description, has_description }
}

// ---------------------------------------------------------------- worlds

/// The first line under a world's name: its version and size, whichever it has.
pub open spec fn world_summary(details: WorldDetails) -> Seq<char> {
    match (details.minecraft_version, details.size) {
        (Some(v), Some(s)) => v@ + "  •  "@ + s@,
        (Some(v), None) => v@,
        (None, Some(s)) => s@,
        (None, None) => seq![],
    }
}

/// The lines under a world's name: the summary when it has one, up to three of
/// its datapacks, and how many more it has.
pub open spec fn world_lines(details: WorldDetails) -> Seq<Seq<char>> {
    let summary = world_summary(details);
    let packs = details.datapacks@;
    let shown: int = if packs.len() < 3 { packs.len() as int } else { 3 };
    (if summary.len() > 0 { seq![summary] } else { seq![] })
        + Seq::new(shown as nat, |i: int| "  • "@ + packs[i]@)
        + (if packs.len() > 3 { seq!["  +"@ + decimal((packs.len() - 3) as nat) + " more"@] } else { seq![] })
}

/// The description lines of a world row.
pub fn world_descriptions(details: &WorldDetails) -> (r: Vec<String>)
    ensures
        r@.map_values(|s: String| s@) == world_lines(*details),
{
    let summary = match (&details.minecraft_version, &details.size) {
        (Some(v), Some(s)) => {
            let mut t = v.clone();
            t.append("  •  ");
            t.append(s.as_str());
            t
        },
        (Some(v), None) => v.clone(),
        (None, Some(s)) => s.clone(),
        (None, None) => String::new(),
    };
    assert(summary@ == world_summary(*details));
    let mut lines: Vec<String> = Vec::new();
    if summary.as_str().unicode_len() > 0 {
        lines.push(summary);
    }
    let ghost head = lines@.map_values(|s: String| s@);
    let count = details.datapacks.len();
    let shown: usize = if count < 3 { count } else { 3 };
    let mut i: usize = 0;
    while i < shown
        invariant
            i <= shown,
            shown <= 3,
            shown <= details.datapacks@.len(),
            lines@.map_values(|s: String| s@) =~= head + Seq::new(i as nat, |k: int| "  • "@ + details.datapacks@[k]@),
        decreases shown - i,
    {
        let mut t = String::from_str("  • ");
        t.append(details.datapacks[i].as_str());
        let ghost before = lines@;
        let ghost tv = t@;
        lines.push(t);
        assert(lines@.map_values(|s: String| s@) =~= before.map_values(|s: String| s@).push(tv));
        i = i + 1;
    }
    let ghost middle = lines@.map_values(|s: String| s@);
    if count > 3 {
        let mut t = String::from_str("  +");
        let n = decimal_string((count - 3) as u64);
        t.append(n.as_str());
        t.append(" more");
        let ghost before = lines@;
        let ghost tv = t@;
        lines.push(t);
        assert(lines@.map_values(|s: String| s@) =~= before.map_values(|s: String| s@).push(tv));
        assert(lines@.map_values(|s: String| s@) =~= middle + seq![tv]);
    } else {
        assert(lines@.map_values(|s: String| s@) =~= middle + Seq::<Seq<char>>::empty());
    }
    assert(head =~= (if world_summary(*details).len() > 0 { seq![world_summary(*details)] } else { Seq::<Seq<char>>::empty() }));
    assert(lines@.map_values(|s: String| s@) =~= world_lines(*details));
    lines
}

// ---------------------------------------------------------------- widths

/// The terminal columns a text takes, as `ratatui` measures it (Unicode display
/// width).
pub uninterp spec fn text_width(s: Seq<char>) -> usize;

/// `ratatui::text::Span::width` of a span holding `s`: its display width, a
/// function of the characters alone.
#[verifier::external_body]
fn span_width(s: &str) -> (r: usize)
    ensures
        r == text_width(s@),
{
    ratatui::text::Span::raw(s).width()
}

/// The display width of each prefix of `t`, from the empty one to `t` itself.
pub open spec fn prefix_widths(t: Seq<char>) -> Seq<usize> {
    Seq::new((t.len() + 1) as nat, |k: int| text_width(t.take(k)))
}

/// How many leading characters of a text of `n` characters stay when it is cut
/// to `width` columns, given the width `ws[k]` of each prefix of `k` characters
/// and looking from position `k` on: up to the first character whose prefix is
/// wider than `width`, all of them when there is none.
pub open spec fn kept_chars(ws: Seq<usize>, n: int, width: int, k: int) -> int
    decreases n - k,
{
    if k < 0 || k >= n {
        n
    } else if ws[k + 1] > width {
        k
    } else {
        kept_chars(ws, n, width, k + 1)
    }
}

/// `n` dots.
pub open spec fn dots(n: nat) -> Seq<char> {
    Seq::new(n, |i: int| '.')
}

/// A text cut to `max_width` columns, given the width `ws[k]` of each of its
/// prefixes of `k` characters: unchanged when it fits; else only dots when there
/// is room for three at most; else the longest prefix that fits in the columns
/// before three dots, without its trailing whitespace, and the dots.
pub open spec fn ellipsized(t: Seq<char>, max_width: usize, ws: Seq<usize>) -> Seq<char> {
    if ws[t.len() as int] <= max_width {
        t
    } else if max_width <= 3 {
        dots(max_width as nat)
    } else {
        trim_end_spec(t.take(kept_chars(ws, t.len() as int, max_width - 3, 0))) + seq!['.', '.', '.']
    }
}

/// `text` cut to `max_width` columns, ending in dots when it had to be cut, where
/// `widths[k]` is the display width of the first `k` characters.
pub fn ellipsize_by_widths(text: &str, max_width: usize, widths: &Vec<usize>) -> (r: String)
    requires
        widths@.len() == text@.len() + 1,
    ensures
        r@ == ellipsized(text@, max_width, widths@),
{
    let n = text.unicode_len();
    if widths[n] <= max_width {
        return crate::text::owned(text);
    }
    if max_width <= 3 {
        let mut out = String::new();
        let mut i: usize = 0;
        while i < max_width
            invariant
                i <= max_width,
                out@ == dots(i as nat),
            decreases max_width - i,
        {
            crate::text::push_char(&mut out, '.');
            assert(out@ =~= dots((i + 1) as nat));
            i = i + 1;
        }
        return out;
    }
    let content_width = max_width - 3;
    let mut k: usize = 0;
    while k < n
        invariant_except_break
            k <= n,
            n == text@.len(),
            widths@.len() == n + 1,
            kept_chars(widths@, n as int, content_width as int, 0) == kept_chars(widths@, n as int, content_width as int, k as int),
        ensures
            k <= n,
            kept_chars(widths@, n as int, content_width as int, 0) == k,
        decreases n - k,
    {
        if widths[k + 1] > content_width {
            break;
        }
        k = k + 1;
    }
    let visible = crate::text::substring(text, 0, k);
    assert(visible@ == text@.take(k as int));
    let mut out = trim_end(visible.as_str());
    out.append("...");
    proof {
        reveal_strlit("...");
    }
    out
}

/// `text` cut to `max_width` display columns, ending in dots when it had to be cut.
pub fn ellipsize(text: &str, max_width: usize) -> (r: String)
    ensures
        r@ == ellipsized(text@, max_width, prefix_widths(text@)),
{
    let n = text.unicode_len();
    let mut widths: Vec<usize> = Vec::new();
    let mut k: usize = 0;
    loop
        invariant_except_break
            k <= n,
            n == text@.len(),
            widths@.len() == k,
            forall|j: int| 0 <= j < k ==> #[trigger] widths@[j] == text_width(text@.take(j)),
        ensures
            widths@.len() == n + 1,
            forall|j: int| 0 <= j <= n ==> #[trigger] widths@[j] == text_width(text@.take(j)),
        decreases n - k,
    {
        let prefix = crate::text::substring(text, 0, k);
        assert(prefix@ == text@.take(k as int));
        widths.push(span_width(prefix.as_str()));
        if k == n {
            break;
        }
        k = k + 1;
    }
    assert(widths@ =~= prefix_widths(text@));
    ellipsize_by_widths(text, max_width, &widths)
}

/// The columns left for a row's description beside its selector, scrollbar and icon.
pub fn available_description_width(row_width: usize, rendered_icon_columns: usize, has_icon: bool) -> (r: usize)
    requires
        has_icon ==> rendered_icon_columns + 3 <= usize::MAX,
    ensures
        r == (if row_width >= 2 + (if has_icon { rendered_icon_columns + 1 } else { 0 }) {
            row_width - (2 + (if has_icon { rendered_icon_columns + 1 } else { 0 }))
        } else {
            0
        }),
{
    let used: usize = 2 + if has_icon { rendered_icon_columns + 1 } else { 0 };
    if row_width >= used { row_width - used } else { 0 }
}

/// The columns left for the description text beside a footer of `footer_width`,
/// with a space between them when both are drawn.
pub fn description_text_width(available_width: usize, footer_width: usize, has_description: bool) -> (r: usize)
    requires
        has_description && footer_width > 0 ==> footer_width + 1 <= usize::MAX,
    ensures
        r == (if available_width >= footer_width + (if has_description && footer_width > 0 { 1int } else { 0 }) {
            available_width - footer_width - (if has_description && footer_width > 0 { 1int } else { 0 })
        } else {
            0
        }),
{
    let used: usize = footer_width + if has_description && footer_width > 0 { 1 } else { 0 };
    if available_width >= used { available_width - used } else { 0 }
}

/// The terminal columns an image icon `rows` cells high takes to look square
/// with cells of `font_size` (width, height) pixels: rounded, at least one.
pub open spec fn square_columns(rows: u16, font_size: (u16, u16)) -> int {
    let width: int = if font_size.0 > 1 { font_size.0 as int } else { 1 };
    let height: int = if font_size.1 > 1 { font_size.1 as int } else { 1 };
    let q = (rows * height + width / 2) / width;
    if q > 1 { q } else { 1 }
}

/// The columns of a square image icon, cut to `u16`.
pub fn square_icon_columns(rows: u16, font_size: (u16, u16)) -> (r: u16)
    ensures
        r == (square_columns(rows, font_size) as u16),
{
    let width: u32 = if font_size.0 > 1 { font_size.0 as u32 } else { 1 };
    let height: u32 = if font_size.1 > 1 { font_size.1 as u32 } else { 1 };
    let r32 = rows as u32;
    assert(r32 * height <= 65535 * 65535) by (nonlinear_arith)
        requires
            r32 <= 65535,
            height <= 65535,
    ;
    let q = (r32 * height + width / 2) / width;
    let q1: u32 = if q > 1 { q } else { 1 };
    q1 as u16
}

/// The rows a list item takes: its icon's rows, and at least two when it has a
/// second line (a description, a footer or world details), else one; cut to `u16`.
pub open spec fn entry_height_spec(e: ContentEntry) -> u16 {
    let icon_rows: int = match e.icon_lines { Some(l) => l@.len() as int, None => 0 };
    let second = shown_description(e).len() > 0 || e.footer_label is Some || e.world_details is Some;
    let text_rows: int = if second { 2 } else { 1 };
    (if icon_rows > text_rows { icon_rows } else { text_rows }) as u16
}

/// The rows a list item takes.
pub fn entry_height(e: &ContentEntry) -> (r: u16)
    ensures
        r == entry_height_spec(*e),
{
    let icon_rows: usize = match &e.icon_lines { Some(l) => l.len(), None => 0 };
    let metadata = display_metadata(e);
    let second = metadata.has_description || e.footer_label.is_some() || e.world_details.is_some();
    let text_rows: usize = if second { 2 } else { 1 };
    let rows: usize = if icon_rows > text_rows { icon_rows } else { text_rows };
    rows as u16
}

} // verus!
