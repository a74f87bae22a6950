use vstd::prelude::*;

verus! {

/// First row of the page that holds `cursor`, for pages of `rows` rows.
pub open spec fn page_start(cursor: int, rows: int) -> int {
    (cursor / rows) * rows
}

/// A page start is a multiple of the page size.
pub proof fn lemma_page_start_multiple(cursor: int, rows: int)
    requires
        rows > 0,
    ensures
        page_start(cursor, rows) % rows == 0,
{
    vstd::arithmetic::div_mod::lemma_mod_multiples_basic(cursor / rows, rows);
}

/// Offset of the visible window: the window advances a whole page of `rows`
/// rows at a time, so it is the largest multiple of `rows` not above `cursor`.
pub fn window_offset(cursor: usize, rows: usize) -> (r: usize)
    requires
        rows > 0,
    ensures
        r == page_start(cursor as int, rows as int),
        r % rows == 0,
        r <= cursor < r + rows,
{
    let q = cursor / rows;
    proof {
        let c = cursor as int;
        let n = rows as int;
        vstd::arithmetic::div_mod::lemma_fundamental_div_mod(c, n);
        vstd::arithmetic::div_mod::lemma_mod_bound(c, n);
        vstd::arithmetic::div_mod::lemma_mod_multiples_basic(c / n, n);
        assert((c / n) * n == n * (c / n)) by (nonlinear_arith);
    }
    let r = q * rows;
    r
}

/// Bounds `(start, end)` of the visible slice of a list of `len` entries:
/// the page of `rows` rows that holds `cursor`, cut at the end of the list.
pub fn visible_range(cursor: usize, rows: usize, len: usize) -> (r: (usize, usize))
    requires
        rows > 0,
        cursor <= len,
    ensures
        r.0 == page_start(cursor as int, rows as int),
        r.0 <= cursor < r.0 + rows,
        r.1 == if r.0 + rows <= len {
            r.0 + rows
        } else {
            len as int
        },
{
    let start = window_offset(cursor, rows);
    let end = if len - start >= rows {
        start + rows
    } else {
        len
    };
    (start, end)
}

/// Widest screen that shows no preview pane.
pub const MIN_SCREEN_WIDTH_FOR_PREVIEW: u16 = 80;

/// Whether a screen `width` cells wide shows the preview pane.
pub fn shows_preview(width: u16) -> (r: bool)
    ensures
        r == (width > MIN_SCREEN_WIDTH_FOR_PREVIEW),
{
    width > MIN_SCREEN_WIDTH_FOR_PREVIEW
}

/// Width of the picker pane in an area `area_width` cells wide: half of it
/// when the preview pane shows beside it, else all of it.
pub fn picker_width(area_width: u16, preview: bool) -> (r: u16)
    ensures
        r == if preview {
            area_width / 2
        } else {
            area_width
        },
{
    if preview {
        area_width / 2
    } else {
        area_width
    }
}

/// First line of a file shown in a preview pane `height` rows tall, so that
/// the target `line` (none: the top of the file) stands in the middle.
pub fn preview_first_line(line: Option<usize>, height: u16) -> (r: usize)
    ensures
        r == match line {
            None => 0,
            Some(l) => if l >= height / 2 {
                l - height / 2
            } else {
                0
            },
        },
{
    let target = match line {
        None => 0,
        Some(l) => l,
    };
    let half = (height / 2) as usize;
    if target >= half {
        target - half
    } else {
        0
    }
}

/// Row of the preview pane, counted from its top, that shows the target
/// `line` when the pane starts at `first_line`.
pub fn preview_highlight_row(line: usize, first_line: usize) -> (r: usize)
    ensures
        r == if line >= first_line {
            line - first_line
        } else {
            0
        },
{
    if line >= first_line {
        line - first_line
    } else {
        0
    }
}

/// A screen area: top-left corner and size, in cells.
#[derive(Clone, Copy, Debug, PartialEq, Eq, Structural)]
pub struct Rect {
    pub x: u16,
    pub y: u16,
    pub width: u16,
    pub height: u16,
}

/// The area inside `area` once a tenth of its width is taken off each side
/// and a tenth of its height off the top and the bottom (tenths rounded down).
pub fn inner_rect(area: Rect) -> (r: Rect)
    requires
        area.x + area.width <= u16::MAX,
        area.y + area.height <= u16::MAX,
    ensures
        r.x == area.x + area.width / 10,
        r.y == area.y + area.height / 10,
        r.width == area.width - 2 * (area.width / 10),
        r.height == area.height - 2 * (area.height / 10),
{
    let padding_vertical = area.height / 10;
    let padding_horizontal = area.width / 10;
    Rect {
        x: area.x + padding_horizontal,
        y: area.y + padding_vertical,
        width: area.width - padding_horizontal * 2,
        height: area.height - padding_vertical * 2,
    }
}

} // verus!
