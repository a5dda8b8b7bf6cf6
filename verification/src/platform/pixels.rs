//! Finding a selection highlight in captured screen pixels: which pixels
//! look like the highlight colour, which rows hold enough of them, and how
//! neighbouring rows make up the candidate boxes. Coordinates are screen
//! pixels; the desktop shell turns the boxes into window geometry.
use std::collections::HashMap;
use vstd::prelude::*;

verus! {

/// A block of screen pixels read into memory, in BGRA order, row by row.
pub struct PixelBuffer {
    pub origin_x: i32,
    pub origin_y: i32,
    pub width: i32,
    pub height: i32,
    pub bgra: Vec<u8>,
}

/// The widest region captured for the highlight search, in pixels.
pub const MAX_CAPTURE_WIDTH: i32 = 6000;
/// The tallest region captured for the highlight search, in pixels.
pub const MAX_CAPTURE_HEIGHT: i32 = 4000;

/// A region of this size is captured: it is not empty and within
/// `MAX_CAPTURE_WIDTH` by `MAX_CAPTURE_HEIGHT` pixels.
pub fn capture_size_fits(width: i32, height: i32) -> (r: bool)
    ensures
        r == (0 < width <= MAX_CAPTURE_WIDTH && 0 < height <= MAX_CAPTURE_HEIGHT),
{
    width > 0 && height > 0 && width <= MAX_CAPTURE_WIDTH && height <= MAX_CAPTURE_HEIGHT
}

/// The colour of the screen pixel `(x, y)`, where the buffer holds it.
pub open spec fn pixel_at(b: &PixelBuffer, x: int, y: int) -> Option<(u8, u8, u8)> {
    let lx = x - b.origin_x;
    let ly = y - b.origin_y;
    if lx < 0 || ly < 0 || lx >= b.width || ly >= b.height {
        None
    } else {
        let index = (ly * b.width + lx) * 4;
        if index + 4 > b.bgra@.len() {
            None
        } else {
            Some((b.bgra@[index + 2], b.bgra@[index + 1], b.bgra@[index]))
        }
    }
}

impl PixelBuffer {
    /// The colour at a screen pixel (see `pixel_at`).
    pub fn pixel(&self, screen_x: i32, screen_y: i32) -> (r: Option<(u8, u8, u8)>)
        ensures
            r == pixel_at(self, screen_x as int, screen_y as int),
    {
        let local_x: i64 = screen_x as i64 - self.origin_x as i64;
        let local_y: i64 = screen_y as i64 - self.origin_y as i64;
        if local_x < 0 || local_y < 0 || local_x >= self.width as i64 || local_y >= self.height as i64 {
            return None;
        }
        let ly: u64 = local_y as u64;
        let lx: u64 = local_x as u64;
        let w: u64 = self.width as u64;
        assert(ly * w <= 0x7fff_fffe * 0x7fff_ffff) by (nonlinear_arith)
            requires
                ly <= 0x7fff_fffe,
                w <= 0x7fff_ffff,
        ;
        let index: u64 = (ly * w + lx) * 4;
        if index + 4 > self.bgra.len() as u64 {
            return None;
        }
        let i = index as usize;
        Some((self.bgra[i + 2], self.bgra[i + 1], self.bgra[i]))
    }
}

pub open spec fn abs_diff(a: u8, b: u8) -> int {
    if a >= b {
        a - b
    } else {
        b - a
    }
}

/// Two colours are close: each channel within 28, together within 72.
pub open spec fn spec_colors_are_close(a: (u8, u8, u8), b: (u8, u8, u8)) -> bool {
    &&& abs_diff(a.0, b.0) <= 28
    &&& abs_diff(a.1, b.1) <= 28
    &&& abs_diff(a.2, b.2) <= 28
    &&& abs_diff(a.0, b.0) + abs_diff(a.1, b.1) + abs_diff(a.2, b.2) <= 72
}

pub fn colors_are_close(a: (u8, u8, u8), b: (u8, u8, u8)) -> (r: bool)
    ensures
        r == spec_colors_are_close(a, b),
{
    let red: u16 = if a.0 >= b.0 { (a.0 - b.0) as u16 } else { (b.0 - a.0) as u16 };
    let green: u16 = if a.1 >= b.1 { (a.1 - b.1) as u16 } else { (b.1 - a.1) as u16 };
    let blue: u16 = if a.2 >= b.2 { (a.2 - b.2) as u16 } else { (b.2 - a.2) as u16 };
    red <= 28 && green <= 28 && blue <= 28 && red + green + blue <= 72
}

pub open spec fn max3(a: u8, b: u8, c: u8) -> int {
    if a >= b && a >= c {
        a as int
    } else if b >= c {
        b as int
    } else {
        c as int
    }
}

pub open spec fn min3(a: u8, b: u8, c: u8) -> int {
    if a <= b && a <= c {
        a as int
    } else if b <= c {
        b as int
    } else {
        c as int
    }
}

/// A colour looks like a selection highlight: neither too dark nor too
/// bright, and tinted (its strongest and weakest channels 24 or more apart).
pub open spec fn spec_looks_like_highlight(c: (u8, u8, u8)) -> bool {
    let brightness = c.0 + c.1 + c.2;
    90 < brightness < 700 && max3(c.0, c.1, c.2) - min3(c.0, c.1, c.2) >= 24
}

pub fn selection_color_looks_like_highlight(color: &(u8, u8, u8)) -> (r: bool)
    ensures
        r == spec_looks_like_highlight(*color),
{
    let (red, green, blue) = *color;
    let brightness: u16 = red as u16 + green as u16 + blue as u16;
    let strongest: u8 = if red >= green && red >= blue {
        red
    } else if green >= blue {
        green
    } else {
        blue
    };
    let weakest: u8 = if red <= green && red <= blue {
        red
    } else if green <= blue {
        green
    } else {
        blue
    };
    brightness > 90 && brightness < 700 && strongest - weakest >= 24
}

/// A screen area left out of the search (the assistant's own windows), by
/// its inclusive pixel bounds.
#[derive(Debug, Clone, Copy, PartialEq, Eq)]
pub struct ExcludedArea {
    pub left: i64,
    pub top: i64,
    pub right: i64,
    pub bottom: i64,
}

pub open spec fn in_area(a: ExcludedArea, x: int, y: int) -> bool {
    a.left <= x <= a.right && a.top <= y <= a.bottom
}

pub open spec fn in_any_area(areas: Seq<ExcludedArea>, x: int, y: int) -> bool {
    exists|i: int| 0 <= i < areas.len() && in_area(#[trigger] areas[i], x, y)
}

fn point_in_any_area(x: i64, y: i64, areas: &Vec<ExcludedArea>) -> (r: bool)
    ensures
        r == in_any_area(areas@, x as int, y as int),
{
    let mut i: usize = 0;
    while i < areas.len()
        invariant
            i <= areas@.len(),
            forall|k: int| 0 <= k < i ==> !in_area(#[trigger] areas@[k], x as int, y as int),
        decreases areas.len() - i,
    {
        let a = areas[i];
        if a.left <= x && x <= a.right && a.top <= y && y <= a.bottom {
            assert(in_area(areas@[i as int], x as int, y as int));
            return true;
        }
        i = i + 1;
    }
    false
}

/// A pixel counts: it is outside the excluded areas, the buffer holds it,
/// and its colour is close to the highlight colour.
pub open spec fn pixel_matches(
    b: &PixelBuffer,
    areas: Seq<ExcludedArea>,
    color: (u8, u8, u8),
    x: int,
    y: int,
) -> bool {
    !in_any_area(areas, x, y) && match pixel_at(b, x, y) {
        Some(p) => spec_colors_are_close(p, color),
        None => false,
    }
}

/// What a row holds from `left` up to (not including) `x`: how many pixels
/// count, the current and the longest run of counting pixels, and the first
/// and last counting column.
pub open spec fn row_stats(
    b: &PixelBuffer,
    areas: Seq<ExcludedArea>,
    color: (u8, u8, u8),
    y: int,
    left: int,
    x: int,
) -> (int, int, int, Option<int>, Option<int>)
    decreases x - left,
{
    if x <= left {
        (0, 0, 0, None, None)
    } else {
        let (count, run, longest, first, last) = row_stats(b, areas, color, y, left, x - 1);
        if pixel_matches(b, areas, color, x - 1, y) {
            (
                count + 1,
                run + 1,
                if run + 1 > longest {
                    run + 1
                } else {
                    longest
                },
                if first is Some {
                    first
                } else {
                    Some(x - 1)
                },
                Some(x - 1),
            )
        } else {
            (count, 0, longest, first, last)
        }
    }
}

/// A row of the search that holds enough of the highlight: its y, the
/// first and last counting column, and how many pixels count.
#[derive(Debug, Clone, Copy, PartialEq, Eq)]
pub struct RowMatch {
    pub y: i64,
    pub min_x: i64,
    pub max_x: i64,
    pub count: i64,
}

/// The match of row `y` over `[left, right)`, if at least 18 pixels count
/// and 14 of them follow one another.
pub open spec fn row_match(
    b: &PixelBuffer,
    areas: Seq<ExcludedArea>,
    color: (u8, u8, u8),
    y: int,
    left: int,
    right: int,
) -> Option<(int, int, int, int)> {
    let (count, _run, longest, first, last) = row_stats(b, areas, color, y, left, right);
    if count >= 18 && longest >= 14 {
        Some(
            (
                y,
                match first {
                    Some(f) => f,
                    None => left,
                },
                match last {
                    Some(l) => l,
                    None => left,
                },
                count,
            ),
        )
    } else {
        None
    }
}

/// The matching rows among `[top, y)`, top to bottom.
pub open spec fn row_matches(
    b: &PixelBuffer,
    areas: Seq<ExcludedArea>,
    color: (u8, u8, u8),
    left: int,
    right: int,
    top: int,
    y: int,
) -> Seq<(int, int, int, int)>
    decreases y - top,
{
    if y <= top {
        seq![]
    } else {
        let before = row_matches(b, areas, color, left, right, top, y - 1);
        match row_match(b, areas, color, y - 1, left, right) {
            Some(m) => before.push(m),
            None => before,
        }
    }
}

pub open spec fn row_view(r: RowMatch) -> (int, int, int, int) {
    (r.y as int, r.min_x as int, r.max_x as int, r.count as int)
}

proof fn lemma_row_stats_bounds(
    b: &PixelBuffer,
    areas: Seq<ExcludedArea>,
    color: (u8, u8, u8),
    y: int,
    left: int,
    x: int,
)
    requires
        left <= x,
    ensures
        ({
            let (count, run, longest, first, last) = row_stats(b, areas, color, y, left, x);
            &&& 0 <= run <= longest <= count <= x - left
            &&& first matches Some(f) ==> left <= f < x
            &&& last matches Some(l) ==> left <= l < x
        }),
    decreases x - left,
{
    if x > left {
        lemma_row_stats_bounds(b, areas, color, y, left, x - 1);
    }
}

/// The match of one row (see `row_match`).
fn scan_row(
    buffer: &PixelBuffer,
    areas: &Vec<ExcludedArea>,
    color: (u8, u8, u8),
    y: i32,
    left: i32,
    right: i32,
) -> (r: Option<RowMatch>)
    ensures
        match row_match(buffer, areas@, color, y as int, left as int, right as int) {
            Some(m) => r matches Some(x) && row_view(x) == m,
            None => r is None,
        },
{
    let mut count: i64 = 0;
    let mut run: i64 = 0;
    let mut longest: i64 = 0;
    let mut first: Option<i64> = None;
    let mut last: Option<i64> = None;
    if left >= right {
        return None;
    }
    let mut x: i32 = left;
    while x < right
        invariant
            left <= x <= right,
            (count as int, run as int, longest as int, match first {
                Some(f) => Some(f as int),
                None => None::<int>,
            }, match last {
                Some(l) => Some(l as int),
                None => None::<int>,
            }) == row_stats(buffer, areas@, color, y as int, left as int, x as int),
        decreases right - x,
    {
        proof {
            lemma_row_stats_bounds(buffer, areas@, color, y as int, left as int, x as int);
        }
        let matches = !point_in_any_area(x as i64, y as i64, areas) && match buffer.pixel(x, y) {
            Some(p) => colors_are_close(p, color),
            None => false,
        };
        if matches {
            count = count + 1;
            run = run + 1;
            if run > longest {
                longest = run;
            }
            if first.is_none() {
                first = Some(x as i64);
            }
            last = Some(x as i64);
        } else {
            run = 0;
        }
        x = x + 1;
    }
    if count >= 18 && longest >= 14 {
        let min_x = match first {
            Some(f) => f,
            None => left as i64,
        };
        let max_x = match last {
            Some(l) => l,
            None => left as i64,
        };
        Some(RowMatch { y: y as i64, min_x, max_x, count })
    } else {
        None
    }
}

/// The matching rows of the search area `[left, right) x [top, bottom)`
/// (see `row_matches`).
pub fn scan_rows(
    buffer: &PixelBuffer,
    areas: &Vec<ExcludedArea>,
    color: (u8, u8, u8),
    left: i32,
    right: i32,
    top: i32,
    bottom: i32,
) -> (r: Vec<RowMatch>)
    ensures
        r@.map_values(|m: RowMatch| row_view(m)) == row_matches(
            buffer,
            areas@,
            color,
            left as int,
            right as int,
            top as int,
            bottom as int,
        ),
{
    let mut rows: Vec<RowMatch> = Vec::new();
    if top >= bottom {
        assert(rows@.map_values(|m: RowMatch| row_view(m)) =~= Seq::empty());
        return rows;
    }
    let mut y: i32 = top;
    assert(rows@.map_values(|m: RowMatch| row_view(m)) =~= Seq::empty());
    while y < bottom
        invariant
            top <= y <= bottom,
            rows@.map_values(|m: RowMatch| row_view(m)) == row_matches(
                buffer,
                areas@,
                color,
                left as int,
                right as int,
                top as int,
                y as int,
            ),
        decreases bottom - y,
    {
        let ghost before = rows@;
        match scan_row(buffer, areas, color, y, left, right) {
            Some(m) => {
                rows.push(m);
                assert(rows@.map_values(|m: RowMatch| row_view(m)) =~= before.map_values(
                    |m: RowMatch| row_view(m),
                ).push(row_view(m)));
            },
            None => {},
        }
        y = y + 1;
    }
    rows
}

/// A candidate highlight box, in screen pixels.
#[derive(Debug, Clone, Copy, PartialEq, Eq)]
pub struct PixelBox {
    pub x: i64,
    pub y: i64,
    pub width: i64,
    pub height: i64,
}

/// One past the last row of the group that reaches row `j`: rows join a
/// group while each is at most 4 pixels below the one before.
pub open spec fn group_end(rows: Seq<(int, int, int, int)>, j: int) -> int
    decreases rows.len() - j,
{
    if 1 <= j < rows.len() && rows[j].0 - rows[j - 1].0 <= 4 {
        group_end(rows, j + 1)
    } else {
        j
    }
}

pub open spec fn range_min_x(rows: Seq<(int, int, int, int)>, i: int, e: int) -> int
    decreases e - i,
{
    if e <= i + 1 {
        rows[i].1
    } else {
        let m = range_min_x(rows, i, e - 1);
        if rows[e - 1].1 < m {
            rows[e - 1].1
        } else {
            m
        }
    }
}

pub open spec fn range_max_x(rows: Seq<(int, int, int, int)>, i: int, e: int) -> int
    decreases e - i,
{
    if e <= i + 1 {
        rows[i].2
    } else {
        let m = range_max_x(rows, i, e - 1);
        if rows[e - 1].2 > m {
            rows[e - 1].2
        } else {
            m
        }
    }
}

pub open spec fn range_count(rows: Seq<(int, int, int, int)>, i: int, e: int) -> int
    decreases e - i,
{
    if e <= i {
        0
    } else {
        range_count(rows, i, e - 1) + rows[e - 1].3
    }
}

/// The boxes the groups of rows from `i` on make, top to bottom: a group
/// is kept where it is at least 20 wide and 8 high and holds at least 160
/// counting pixels.
pub open spec fn group_boxes(rows: Seq<(int, int, int, int)>, i: int) -> Seq<(int, int, int, int)>
    decreases rows.len() - i, 1int,
{
    if i < 0 || i >= rows.len() {
        seq![]
    } else {
        let e = group_end(rows, i + 1);
        proof {
            lemma_group_end_bounds(rows, i + 1);
        }
        let min_x = range_min_x(rows, i, e);
        let max_x = range_max_x(rows, i, e);
        let width = max_x - min_x + 1;
        let height = rows[e - 1].0 - rows[i].0 + 1;
        let rest = group_boxes(rows, e);
        if width >= 20 && height >= 8 && range_count(rows, i, e) >= 160 {
            seq![(min_x, rows[i].0, width, height)] + rest
        } else {
            rest
        }
    }
}

pub proof fn lemma_group_end_bounds(rows: Seq<(int, int, int, int)>, j: int)
    ensures
        1 <= j <= rows.len() ==> j <= group_end(rows, j) <= rows.len(),
        !(1 <= j <= rows.len()) ==> group_end(rows, j) == j,
    decreases rows.len() - j,
{
    if 1 <= j < rows.len() && rows[j].0 - rows[j - 1].0 <= 4 {
        lemma_group_end_bounds(rows, j + 1);
    }
}

pub open spec fn box_view(b: PixelBox) -> (int, int, int, int) {
    (b.x as int, b.y as int, b.width as int, b.height as int)
}

/// The rows of a search are each a row of the area, top to bottom, with
/// their columns inside it and their counts bounded by its width.
pub open spec fn rows_in_area(rows: Seq<(int, int, int, int)>, left: int, right: int, top: int, bottom: int) -> bool {
    &&& forall|k: int|
        0 <= k < rows.len() ==> top <= (#[trigger] rows[k]).0 < bottom && left <= rows[k].1
            <= rows[k].2 < right && 0 <= rows[k].3 <= right - left
    &&& forall|a: int, c: int| 0 <= a < c < rows.len() ==> (#[trigger] rows[a]).0 < (#[trigger] rows[c]).0
}

proof fn lemma_row_matches_in_area(
    b: &PixelBuffer,
    areas: Seq<ExcludedArea>,
    color: (u8, u8, u8),
    left: int,
    right: int,
    top: int,
    y: int,
)
    requires
        left <= right,
        top <= y,
    ensures
        rows_in_area(row_matches(b, areas, color, left, right, top, y), left, right, top, y),
    decreases y - top,
{
    if y > top {
        lemma_row_matches_in_area(b, areas, color, left, right, top, y - 1);
        lemma_row_stats_bounds(b, areas, color, y - 1, left, right);
        let (count, run, longest, first, last) = row_stats(b, areas, color, y - 1, left, right);
        if count > 0 {
            lemma_row_stats_first_last(b, areas, color, y - 1, left, right);
        }
    }
}

proof fn lemma_row_stats_first_last(
    b: &PixelBuffer,
    areas: Seq<ExcludedArea>,
    color: (u8, u8, u8),
    y: int,
    left: int,
    x: int,
)
    requires
        left <= x,
    ensures
        ({
            let (count, run, longest, first, last) = row_stats(b, areas, color, y, left, x);
            &&& count > 0 ==> first is Some && last is Some
            &&& (first is Some && last is Some) ==> first->Some_0 <= last->Some_0
            &&& count == 0 ==> first is None && last is None
        }),
    decreases x - left,
{
    if x > left {
        lemma_row_stats_first_last(b, areas, color, y, left, x - 1);
        lemma_row_stats_bounds(b, areas, color, y, left, x - 1);
    }
}

/// The candidate boxes of the matching rows (see `group_boxes`).
fn group_rows(rows: &Vec<RowMatch>, Ghost(area): Ghost<(int, int, int, int)>) -> (r: Vec<PixelBox>)
    requires
        rows_in_area(rows@.map_values(|m: RowMatch| row_view(m)), area.0, area.1, area.2, area.3),
        i32::MIN <= area.0 <= area.1 <= i32::MAX + 1,
        i32::MIN <= area.2 <= area.3 <= i32::MAX + 1,
    ensures
        r@.map_values(|x: PixelBox| box_view(x)) == group_boxes(
            rows@.map_values(|m: RowMatch| row_view(m)),
            0,
        ),
{
    let ghost rv = rows@.map_values(|m: RowMatch| row_view(m));
    let mut boxes: Vec<PixelBox> = Vec::new();
    let mut index: usize = 0;
    assert(boxes@.map_values(|x: PixelBox| box_view(x)) + group_boxes(rv, 0) =~= group_boxes(rv, 0));
    while index < rows.len()
        invariant
            index <= rows@.len(),
            rv == rows@.map_values(|m: RowMatch| row_view(m)),
            rv.len() == rows@.len(),
            rows_in_area(rv, area.0, area.1, area.2, area.3),
            i32::MIN <= area.0 <= area.1 <= i32::MAX + 1,
            i32::MIN <= area.2 <= area.3 <= i32::MAX + 1,
            boxes@.map_values(|x: PixelBox| box_view(x)) + group_boxes(rv, index as int) == group_boxes(
                rv,
                0,
            ),
        decreases rows.len() - index,
    {
        let start = index;
        let top_y = rows[index].y;
        let mut bottom_y = rows[index].y;
        let mut min_x = rows[index].min_x;
        let mut max_x = rows[index].max_x;
        let mut total_count: i128 = rows[index].count as i128;
        index = index + 1;
        proof {
            lemma_group_end_bounds(rv, start + 1);
            assert(rv[start as int] == row_view(rows@[start as int]));
            assert(range_count(rv, start as int, start as int) == 0);
            assert(range_count(rv, start as int, start + 1) == rv[start as int].3);
            assert(range_min_x(rv, start as int, start + 1) == rv[start as int].1);
            assert(range_max_x(rv, start as int, start + 1) == rv[start as int].2);
            assert(rv[start as int].3 <= area.1 - area.0);
            assert(index - start == 1);
            assert((index - start) * (area.1 - area.0) == area.1 - area.0);
        }
        while index < rows.len() && rows[index].y - bottom_y <= 4
            invariant
                start < index <= rows@.len(),
                rv == rows@.map_values(|m: RowMatch| row_view(m)),
                rv.len() == rows@.len(),
                rows_in_area(rv, area.0, area.1, area.2, area.3),
                i32::MIN <= area.0 <= area.1 <= i32::MAX + 1,
                i32::MIN <= area.2 <= area.3 <= i32::MAX + 1,
                group_end(rv, start + 1) == group_end(rv, index as int),
                top_y == rv[start as int].0,
                bottom_y == rv[index - 1].0,
                min_x == range_min_x(rv, start as int, index as int),
                max_x == range_max_x(rv, start as int, index as int),
                total_count == range_count(rv, start as int, index as int),
                0 <= total_count <= (index - start) * (area.1 - area.0),
                index - start <= area.3 - area.2,
                area.0 <= min_x <= max_x < area.1,
                area.2 <= top_y <= bottom_y < area.3,
                bottom_y - top_y >= index - start - 1,
            decreases rows.len() - index,
        {
            proof {
                assert(rv[index as int] == row_view(rows@[index as int]));
                assert(rv[index - 1] == row_view(rows@[index - 1]));
                assert(rv[start as int].0 < rv[index as int].0);
                assert(area.2 <= rv[start as int].0 && rv[index as int].0 < area.3);
                assert((index + 1 - start) * (area.1 - area.0) == (index - start) * (area.1 - area.0)
                    + (area.1 - area.0)) by (nonlinear_arith);
                assert((index + 1 - start) * (area.1 - area.0) <= 0x1_0000_0000 * 0x1_0000_0000) by (nonlinear_arith)
                    requires
                        0 <= index + 1 - start <= 0x1_0000_0000,
                        0 <= area.1 - area.0 <= 0x1_0000_0000,
                ;
            }
            bottom_y = rows[index].y;
            if rows[index].min_x < min_x {
                min_x = rows[index].min_x;
            }
            if rows[index].max_x > max_x {
                max_x = rows[index].max_x;
            }
            total_count = total_count + rows[index].count as i128;
            index = index + 1;
        }
        proof {
            if index < rows.len() {
                assert(rv[index as int] == row_view(rows@[index as int]));
                assert(rv[index - 1] == row_view(rows@[index - 1]));
            }
            assert(group_end(rv, index as int) == index);
            assert(rv[start as int].1 <= rv[start as int].2);
        }
        let width = max_x - min_x + 1;
        let height = bottom_y - top_y + 1;
        let ghost before = boxes@;
        if width >= 20 && height >= 8 && total_count >= 160 {
            boxes.push(PixelBox { x: min_x, y: top_y, width, height });
            assert(boxes@.map_values(|x: PixelBox| box_view(x)) =~= before.map_values(
                |x: PixelBox| box_view(x),
            ).push((min_x as int, top_y as int, width as int, height as int)));
            assert(before.map_values(|x: PixelBox| box_view(x)).push(
                (min_x as int, top_y as int, width as int, height as int),
            ) + group_boxes(rv, index as int) =~= before.map_values(|x: PixelBox| box_view(x)) + (
            seq![(min_x as int, top_y as int, width as int, height as int)] + group_boxes(
                rv,
                index as int,
            )));
        }
    }
    assert(group_boxes(rv, index as int) =~= Seq::empty());
    assert(boxes@.map_values(|x: PixelBox| box_view(x)) + Seq::empty() =~= boxes@.map_values(
        |x: PixelBox| box_view(x),
    ));
    boxes
}

/// The candidate highlight boxes of the search area `[left, right) x
/// [top, bottom)`: the matching rows, grouped (see `row_matches` and
/// `group_boxes`).
pub fn find_selection_boxes(
    buffer: &PixelBuffer,
    areas: &Vec<ExcludedArea>,
    color: (u8, u8, u8),
    left: i32,
    right: i32,
    top: i32,
    bottom: i32,
) -> (r: Vec<PixelBox>)
    ensures
        r@.map_values(|x: PixelBox| box_view(x)) == group_boxes(
            row_matches(buffer, areas@, color, left as int, right as int, top as int, bottom as int),
            0,
        ),
{
    let rows = scan_rows(buffer, areas, color, left, right, top, bottom);
    if left >= right || top >= bottom {
        proof {
            if top < bottom {
                lemma_no_rows_without_width(buffer, areas@, color, left as int, right as int, top as int, bottom as int);
            }
        }
        assert(group_boxes(rows@.map_values(|m: RowMatch| row_view(m)), 0) =~= Seq::empty());
        return Vec::new();
    }
    proof {
        lemma_row_matches_in_area(buffer, areas@, color, left as int, right as int, top as int, bottom as int);
    }
    group_rows(&rows, Ghost((left as int, right as int, top as int, bottom as int)))
}

proof fn lemma_no_rows_without_width(
    b: &PixelBuffer,
    areas: Seq<ExcludedArea>,
    color: (u8, u8, u8),
    left: int,
    right: int,
    top: int,
    y: int,
)
    requires
        right <= left,
        top <= y,
    ensures
        row_matches(b, areas, color, left, right, top, y).len() == 0,
    decreases y - top,
{
    if y > top {
        lemma_no_rows_without_width(b, areas, color, left, right, top, y - 1);
    }
}

/// The colours held at row `y`, columns `cx - 12, cx - 9, ...` (the first
/// `j` of the nine), that the buffer holds.
pub open spec fn row_samples(b: &PixelBuffer, cx: int, y: int, j: int) -> Seq<(u8, u8, u8)>
    decreases j,
{
    if j <= 0 {
        seq![]
    } else {
        row_samples(b, cx, y, j - 1) + match pixel_at(b, cx - 12 + 3 * (j - 1), y) {
            Some(p) => seq![p],
            None => seq![],
        }
    }
}

/// The colours sampled around a point: the first `i` of the nine rows
/// `cy - 12, cy - 9, ...`, each sampled as `row_samples` says.
pub open spec fn point_samples(b: &PixelBuffer, cx: int, cy: int, i: int) -> Seq<(u8, u8, u8)>
    decreases i,
{
    if i <= 0 {
        seq![]
    } else {
        point_samples(b, cx, cy, i - 1) + row_samples(b, cx, cy - 12 + 3 * (i - 1), 9)
    }
}

/// The colours sampled around each of `points`, in order.
pub open spec fn all_samples(b: &PixelBuffer, points: Seq<(i32, i32)>) -> Seq<(u8, u8, u8)>
    decreases points.len(),
{
    if points.len() == 0 {
        seq![]
    } else {
        all_samples(b, points.drop_last()) + point_samples(
            b,
            points.last().0 as int,
            points.last().1 as int,
            9,
        )
    }
}

proof fn lemma_sample_counts(b: &PixelBuffer, points: Seq<(i32, i32)>)
    ensures
        all_samples(b, points).len() <= 81 * points.len(),
    decreases points.len(),
{
    if points.len() > 0 {
        lemma_sample_counts(b, points.drop_last());
        let p = points.last();
        assert forall|i: int| 0 <= i <= 9 implies #[trigger] point_samples(b, p.0 as int, p.1 as int, i).len() <= 9 * i by {
            lemma_point_samples_len(b, p.0 as int, p.1 as int, i);
        }
    }
}

proof fn lemma_point_samples_len(b: &PixelBuffer, cx: int, cy: int, i: int)
    requires
        0 <= i,
    ensures
        point_samples(b, cx, cy, i).len() <= 9 * i,
    decreases i,
{
    if i > 0 {
        lemma_point_samples_len(b, cx, cy, i - 1);
        lemma_row_samples_len(b, cx, cy - 12 + 3 * (i - 1), 9);
    }
}

proof fn lemma_row_samples_len(b: &PixelBuffer, cx: int, y: int, j: int)
    requires
        0 <= j,
    ensures
        row_samples(b, cx, y, j).len() <= j,
    decreases j,
{
    if j > 0 {
        lemma_row_samples_len(b, cx, y, j - 1);
    }
}

/// The colours sampled around each point (see `all_samples`).
pub fn collect_samples(buffer: &PixelBuffer, points: &Vec<(i32, i32)>) -> (r: Vec<(u8, u8, u8)>)
    requires
        forall|k: int|
            0 <= k < points@.len() ==> i32::MIN + 12 <= (#[trigger] points@[k]).0 <= i32::MAX - 12
                && i32::MIN + 12 <= points@[k].1 <= i32::MAX - 12,
    ensures
        r@ == all_samples(buffer, points@),
{
    let mut out: Vec<(u8, u8, u8)> = Vec::new();
    let mut p: usize = 0;
    assert(points@.subrange(0, 0) =~= Seq::<(i32, i32)>::empty());
    while p < points.len()
        invariant
            p <= points@.len(),
            forall|k: int|
                0 <= k < points@.len() ==> i32::MIN + 12 <= (#[trigger] points@[k]).0 <= i32::MAX
                    - 12 && i32::MIN + 12 <= points@[k].1 <= i32::MAX - 12,
            out@ == all_samples(buffer, points@.subrange(0, p as int)),
        decreases points.len() - p,
    {
        let (cx, cy) = points[p];
        let ghost start = out@;
        let mut i: i32 = 0;
        while i < 9
            invariant
                0 <= i <= 9,
                i32::MIN + 12 <= cx <= i32::MAX - 12,
                i32::MIN + 12 <= cy <= i32::MAX - 12,
                out@ == start + point_samples(buffer, cx as int, cy as int, i as int),
            decreases 9 - i,
        {
            let y: i32 = cy - 12 + 3 * i;
            let ghost row_start = out@;
            let mut j: i32 = 0;
            while j < 9
                invariant
                    0 <= j <= 9,
                    0 <= i < 9,
                    i32::MIN + 12 <= cx <= i32::MAX - 12,
                    y == cy - 12 + 3 * i,
                    out@ == row_start + row_samples(buffer, cx as int, y as int, j as int),
                decreases 9 - j,
            {
                let x: i32 = cx - 12 + 3 * j;
                let ghost before = out@;
                match buffer.pixel(x, y) {
                    Some(c) => {
                        out.push(c);
                    },
                    None => {},
                }
                j = j + 1;
                assert(out@ =~= row_start + row_samples(buffer, cx as int, y as int, j as int));
            }
            i = i + 1;
            assert(out@ =~= start + point_samples(buffer, cx as int, cy as int, i as int));
        }
        assert(points@.subrange(0, p + 1).drop_last() =~= points@.subrange(0, p as int));
        assert(points@.subrange(0, p + 1).last() == points@[p as int]);
        p = p + 1;
    }
    assert(points@.subrange(0, points@.len() as int) =~= points@);
    out
}

/// The bucket of a colour: each channel divided by 16.
pub open spec fn bucket_key(c: (u8, u8, u8)) -> (u8, u8, u8) {
    ((c.0 / 16) as u8, (c.1 / 16) as u8, (c.2 / 16) as u8)
}

/// How many of `s` fall in bucket `k`, and the sums of their channels.
pub open spec fn bucket_stats(s: Seq<(u8, u8, u8)>, k: (u8, u8, u8)) -> (nat, nat, nat, nat)
    decreases s.len(),
{
    if s.len() == 0 {
        (0, 0, 0, 0)
    } else {
        let (n, r, g, b) = bucket_stats(s.drop_last(), k);
        let c = s.last();
        if bucket_key(c) == k {
            (n + 1, r + c.0 as nat, g + c.1 as nat, b + c.2 as nat)
        } else {
            (n, r, g, b)
        }
    }
}

proof fn lemma_bucket_stats_bounds(s: Seq<(u8, u8, u8)>, k: (u8, u8, u8))
    ensures
        bucket_stats(s, k).0 <= s.len(),
        bucket_stats(s, k).1 <= 255 * bucket_stats(s, k).0,
        bucket_stats(s, k).2 <= 255 * bucket_stats(s, k).0,
        bucket_stats(s, k).3 <= 255 * bucket_stats(s, k).0,
    decreases s.len(),
{
    if s.len() > 0 {
        lemma_bucket_stats_bounds(s.drop_last(), k);
    }
}

/// The average colour of bucket `k`.
pub open spec fn bucket_average(s: Seq<(u8, u8, u8)>, k: (u8, u8, u8)) -> (u8, u8, u8) {
    let (n, r, g, b) = bucket_stats(s, k);
    ((r / n) as u8, (g / n) as u8, (b / n) as u8)
}

/// The highlight colour of some samples: the average of the fullest bucket
/// among those with at least six samples (which of several equally full
/// buckets is left open), or `None` where no bucket has six.
pub open spec fn is_dominant_color(s: Seq<(u8, u8, u8)>, r: Option<(u8, u8, u8)>) -> bool {
    match r {
        None => forall|k: (u8, u8, u8)| #[trigger] bucket_stats(s, k).0 < 6,
        Some(c) => exists|k: (u8, u8, u8)|
            #![trigger bucket_stats(s, k)]
            bucket_stats(s, k).0 >= 6 && (forall|k2: (u8, u8, u8)| #[trigger] bucket_stats(s, k2).0
                <= bucket_stats(s, k).0) && c == bucket_average(s, k),
    }
}

/// A bucket as it is counted: its key, its size and its channel sums.
#[derive(Clone, Copy)]
struct Bucket {
    key: (u8, u8, u8),
    count: u32,
    red_sum: u32,
    green_sum: u32,
    blue_sum: u32,
}

spec fn bucket_matches(b: Bucket, s: Seq<(u8, u8, u8)>) -> bool {
    bucket_stats(s, b.key) == (b.count as nat, b.red_sum as nat, b.green_sum as nat, b.blue_sum as nat)
}

/// A bucket key as one integer, the map key of its bucket.
spec fn packed_key(k: (u8, u8, u8)) -> u32 {
    (k.0 as int * 256 + k.1 as int * 16 + k.2 as int) as u32
}

spec fn small_key(k: (u8, u8, u8)) -> bool {
    k.0 < 16 && k.1 < 16 && k.2 < 16
}

/// The buckets counted so far: each holds the statistics of its key over
/// `s`, under that key's packed form, and every key of `s` has its bucket.
spec fn buckets_match(m: Map<u32, Bucket>, s: Seq<(u8, u8, u8)>) -> bool {
    &&& forall|pk: u32|
        #[trigger] m.contains_key(pk) ==> bucket_matches(m[pk], s) && small_key(m[pk].key)
            && packed_key(m[pk].key) == pk
    &&& forall|k: (u8, u8, u8)| #[trigger] bucket_stats(s, k).0 > 0 ==> m.contains_key(packed_key(k))
        && m[packed_key(k)].key == k
}

/// `best` names the fullest bucket counted so far, or there is none yet.
spec fn best_matches(m: Map<u32, Bucket>, s: Seq<(u8, u8, u8)>, best: Option<u32>) -> bool {
    match best {
        Some(bk) => m.contains_key(bk) && forall|k: (u8, u8, u8)| #[trigger] bucket_stats(s, k).0
            <= m[bk].count,
        None => forall|k: (u8, u8, u8)| #[trigger] bucket_stats(s, k).0 == 0,
    }
}

/// The highlight colour of some samples (see `is_dominant_color`). The
/// samples are grouped in a map from packed bucket keys to buckets, and the
/// fullest bucket is followed as they are counted. The channel sums are
/// `u32`, as the colour sampling keeps them; up to `u32::MAX / 255` samples
/// no sum can overflow.
pub fn dominant_color(samples: &Vec<(u8, u8, u8)>) -> (r: Option<(u8, u8, u8)>)
    requires
        samples@.len() <= 16_843_009,
    ensures
        is_dominant_color(samples@, r),
{
    broadcast use vstd::std_specs::hash::group_hash_axioms;

    let mut buckets: HashMap<u32, Bucket> = HashMap::new();
    let mut best: Option<u32> = None;
    let mut i: usize = 0;
    assert(samples@.subrange(0, 0) =~= Seq::<(u8, u8, u8)>::empty());
    while i < samples.len()
        invariant
            i <= samples@.len(),
            samples@.len() <= 16_843_009,
            buckets_match(buckets@, samples@.subrange(0, i as int)),
            best_matches(buckets@, samples@.subrange(0, i as int), best),
        decreases samples.len() - i,
    {
        let c = samples[i];
        let key: (u8, u8, u8) = (c.0 / 16, c.1 / 16, c.2 / 16);
        let pk: u32 = (key.0 as u32) * 256 + (key.1 as u32) * 16 + key.2 as u32;
        let ghost pre = samples@.subrange(0, i as int);
        let ghost post = samples@.subrange(0, i + 1);
        let ghost before = buckets@;
        assert(post.drop_last() =~= pre);
        assert(post.last() == c);
        assert(key == bucket_key(c));
        assert(pk == packed_key(key));
        proof {
            lemma_bucket_stats_bounds(pre, key);
        }
        let updated = match buckets.get(&pk) {
            Some(b) => {
                proof {
                    assert(before.contains_key(pk));
                    assert(small_key(before[pk].key) && packed_key(before[pk].key) == pk);
                    assert(before[pk].key == key);
                }
                Bucket {
                    key,
                    count: b.count + 1,
                    red_sum: b.red_sum + c.0 as u32,
                    green_sum: b.green_sum + c.1 as u32,
                    blue_sum: b.blue_sum + c.2 as u32,
                }
            },
            None => {
                proof {
                    if bucket_stats(pre, key).0 > 0 {
                        assert(before.contains_key(packed_key(key)));
                    }
                }
                Bucket { key, count: 1, red_sum: c.0 as u32, green_sum: c.1 as u32, blue_sum: c.2 as u32 }
            },
        };
        let new_count = updated.count;
        buckets.insert(pk, updated);
        proof {
            assert(bucket_matches(updated, post));
            assert forall|q: u32| #[trigger] buckets@.contains_key(q) implies bucket_matches(buckets@[q], post)
                && small_key(buckets@[q].key) && packed_key(buckets@[q].key) == q by {
                if q != pk {
                    assert(before.contains_key(q));
                    assert(packed_key(before[q].key) == q);
                    assert(before[q].key != key);
                }
            }
            assert forall|k: (u8, u8, u8)| #[trigger] bucket_stats(post, k).0 > 0 implies buckets@.contains_key(
                packed_key(k)) && buckets@[packed_key(k)].key == k by {
                if k != key {
                    assert(bucket_stats(pre, k).0 > 0);
                    assert(before.contains_key(packed_key(k)) && before[packed_key(k)].key == k);
                    if packed_key(k) == pk {
                        assert(small_key(k));
                        assert(k == key);
                    }
                }
            }
        }
        match best {
            Some(bk) => {
                let best_count = buckets.get(&bk).unwrap().count;
                if new_count >= best_count {
                    best = Some(pk);
                }
                proof {
                    assert forall|k: (u8, u8, u8)| #[trigger] bucket_stats(post, k).0 <= buckets@[best->0].count by {
                        if k != key {
                            assert(bucket_stats(pre, k).0 <= before[bk].count);
                            if bk != pk {
                                assert(buckets@[bk] == before[bk]);
                            }
                        }
                    }
                }
            },
            None => {
                best = Some(pk);
                proof {
                    assert forall|k: (u8, u8, u8)| #[trigger] bucket_stats(post, k).0 <= buckets@[pk].count by {
                        if k != key {
                            assert(bucket_stats(pre, k).0 == 0);
                        }
                    }
                }
            },
        }
        i = i + 1;
    }
    assert(samples@.subrange(0, samples@.len() as int) =~= samples@);
    let bk = match best {
        None => {
            return None;
        },
        Some(bk) => bk,
    };
    let bucket = *buckets.get(&bk).unwrap();
    if bucket.count < 6 {
        proof {
            assert forall|k: (u8, u8, u8)| #[trigger] bucket_stats(samples@, k).0 < 6 by {}
        }
        return None;
    }
    proof {
        assert(bucket_matches(bucket, samples@));
        let k = bucket.key;
        lemma_bucket_stats_bounds(samples@, k);
        let (n, rs, gs, bs) = bucket_stats(samples@, k);
        assert(rs / n <= 255) by (nonlinear_arith)
            requires
                n > 0,
                rs <= 255 * n,
        ;
        assert(gs / n <= 255) by (nonlinear_arith)
            requires
                n > 0,
                gs <= 255 * n,
        ;
        assert(bs / n <= 255) by (nonlinear_arith)
            requires
                n > 0,
                bs <= 255 * n,
        ;
    }
    Some(
        (
            (bucket.red_sum / bucket.count) as u8,
            (bucket.green_sum / bucket.count) as u8,
            (bucket.blue_sum / bucket.count) as u8,
        ),
    )
}

/// The highlight colour around the sample points (see `collect_samples`
/// and `is_dominant_color`). At most 207 938 points are sampled at a time:
/// with 81 samples each, no colour sum can then exceed `u32::MAX`.
pub fn sample_selection_color(buffer: &PixelBuffer, points: &Vec<(i32, i32)>) -> (r: Option<(u8, u8, u8)>)
    requires
        points@.len() <= 207_938,
        forall|k: int|
            0 <= k < points@.len() ==> i32::MIN + 12 <= (#[trigger] points@[k]).0 <= i32::MAX - 12
                && i32::MIN + 12 <= points@[k].1 <= i32::MAX - 12,
    ensures
        is_dominant_color(all_samples(buffer, points@), r),
{
    let samples = collect_samples(buffer, points);
    proof {
        lemma_sample_counts(buffer, points@);
    }
    dominant_color(&samples)
}

} // verus!
