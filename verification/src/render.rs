//! Drawing a frequency table as a bar chart: one red bar per bin on a black
//! background, the fullest bin as tall as the picture.

use crate::canvas::{
    blank_buffer, buffer_height, buffer_pixels, buffer_width, grid, samples, set_pixel, PixelBuffer,
};
use crate::tally::{all_zero, largest, lemma_largest};
use vstd::arithmetic::div_mod::{lemma_div_is_ordered, lemma_div_multiples_vanish};
use vstd::prelude::*;

verus! {

/// The colour of the bars: red.
pub const BAR_COLOR: (u8, u8, u8) = (255, 0, 0);

/// The colour of everything that is not a bar: black.
pub const BACKGROUND: (u8, u8, u8) = (0, 0, 0);

/// The count that a bar of full height stands for: the largest entry, or one
/// where the table is empty or holds nothing but zeros.
pub open spec fn peak(counts: Seq<u32>) -> int {
    if largest(counts) == 0 {
        1
    } else {
        largest(counts)
    }
}

/// First pixel column of the bar of `bin`, where `bins` bars share `width`
/// columns.
pub open spec fn bar_left(bin: int, bins: int, width: int) -> int {
    bin * width / bins
}

/// The pixel column just after the bar of `bin`, never beyond `width`.
pub open spec fn bar_right(bin: int, bins: int, width: int) -> int {
    let edge = (bin + 1) * width / bins;
    if edge < width {
        edge
    } else {
        width
    }
}

/// Height in pixels of the bar for `count`, where `peak` fills all of
/// `height`: the quotient rounded down.
pub open spec fn bar_height(count: int, peak: int, height: int) -> int {
    count * height / peak
}

/// Whether the pixel column `x` is one of the columns of the bar of `bin`.
pub open spec fn in_span(bin: int, bins: int, width: int, x: int) -> bool {
    bar_left(bin, bins, width) <= x < bar_right(bin, bins, width)
}

/// Whether the pixel `(x, y)` belongs to the bar of `bin`: it lies in one of
/// the bar's columns and in one of its rows, which are the lowest of the
/// picture. A bin without balls has no bar.
pub open spec fn in_bar(counts: Seq<u32>, width: int, height: int, bin: int, x: int, y: int) -> bool {
    &&& 0 <= bin < counts.len()
    &&& counts[bin] > 0
    &&& in_span(bin, counts.len() as int, width, x)
    &&& height - bar_height(counts[bin] as int, peak(counts), height) <= y < height
}

/// Whether the pixel `(x, y)` belongs to any bar.
pub open spec fn is_bar_pixel(counts: Seq<u32>, width: int, height: int, x: int, y: int) -> bool {
    exists|bin: int| #[trigger] in_bar(counts, width, height, bin, x, y)
}

/// The picture of a table: bar pixels in the bar colour, all others in the
/// background colour.
pub open spec fn histogram(counts: Seq<u32>, width: int, height: int) -> Map<
    (int, int),
    (u8, u8, u8),
> {
    Map::new(
        |p: (int, int)| grid(width, height).contains(p),
        |p: (int, int)|
            if is_bar_pixel(counts, width, height, p.0, p.1) {
                BAR_COLOR
            } else {
                BACKGROUND
            },
    )
}

/// Whether a buffer holds the picture of a table at the given size.
pub open spec fn is_rendering(buf: PixelBuffer, counts: Seq<u32>, width: u32, height: u32) -> bool {
    &&& buffer_width(buf) == width
    &&& buffer_height(buf) == height
    &&& buffer_pixels(buf) == histogram(counts, width as int, height as int)
}

/// The count that a bar of full height stands for.
pub fn peak_count(table: &[u32]) -> (max_count: u32)
    ensures
        max_count == peak(table@),
{
    let mut max_count: u32 = 0;
    let mut i: usize = 0;
    while i < table.len()
        invariant
            i <= table.len(),
            max_count == largest(table@.take(i as int)),
        decreases table.len() - i,
    {
        assert(table@.take(i + 1).drop_last() =~= table@.take(i as int));
        if table[i] > max_count {
            max_count = table[i];
        }
        i += 1;
    }
    assert(table@.take(i as int) =~= table@);
    if max_count == 0 {
        1
    } else {
        max_count
    }
}

/// The pixel columns of the bar of `bin`: the first one, and the one just
/// after the last.
pub fn bar_span(bin: usize, bins: usize, width: u32) -> (span: (u32, u32))
    requires
        bin < bins,
    ensures
        span.0 == bar_left(bin as int, bins as int, width as int),
        span.1 == bar_right(bin as int, bins as int, width as int),
        span.0 <= span.1 <= width,
{
    proof {
        lemma_bar_edges(bin as int, bins as int, width as int);
        lemma_bar_edges(bin + 1, bins as int, width as int);
        assert((bin + 1) * width <= (u64::MAX + 1) * u32::MAX) by (nonlinear_arith)
            requires
                0 <= bin <= u64::MAX,
                0 <= width <= u32::MAX,
        ;
        assert(bin * width <= (bin + 1) * width) by (nonlinear_arith)
            requires
                0 <= bin,
                0 <= width,
        ;
    }
    let left: u128 = (bin as u128) * (width as u128) / (bins as u128);
    let edge: u128 = (bin as u128 + 1) * (width as u128) / (bins as u128);
    let right: u128 = if edge < width as u128 {
        edge
    } else {
        width as u128
    };
    (left as u32, right as u32)
}

/// Height in pixels of the bar for `count` in a table whose peak is `peak`.
pub fn bar_rows(count: u32, peak: u32, height: u32) -> (rows: u32)
    requires
        0 < peak,
        count <= peak,
    ensures
        rows == bar_height(count as int, peak as int, height as int),
        rows <= height,
{
    proof {
        lemma_bar_height_bounds(count as int, peak as int, height as int);
        assert(count * height <= u32::MAX * u32::MAX) by (nonlinear_arith)
            requires
                0 <= count <= u32::MAX,
                0 <= height <= u32::MAX,
        ;
    }
    let rows: u64 = (count as u64) * (height as u64) / (peak as u64);
    rows as u32
}

/// Draws a frequency table as a bar chart of `width` by `height` pixels.
///
/// The bars share the width in bin order; each is as tall as its count is
/// large against the largest count, rounded down, and stands on the bottom
/// edge. The picture must be small enough for its `3 * width * height`
/// samples to be addressable.
pub fn render(table: &[u32], width: u32, height: u32) -> (img: PixelBuffer)
    requires
        3 * width <= usize::MAX,
        3 * width * height <= usize::MAX,
    ensures
        is_rendering(img, table@, width, height),
{
    let max_count: u32 = peak_count(table);
    let bins: usize = table.len();
    let mut img: PixelBuffer = blank_buffer(width, height);
    let mut bin: usize = 0;
    proof {
        lemma_largest(table@);
        assert(buffer_pixels(img) =~= histogram_before(table@, width as int, height as int, 0));
    }
    while bin < bins
        invariant
            bin <= bins == table@.len(),
            max_count == peak(table@),
            forall|i: int| 0 <= i < table@.len() ==> table@[i] <= largest(table@),
            buffer_width(img) == width,
            buffer_height(img) == height,
            buffer_pixels(img) == histogram_before(table@, width as int, height as int, bin as int),
        decreases bins - bin,
    {
        let count: u32 = table[bin];
        if count != 0 {
            let (left, right) = bar_span(bin, bins, width);
            let rows: u32 = bar_rows(count, max_count, height);
            assert(buffer_pixels(img).dom() =~= grid(width as int, height as int));
            paint_bar(&mut img, left, right, rows);
        }
        assert forall|p: (int, int)| grid(width as int, height as int).contains(p) implies {
            let (w, h) = (width as int, height as int);
            in_bar_before(table@, w, h, bin + 1, p.0, p.1) <==> in_bar_before(
                table@,
                w,
                h,
                bin as int,
                p.0,
                p.1,
            ) || in_bar(table@, w, h, bin as int, p.0, p.1)
        } by {
            lemma_next_bar(table@, width as int, height as int, bin as int, p.0, p.1);
        }
        bin += 1;
        assert(buffer_pixels(img) =~= histogram_before(
            table@,
            width as int,
            height as int,
            bin as int,
        ));
    }
    assert(buffer_pixels(img) =~= histogram(table@, width as int, height as int));
    img
}

/// Paints the block of columns `left..right` in the lowest `rows` rows.
fn paint_bar(img: &mut PixelBuffer, left: u32, right: u32, rows: u32)
    requires
        left <= right <= buffer_width(*old(img)),
        rows <= buffer_height(*old(img)),
        buffer_pixels(*old(img)).dom() == grid(
            buffer_width(*old(img)) as int,
            buffer_height(*old(img)) as int,
        ),
    ensures
        buffer_width(*final(img)) == buffer_width(*old(img)),
        buffer_height(*final(img)) == buffer_height(*old(img)),
        buffer_pixels(*final(img)) == with_block(
            buffer_pixels(*old(img)),
            left as int,
            right as int,
            buffer_height(*old(img)) - rows,
            buffer_height(*old(img)) as int,
        ),
{
    let height: u32 = img.height();
    let ghost before = buffer_pixels(*img);
    let ghost top = height - rows;
    let mut x: u32 = left;
    assert(buffer_pixels(*img) =~= with_block(before, left as int, x as int, top, height as int));
    while x < right
        invariant
            left <= x <= right <= buffer_width(*img),
            rows <= height == buffer_height(*img),
            top == height - rows,
            buffer_width(*img) == buffer_width(*old(img)),
            buffer_height(*img) == buffer_height(*old(img)),
            before.dom() == grid(buffer_width(*img) as int, buffer_height(*img) as int),
            buffer_pixels(*img) == with_block(before, left as int, x as int, top, height as int),
        decreases right - x,
    {
        let ghost columns = buffer_pixels(*img);
        let mut y: u32 = 0;
        assert(buffer_pixels(*img) =~= with_block(
            columns,
            x as int,
            x + 1,
            height - y,
            height as int,
        ));
        while y < rows
            invariant
                left <= x < right <= buffer_width(*img),
                y <= rows <= height == buffer_height(*img),
                buffer_width(*img) == buffer_width(*old(img)),
                buffer_height(*img) == buffer_height(*old(img)),
                columns.dom() == grid(buffer_width(*img) as int, buffer_height(*img) as int),
                buffer_pixels(*img) == with_block(columns, x as int, x + 1, height - y, height as int),
            decreases rows - y,
        {
            set_pixel(img, x, height - 1 - y, BAR_COLOR);
            y += 1;
            assert(buffer_pixels(*img) =~= with_block(
                columns,
                x as int,
                x + 1,
                height - y,
                height as int,
            ));
        }
        x += 1;
        assert(buffer_pixels(*img) =~= with_block(before, left as int, x as int, top, height as int));
    }
}

/// Whether the pixel `(x, y)` belongs to the bar of one of the first `bins`
/// bins.
spec fn in_bar_before(counts: Seq<u32>, width: int, height: int, bins: int, x: int, y: int) -> bool {
    exists|bin: int| bin < bins && #[trigger] in_bar(counts, width, height, bin, x, y)
}

/// The picture of the first `bins` bars of a table.
spec fn histogram_before(counts: Seq<u32>, width: int, height: int, bins: int) -> Map<
    (int, int),
    (u8, u8, u8),
> {
    Map::new(
        |p: (int, int)| grid(width, height).contains(p),
        |p: (int, int)|
            if in_bar_before(counts, width, height, bins, p.0, p.1) {
                BAR_COLOR
            } else {
                BACKGROUND
            },
    )
}

/// A picture in which the block of columns `left..right` and rows
/// `top..bottom` has the bar colour and every other pixel is as in `pixels`.
spec fn with_block(
    pixels: Map<(int, int), (u8, u8, u8)>,
    left: int,
    right: int,
    top: int,
    bottom: int,
) -> Map<(int, int), (u8, u8, u8)> {
    Map::new(
        |p: (int, int)| pixels.dom().contains(p),
        |p: (int, int)|
            if left <= p.0 < right && top <= p.1 < bottom {
                BAR_COLOR
            } else {
                pixels[p]
            },
    )
}

/// The bars before bin `bin + 1` are those before `bin` and that of `bin`.
proof fn lemma_next_bar(counts: Seq<u32>, width: int, height: int, bin: int, x: int, y: int)
    ensures
        in_bar_before(counts, width, height, bin + 1, x, y) <==> in_bar_before(
            counts,
            width,
            height,
            bin,
            x,
            y,
        ) || in_bar(counts, width, height, bin, x, y),
{
    if in_bar_before(counts, width, height, bin + 1, x, y) {
        let b = choose|b: int| b < bin + 1 && #[trigger] in_bar(counts, width, height, b, x, y);
        assert(b < bin || b == bin);
    }
}

/// The edges `edge * width / bins` of the bars grow with `edge`, start at
/// zero and end at `width`.
proof fn lemma_bar_edges(edge: int, bins: int, width: int)
    requires
        0 <= edge <= bins,
        0 < bins,
        0 <= width,
    ensures
        0 <= edge * width / bins <= width,
        edge < bins ==> edge * width / bins <= (edge + 1) * width / bins,
        edge == 0 ==> edge * width / bins == 0,
        edge == bins ==> edge * width / bins == width,
{
    assert(0 <= edge * width <= bins * width) by (nonlinear_arith)
        requires
            0 <= edge <= bins,
            0 <= width,
    ;
    assert(edge * width <= (edge + 1) * width) by (nonlinear_arith)
        requires
            0 <= edge,
            0 <= width,
    ;
    lemma_div_multiples_vanish(width, bins);
    lemma_div_is_ordered(0, edge * width, bins);
    lemma_div_is_ordered(edge * width, bins * width, bins);
    lemma_div_is_ordered(edge * width, (edge + 1) * width, bins);
}

/// A bar is never taller than the picture, and the bar of the peak fills it.
pub proof fn lemma_bar_height_bounds(count: int, peak: int, height: int)
    requires
        0 <= count <= peak,
        0 < peak,
        0 <= height,
    ensures
        0 <= bar_height(count, peak, height) <= height,
        count == peak ==> bar_height(count, peak, height) == height,
        count == 0 ==> bar_height(count, peak, height) == 0,
{
    assert(0 <= count * height <= peak * height) by (nonlinear_arith)
        requires
            0 <= count <= peak,
            0 <= height,
    ;
    lemma_div_multiples_vanish(height, peak);
    lemma_div_is_ordered(0, count * height, peak);
    lemma_div_is_ordered(count * height, peak * height, peak);
}

/// The bars split the width among themselves: the first starts at column
/// zero, each ends where the next begins, and the last ends at `width`.
pub proof fn lemma_bars_tile(bin: int, bins: int, width: u32)
    requires
        0 <= bin < bins,
    ensures
        0 <= bar_left(bin, bins, width as int) <= bar_right(bin, bins, width as int) <= width,
        bar_left(0, bins, width as int) == 0,
        bin + 1 < bins ==> bar_right(bin, bins, width as int) == bar_left(bin + 1, bins, width as int),
        bar_right(bins - 1, bins, width as int) == width,
{
    lemma_bar_edges(0, bins, width as int);
    lemma_bar_edges(bin, bins, width as int);
    lemma_bar_edges(bin + 1, bins, width as int);
    lemma_bar_edges(bins, bins, width as int);
}

/// Bars keep the order of their bins: a bar ends at or before the column
/// where the bar of any later bin begins.
pub proof fn lemma_bars_in_order(earlier: int, later: int, bins: int, width: u32)
    requires
        0 <= earlier < later < bins,
    ensures
        bar_right(earlier, bins, width as int) <= bar_left(later, bins, width as int),
    decreases later - earlier,
{
    lemma_bars_tile(earlier, bins, width);
    if earlier + 1 < later {
        lemma_bars_tile(earlier + 1, bins, width);
        lemma_bars_in_order(earlier + 1, later, bins, width);
    }
}

/// Within the columns of a bar the picture shows that bar and no other: a
/// pixel there has the bar colour exactly when it belongs to that bar.
pub proof fn lemma_column_shows_its_bar(
    counts: Seq<u32>,
    width: u32,
    height: u32,
    bin: int,
    x: int,
    y: int,
)
    requires
        0 <= bin < counts.len(),
        in_span(bin, counts.len() as int, width as int, x),
    ensures
        is_bar_pixel(counts, width as int, height as int, x, y) <==> in_bar(
            counts,
            width as int,
            height as int,
            bin,
            x,
            y,
        ),
{
    if is_bar_pixel(counts, width as int, height as int, x, y) {
        let other = choose|b: int| #[trigger] in_bar(counts, width as int, height as int, b, x, y);
        if other < bin {
            lemma_bars_in_order(other, bin, counts.len() as int, width);
        } else if bin < other {
            lemma_bars_in_order(bin, other, counts.len() as int, width);
        }
    }
}

/// Of two bins of one table, the one with more balls has a bar at least as
/// tall as the other: its height is no smaller, and every row that is painted
/// in a column of the other bar is painted in each of its own columns too.
pub proof fn lemma_more_balls_taller_bar(counts: Seq<u32>, width: u32, height: u32, i: int, j: int)
    requires
        0 <= i < counts.len(),
        0 <= j < counts.len(),
        counts[i] > counts[j],
    ensures
        bar_height(counts[i] as int, peak(counts), height as int) >= bar_height(
            counts[j] as int,
            peak(counts),
            height as int,
        ),
        forall|xi: int, xj: int, y: int|
            #![trigger
                is_bar_pixel(counts, width as int, height as int, xj, y),
                is_bar_pixel(counts, width as int, height as int, xi, y)]
            in_span(i, counts.len() as int, width as int, xi) && in_span(
                j,
                counts.len() as int,
                width as int,
                xj,
            ) && is_bar_pixel(counts, width as int, height as int, xj, y) ==> is_bar_pixel(
                counts,
                width as int,
                height as int,
                xi,
                y,
            ),
{
    lemma_largest(counts);
    let more = counts[i] as int;
    let fewer = counts[j] as int;
    assert(fewer * height <= more * height) by (nonlinear_arith)
        requires
            0 <= fewer <= more,
            0 <= height,
    ;
    lemma_div_is_ordered(fewer * height, more * height, peak(counts));
    let (w, h, bins) = (width as int, height as int, counts.len() as int);
    assert forall|xi: int, xj: int, y: int|
        in_span(i, bins, w, xi) && in_span(j, bins, w, xj) && #[trigger] is_bar_pixel(
            counts,
            w,
            h,
            xj,
            y,
        ) implies #[trigger] is_bar_pixel(counts, w, h, xi, y) by {
        lemma_column_shows_its_bar(counts, width, height, j, xj, y);
        lemma_column_shows_its_bar(counts, width, height, i, xi, y);
        assert(in_bar(counts, w, h, i, xi, y));
    }
}

/// A table without a ball in any bin, whatever its length, has a picture
/// without a single bar pixel: all of it is background.
pub proof fn lemma_empty_bins_render_blank(counts: Seq<u32>, width: u32, height: u32)
    requires
        all_zero(counts),
    ensures
        forall|x: int, y: int| !is_bar_pixel(counts, width as int, height as int, x, y),
        histogram(counts, width as int, height as int) == Map::new(
            |p: (int, int)| grid(width as int, height as int).contains(p),
            |p: (int, int)| BACKGROUND,
        ),
{
    assert(histogram(counts, width as int, height as int) =~= Map::new(
        |p: (int, int)| grid(width as int, height as int).contains(p),
        |p: (int, int)| BACKGROUND,
    ));
}

/// Rendering is a function of the table and the size alone: two buffers that
/// render the same table at the same size agree in their dimensions, in every
/// pixel and in every stored sample.
pub proof fn lemma_render_is_deterministic(
    first: PixelBuffer,
    second: PixelBuffer,
    counts: Seq<u32>,
    width: u32,
    height: u32,
)
    requires
        is_rendering(first, counts, width, height),
        is_rendering(second, counts, width, height),
    ensures
        buffer_width(first) == buffer_width(second),
        buffer_height(first) == buffer_height(second),
        buffer_pixels(first) == buffer_pixels(second),
        samples(first) == samples(second),
{
}

} // verus!
