//! Reducing a frame to one averaged color per cell.
//!
//! A cell is sampled on a sub-grid: every `step`-th pixel of every `step`-th
//! row, starting at the cell's top left pixel. The average divides by exactly
//! the number of pixels read.

use vstd::prelude::*;
use crate::color::Color;
use crate::frame::Frame;
use crate::grid::{raster_col, raster_row, GRID_CELLS, GRID_SIDE};

verus! {

/// Channel totals over some pixels, as unbounded integers.
pub struct ColorSum {
    pub red: int,
    pub green: int,
    pub blue: int,
}

impl ColorSum {
    /// The total over no pixels.
    pub open spec fn zero() -> ColorSum {
        ColorSum { red: 0, green: 0, blue: 0 }
    }

    /// This total with one more pixel.
    pub open spec fn with_pixel(self, c: Color) -> ColorSum {
        ColorSum {
            red: self.red + c.red,
            green: self.green + c.green,
            blue: self.blue + c.blue,
        }
    }

    /// The total over the pixels of both.
    pub open spec fn plus(self, other: ColorSum) -> ColorSum {
        ColorSum {
            red: self.red + other.red,
            green: self.green + other.green,
            blue: self.blue + other.blue,
        }
    }

    /// The total over `count` pixels of color `c`.
    pub open spec fn of_uniform(c: Color, count: int) -> ColorSum {
        ColorSum { red: count * c.red, green: count * c.green, blue: count * c.blue }
    }

    /// No channel exceeds what `count` pixels can add up to.
    pub open spec fn fits(self, count: int) -> bool {
        &&& 0 <= self.red <= 255 * count
        &&& 0 <= self.green <= 255 * count
        &&& 0 <= self.blue <= 255 * count
    }

    /// The average over `count` pixels, each channel rounded down.
    pub open spec fn average(self, count: int) -> Color {
        Color {
            red: (self.red / count) as u8,
            green: (self.green / count) as u8,
            blue: (self.blue / count) as u8,
        }
    }
}

/// Channel totals in accumulators wide enough for any frame.
#[derive(Clone, Copy, Debug)]
pub struct ChannelSums {
    pub red: u128,
    pub green: u128,
    pub blue: u128,
}

impl View for ChannelSums {
    type V = ColorSum;

    open spec fn view(&self) -> ColorSum {
        ColorSum { red: self.red as int, green: self.green as int, blue: self.blue as int }
    }
}

/// How many pixels are read along `span` pixels when every `step`-th one is
/// read, beginning with the first.
pub open spec fn sample_count(span: int, step: int) -> int {
    if span <= 0 {
        0
    } else {
        (span - 1) / step + 1
    }
}

/// Where sample number `i` of a run lies that begins at `start`.
pub open spec fn sample_position(start: int, step: int, i: int) -> int {
    start + step * i
}

/// Totals over `n` samples of row `y`: the pixels at `x0`, `x0 + step`, ...
pub open spec fn row_sums(frame: Frame, y: int, x0: int, step: int, n: nat) -> ColorSum
    decreases n,
{
    if n == 0 {
        ColorSum::zero()
    } else {
        row_sums(frame, y, x0, step, (n - 1) as nat).with_pixel(
            frame.pixel_at(sample_position(x0, step, n - 1), y),
        )
    }
}

/// Totals over `ny` sampled rows of `nx` samples each: the rows at `y0`,
/// `y0 + step`, ...
pub open spec fn block_sums(frame: Frame, x0: int, y0: int, step: int, nx: nat, ny: nat) -> ColorSum
    decreases ny,
{
    if ny == 0 {
        ColorSum::zero()
    } else {
        block_sums(frame, x0, y0, step, nx, (ny - 1) as nat).plus(
            row_sums(frame, sample_position(y0, step, ny - 1), x0, step, nx),
        )
    }
}

/// Samples taken per row of a cell.
pub open spec fn samples_across(frame: Frame, step: int) -> int {
    sample_count(frame.cell_width_of(), step)
}

/// Sampled rows per cell.
pub open spec fn samples_down(frame: Frame, step: int) -> int {
    sample_count(frame.cell_height_of(), step)
}

/// Totals over the samples of the cell in column `cell_col`, row `cell_row`.
pub open spec fn cell_sums(frame: Frame, step: int, cell_col: int, cell_row: int) -> ColorSum {
    block_sums(
        frame,
        frame.cell_width_of() * cell_col,
        frame.cell_height_of() * cell_row,
        step,
        samples_across(frame, step) as nat,
        samples_down(frame, step) as nat,
    )
}

/// The averaged color of one cell: its totals divided by the number of its
/// samples.
pub open spec fn cell_average(frame: Frame, step: int, cell_col: int, cell_row: int) -> Color {
    cell_sums(frame, step, cell_col, cell_row).average(
        samples_across(frame, step) * samples_down(frame, step),
    )
}

/// The averaged colors of all cells, row by row from the top, each row from
/// the left.
pub open spec fn grid_averages(frame: Frame, step: int) -> Seq<Color> {
    Seq::new(
        GRID_CELLS as nat,
        |i: int| cell_average(frame, step, raster_col(i), raster_row(i)),
    )
}

/// The samples along a span are exactly the multiples of `step` below it:
/// the first `sample_count` multiples lie inside, every later one outside.
pub proof fn sample_count_is_exact(span: int, step: int)
    requires
        span >= 0,
        step >= 1,
    ensures
        sample_count(span, step) >= 0,
        span > 0 ==> sample_count(span, step) >= 1,
        sample_count(span, step) <= span,
        forall|i: int| 0 <= i < sample_count(span, step) ==> 0 <= #[trigger] (step * i) < span,
        forall|i: int| i >= sample_count(span, step) ==> #[trigger] (step * i) >= span,
{
    let n = sample_count(span, step);
    if span > 0 {
        let q = (span - 1) / step;
        assert(0 <= q && step * q <= span - 1 && span - 1 < step * (q + 1) && q <= span - 1)
            by (nonlinear_arith)
            requires
                q == (span - 1) / step,
                span >= 1,
                step >= 1,
        ;
        assert forall|i: int| 0 <= i < n implies 0 <= #[trigger] (step * i) < span by {
            assert(0 <= step * i && step * i <= step * q) by (nonlinear_arith)
                requires
                    0 <= i <= q,
                    step >= 1,
            ;
        }
        assert forall|i: int| i >= n implies #[trigger] (step * i) >= span by {
            assert(step * i >= step * (q + 1)) by (nonlinear_arith)
                requires
                    i >= q + 1,
                    step >= 1,
            ;
        }
    } else {
        assert forall|i: int| i >= n implies #[trigger] (step * i) >= span by {
            assert(step * i >= 0) by (nonlinear_arith)
                requires
                    i >= 0,
                    step >= 1,
            ;
        }
    }
}

/// Totals over `n` samples of a row never exceed what `n` pixels add up to.
pub proof fn row_sums_fit(frame: Frame, y: int, x0: int, step: int, n: nat)
    ensures
        row_sums(frame, y, x0, step, n).fits(n as int),
    decreases n,
{
    if n > 0 {
        row_sums_fit(frame, y, x0, step, (n - 1) as nat);
    }
}

/// Totals over `ny` rows of `nx` samples never exceed what `nx * ny` pixels
/// add up to.
pub proof fn block_sums_fit(frame: Frame, x0: int, y0: int, step: int, nx: nat, ny: nat)
    ensures
        block_sums(frame, x0, y0, step, nx, ny).fits((nx * ny) as int),
    decreases ny,
{
    if ny > 0 {
        block_sums_fit(frame, x0, y0, step, nx, (ny - 1) as nat);
        row_sums_fit(frame, sample_position(y0, step, ny - 1), x0, step, nx);
        assert(nx * (ny - 1) + nx == nx * ny) by (nonlinear_arith);
    } else {
        assert(nx * ny == 0) by (nonlinear_arith)
            requires
                ny == 0,
        ;
    }
}

/// Counts the samples along a span.
pub fn samples_along(span: usize, step: usize) -> (n: usize)
    requires
        step >= 1,
    ensures
        n as int == sample_count(span as int, step as int),
{
    if span == 0 {
        0
    } else {
        proof {
            sample_count_is_exact(span as int, step as int);
        }
        (span - 1) / step + 1
    }
}

/// Adds up `n` samples of row `y`, beginning at column `x0`.
pub fn sum_row(frame: &Frame, y: usize, x0: usize, step: usize, n: usize) -> (s: ChannelSums)
    requires
        frame.wf(),
        step >= 1,
        y < frame.height,
        n > 0 ==> x0 + step * (n - 1) < frame.width,
    ensures
        s@ == row_sums(*frame, y as int, x0 as int, step as int, n as nat),
{
    let mut acc = ChannelSums { red: 0, green: 0, blue: 0 };
    let mut i: usize = 0;
    while i < n
        invariant
            frame.wf(),
            step >= 1,
            y < frame.height,
            n > 0 ==> x0 + step * (n - 1) < frame.width,
            i <= n,
            acc@ == row_sums(*frame, y as int, x0 as int, step as int, i as nat),
        decreases n - i,
    {
        proof {
            row_sums_fit(*frame, y as int, x0 as int, step as int, i as nat);
            assert(0 <= step * i <= step * (n - 1)) by (nonlinear_arith)
                requires
                    0 <= i <= n - 1,
                    step >= 1,
            ;
        }
        let pixel = frame.pixel(x0 + step * i, y);
        acc.red = acc.red + pixel.red as u128;
        acc.green = acc.green + pixel.green as u128;
        acc.blue = acc.blue + pixel.blue as u128;
        i = i + 1;
    }
    acc
}

/// Adds up `ny` sampled rows of `nx` samples each, beginning at pixel
/// (`x0`, `y0`).
pub fn sum_block(frame: &Frame, x0: usize, y0: usize, step: usize, nx: usize, ny: usize) -> (s:
    ChannelSums)
    requires
        frame.wf(),
        step >= 1,
        nx > 0 ==> x0 + step * (nx - 1) < frame.width,
        ny > 0 ==> y0 + step * (ny - 1) < frame.height,
    ensures
        s@ == block_sums(*frame, x0 as int, y0 as int, step as int, nx as nat, ny as nat),
{
    let mut acc = ChannelSums { red: 0, green: 0, blue: 0 };
    if nx == 0 {
        proof {
            empty_rows_add_nothing(*frame, x0 as int, y0 as int, step as int, ny as nat);
        }
        return acc;
    }
    let mut j: usize = 0;
    while j < ny
        invariant
            frame.wf(),
            step >= 1,
            nx > 0,
            x0 + step * (nx - 1) < frame.width,
            ny > 0 ==> y0 + step * (ny - 1) < frame.height,
            j <= ny,
            acc@ == block_sums(*frame, x0 as int, y0 as int, step as int, nx as nat, j as nat),
        decreases ny - j,
    {
        proof {
            assert(0 <= step * j <= step * (ny - 1)) by (nonlinear_arith)
                requires
                    0 <= j <= ny - 1,
                    step >= 1,
            ;
        }
        let y: usize = y0 + step * j;
        let row = sum_row(frame, y, x0, step, nx);
        proof {
            block_sums_fit(*frame, x0 as int, y0 as int, step as int, nx as nat, j as nat);
            row_sums_fit(*frame, y as int, x0 as int, step as int, nx as nat);
            assert(nx - 1 <= step * (nx - 1)) by (nonlinear_arith)
                requires
                    nx >= 1,
                    step >= 1,
            ;
            assert(ny - 1 <= step * (ny - 1)) by (nonlinear_arith)
                requires
                    ny >= 1,
                    step >= 1,
            ;
            assert(nx * j + nx <= frame.width * frame.height) by (nonlinear_arith)
                requires
                    1 <= nx <= frame.width,
                    0 <= j < ny,
                    ny <= frame.height,
            ;
            assert(frame.width * frame.height <= frame.stride * frame.height) by (nonlinear_arith)
                requires
                    frame.width <= frame.stride,
                    frame.height >= 0,
            ;
            assert(frame.stride * frame.height <= frame.data.len());
        }
        acc.red = acc.red + row.red;
        acc.green = acc.green + row.green;
        acc.blue = acc.blue + row.blue;
        j = j + 1;
    }
    acc
}

/// Rows without samples add nothing, however many there are.
pub proof fn empty_rows_add_nothing(frame: Frame, x0: int, y0: int, step: int, ny: nat)
    ensures
        block_sums(frame, x0, y0, step, 0, ny) == ColorSum::zero(),
    decreases ny,
{
    if ny > 0 {
        empty_rows_add_nothing(frame, x0, y0, step, (ny - 1) as nat);
    }
}

/// A cell of a well-formed frame lies inside the frame, samples included.
pub proof fn cell_lies_in_frame(frame: Frame, step: int, cell_col: int, cell_row: int)
    requires
        frame.wf(),
        step >= 1,
        0 <= cell_col < GRID_SIDE,
        0 <= cell_row < GRID_SIDE,
    ensures
        samples_across(frame, step) >= 1,
        samples_down(frame, step) >= 1,
        0 <= frame.cell_width_of() * cell_col,
        0 <= frame.cell_height_of() * cell_row,
        frame.cell_width_of() * cell_col + step * (samples_across(frame, step) - 1)
            < frame.width,
        frame.cell_height_of() * cell_row + step * (samples_down(frame, step) - 1)
            < frame.height,
        samples_across(frame, step) * samples_down(frame, step) >= 1,
        samples_across(frame, step) * samples_down(frame, step) <= frame.width * frame.height,
        frame.width * frame.height <= frame.data.len(),
{
    let cw = frame.cell_width_of();
    let ch = frame.cell_height_of();
    let nx = samples_across(frame, step);
    let ny = samples_down(frame, step);
    sample_count_is_exact(cw, step);
    sample_count_is_exact(ch, step);
    assert(step * (nx - 1) < cw);
    assert(step * (ny - 1) < ch);
    assert(0 <= cw * cell_col && cw * cell_col + cw <= cw * 8) by (nonlinear_arith)
        requires
            cw >= 0,
            0 <= cell_col < 8,
    ;
    assert(0 <= ch * cell_row && ch * cell_row + ch <= ch * 8) by (nonlinear_arith)
        requires
            ch >= 0,
            0 <= cell_row < 8,
    ;
    assert(1 <= nx * ny && nx * ny <= frame.width * frame.height) by (nonlinear_arith)
        requires
            1 <= nx <= frame.width,
            1 <= ny <= frame.height,
    ;
    assert(frame.width * frame.height <= frame.stride * frame.height) by (nonlinear_arith)
        requires
            frame.width <= frame.stride,
            frame.height >= 0,
    ;
}

/// Averages the samples of one cell.
pub fn average_cell(frame: &Frame, step: usize, cell_col: usize, cell_row: usize) -> (c: Color)
    requires
        frame.wf(),
        step >= 1,
        cell_col < GRID_SIDE,
        cell_row < GRID_SIDE,
    ensures
        c == cell_average(*frame, step as int, cell_col as int, cell_row as int),
{
    let cell_w = frame.cell_width();
    let cell_h = frame.cell_height();
    let nx = samples_along(cell_w, step);
    let ny = samples_along(cell_h, step);
    proof {
        cell_lies_in_frame(*frame, step as int, cell_col as int, cell_row as int);
        block_sums_fit(
            *frame,
            cell_w * cell_col,
            cell_h * cell_row,
            step as int,
            nx as nat,
            ny as nat,
        );
    }
    let sums = sum_block(frame, cell_w * cell_col, cell_h * cell_row, step, nx, ny);
    let count: u128 = nx as u128 * ny as u128;
    proof {
        let n = count as int;
        assert forall|t: int| 0 <= t <= 255 * n implies 0 <= #[trigger] (t / n) <= 255 by {
            assert(0 <= t / n <= 255) by (nonlinear_arith)
                requires
                    0 <= t <= 255 * n,
                    n >= 1,
            ;
        }
    }
    Color {
        red: (sums.red / count) as u8,
        green: (sums.green / count) as u8,
        blue: (sums.blue / count) as u8,
    }
}

/// Reduces a frame to its 64 averaged colors, row by row from the top, each
/// row from the left.
pub fn reduce_frame(frame: &Frame, step: usize) -> (cells: Vec<Color>)
    requires
        frame.wf(),
        step >= 1,
    ensures
        cells@ == grid_averages(*frame, step as int),
        cells@.len() == GRID_CELLS,
{
    let mut cells: Vec<Color> = Vec::with_capacity(64);
    let mut i: usize = 0;
    while i < 64
        invariant
            frame.wf(),
            step >= 1,
            i <= 64,
            cells@.len() == i,
            forall|k: int|
                0 <= k < i ==> cells@[k] == cell_average(
                    *frame,
                    step as int,
                    raster_col(k),
                    raster_row(k),
                ),
        decreases 64 - i,
    {
        let c = average_cell(frame, step, i % 8, i / 8);
        cells.push(c);
        i = i + 1;
    }
    assert(cells@ =~= grid_averages(*frame, step as int));
    cells
}

/// Two frames that show the same pixels along a sampled row have the same
/// totals there.
pub proof fn row_sums_agree(a: Frame, b: Frame, y: int, x0: int, step: int, n: nat)
    requires
        forall|i: int|
            0 <= i < n ==> #[trigger] a.pixel_at(sample_position(x0, step, i), y) == b.pixel_at(
                sample_position(x0, step, i),
                y,
            ),
    ensures
        row_sums(a, y, x0, step, n) == row_sums(b, y, x0, step, n),
    decreases n,
{
    if n > 0 {
        row_sums_agree(a, b, y, x0, step, (n - 1) as nat);
    }
}

/// Two frames that show the same pixels at every sample of a block have the
/// same totals there.
pub proof fn block_sums_agree(a: Frame, b: Frame, x0: int, y0: int, step: int, nx: nat, ny: nat)
    requires
        forall|i: int, j: int|
            0 <= i < nx && 0 <= j < ny ==> #[trigger] a.pixel_at(
                sample_position(x0, step, i),
                sample_position(y0, step, j),
            ) == b.pixel_at(sample_position(x0, step, i), sample_position(y0, step, j)),
    ensures
        block_sums(a, x0, y0, step, nx, ny) == block_sums(b, x0, y0, step, nx, ny),
    decreases ny,
{
    if ny > 0 {
        block_sums_agree(a, b, x0, y0, step, nx, (ny - 1) as nat);
        row_sums_agree(a, b, sample_position(y0, step, ny - 1), x0, step, nx);
    }
}

/// The reduction is a function of the pixels alone: two frames of the same
/// size that show the same picture reduce to the same colors, whatever their
/// row lengths, padding or unused bytes hold. In particular, reducing one
/// frame again gives the same colors again.
pub proof fn reduction_depends_on_pixels_alone(a: Frame, b: Frame, step: int)
    requires
        a.wf(),
        b.wf(),
        step >= 1,
        a.width == b.width,
        a.height == b.height,
        forall|x: int, y: int|
            0 <= x < a.width && 0 <= y < a.height ==> a.pixel_at(x, y) == b.pixel_at(x, y),
    ensures
        grid_averages(a, step) == grid_averages(b, step),
{
    assert forall|k: int| 0 <= k < GRID_CELLS implies cell_average(
        a,
        step,
        raster_col(k),
        raster_row(k),
    ) == cell_average(b, step, raster_col(k), raster_row(k)) by {
        let col = raster_col(k);
        let row = raster_row(k);
        let x0 = a.cell_width_of() * col;
        let y0 = a.cell_height_of() * row;
        let nx = samples_across(a, step);
        let ny = samples_down(a, step);
        cell_lies_in_frame(a, step, col, row);
        assert forall|i: int, j: int| 0 <= i < nx && 0 <= j < ny implies #[trigger] a.pixel_at(
            sample_position(x0, step, i),
            sample_position(y0, step, j),
        ) == b.pixel_at(sample_position(x0, step, i), sample_position(y0, step, j)) by {
            sample_stays_in_cell(x0, step, nx, i, a.width as int);
            sample_stays_in_cell(y0, step, ny, j, a.height as int);
        }
        block_sums_agree(a, b, x0, y0, step, nx as nat, ny as nat);
    }
    assert(grid_averages(a, step) =~= grid_averages(b, step));
}

/// A sample before the last one of a run lies where the run lies.
pub proof fn sample_stays_in_cell(start: int, step: int, n: int, i: int, limit: int)
    requires
        start >= 0,
        step >= 1,
        0 <= i < n,
        start + step * (n - 1) < limit,
    ensures
        0 <= sample_position(start, step, i) < limit,
{
    assert(0 <= step * i <= step * (n - 1)) by (nonlinear_arith)
        requires
            0 <= i <= n - 1,
            step >= 1,
    ;
}

/// A sampled row of one color adds up to that color times the number of
/// samples.
pub proof fn uniform_row_sums(frame: Frame, c: Color, y: int, x0: int, step: int, n: nat)
    requires
        forall|i: int| 0 <= i < n ==> #[trigger] frame.pixel_at(sample_position(x0, step, i), y) == c,
    ensures
        row_sums(frame, y, x0, step, n) == ColorSum::of_uniform(c, n as int),
    decreases n,
{
    if n > 0 {
        uniform_row_sums(frame, c, y, x0, step, (n - 1) as nat);
        assert((n - 1) * c.red + c.red == n * c.red) by (nonlinear_arith);
        assert((n - 1) * c.green + c.green == n * c.green) by (nonlinear_arith);
        assert((n - 1) * c.blue + c.blue == n * c.blue) by (nonlinear_arith);
    }
}

/// A sampled block of one color adds up to that color times the number of
/// samples.
pub proof fn uniform_block_sums(
    frame: Frame,
    c: Color,
    x0: int,
    y0: int,
    step: int,
    nx: nat,
    ny: nat,
)
    requires
        forall|i: int, j: int|
            0 <= i < nx && 0 <= j < ny ==> #[trigger] frame.pixel_at(
                sample_position(x0, step, i),
                sample_position(y0, step, j),
            ) == c,
    ensures
        block_sums(frame, x0, y0, step, nx, ny) == ColorSum::of_uniform(c, (nx * ny) as int),
    decreases ny,
{
    if ny > 0 {
        uniform_block_sums(frame, c, x0, y0, step, nx, (ny - 1) as nat);
        uniform_row_sums(frame, c, sample_position(y0, step, ny - 1), x0, step, nx);
        assert((nx * (ny - 1)) * c.red + nx * c.red == (nx * ny) * c.red) by (nonlinear_arith);
        assert((nx * (ny - 1)) * c.green + nx * c.green == (nx * ny) * c.green)
            by (nonlinear_arith);
        assert((nx * (ny - 1)) * c.blue + nx * c.blue == (nx * ny) * c.blue) by (nonlinear_arith);
    } else {
        assert(nx * ny == 0) by (nonlinear_arith)
            requires
                ny == 0,
        ;
    }
}

/// The average of `count` pixels of one color is that color, with nothing
/// lost to rounding.
pub proof fn uniform_average(c: Color, count: int)
    requires
        count >= 1,
    ensures
        ColorSum::of_uniform(c, count).average(count) == c,
{
    assert forall|v: int| 0 <= v <= 255 implies #[trigger] (count * v) / count == v by {
        assert((count * v) / count == v) by (nonlinear_arith)
            requires
                count >= 1,
        ;
    }
    assert((count * c.red) / count == c.red);
    assert((count * c.green) / count == c.green);
    assert((count * c.blue) / count == c.blue);
}

/// A frame that shows one color everywhere reduces to that color in every
/// cell, exactly.
pub proof fn uniform_frame_reduces_to_its_color(frame: Frame, c: Color, step: int)
    requires
        frame.wf(),
        step >= 1,
        forall|x: int, y: int|
            0 <= x < frame.width && 0 <= y < frame.height ==> frame.pixel_at(x, y) == c,
    ensures
        grid_averages(frame, step) == Seq::new(GRID_CELLS as nat, |i: int| c),
        forall|col: int, row: int|
            0 <= col < GRID_SIDE && 0 <= row < GRID_SIDE ==> cell_average(frame, step, col, row)
                == c,
{
    assert forall|col: int, row: int| 0 <= col < GRID_SIDE && 0 <= row < GRID_SIDE implies cell_average(
        frame,
        step,
        col,
        row,
    ) == c by {
        let x0 = frame.cell_width_of() * col;
        let y0 = frame.cell_height_of() * row;
        let nx = samples_across(frame, step);
        let ny = samples_down(frame, step);
        cell_lies_in_frame(frame, step, col, row);
        assert forall|i: int, j: int| 0 <= i < nx && 0 <= j < ny implies #[trigger] frame.pixel_at(
            sample_position(x0, step, i),
            sample_position(y0, step, j),
        ) == c by {
            sample_stays_in_cell(x0, step, nx, i, frame.width as int);
            sample_stays_in_cell(y0, step, ny, j, frame.height as int);
        }
        uniform_block_sums(frame, c, x0, y0, step, nx as nat, ny as nat);
        uniform_average(c, nx * ny);
    }
    assert(grid_averages(frame, step) =~= Seq::new(GRID_CELLS as nat, |i: int| c));
}

} // verus!
