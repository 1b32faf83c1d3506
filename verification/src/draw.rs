//! What a backend decides before it draws: which layout and routine a mark gets, how axes and
//! points are oriented, which points survive a scale, and how a table is laid out as a grid.
//!
//! A backend computes coordinates; these functions hold the choices around them, over whatever
//! type the coordinates have.

use crate::backend::Axis;
use crate::backend::RenderError;
use crate::backend::ResolvedChart;
use crate::backend::SeriesModel;
use crate::backend::TableView;
use crate::data;
use crate::display;
use crate::dsl::Config;
use crate::dsl::ConfigModel;
use crate::dsl::Mark;
use crate::dsl::Orientation;
use crate::dsl::Scale;
use crate::dsl::Sign;
use crate::registry;
use crate::row_laws;
use crate::text;
use crate::typing::ValueModel;
use crate::views;
use vstd::prelude::*;

verus! {

// --- Layout -----------------------------------------------------------------------

/// How a chart is laid out.
#[derive(Clone, Copy, Debug, PartialEq, Eq, Structural)]
pub enum Layout {
    /// A grid of text.
    Table,
    /// Marks on two axes.
    Cartesian,
    /// Wedges around a center.
    Radial,
}

/// The layout of a mark.
pub fn layout(mark: Mark) -> (r: Layout)
    ensures
        r == (if mark is Table {
            Layout::Table
        } else if registry::is_cartesian(mark) {
            Layout::Cartesian
        } else {
            Layout::Radial
        }),
{
    if matches!(mark, Mark::Table) {
        Layout::Table
    } else if registry::caps(mark).cartesian {
        Layout::Cartesian
    } else {
        Layout::Radial
    }
}

/// Whether a chart's bars or areas run along the x axis.
pub open spec fn lies_horizontal(mark: Mark, config: ConfigModel) -> bool {
    config.orientation == Some(Orientation::Horizontal) && (mark is Bar || mark is Area)
}

/// Whether a chart's series are drawn on top of each other.
pub open spec fn piles_up(mark: Mark, config: ConfigModel) -> bool {
    config.stack && (mark is Bar || mark is Area)
}

/// Whether a chart's bars or areas run along the x axis: the orientation is horizontal, and the
/// mark is one that has an orientation.
pub fn is_horizontal(mark: Mark, config: &Config) -> (r: bool)
    ensures
        r == lies_horizontal(mark, config@),
{
    matches!(config.orientation, Some(Orientation::Horizontal)) && matches!(
        mark,
        Mark::Bar | Mark::Area
    )
}

/// Whether a chart's series stack.
pub fn is_stacked(mark: Mark, config: &Config) -> (r: bool)
    ensures
        r == piles_up(mark, config@),
{
    config.stack && matches!(mark, Mark::Bar | Mark::Area)
}

/// The routine that draws a cartesian mark.
#[derive(Clone, Copy, Debug, PartialEq, Eq, Structural)]
pub enum Routine {
    Lines,
    Points,
    Areas,
    StackedAreas,
    Bars,
    StackedBars,
    HorizontalBars,
    StackedHorizontalBars,
    Histogram,
    /// Marks that are not cartesian are drawn elsewhere.
    Nothing,
}

/// The routine that draws a cartesian mark: one styled series per `Series` for the line, point
/// and area marks, and bars grouped or stacked. Horizontal bars stack as vertical ones do: x and
/// y are exchanged before they are drawn.
pub fn routine(mark: Mark, config: &Config) -> (r: Routine)
    ensures
        r == (match mark {
            Mark::Line => Routine::Lines,
            Mark::Point => Routine::Points,
            Mark::Area => if config@.stack {
                Routine::StackedAreas
            } else {
                Routine::Areas
            },
            Mark::Bar => match (lies_horizontal(mark, config@), config@.stack) {
                (false, false) => Routine::Bars,
                (false, true) => Routine::StackedBars,
                (true, false) => Routine::HorizontalBars,
                (true, true) => Routine::StackedHorizontalBars,
            },
            Mark::Histogram => Routine::Histogram,
            Mark::Arc | Mark::Table => Routine::Nothing,
        }),
{
    match mark {
        Mark::Line => Routine::Lines,
        Mark::Point => Routine::Points,
        Mark::Area => if config.stack {
            Routine::StackedAreas
        } else {
            Routine::Areas
        },
        Mark::Bar => match (is_horizontal(mark, config), config.stack) {
            (false, false) => Routine::Bars,
            (false, true) => Routine::StackedBars,
            (true, false) => Routine::HorizontalBars,
            (true, true) => Routine::StackedHorizontalBars,
        },
        Mark::Histogram => Routine::Histogram,
        Mark::Arc | Mark::Table => Routine::Nothing,
    }
}

/// Whether some series has a name to list.
pub open spec fn has_named_series(series: Seq<SeriesModel>) -> bool {
    exists|i: int| 0 <= i < series.len() && (#[trigger] series[i]).name.len() > 0
}

/// Whether a cartesian chart gets a legend: it is wanted, and some series has a name to list.
pub fn shows_legend(chart: &ResolvedChart) -> (r: bool)
    ensures
        r == (chart@.config.legend && has_named_series(chart@.series)),
{
    if !chart.config.legend {
        return false;
    }
    let ghost all = chart@.series;
    let mut i: usize = 0;
    while i < chart.series.len()
        invariant
            i <= chart.series.len(),
            chart.config.legend,
            all == chart@.series,
            forall|k: int| 0 <= k < i ==> (#[trigger] all[k]).name.len() == 0,
        decreases chart.series.len() - i,
    {
        assert(all[i as int].name == chart.series@[i as int].name@);
        if chart.series[i].name.as_str().unicode_len() > 0 {
            return true;
        }
        i = i + 1;
    }
    false
}

// --- Axes and points --------------------------------------------------------------

/// The axes a cartesian chart is drawn on, horizontal one first. Horizontal bars and areas have
/// x and y exchanged, so categories run down the y axis.
pub fn drawn_axes(chart: &ResolvedChart) -> (r: (Axis, Axis))
    ensures
        (r.0@, r.1@) == (if lies_horizontal(chart@.mark, chart@.config) {
            (chart@.y_axis, chart@.x_axis)
        } else {
            (chart@.x_axis, chart@.y_axis)
        }),
{
    if is_horizontal(chart.mark, &chart.config) {
        (chart.y_axis.clone(), chart.x_axis.clone())
    } else {
        (chart.x_axis.clone(), chart.y_axis.clone())
    }
}

/// Where an axis's drawn range comes from.
#[derive(Clone, Copy, Debug, PartialEq, Eq, Structural)]
pub enum RangeSource {
    /// The explicit domain, through the scale's transform.
    Domain,
    /// The range of the data, extended to the scaled zero.
    DataAndZero,
    /// The range of the data.
    Data,
}

/// Where the drawn range of an axis comes from, given where the ends of its domain lie relative
/// to zero: the explicit domain when it is set, else the data range, optionally extended to
/// include zero. What the transform is not defined for is passed over.
pub fn range_source(scale: &Scale, lo: Sign, hi: Sign) -> (r: RangeSource)
    ensures
        r == (if scale@.domain is Some && scale@.kind.maps(lo) && scale@.kind.maps(hi) {
            RangeSource::Domain
        } else if scale@.zero && scale@.kind.maps(Sign::Zero) {
            RangeSource::DataAndZero
        } else {
            RangeSource::Data
        }),
{
    if scale.domain.is_some() && scale.kind.admits(lo) && scale.kind.admits(hi) {
        RangeSource::Domain
    } else if scale.zero && scale.kind.admits(Sign::Zero) {
        RangeSource::DataAndZero
    } else {
        RangeSource::Data
    }
}

/// Points with x and y exchanged where they are drawn horizontally.
pub open spec fn turned<T>(points: Seq<(T, T)>, horizontal: bool) -> Seq<(T, T)> {
    if horizontal {
        points.map_values(|p: (T, T)| (p.1, p.0))
    } else {
        points
    }
}

/// Orient points: `(x, y)` is drawn as `(y, x)` when `horizontal`.
pub fn orient<T: Copy>(points: &Vec<(T, T)>, horizontal: bool) -> (r: Vec<(T, T)>)
    ensures
        r@ == turned(points@, horizontal),
{
    let mut out: Vec<(T, T)> = Vec::new();
    let mut i: usize = 0;
    while i < points.len()
        invariant
            i <= points.len(),
            out@ == turned(points@, horizontal).take(i as int),
        decreases points.len() - i,
    {
        proof {
            views::lemma_take_push(turned(points@, horizontal), i as int);
        }
        let p = points[i];
        out.push(
            if horizontal {
                (p.1, p.0)
            } else {
                p
            },
        );
        i = i + 1;
    }
    proof {
        views::lemma_take_all(turned(points@, horizontal));
    }
    out
}

/// Those of the first `n` scaled points that the transform is defined for.
pub open spec fn kept_points<T>(scaled: Seq<Option<(T, T)>>, n: int) -> Seq<(T, T)>
    decreases n,
{
    if n <= 0 {
        seq![]
    } else {
        match scaled[n - 1] {
            Some(p) => kept_points(scaled, n - 1).push(p),
            None => kept_points(scaled, n - 1),
        }
    }
}

/// The sizes of those of the first `n` points that are kept.
pub open spec fn kept_sizes<T, S>(scaled: Seq<Option<(T, T)>>, sizes: Seq<S>, n: int) -> Seq<S>
    decreases n,
{
    if n <= 0 {
        seq![]
    } else if scaled[n - 1] is Some && n - 1 < sizes.len() {
        kept_sizes(scaled, sizes, n - 1).push(sizes[n - 1])
    } else {
        kept_sizes(scaled, sizes, n - 1)
    }
}

/// Drop the points that the scales could not map, and keep the per-point sizes aligned to the
/// surviving points.
pub fn keep_scaled<T: Copy, S: Copy>(scaled: &Vec<Option<(T, T)>>, sizes: &Vec<S>) -> (r: (
    Vec<(T, T)>,
    Vec<S>,
))
    ensures
        r.0@ == kept_points(scaled@, scaled.len() as int),
        r.1@ == kept_sizes(scaled@, sizes@, scaled.len() as int),
{
    let mut points: Vec<(T, T)> = Vec::new();
    let mut kept: Vec<S> = Vec::new();
    let mut i: usize = 0;
    while i < scaled.len()
        invariant
            i <= scaled.len(),
            points@ == kept_points(scaled@, i as int),
            kept@ == kept_sizes(scaled@, sizes@, i as int),
        decreases scaled.len() - i,
    {
        match scaled[i] {
            Some(p) => {
                points.push(p);
                if i < sizes.len() {
                    kept.push(sizes[i]);
                }
            },
            None => {},
        }
        i = i + 1;
    }
    (points, kept)
}

/// Sizes that are parallel to the points before scaling are parallel to those that survive it.
pub proof fn law_sizes_stay_parallel<T, S>(scaled: Seq<Option<(T, T)>>, sizes: Seq<S>, n: int)
    requires
        0 <= n <= scaled.len(),
        sizes.len() == scaled.len(),
    ensures
        kept_sizes(scaled, sizes, n).len() == kept_points(scaled, n).len(),
    decreases n,
{
    if n > 0 {
        law_sizes_stay_parallel(scaled, sizes, n - 1);
    }
}

/// Whether a series has a size for each of its points, so that it is drawn as bubbles.
pub fn is_bubble_series<T, S>(points: &Vec<T>, sizes: &Vec<S>) -> (r: bool)
    ensures
        r == (sizes.len() == points.len()),
{
    sizes.len() == points.len()
}

/// The staircase through the first `n` points: each value is held flat up to the next point's
/// position and then steps to its value.
pub open spec fn staircase<T>(points: Seq<(T, T)>, n: int) -> Seq<(T, T)>
    decreases n,
{
    if n <= 0 {
        seq![]
    } else if n == 1 {
        seq![points[0]]
    } else {
        staircase(points, n - 1).push((points[n - 1].0, points[n - 2].1)).push(points[n - 1])
    }
}

/// Expand a polyline into a staircase: between each pair of points insert the corner so the
/// value is held flat then steps vertically to the next (horizontal-then-vertical).
pub fn step_points<T: Copy>(points: &Vec<(T, T)>) -> (r: Vec<(T, T)>)
    ensures
        r@ == staircase(points@, points.len() as int),
{
    let mut out: Vec<(T, T)> = Vec::new();
    let mut i: usize = 0;
    while i < points.len()
        invariant
            i <= points.len(),
            out@ == staircase(points@, i as int),
        decreases points.len() - i,
    {
        if i > 0 {
            out.push((points[i].0, points[i - 1].1));
        }
        out.push(points[i]);
        assert(i == 0 ==> out@ =~= seq![points@[0]]);
        i = i + 1;
    }
    out
}

/// A staircase has a corner between each pair of points, and passes through every point.
pub proof fn law_staircase<T>(points: Seq<(T, T)>, n: int, k: int)
    requires
        0 <= k < n <= points.len(),
    ensures
        staircase(points, n).len() == 2 * n - 1,
        staircase(points, n)[2 * k] == points[k],
        k > 0 ==> staircase(points, n)[2 * k - 1] == (points[k].0, points[k - 1].1),
    decreases n,
{
    if n > 1 {
        if k < n - 1 {
            law_staircase(points, n - 1, k);
        } else {
            law_staircase(points, n - 1, 0);
        }
    }
}

/// The label of a tick at a category's index; none beside the categories.
pub fn category_label(labels: &Vec<String>, index: Option<usize>) -> (r: String)
    ensures
        r@ == (match index {
            Some(i) => data::cell_at(views::views(labels@), i as int),
            None => seq![],
        }),
{
    match index {
        Some(i) => data::get_or_empty(labels, i),
        None => {
            let r = String::new();
            assert(r@ =~= seq![]);
            r
        },
    }
}

// --- Tables -----------------------------------------------------------------------

/// The display texts of rows of values, given the display texts of the numbers among them.
pub open spec fn shown_rows(rows: Seq<Seq<ValueModel>>, numbers: Seq<Seq<Seq<char>>>) -> Seq<
    Seq<Seq<char>>,
> {
    Seq::new(
        rows.len(),
        |r: int|
            Seq::new(
                rows[r].len(),
                |c: int|
                    display::shown(
                        rows[r][c],
                        if r < numbers.len() {
                            data::cell_at(numbers[r], c)
                        } else {
                            seq![]
                        },
                    ),
            ),
    )
}

/// Format the cells of a resolved table, given how each number among them is displayed: at the
/// number's own place in `numbers`.
pub fn format_rows(view: &TableView, numbers: &Vec<Vec<String>>) -> (r: Vec<Vec<String>>)
    ensures
        data::record_views(r@) == shown_rows(view@.rows, data::record_views(numbers@)),
{
    let ghost expected = shown_rows(view@.rows, data::record_views(numbers@));
    let mut out: Vec<Vec<String>> = Vec::new();
    let mut i: usize = 0;
    while i < view.rows.len()
        invariant
            i <= view.rows.len(),
            expected == shown_rows(view@.rows, data::record_views(numbers@)),
            out.len() == i,
            forall|k: int| 0 <= k < i ==> views::views((#[trigger] out@[k])@) == expected[k],
        decreases view.rows.len() - i,
    {
        let mut line: Vec<String> = Vec::new();
        let mut c: usize = 0;
        while c < view.rows[i].len()
            invariant
                i < view.rows.len(),
                c <= view.rows@[i as int].len(),
                expected == shown_rows(view@.rows, data::record_views(numbers@)),
                line.len() == c,
                forall|k: int| 0 <= k < c ==> (#[trigger] line@[k])@ == expected[i as int][k],
            decreases view.rows@[i as int].len() - c,
        {
            let number = if i < numbers.len() {
                data::get_or_empty(&numbers[i], c)
            } else {
                let empty = String::new();
                assert(empty@ =~= seq![]);
                empty
            };
            line.push(display::format_value(&view.rows[i][c], number.as_str()));
            c = c + 1;
        }
        assert(views::views(line@) =~= expected[i as int]);
        out.push(line);
        i = i + 1;
    }
    assert(data::record_views(out@) =~= expected);
    out
}

/// A laid-out display grid: row-major `cells`, and which single row/column (if any) is the
/// styled header band — the top row in natural layout, the left column when transposed.
#[derive(Debug, PartialEq, Eq)]
pub struct Grid {
    pub cells: Vec<Vec<String>>,
    pub header_row: Option<usize>,
    pub header_col: Option<usize>,
}

/// What a [`Grid`] holds.
#[verifier::ext_equal]
pub struct GridModel {
    pub cells: Seq<Seq<Seq<char>>>,
    pub header_row: Option<usize>,
    pub header_col: Option<usize>,
}

impl View for Grid {
    type V = GridModel;

    open spec fn view(&self) -> GridModel {
        GridModel {
            cells: data::record_views(self.cells@),
            header_row: self.header_row,
            header_col: self.header_col,
        }
    }
}

/// The grid of a table: the headers on top of the rows, or, when transposed, each header in front
/// of its column's cells.
pub open spec fn grid_of(
    headers: Seq<Seq<char>>,
    rows: Seq<Seq<Seq<char>>>,
    transpose: bool,
) -> GridModel {
    if transpose {
        GridModel {
            cells: Seq::new(
                headers.len(),
                |c: int|
                    seq![headers[c]] + Seq::new(
                        rows.len(),
                        |r: int| data::cell_at(rows[r], c),
                    ),
            ),
            header_row: None,
            header_col: Some(0),
        }
    } else {
        GridModel { cells: seq![headers] + rows, header_row: Some(0), header_col: None }
    }
}

/// Build the display [`Grid`] from a table's headers and formatted rows: natural layout puts
/// headers on the top row above the record rows; transposed layout runs each field down the
/// left column with its values spread across.
pub fn table_grid(headers: &Vec<String>, rows: &Vec<Vec<String>>, transpose: bool) -> (r: Grid)
    ensures
        r@ == grid_of(views::views(headers@), data::record_views(rows@), transpose),
{
    let ghost hm = views::views(headers@);
    let ghost rm = data::record_views(rows@);
    let ghost expected = grid_of(hm, rm, transpose).cells;
    let mut cells: Vec<Vec<String>> = Vec::new();
    if transpose {
        let mut c: usize = 0;
        while c < headers.len()
            invariant
                c <= headers.len(),
                transpose,
                hm == views::views(headers@),
                rm == data::record_views(rows@),
                expected == grid_of(hm, rm, transpose).cells,
                cells.len() == c,
                forall|k: int| 0 <= k < c ==> views::views((#[trigger] cells@[k])@) == expected[k],
            decreases headers.len() - c,
        {
            let mut line: Vec<String> = Vec::new();
            line.push(headers[c].clone());
            let mut r: usize = 0;
            while r < rows.len()
                invariant
                    r <= rows.len(),
                    c < headers.len(),
                    rm == data::record_views(rows@),
                    line.len() == r + 1,
                    line@[0]@ == headers@[c as int]@,
                    forall|k: int|
                        0 < k <= r ==> (#[trigger] line@[k])@ == data::cell_at(
                            rm[k - 1],
                            c as int,
                        ),
                decreases rows.len() - r,
            {
                line.push(data::get_or_empty(&rows[r], c));
                r = r + 1;
            }
            assert(views::views(line@) =~= expected[c as int]);
            cells.push(line);
            c = c + 1;
        }
        assert(data::record_views(cells@) =~= expected);
        Grid { cells, header_row: None, header_col: Some(0) }
    } else {
        cells.push(text::copy_strings(headers));
        let mut r: usize = 0;
        while r < rows.len()
            invariant
                r <= rows.len(),
                !transpose,
                hm == views::views(headers@),
                rm == data::record_views(rows@),
                expected == grid_of(hm, rm, transpose).cells,
                cells.len() == r + 1,
                forall|k: int|
                    0 <= k < cells.len() ==> views::views((#[trigger] cells@[k])@) == expected[k],
            decreases rows.len() - r,
        {
            cells.push(text::copy_strings(&rows[r]));
            r = r + 1;
        }
        assert(data::record_views(cells@) =~= expected);
        Grid { cells, header_row: Some(0), header_col: None }
    }
}

/// The grid of a chart's table; [`RenderError::Empty`] when the chart has no table, or one
/// without a cell in its first line. The numbers among the cells are displayed as given; see
/// [`format_rows`].
pub fn chart_grid(chart: &ResolvedChart, numbers: &Vec<Vec<String>>) -> (r: Result<
    Grid,
    RenderError,
>)
    ensures
        match chart@.table {
            None => r == Err::<Grid, RenderError>(RenderError::Empty),
            Some(view) => {
                let grid = grid_of(
                    view.headers,
                    shown_rows(view.rows, data::record_views(numbers@)),
                    view.transpose,
                );
                if has_no_cell(grid) {
                    r == Err::<Grid, RenderError>(RenderError::Empty)
                } else {
                    r is Ok && r->Ok_0@ == grid
                }
            },
        },
{
    match &chart.table {
        None => Err(RenderError::Empty),
        Some(view) => {
            let rows = format_rows(view, numbers);
            let grid = table_grid(&view.headers, &rows, view.transpose);
            if grid.is_empty() {
                Err(RenderError::Empty)
            } else {
                Ok(grid)
            }
        },
    }
}

/// Transposing a table whose rows are as long as its header exchanges the rows and columns of its
/// grid.
pub proof fn law_transposed_grid(
    headers: Seq<Seq<char>>,
    rows: Seq<Seq<Seq<char>>>,
    r: int,
    c: int,
)
    requires
        forall|k: int| 0 <= k < rows.len() ==> (#[trigger] rows[k]).len() == headers.len(),
        0 <= r <= rows.len(),
        0 <= c < headers.len(),
    ensures
        grid_of(headers, rows, true).cells[c][r] == grid_of(headers, rows, false).cells[r][c],
{
    if r > 0 {
        assert(rows[r - 1].len() == headers.len());
    }
}

/// Whether a grid's first line has no cell.
pub open spec fn has_no_cell(grid: GridModel) -> bool {
    grid.cells.len() == 0 || grid.cells[0].len() == 0
}

impl Grid {
    /// Whether there is no cell to draw.
    pub fn is_empty(&self) -> (r: bool)
        ensures
            r == has_no_cell(self@),
    {
        self.cells.len() == 0 || self.cells[0].len() == 0
    }

    /// Whether a cell is in the header band.
    pub fn is_header(&self, row: usize, col: usize) -> (r: bool)
        ensures
            r == (self@.header_row == Some(row) || self@.header_col == Some(col)),
    {
        let by_row = match self.header_row {
            Some(h) => h == row,
            None => false,
        };
        let by_col = match self.header_col {
            Some(h) => h == col,
            None => false,
        };
        by_row || by_col
    }

    /// The weight of each of the first `cols` columns: the length of its longest cell in
    /// characters, and at least one, so that wide text gets more room and an all-empty column
    /// stays visible.
    pub fn column_weights(&self, cols: usize) -> (r: Vec<usize>)
        ensures
            r.len() == cols,
            forall|c: int|
                0 <= c < cols ==> #[trigger] r@[c] == column_weight(
                    self@.cells,
                    c,
                    self@.cells.len() as int,
                ),
    {
        let mut weights: Vec<usize> = Vec::new();
        let mut k: usize = 0;
        while k < cols
            invariant
                k <= cols,
                weights.len() == k,
                forall|c: int| 0 <= c < k ==> #[trigger] weights@[c] == 1,
            decreases cols - k,
        {
            weights.push(1);
            k = k + 1;
        }
        let ghost all = self@.cells;
        let mut r: usize = 0;
        while r < self.cells.len()
            invariant
                r <= self.cells.len(),
                all == data::record_views(self.cells@),
                weights.len() == cols,
                forall|c: int|
                    0 <= c < cols ==> #[trigger] weights@[c] == column_weight(all, c, r as int),
            decreases self.cells.len() - r,
        {
            let ghost before = weights@;
            let mut c: usize = 0;
            while c < cols
                invariant
                    c <= cols,
                    r < self.cells.len(),
                    all == data::record_views(self.cells@),
                    weights.len() == cols,
                    before.len() == cols,
                    forall|k: int|
                        0 <= k < cols ==> #[trigger] before[k] == column_weight(
                            all,
                            k,
                            r as int,
                        ),
                    forall|k: int|
                        0 <= k < c ==> #[trigger] weights@[k] == column_weight(all, k, r + 1),
                    forall|k: int| c <= k < cols ==> #[trigger] weights@[k] == before[k],
                decreases cols - c,
            {
                let n = data::str_or_empty(&self.cells[r], c).unicode_len();
                assert(n == data::cell_at(all[r as int], c as int).len());
                assert(weights@[c as int] == before[c as int]);
                if n > weights[c] {
                    weights[c] = n;
                }
                c = c + 1;
            }
            r = r + 1;
        }
        weights
    }
}

/// The length of the longest cell of column `c` in the first `n` rows, and at least one.
pub open spec fn column_weight(cells: Seq<Seq<Seq<char>>>, c: int, n: int) -> int
    decreases n,
{
    if n <= 0 {
        1
    } else {
        let earlier = column_weight(cells, c, n - 1);
        let here = data::cell_at(cells[n - 1], c).len() as int;
        if here > earlier {
            here
        } else {
            earlier
        }
    }
}

// --- Laws -------------------------------------------------------------------------

/// Whether each point could be scaled.
pub open spec fn scaled_points<T>(scaled: Seq<Option<(T, T)>>) -> spec_fn(int) -> bool {
    |i: int| scaled[i] is Some
}

/// Whether each point could be scaled and has a size.
pub open spec fn scaled_sizes<T, S>(scaled: Seq<Option<(T, T)>>, sizes: Seq<S>) -> spec_fn(
    int,
) -> bool {
    |i: int| scaled[i] is Some && i < sizes.len()
}

/// The points that are drawn are exactly those that could be scaled, in order.
pub proof fn law_scaled_points_are_kept<T>(scaled: Seq<Option<(T, T)>>, n: int) -> (kept: Seq<int>)
    requires
        0 <= n <= scaled.len(),
    ensures
        row_laws::picks(kept, n, scaled_points(scaled)),
        kept_points(scaled, n).len() == kept.len(),
        forall|k: int|
            0 <= k < kept.len() ==> #[trigger] kept_points(scaled, n)[k] == scaled[kept[k]]->0,
    decreases n,
{
    let test = scaled_points(scaled);
    if n > 0 {
        let kept = law_scaled_points_are_kept(scaled, n - 1);
        row_laws::lemma_picks_next(kept, n - 1, test);
        if test(n - 1) {
            kept.push(n - 1)
        } else {
            kept
        }
    } else {
        row_laws::lemma_picks_none(n, test);
        seq![]
    }
}

/// The sizes that are drawn are exactly those of the points that could be scaled, in order.
pub proof fn law_sizes_of_scaled_points_are_kept<T, S>(
    scaled: Seq<Option<(T, T)>>,
    sizes: Seq<S>,
    n: int,
) -> (kept: Seq<int>)
    requires
        0 <= n <= scaled.len(),
    ensures
        row_laws::picks(kept, n, scaled_sizes(scaled, sizes)),
        kept_sizes(scaled, sizes, n).len() == kept.len(),
        forall|k: int|
            0 <= k < kept.len() ==> #[trigger] kept_sizes(scaled, sizes, n)[k] == sizes[kept[k]],
    decreases n,
{
    let test = scaled_sizes(scaled, sizes);
    if n > 0 {
        let kept = law_sizes_of_scaled_points_are_kept(scaled, sizes, n - 1);
        row_laws::lemma_picks_next(kept, n - 1, test);
        if test(n - 1) {
            kept.push(n - 1)
        } else {
            kept
        }
    } else {
        row_laws::lemma_picks_none(n, test);
        seq![]
    }
}

/// Horizontal points have their coordinates exchanged, each at its own place, and exchanging them
/// twice restores them; others stay as they are.
pub proof fn law_turning_exchanges_the_coordinates<T>(points: Seq<(T, T)>, i: int)
    requires
        0 <= i < points.len(),
    ensures
        turned(points, true).len() == points.len(),
        turned(points, true)[i] == (points[i].1, points[i].0),
        turned(turned(points, true), true) == points,
        turned(points, false) == points,
{
    assert(turned(turned(points, true), true) =~= points);
}

/// A column is as heavy as its longest cell is long, and at least one: no cell of it is longer, and
/// one is as long.
pub proof fn law_columns_weigh_as_much_as_their_longest_cell(
    cells: Seq<Seq<Seq<char>>>,
    c: int,
    n: int,
)
    requires
        0 <= n <= cells.len(),
    ensures
        column_weight(cells, c, n) >= 1,
        forall|r: int|
            0 <= r < n ==> data::cell_at(#[trigger] cells[r], c).len() <= column_weight(
                cells,
                c,
                n,
            ),
        column_weight(cells, c, n) == 1 || exists|r: int|
            0 <= r < n && data::cell_at(#[trigger] cells[r], c).len() == column_weight(cells, c, n),
    decreases n,
{
    if n > 0 {
        law_columns_weigh_as_much_as_their_longest_cell(cells, c, n - 1);
        assert(data::cell_at(cells[n - 1], c).len() <= column_weight(cells, c, n));
    }
}

/// A table's grid has the headers on top and each row below, in order, and its top line is the
/// header; transposed, it has a line for each header, which starts with the header and goes on
/// with that column's cells, and its first column is the header.
pub proof fn law_grids_hold_headers_and_rows(
    headers: Seq<Seq<char>>,
    rows: Seq<Seq<Seq<char>>>,
    r: int,
    c: int,
)
    requires
        0 <= r < rows.len(),
        0 <= c < headers.len(),
    ensures
        ({
            let natural = grid_of(headers, rows, false);
            let turned = grid_of(headers, rows, true);
            &&& natural.cells.len() == rows.len() + 1
            &&& natural.cells[0] == headers
            &&& natural.cells[r + 1] == rows[r]
            &&& natural.header_row == Some(0usize) && natural.header_col is None
            &&& turned.cells.len() == headers.len()
            &&& turned.cells[c].len() == rows.len() + 1
            &&& turned.cells[c][0] == headers[c]
            &&& c < rows[r].len() ==> turned.cells[c][r + 1] == rows[r][c]
            &&& c >= rows[r].len() ==> turned.cells[c][r + 1].len() == 0
            &&& turned.header_row is None && turned.header_col == Some(0usize)
        }),
{
}

/// Each cell of a table is shown at its place: text as it is, a time as its date, a missing value
/// as a dash, and a number as it was displayed for that place.
pub proof fn law_cells_are_shown_at_their_places(
    rows: Seq<Seq<ValueModel>>,
    numbers: Seq<Seq<Seq<char>>>,
    r: int,
    c: int,
)
    requires
        0 <= r < rows.len(),
        0 <= c < rows[r].len(),
    ensures
        shown_rows(rows, numbers).len() == rows.len(),
        shown_rows(rows, numbers)[r].len() == rows[r].len(),
        match rows[r][c] {
            ValueModel::Category(s) => shown_rows(rows, numbers)[r][c] == s,
            ValueModel::Time(t) => shown_rows(rows, numbers)[r][c] == display::epoch_date(t),
            ValueModel::Missing => shown_rows(rows, numbers)[r][c] == "—"@,
            ValueModel::Number(_) => r < numbers.len() && c < numbers[r].len() ==> shown_rows(
                rows,
                numbers,
            )[r][c] == numbers[r][c],
        },
{
}

/// The marks that stack are those for which the registry says so, where stacking is asked for, and
/// the same marks lie down where a horizontal orientation is.
pub proof fn law_marks_that_stack_can_lie_down(mark: Mark, config: ConfigModel)
    ensures
        piles_up(mark, config) <==> config.stack && registry::mark_caps(mark).options.stack,
        lies_horizontal(mark, config) <==> config.orientation == Some(Orientation::Horizontal)
            && registry::mark_caps(mark).options.stack,
{
}

/// Only where no series has a name is there nothing to list in a legend.
pub proof fn law_unnamed_series_need_no_legend(series: Seq<SeriesModel>)
    ensures
        !has_named_series(series) <==> forall|i: int|
            0 <= i < series.len() ==> (#[trigger] series[i]).name == Seq::<char>::empty(),
{
    assert(forall|i: int|
        0 <= i < series.len() ==> ((#[trigger] series[i]).name.len() == 0 <==> series[i].name
            =~= Seq::<char>::empty()));
}

/// A grid has a cell to draw exactly where its table has a header.
pub proof fn law_grids_with_a_header_have_cells(
    headers: Seq<Seq<char>>,
    rows: Seq<Seq<Seq<char>>>,
    transpose: bool,
)
    ensures
        has_no_cell(grid_of(headers, rows, transpose)) <==> headers.len() == 0,
{
}

} // verus!
