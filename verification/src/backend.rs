//! The swappable rendering seam: the `Backend` trait and its neutral inputs.
//!
//! `ResolvedChart` is renderer-neutral — pure coordinates plus axis label maps — so no backend
//! ever sees the original wide/long shape or a charting library's type. A `Backend` paints a
//! chart plus theme and size into a `RenderOutput`.

use crate::dsl::Config;
use crate::dsl::ConfigModel;
use crate::dsl::Mark;
use crate::dsl::Scale;
use crate::dsl::ScaleModel;
use crate::numeral;
use crate::numeral::Number;
use crate::theme::Theme;
use crate::typing::Value;
use crate::typing::ValueModel;
use crate::views;
use vstd::prelude::*;

verus! {

/// The pixel dimensions a chart is painted into. Small and `Copy`.
#[derive(Clone, Copy, Debug, PartialEq, Eq, Hash, Structural)]
pub struct Size {
    pub width: u32,
    pub height: u32,
}

/// One coordinate of a point.
#[derive(Debug, PartialEq, Eq)]
pub enum Coord {
    /// A number from the data.
    Number(Number),
    /// Epoch seconds.
    Time(i64),
    /// A category's index or a count.
    Whole(usize),
}

/// What a [`Coord`] is.
#[verifier::ext_equal]
pub enum CoordModel {
    Number(Seq<char>),
    Time(int),
    Whole(int),
}

impl View for Coord {
    type V = CoordModel;

    open spec fn view(&self) -> CoordModel {
        match self {
            Coord::Number(n) => CoordModel::Number(n@),
            Coord::Time(t) => CoordModel::Time(*t as int),
            Coord::Whole(n) => CoordModel::Whole(*n as int),
        }
    }
}

impl Clone for Coord {
    fn clone(&self) -> (r: Self)
        ensures
            r == *self,
    {
        match self {
            Coord::Number(n) => Coord::Number(n.clone()),
            Coord::Time(t) => Coord::Time(*t),
            Coord::Whole(n) => Coord::Whole(*n),
        }
    }
}

/// One data series: a display name, its `(x, y)` points, and optional per-point sizes
/// (parallel to `points`, empty unless a size channel is bound for a bubble chart — the
/// backend zips points with sizes for the `Point` mark).
#[derive(Debug, PartialEq, Eq)]
pub struct Series {
    pub name: String,
    pub points: Vec<(Coord, Coord)>,
    pub sizes: Vec<Number>,
}

/// What a [`Series`] holds.
#[verifier::ext_equal]
pub struct SeriesModel {
    pub name: Seq<char>,
    pub points: Seq<(CoordModel, CoordModel)>,
    pub sizes: Seq<Seq<char>>,
}

/// The contents of a list of points.
pub open spec fn point_views(points: Seq<(Coord, Coord)>) -> Seq<(CoordModel, CoordModel)> {
    points.map_values(|p: (Coord, Coord)| (p.0@, p.1@))
}

impl View for Series {
    type V = SeriesModel;

    open spec fn view(&self) -> SeriesModel {
        SeriesModel {
            name: self.name@,
            points: point_views(self.points@),
            sizes: views::views(self.sizes@),
        }
    }
}

impl Clone for Series {
    fn clone(&self) -> (r: Self)
        ensures
            r@ == self@,
    {
        let mut points: Vec<(Coord, Coord)> = Vec::new();
        let mut i: usize = 0;
        while i < self.points.len()
            invariant
                i <= self.points.len(),
                points@ == self.points@.take(i as int),
            decreases self.points.len() - i,
        {
            proof {
                views::lemma_take_push(self.points@, i as int);
            }
            points.push((self.points[i].0.clone(), self.points[i].1.clone()));
            i = i + 1;
        }
        proof {
            views::lemma_take_all(self.points@);
        }
        Series {
            name: self.name.clone(),
            points,
            sizes: numeral::copy_numbers(&self.sizes),
        }
    }
}

/// One radial wedge of an `Arc` chart: its category label, its angular magnitude (the summed theta
/// value), and the palette index that colors it.
#[derive(Debug, PartialEq, Eq)]
pub struct Slice {
    pub label: String,
    pub value: Number,
    pub color_index: usize,
}

/// What a [`Slice`] holds.
#[verifier::ext_equal]
pub struct SliceModel {
    pub label: Seq<char>,
    pub value: Seq<char>,
    pub color_index: int,
}

impl View for Slice {
    type V = SliceModel;

    open spec fn view(&self) -> SliceModel {
        SliceModel {
            label: self.label@,
            value: self.value@,
            color_index: self.color_index as int,
        }
    }
}

impl Clone for Slice {
    fn clone(&self) -> (r: Self)
        ensures
            r@ == self@,
    {
        Slice {
            label: self.label.clone(),
            value: self.value.clone(),
            color_index: self.color_index,
        }
    }
}

/// How an axis's coordinates should be interpreted and labeled.
#[derive(Debug, PartialEq, Eq)]
pub enum AxisKind {
    Quantitative,
    /// Coordinates are epoch seconds; a backend formats them back to date strings.
    Temporal,
    /// Coordinates are indices into these stable category labels.
    Categorical(Vec<String>),
}

/// What an [`AxisKind`] says.
#[verifier::ext_equal]
pub enum AxisKindModel {
    Quantitative,
    Temporal,
    Categorical(Seq<Seq<char>>),
}

impl View for AxisKind {
    type V = AxisKindModel;

    open spec fn view(&self) -> AxisKindModel {
        match self {
            AxisKind::Quantitative => AxisKindModel::Quantitative,
            AxisKind::Temporal => AxisKindModel::Temporal,
            AxisKind::Categorical(labels) => AxisKindModel::Categorical(views::views(labels@)),
        }
    }
}

impl Clone for AxisKind {
    fn clone(&self) -> (r: Self)
        ensures
            r@ == self@,
    {
        match self {
            AxisKind::Quantitative => AxisKind::Quantitative,
            AxisKind::Temporal => AxisKind::Temporal,
            AxisKind::Categorical(labels) => AxisKind::Categorical(
                crate::text::copy_strings(labels),
            ),
        }
    }
}

/// An axis: its title, the kind that tells a backend how to format ticks, and the scale
/// transform (log/sqrt/domain/zero) the backend applies to coordinates and tick labels.
#[derive(Debug, PartialEq, Eq)]
pub struct Axis {
    pub title: String,
    pub kind: AxisKind,
    pub scale: Scale,
}

/// What an [`Axis`] says.
#[verifier::ext_equal]
pub struct AxisModel {
    pub title: Seq<char>,
    pub kind: AxisKindModel,
    pub scale: ScaleModel,
}

impl View for Axis {
    type V = AxisModel;

    open spec fn view(&self) -> AxisModel {
        AxisModel { title: self.title@, kind: self.kind@, scale: self.scale@ }
    }
}

impl Clone for Axis {
    fn clone(&self) -> (r: Self)
        ensures
            r@ == self@,
    {
        Axis { title: self.title.clone(), kind: self.kind.clone(), scale: self.scale.clone() }
    }
}

/// A renderer-neutral resolved table for the `Table` mark: column headers and row-major typed
/// cells, in the natural one-row-per-record orientation. `transpose` asks the backend to draw
/// fields down the left and records across instead.
#[derive(Debug, PartialEq, Eq)]
pub struct TableView {
    pub headers: Vec<String>,
    pub rows: Vec<Vec<Value>>,
    pub transpose: bool,
}

/// What a [`TableView`] holds.
#[verifier::ext_equal]
pub struct TableViewModel {
    pub headers: Seq<Seq<char>>,
    pub rows: Seq<Seq<ValueModel>>,
    pub transpose: bool,
}

/// The contents of rows of values.
pub open spec fn value_rows(rows: Seq<Vec<Value>>) -> Seq<Seq<ValueModel>> {
    rows.map_values(|r: Vec<Value>| views::views(r@))
}

impl View for TableView {
    type V = TableViewModel;

    open spec fn view(&self) -> TableViewModel {
        TableViewModel {
            headers: views::views(self.headers@),
            rows: value_rows(self.rows@),
            transpose: self.transpose,
        }
    }
}

/// Copy a row of values.
fn copy_row(row: &Vec<Value>) -> (r: Vec<Value>)
    ensures
        r@ == row@,
{
    let mut out: Vec<Value> = Vec::new();
    let mut i: usize = 0;
    while i < row.len()
        invariant
            i <= row.len(),
            out@ == row@.take(i as int),
        decreases row.len() - i,
    {
        proof {
            views::lemma_take_push(row@, i as int);
        }
        out.push(row[i].clone());
        i = i + 1;
    }
    proof {
        views::lemma_take_all(row@);
    }
    out
}

impl Clone for TableView {
    fn clone(&self) -> (r: Self)
        ensures
            r@ == self@,
    {
        let mut rows: Vec<Vec<Value>> = Vec::new();
        let mut i: usize = 0;
        while i < self.rows.len()
            invariant
                i <= self.rows.len(),
                rows.len() == i,
                forall|k: int| 0 <= k < i ==> (#[trigger] rows@[k])@ == self.rows@[k]@,
            decreases self.rows.len() - i,
        {
            rows.push(copy_row(&self.rows[i]));
            i = i + 1;
        }
        assert(value_rows(rows@) =~= value_rows(self.rows@));
        TableView {
            headers: crate::text::copy_strings(&self.headers),
            rows,
            transpose: self.transpose,
        }
    }
}

/// A fully resolved, renderer-neutral chart: a mark, series of points, two axes with
/// kinds/label maps, and the presentation config.
#[derive(Debug, PartialEq, Eq)]
pub struct ResolvedChart {
    pub mark: Mark,
    pub series: Vec<Series>,
    /// Radial wedges for the `Arc` mark; empty for cartesian marks (where `series` is used).
    pub slices: Vec<Slice>,
    /// The grid for the `Table` mark; `None` for plotted marks. Cells are already coerced, so
    /// the backend only formats and lays them out.
    pub table: Option<TableView>,
    pub x_axis: Axis,
    pub y_axis: Axis,
    pub config: Config,
}

/// What a [`ResolvedChart`] holds.
#[verifier::ext_equal]
pub struct ChartModel {
    pub mark: Mark,
    pub series: Seq<SeriesModel>,
    pub slices: Seq<SliceModel>,
    pub table: Option<TableViewModel>,
    pub x_axis: AxisModel,
    pub y_axis: AxisModel,
    pub config: ConfigModel,
}

impl View for ResolvedChart {
    type V = ChartModel;

    open spec fn view(&self) -> ChartModel {
        ChartModel {
            mark: self.mark,
            series: views::views(self.series@),
            slices: views::views(self.slices@),
            table: views::opt_view(self.table),
            x_axis: self.x_axis@,
            y_axis: self.y_axis@,
            config: self.config@,
        }
    }
}

/// Copy a list of series.
fn copy_series(series: &Vec<Series>) -> (r: Vec<Series>)
    ensures
        views::views(r@) == views::views(series@),
{
    let mut out: Vec<Series> = Vec::new();
    let mut i: usize = 0;
    while i < series.len()
        invariant
            i <= series.len(),
            out.len() == i,
            forall|k: int| 0 <= k < i ==> (#[trigger] out@[k])@ == series@[k]@,
        decreases series.len() - i,
    {
        out.push(series[i].clone());
        i = i + 1;
    }
    assert(views::views(out@) =~= views::views(series@));
    out
}

/// Copy a list of slices.
fn copy_slices(slices: &Vec<Slice>) -> (r: Vec<Slice>)
    ensures
        views::views(r@) == views::views(slices@),
{
    let mut out: Vec<Slice> = Vec::new();
    let mut i: usize = 0;
    while i < slices.len()
        invariant
            i <= slices.len(),
            out.len() == i,
            forall|k: int| 0 <= k < i ==> (#[trigger] out@[k])@ == slices@[k]@,
        decreases slices.len() - i,
    {
        out.push(slices[i].clone());
        i = i + 1;
    }
    assert(views::views(out@) =~= views::views(slices@));
    out
}

impl Clone for ResolvedChart {
    fn clone(&self) -> (r: Self)
        ensures
            r@ == self@,
    {
        ResolvedChart {
            mark: self.mark,
            series: copy_series(&self.series),
            slices: copy_slices(&self.slices),
            table: match &self.table {
                Some(table) => Some(table.clone()),
                None => None,
            },
            x_axis: self.x_axis.clone(),
            y_axis: self.y_axis.clone(),
            config: self.config.clone(),
        }
    }
}

/// A rendered chart artifact: a self-contained SVG string. Rasterization to RGBA
/// is the host's job.
#[derive(Debug, PartialEq, Eq)]
pub struct RenderOutput {
    pub svg: String,
}

impl View for RenderOutput {
    type V = Seq<char>;

    open spec fn view(&self) -> Seq<char> {
        self.svg@
    }
}

impl Clone for RenderOutput {
    fn clone(&self) -> (r: Self)
        ensures
            r == *self,
    {
        RenderOutput { svg: self.svg.clone() }
    }
}

/// Why a render failed: an empty chart, or a backend-specific error message.
#[derive(Debug)]
pub enum RenderError {
    Empty,
    Backend(String),
}

impl RenderError {
    /// What the error says.
    pub open spec fn spec_message(self) -> Seq<char> {
        match self {
            RenderError::Empty => "chart has no drawable series or points"@,
            RenderError::Backend(message) => "backend error: "@ + message@,
        }
    }

    /// The error as a sentence for the user.
    pub fn message(&self) -> (r: String)
        ensures
            r@ == self.spec_message(),
    {
        match self {
            RenderError::Empty => "chart has no drawable series or points".to_owned(),
            RenderError::Backend(message) => {
                let mut out = "backend error: ".to_owned();
                out.append(message.as_str());
                out
            },
        }
    }
}

/// The one seam a charting library lives behind. A first-party engine is a second impl later;
/// the core never names a concrete backend type.
pub trait Backend {
    /// Paint a resolved chart with the given theme at the given size.
    fn render(&self, chart: &ResolvedChart, theme: &Theme, size: Size) -> Result<
        RenderOutput,
        RenderError,
    >;
}

// --- Laws -------------------------------------------------------------------------

/// A chart is described by what it holds: each point by its own two coordinates, at its place in
/// its series, each slice by its own label, value and color, and each axis by its own title and
/// kind.
pub proof fn law_charts_are_described_by_what_they_hold(chart: ResolvedChart, i: int, k: int)
    ensures
        chart@.mark == chart.mark,
        chart@.series.len() == chart.series.len(),
        chart@.slices.len() == chart.slices.len(),
        chart@.table is Some == chart.table is Some,
        0 <= i < chart.series.len() ==> {
            let s = chart.series@[i];
            &&& chart@.series[i].name == s.name@
            &&& chart@.series[i].points.len() == s.points.len()
            &&& chart@.series[i].sizes.len() == s.sizes.len()
            &&& 0 <= k < s.points.len() ==> chart@.series[i].points[k] == (
                s.points@[k].0@,
                s.points@[k].1@,
            )
            &&& 0 <= k < s.sizes.len() ==> chart@.series[i].sizes[k] == s.sizes@[k]@
        },
        0 <= i < chart.slices.len() ==> {
            let s = chart.slices@[i];
            &&& chart@.slices[i].label == s.label@
            &&& chart@.slices[i].value == s.value@
            &&& chart@.slices[i].color_index == s.color_index
        },
        chart@.x_axis.title == chart.x_axis.title@,
        chart@.y_axis.title == chart.y_axis.title@,
        chart.x_axis.kind is Temporal == chart@.x_axis.kind is Temporal,
        chart.x_axis.kind is Quantitative == chart@.x_axis.kind is Quantitative,
{
}

/// A coordinate is described by the number, the epoch seconds or the index it is.
pub proof fn law_coordinates_are_described_by_what_they_are(number: Number, secs: i64, index: usize)
    ensures
        Coord::Number(number)@ == CoordModel::Number(number@),
        Coord::Time(secs)@ == CoordModel::Time(secs as int),
        Coord::Whole(index)@ == CoordModel::Whole(index as int),
{
}

} // verus!
