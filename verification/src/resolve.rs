//! Lower a `ChartSpec` plus a `Table` into a renderer-neutral `ResolvedChart`.
//!
//! This is where wide (`y: [a, b]`) and long (`y: v` + `color: c`) data collapse to
//! the same `Vec<Series>`, so a backend never sees the original shape. The x channel becomes
//! coordinates (quantitative value, temporal epoch seconds, or a stable categorical index),
//! rows with a missing x or y are dropped with a diagnostic, and axis kinds plus label maps
//! are recorded for tick formatting.
//!
//! The sums of an `Arc` and the buckets of a `Histogram` take arithmetic on the numbers
//! themselves. `terms` hands those numbers out, and `resolve` takes what was computed from them.

use crate::arithmetic;
use crate::arithmetic::Binning;
use crate::arithmetic::BinningModel;
use crate::arithmetic::Computed;
use crate::arithmetic::ComputedModel;
use crate::arithmetic::Samples;
use crate::arithmetic::SamplesModel;
use crate::arithmetic::Sum;
use crate::arithmetic::SumModel;
use crate::arithmetic::Terms;
use crate::arithmetic::TermsModel;
use crate::backend;
use crate::backend::Axis;
use crate::backend::AxisKind;
use crate::backend::AxisKindModel;
use crate::backend::AxisModel;
use crate::backend::ChartModel;
use crate::backend::Coord;
use crate::backend::CoordModel;
use crate::backend::ResolvedChart;
use crate::backend::Series;
use crate::backend::SeriesModel;
use crate::backend::Slice;
use crate::backend::SliceModel;
use crate::backend::TableView;
use crate::backend::TableViewModel;
use crate::data;
use crate::data::Column;
use crate::data::ColumnModel;
use crate::data::Table;
use crate::diag;
use crate::diag::DiagModel;
use crate::diag::Diagnostic;
use crate::dsl;
use crate::dsl::ChartSpec;
use crate::dsl::DataType;
use crate::dsl::Mark;
use crate::dsl::Scale;
use crate::dsl::ScaleKind;
use crate::dsl::Sign;
use crate::dsl::SpecModel;
use crate::numeral::Number;
use crate::registry;
use crate::text;
use crate::typing;
use crate::typing::Value;
use crate::typing::ValueModel;
use crate::views;
use vstd::prelude::*;

verus! {

/// The default histogram bucket count when `config.bins` is unset.
pub const DEFAULT_BINS: usize = 20;

// --- Channel validation -----------------------------------------------------------

/// The warning about one channel, where it is bound and the mark does not accept it.
pub open spec fn channel_warning(bound: bool, allowed: bool, name: Seq<char>, mark: Mark) -> Seq<
    DiagModel,
> {
    if bound && !allowed {
        seq![
            diag::warning(
                "channel `"@ + name + "` is ignored by mark `"@ + mark.spec_name() + "`"@,
            ),
        ]
    } else {
        seq![]
    }
}

/// The warnings about the bound channels that the mark does not accept, in channel order.
pub open spec fn channel_warnings(spec: SpecModel) -> Seq<DiagModel> {
    let ch = registry::mark_channels(spec.mark);
    channel_warning(spec.x is Some, ch.x, "x"@, spec.mark) + channel_warning(
        spec.y is Some,
        ch.y,
        "y"@,
        spec.mark,
    ) + channel_warning(spec.color is Some, ch.color, "color"@, spec.mark) + channel_warning(
        spec.size is Some,
        ch.size,
        "size"@,
        spec.mark,
    ) + channel_warning(spec.theta is Some, ch.theta, "theta"@, spec.mark)
}

/// Warn about one channel.
fn warn_channel(diags: &mut Vec<Diagnostic>, bound: bool, allowed: bool, name: &str, mark: Mark)
    ensures
        views::views(final(diags)@) == views::views(old(diags)@) + channel_warning(
            bound,
            allowed,
            name@,
            mark,
        ),
{
    if bound && !allowed {
        let mut message = text::framed("channel `", name, "` is ignored by mark `");
        message.append(mark.name());
        message.append("`");
        diag::report(diags, Diagnostic::warning(message.as_str()));
    }
}

/// Warn when a bound channel is not in the mark's capability set: e.g. a `size`
/// channel on a `Bar`, or a `theta` channel on a cartesian mark. Forward-compat — the value
/// stays in the spec, it is simply ignored by the resolver and the panel hides its control.
pub fn validate_channels(spec: &ChartSpec) -> (r: Vec<Diagnostic>)
    ensures
        views::views(r@) == channel_warnings(spec@),
{
    let ch = registry::caps(spec.mark).channels;
    let mut diags: Vec<Diagnostic> = Vec::new();
    assert(views::views(diags@) =~= seq![]);
    warn_channel(&mut diags, spec.x.is_some(), ch.x, "x", spec.mark);
    warn_channel(&mut diags, spec.y.is_some(), ch.y, "y", spec.mark);
    warn_channel(&mut diags, spec.color.is_some(), ch.color, "color", spec.mark);
    warn_channel(&mut diags, spec.size.is_some(), ch.size, "size", spec.mark);
    warn_channel(&mut diags, spec.theta.is_some(), ch.theta, "theta", spec.mark);
    diags
}

// --- Numbers and the x axis -------------------------------------------------------

/// A cell as a number, if it is one.
pub open spec fn number_of(cell: Seq<char>) -> Option<Seq<char>> {
    match typing::coerced(cell, DataType::Quantitative) {
        ValueModel::Number(n) => Some(n),
        _ => None,
    }
}

/// The labels of the first `n` cells, each once, in the order in which they are first seen.
pub open spec fn categories(cells: Seq<Seq<char>>, n: int) -> Seq<Seq<char>>
    decreases n,
{
    if n <= 0 {
        seq![]
    } else {
        let earlier = categories(cells, n - 1);
        match typing::coerced(cells[n - 1], DataType::Nominal) {
            ValueModel::Category(label) => if text::index_of(earlier, label) is None {
                earlier.push(label)
            } else {
                earlier
            },
            _ => earlier,
        }
    }
}

/// The coordinate of cell `i` on an axis of the given type: its number, its time, or the index
/// of its label among the column's labels.
pub open spec fn axis_value(cells: Seq<Seq<char>>, ty: DataType, i: int) -> Option<CoordModel> {
    match typing::coerced(cells[i], ty) {
        ValueModel::Number(n) => Some(CoordModel::Number(n)),
        ValueModel::Time(secs) => Some(CoordModel::Time(secs)),
        ValueModel::Category(label) => match text::index_of(
            categories(cells, cells.len() as int),
            label,
        ) {
            Some(k) => Some(CoordModel::Whole(k)),
            None => None,
        },
        ValueModel::Missing => None,
    }
}

/// The coordinates of a column's cells on an axis of the given type.
pub open spec fn axis_values(cells: Seq<Seq<char>>, ty: DataType) -> Seq<Option<CoordModel>> {
    Seq::new(cells.len(), |i: int| axis_value(cells, ty, i))
}

/// The kind of an axis that shows a column as the given type.
pub open spec fn axis_kind(cells: Seq<Seq<char>>, ty: DataType) -> AxisKindModel {
    match ty {
        DataType::Quantitative => AxisKindModel::Quantitative,
        DataType::Temporal => AxisKindModel::Temporal,
        DataType::Ordinal | DataType::Nominal => AxisKindModel::Categorical(
            categories(cells, cells.len() as int),
        ),
    }
}

/// The contents of a list of optional coordinates.
pub open spec fn coord_views(values: Seq<Option<Coord>>) -> Seq<Option<CoordModel>> {
    values.map_values(|v: Option<Coord>| views::opt_view(v))
}

/// Coerce one cell to a number, or `None` if missing/unparseable.
fn as_number(cell: &str) -> (r: Option<Number>)
    ensures
        views::opt_view(r) == number_of(cell@),
{
    match typing::coerce(cell, DataType::Quantitative) {
        Value::Number(n) => Some(n),
        _ => None,
    }
}

/// Map a column's cells to axis coordinates plus the matching `AxisKind`. Categorical values
/// get stable indices in first-seen order, with the label vector recorded on the kind.
fn map_axis(cells: &Vec<String>, ty: DataType) -> (r: (Vec<Option<Coord>>, AxisKind))
    ensures
        coord_views(r.0@) == axis_values(views::views(cells@), ty),
        r.1@ == axis_kind(views::views(cells@), ty),
{
    match ty {
        DataType::Quantitative => (map_scalar(cells, ty), AxisKind::Quantitative),
        DataType::Temporal => (map_scalar(cells, ty), AxisKind::Temporal),
        DataType::Ordinal | DataType::Nominal => map_categorical(cells, ty),
    }
}

/// Map cells to numbers or times.
fn map_scalar(cells: &Vec<String>, ty: DataType) -> (r: Vec<Option<Coord>>)
    requires
        ty is Quantitative || ty is Temporal,
    ensures
        coord_views(r@) == axis_values(views::views(cells@), ty),
{
    let ghost all = views::views(cells@);
    let mut out: Vec<Option<Coord>> = Vec::new();
    let mut i: usize = 0;
    while i < cells.len()
        invariant
            i <= cells.len(),
            ty is Quantitative || ty is Temporal,
            all == views::views(cells@),
            out.len() == i,
            forall|k: int| 0 <= k < i ==> views::opt_view(#[trigger] out@[k]) == axis_value(all, ty, k),
        decreases cells.len() - i,
    {
        let value = match typing::coerce(cells[i].as_str(), ty) {
            Value::Number(n) => Some(Coord::Number(n)),
            Value::Time(t) => Some(Coord::Time(t)),
            _ => None,
        };
        assert(views::opt_view(value) == axis_value(all, ty, i as int));
        out.push(value);
        i = i + 1;
    }
    assert(coord_views(out@) =~= axis_values(all, ty));
    out
}

/// A label found in a list is found at the same place in a longer one.
pub proof fn lemma_index_stays(names: Seq<Seq<char>>, more: Seq<char>, name: Seq<char>)
    ensures
        text::index_of(names, name) is Some ==> text::index_of(names.push(more), name)
            == text::index_of(names, name),
        text::index_of(names, name) is None && more == name ==> text::index_of(
            names.push(more),
            name,
        ) == Some(names.len() as int),
{
    assert(names.push(more).drop_last() =~= names);
}

/// Build categorical indices and labels in stable first-seen order.
fn map_categorical(cells: &Vec<String>, ty: DataType) -> (r: (Vec<Option<Coord>>, AxisKind))
    requires
        ty is Ordinal || ty is Nominal,
    ensures
        coord_views(r.0@) == axis_values(views::views(cells@), ty),
        r.1@ == axis_kind(views::views(cells@), ty),
{
    broadcast use crate::views::lemma_views_push;

    let ghost all = views::views(cells@);
    let mut labels: Vec<String> = Vec::new();
    let mut values: Vec<Option<Coord>> = Vec::new();
    assert(views::views(labels@) =~= seq![]);
    let mut i: usize = 0;
    while i < cells.len()
        invariant
            i <= cells.len(),
            ty is Ordinal || ty is Nominal,
            all == views::views(cells@),
            values.len() == i,
            views::views(labels@) == categories(all, i as int),
            forall|k: int|
                0 <= k < i ==> views::opt_view(#[trigger] values@[k]) == (match typing::coerced(
                    all[k],
                    DataType::Nominal,
                ) {
                    ValueModel::Category(label) => match text::index_of(
                        views::views(labels@),
                        label,
                    ) {
                        Some(n) => Some(CoordModel::Whole(n)),
                        None => None,
                    },
                    _ => None,
                }),
            forall|k: int|
                0 <= k < i ==> (typing::coerced(#[trigger] all[k], DataType::Nominal) matches ValueModel::Category(label)
                    ==> text::index_of(views::views(labels@), label) is Some),
        decreases cells.len() - i,
    {
        let ghost before = views::views(labels@);
        match typing::coerce(cells[i].as_str(), DataType::Nominal) {
            Value::Category(label) => {
                assert(typing::coerced(all[i as int], DataType::Nominal) == ValueModel::Category(
                    label@,
                ));
                match text::position(&labels, label.as_str()) {
                    Some(k) => {
                        values.push(Some(Coord::Whole(k)));
                    },
                    None => {
                        let k = labels.len();
                        let ghost name = label@;
                        labels.push(label);
                        proof {
                            assert(views::views(labels@) == before.push(name));
                            assert forall|j: int| 0 <= j <= i implies (typing::coerced(
                                #[trigger] all[j],
                                DataType::Nominal,
                            ) matches ValueModel::Category(l) ==> text::index_of(
                                before.push(name),
                                l,
                            ) is Some && (j < i ==> text::index_of(before.push(name), l)
                                == text::index_of(before, l))) by {
                                if let ValueModel::Category(l) = typing::coerced(
                                    all[j],
                                    DataType::Nominal,
                                ) {
                                    lemma_index_stays(before, name, l);
                                }
                            }
                            lemma_index_stays(before, name, name);
                        }
                        values.push(Some(Coord::Whole(k)));
                    },
                }
            },
            _ => {
                values.push(None);
            },
        }
        i = i + 1;
    }
    proof {
        assert forall|k: int| 0 <= k < values.len() implies views::opt_view(#[trigger] values@[k])
            == axis_value(all, ty, k) by {
            assert(typing::coerced(all[k], ty) == typing::coerced(all[k], DataType::Nominal));
        }
        assert(coord_views(values@) =~= axis_values(all, ty));
    }
    (values, AxisKind::Categorical(labels))
}

// --- Series -----------------------------------------------------------------------

/// The point of row `i`, if the row has both an x and a y.
pub open spec fn point_at(xs: Seq<Option<CoordModel>>, ys: Seq<Seq<char>>, i: int) -> Option<
    (CoordModel, CoordModel),
> {
    match (xs[i], number_of(data::cell_at(ys, i))) {
        (Some(x), Some(y)) => Some((x, CoordModel::Number(y))),
        _ => None,
    }
}

/// The points of the first `n` rows that have one.
pub open spec fn points(xs: Seq<Option<CoordModel>>, ys: Seq<Seq<char>>, n: int) -> Seq<
    (CoordModel, CoordModel),
>
    decreases n,
{
    if n <= 0 {
        seq![]
    } else {
        match point_at(xs, ys, n - 1) {
            Some(p) => points(xs, ys, n - 1).push(p),
            None => points(xs, ys, n - 1),
        }
    }
}

/// The warnings about those of the first `n` rows that a series has no point for.
pub open spec fn series_drops(
    xs: Seq<Option<CoordModel>>,
    ys: Seq<Seq<char>>,
    field: Seq<char>,
    n: int,
) -> Seq<DiagModel>
    decreases n,
{
    if n <= 0 {
        seq![]
    } else {
        let earlier = series_drops(xs, ys, field, n - 1);
        if point_at(xs, ys, n - 1) is None {
            earlier.push(
                diag::warning(
                    "dropped row "@ + text::decimal((n - 1) as nat) + " for series `"@ + field
                        + "`: missing x or y"@,
                ),
            )
        } else {
            earlier
        }
    }
}

/// The series of one y column, named after it.
pub open spec fn column_series(xs: Seq<Option<CoordModel>>, column: ColumnModel, name: Seq<char>) -> SeriesModel {
    SeriesModel { name, points: points(xs, column.cells, xs.len() as int), sizes: seq![] }
}

/// The error about a column that a channel names and the data lacks.
pub open spec fn missing_column(role: Seq<char>, field: Seq<char>) -> DiagModel {
    diag::error(role + " column `"@ + field + "` not found in data"@)
}

/// Series built so far, what there is to report about them, and whether every column was there.
#[verifier::ext_equal]
pub struct Built {
    pub series: Seq<SeriesModel>,
    pub diags: Seq<DiagModel>,
    pub complete: bool,
}

/// One series per y column. The first column that is missing ends the list.
pub open spec fn wide(
    table: Seq<ColumnModel>,
    xs: Seq<Option<CoordModel>>,
    fields: Seq<(Seq<char>, Option<DataType>)>,
) -> Built
    decreases fields.len(),
{
    if fields.len() == 0 {
        Built { series: seq![], diags: seq![], complete: true }
    } else {
        let earlier = wide(table, xs, fields.drop_last());
        let field = fields.last().0;
        if !earlier.complete {
            earlier
        } else {
            match data::find_column(table, field) {
                Some(column) => Built {
                    series: earlier.series.push(column_series(xs, column, field)),
                    diags: earlier.diags + series_drops(xs, column.cells, field, xs.len() as int),
                    complete: true,
                },
                None => Built {
                    series: earlier.series,
                    diags: earlier.diags.push(missing_column("y"@, field)),
                    complete: false,
                },
            }
        }
    }
}

/// The keys of the first `n` rows that have a point, each once, in the order in which they are
/// first seen.
pub open spec fn group_names(
    xs: Seq<Option<CoordModel>>,
    ys: Seq<Seq<char>>,
    keys: Seq<Seq<char>>,
    n: int,
) -> Seq<Seq<char>>
    decreases n,
{
    if n <= 0 {
        seq![]
    } else {
        let earlier = group_names(xs, ys, keys, n - 1);
        let key = data::cell_at(keys, n - 1);
        if point_at(xs, ys, n - 1) is Some && text::index_of(earlier, key) is None {
            earlier.push(key)
        } else {
            earlier
        }
    }
}

/// The points of those of the first `n` rows that carry a key.
pub open spec fn group_points(
    xs: Seq<Option<CoordModel>>,
    ys: Seq<Seq<char>>,
    keys: Seq<Seq<char>>,
    key: Seq<char>,
    n: int,
) -> Seq<(CoordModel, CoordModel)>
    decreases n,
{
    if n <= 0 {
        seq![]
    } else {
        let earlier = group_points(xs, ys, keys, key, n - 1);
        match point_at(xs, ys, n - 1) {
            Some(p) => if data::cell_at(keys, n - 1) == key {
                earlier.push(p)
            } else {
                earlier
            },
            None => earlier,
        }
    }
}

/// The warnings about those of the first `n` rows that have no point.
pub open spec fn row_drops(xs: Seq<Option<CoordModel>>, ys: Seq<Seq<char>>, n: int) -> Seq<
    DiagModel,
>
    decreases n,
{
    if n <= 0 {
        seq![]
    } else {
        let earlier = row_drops(xs, ys, n - 1);
        if point_at(xs, ys, n - 1) is None {
            earlier.push(
                diag::warning(
                    "dropped row "@ + text::decimal((n - 1) as nat) + ": missing x or y"@,
                ),
            )
        } else {
            earlier
        }
    }
}

/// The series of the points of those of the first `n` rows that carry a key.
pub open spec fn group(
    xs: Seq<Option<CoordModel>>,
    ys: Seq<Seq<char>>,
    keys: Seq<Seq<char>>,
    key: Seq<char>,
    n: int,
) -> SeriesModel {
    SeriesModel { name: key, points: group_points(xs, ys, keys, key, n), sizes: seq![] }
}

/// One series per distinct key, named after it, in the order in which the keys are first seen.
pub open spec fn groups(
    xs: Seq<Option<CoordModel>>,
    ys: Seq<Seq<char>>,
    keys: Seq<Seq<char>>,
) -> Seq<SeriesModel> {
    let n = xs.len() as int;
    group_names(xs, ys, keys, n).map_values(|name: Seq<char>| group(xs, ys, keys, name, n))
}

/// One series per distinct value of the color column.
pub open spec fn long(
    table: Seq<ColumnModel>,
    xs: Seq<Option<CoordModel>>,
    y_field: Seq<char>,
    color_field: Seq<char>,
) -> Built {
    match data::find_column(table, y_field) {
        None => Built {
            series: seq![],
            diags: seq![missing_column("y"@, y_field)],
            complete: false,
        },
        Some(y) => match data::find_column(table, color_field) {
            None => Built {
                series: seq![],
                diags: seq![missing_column("color"@, color_field)],
                complete: false,
            },
            Some(color) => Built {
                series: groups(xs, y.cells, color.cells),
                diags: row_drops(xs, y.cells, xs.len() as int),
                complete: true,
            },
        },
    }
}

/// The warning about a row that a series has no point for.
fn warn_series_drop(diags: &mut Vec<Diagnostic>, row: usize, field: &str)
    ensures
        views::views(final(diags)@) == views::views(old(diags)@).push(
            diag::warning(
                "dropped row "@ + text::decimal(row as nat) + " for series `"@ + field@
                    + "`: missing x or y"@,
            ),
        ),
{
    let number = text::decimal_text(row as u64);
    let mut message = text::framed("dropped row ", number.as_str(), " for series `");
    message.append(field);
    message.append("`: missing x or y");
    diag::report(diags, Diagnostic::warning(message.as_str()));
}

/// The error about a column that a channel names and the data lacks.
fn report_missing(diags: &mut Vec<Diagnostic>, role: &str, field: &str)
    ensures
        views::views(final(diags)@) == views::views(old(diags)@).push(missing_column(role@, field@)),
{
    let mut message = text::framed(role, " column `", field);
    message.append("` not found in data");
    diag::report(diags, Diagnostic::error(message.as_str()));
}

/// The point of a row, if it has one.
fn row_point(x: &Option<Coord>, y_cells: &Vec<String>, i: usize) -> (r: Option<(Coord, Coord)>)
    ensures
        match r {
            Some(p) => {
                &&& x matches Some(c) && p.0@ == c@
                &&& number_of(data::cell_at(views::views(y_cells@), i as int)) matches Some(n)
                    && p.1@ == CoordModel::Number(n)
            },
            None => x is None || number_of(data::cell_at(views::views(y_cells@), i as int)) is None,
        },
{
    let y = as_number(data::str_or_empty(y_cells, i));
    match (x, y) {
        (Some(xv), Some(yv)) => Some((xv.clone(), Coord::Number(yv))),
        _ => None,
    }
}

/// Zip the resolved x values against a y column's cells into drawable points,
/// dropping (and warning about) any row with a missing x or y.
fn zip_points(
    xs: &Vec<Option<Coord>>,
    y_cells: &Vec<String>,
    diags: &mut Vec<Diagnostic>,
    field: &str,
) -> (r: Vec<(Coord, Coord)>)
    ensures
        backend::point_views(r@) == points(
            coord_views(xs@),
            views::views(y_cells@),
            xs.len() as int,
        ),
        views::views(final(diags)@) == views::views(old(diags)@) + series_drops(
            coord_views(xs@),
            views::views(y_cells@),
            field@,
            xs.len() as int,
        ),
{
    let ghost xm = coord_views(xs@);
    let ghost ym = views::views(y_cells@);
    let ghost start = views::views(diags@);
    let mut out: Vec<(Coord, Coord)> = Vec::new();
    assert(backend::point_views(out@) =~= seq![]);
    assert(start =~= start + series_drops(xm, ym, field@, 0));
    let mut i: usize = 0;
    while i < xs.len()
        invariant
            i <= xs.len(),
            xm == coord_views(xs@),
            ym == views::views(y_cells@),
            backend::point_views(out@) == points(xm, ym, i as int),
            views::views(diags@) == start + series_drops(xm, ym, field@, i as int),
        decreases xs.len() - i,
    {
        assert(xm[i as int] == views::opt_view(xs@[i as int]));
        match row_point(&xs[i], y_cells, i) {
            Some(p) => {
                let ghost before = out@;
                out.push(p);
                assert(backend::point_views(out@) =~= backend::point_views(before).push(
                    (p.0@, p.1@),
                ));
            },
            None => {
                warn_series_drop(diags, i, field);
                assert(views::views(diags@) =~= start + series_drops(xm, ym, field@, i + 1));
            },
        }
        i = i + 1;
    }
    out
}

/// Wide encoding: one series per named y column, series name = column name.
fn wide_series(
    table: &Table,
    xs: &Vec<Option<Coord>>,
    fields: &Vec<(&str, Option<DataType>)>,
    diags: &mut Vec<Diagnostic>,
) -> (r: Option<Vec<Series>>)
    ensures
        ({
            let built = wide(table@, coord_views(xs@), dsl::all_parts_view(fields@));
            &&& views::views(final(diags)@) == views::views(old(diags)@) + built.diags
            &&& match r {
                Some(series) => built.complete && views::views(series@) == built.series,
                None => !built.complete,
            }
        }),
{
    broadcast use crate::views::lemma_views_push;

    let ghost xm = coord_views(xs@);
    let ghost all = dsl::all_parts_view(fields@);
    let ghost start = views::views(diags@);
    let mut series: Vec<Series> = Vec::new();
    assert(views::views(series@) =~= seq![]);
    assert(start =~= start + wide(table@, xm, all.take(0)).diags);
    let mut i: usize = 0;
    while i < fields.len()
        invariant
            i <= fields.len(),
            xm == coord_views(xs@),
            all == dsl::all_parts_view(fields@),
            start == views::views(old(diags)@),
            wide(table@, xm, all.take(i as int)).complete,
            views::views(series@) == wide(table@, xm, all.take(i as int)).series,
            views::views(diags@) == start + wide(table@, xm, all.take(i as int)).diags,
        decreases fields.len() - i,
    {
        let field = fields[i].0;
        proof {
            views::lemma_take_push(all, i as int);
            assert(all[i as int].0 == field@);
        }
        match table.column(field) {
            Some(column) => {
                let points = zip_points(xs, &column.cells, diags, field);
                let one = Series { name: field.to_owned(), points, sizes: Vec::new() };
                assert(one@ =~= column_series(xm, column@, field@));
                series.push(one);
                assert(views::views(diags@) =~= start + wide(table@, xm, all.take(i + 1)).diags);
            },
            None => {
                report_missing(diags, "y", field);
                assert(views::views(diags@) =~= start + wide(table@, xm, all.take(i + 1)).diags);
                proof {
                    lemma_wide_stays_incomplete(table@, xm, all, i + 1);
                }
                return None;
            },
        }
        i = i + 1;
    }
    proof {
        views::lemma_take_all(all);
    }
    Some(series)
}

/// Once a column is missing, the columns after it make no difference.
proof fn lemma_wide_stays_incomplete(
    table: Seq<ColumnModel>,
    xs: Seq<Option<CoordModel>>,
    fields: Seq<(Seq<char>, Option<DataType>)>,
    n: int,
)
    requires
        0 <= n <= fields.len(),
        !wide(table, xs, fields.take(n)).complete,
    ensures
        wide(table, xs, fields) == wide(table, xs, fields.take(n)),
    decreases fields.len() - n,
{
    if n < fields.len() {
        views::lemma_take_push(fields, n);
        lemma_wide_stays_incomplete(table, xs, fields, n + 1);
    } else {
        views::lemma_take_all(fields);
    }
}

/// A key that no row with a point carries has no points.
pub proof fn lemma_absent_group_is_empty(
    xs: Seq<Option<CoordModel>>,
    ys: Seq<Seq<char>>,
    keys: Seq<Seq<char>>,
    key: Seq<char>,
    n: int,
)
    requires
        text::index_of(group_names(xs, ys, keys, n), key) is None,
    ensures
        group_points(xs, ys, keys, key, n) == Seq::<(CoordModel, CoordModel)>::empty(),
    decreases n,
{
    if n > 0 {
        let earlier = group_names(xs, ys, keys, n - 1);
        let last = data::cell_at(keys, n - 1);
        lemma_index_stays(earlier, last, key);
        lemma_absent_group_is_empty(xs, ys, keys, key, n - 1);
        if point_at(xs, ys, n - 1) is Some && last == key {
            assert(text::index_of(earlier, key) is None);
        }
    }
}

/// Long encoding: group rows by the distinct value of the color column; one series
/// per group, series name = the category value (groups in first-seen order).
fn group_rows(
    xs: &Vec<Option<Coord>>,
    y_cells: &Vec<String>,
    keys: &Vec<String>,
    diags: &mut Vec<Diagnostic>,
) -> (r: Vec<Series>)
    ensures
        views::views(r@) == groups(coord_views(xs@), views::views(y_cells@), views::views(keys@)),
        views::views(final(diags)@) == views::views(old(diags)@) + row_drops(
            coord_views(xs@),
            views::views(y_cells@),
            xs.len() as int,
        ),
{
    broadcast use crate::views::lemma_views_push;

    let ghost xm = coord_views(xs@);
    let ghost ym = views::views(y_cells@);
    let ghost km = views::views(keys@);
    let ghost start = views::views(diags@);
    let mut names: Vec<String> = Vec::new();
    let mut out: Vec<Series> = Vec::new();
    assert(views::views(names@) =~= seq![]);
    assert(start =~= start + row_drops(xm, ym, 0));
    let mut i: usize = 0;
    while i < xs.len()
        invariant
            i <= xs.len(),
            xm == coord_views(xs@),
            ym == views::views(y_cells@),
            km == views::views(keys@),
            views::views(names@) == group_names(xm, ym, km, i as int),
            out.len() == names.len(),
            forall|k: int| 0 <= k < out.len() ==> (#[trigger] out@[k])@ == group(xm, ym, km, names@[k]@, i as int),
            forall|k: int, l: int|
                0 <= k < l < names.len() ==> (#[trigger] names@[k])@ != (#[trigger] names@[l])@,
            views::views(diags@) == start + row_drops(xm, ym, i as int),
        decreases xs.len() - i,
    {
        assert(xm[i as int] == views::opt_view(xs@[i as int]));
        let key = data::str_or_empty(keys, i);
        let ghost before = views::views(names@);
        match row_point(&xs[i], y_cells, i) {
            None => {
                let number = text::decimal_text(i as u64);
                let message = text::framed("dropped row ", number.as_str(), ": missing x or y");
                diag::report(diags, Diagnostic::warning(message.as_str()));
                assert(views::views(diags@) =~= start + row_drops(xm, ym, i + 1));
            },
            Some(p) => {
                let slot = match text::position(&names, key) {
                    Some(k) => {
                        proof {
                            text::lemma_index_of(before, key@);
                        }
                        k
                    },
                    None => {
                        let k = names.len();
                        proof {
                            text::lemma_index_of(before, key@);
                            lemma_absent_group_is_empty(xm, ym, km, key@, i as int);
                            assert(forall|j: int|
                                0 <= j < names.len() ==> (#[trigger] names@[j])@ == before[j]);
                        }
                        names.push(key.to_owned());
                        let one = Series {
                            name: key.to_owned(),
                            points: Vec::new(),
                            sizes: Vec::new(),
                        };
                        assert(one@ =~= group(xm, ym, km, key@, i as int));
                        out.push(one);
                        k
                    },
                };
                assert(names@[slot as int]@ == key@) by {
                    if slot < before.len() {
                        assert(before[slot as int] == names@[slot as int]@);
                    }
                }
                assert(forall|k: int|
                    0 <= k < out.len() && k != slot ==> (#[trigger] names@[k])@ != key@);
                let ghost held = out@;
                out[slot].points.push(p);
                assert(out@[slot as int]@ =~= group(xm, ym, km, key@, i + 1)) by {
                    assert(backend::point_views(out@[slot as int].points@) =~= backend::point_views(
                        held[slot as int].points@,
                    ).push((p.0@, p.1@)));
                }
                assert forall|k: int| 0 <= k < out.len() implies (#[trigger] out@[k])@ == group(
                    xm,
                    ym,
                    km,
                    names@[k]@,
                    i + 1,
                ) by {
                    if k != slot {
                        assert(out@[k] == held[k]);
                        assert(names@[k]@ != key@);
                    }
                }
            },
        }
        i = i + 1;
    }
    assert(views::views(out@) =~= groups(xm, ym, km));
    out
}

/// The series of a spec's y and color channels: one per y column when there are several, else one
/// per color value when a color is bound, else one.
pub open spec fn built(spec: SpecModel, table: Seq<ColumnModel>, xs: Seq<Option<CoordModel>>) -> Built {
    let fields = dsl::y_bound(spec.y);
    if fields.len() > 1 {
        wide(table, xs, fields)
    } else {
        match dsl::bound(spec.color) {
            Some(color) => long(table, xs, fields[0].0, color.0),
            None => wide(table, xs, fields),
        }
    }
}

/// Whether no series has a point.
pub open spec fn undrawable(series: Seq<SeriesModel>) -> bool {
    forall|i: int| 0 <= i < series.len() ==> (#[trigger] series[i]).points.len() == 0
}

/// Build the series for either wide or long encodings. Returns `None` (with an
/// error pushed) when no y is bound, a y column is missing, or nothing is drawable.
fn build_series(
    spec: &ChartSpec,
    table: &Table,
    xs: &Vec<Option<Coord>>,
    diags: &mut Vec<Diagnostic>,
) -> (r: Option<Vec<Series>>)
    ensures
        ({
            let fields = dsl::y_bound(spec@.y);
            let before = views::views(old(diags)@);
            let after = views::views(final(diags)@);
            let all = built(spec@, table@, coord_views(xs@));
            if fields.len() == 0 {
                r is None && after == before.push(diag::error("chart spec has no `y` channel"@))
            } else if !all.complete {
                r is None && after == before + all.diags
            } else if undrawable(all.series) {
                r is None && after == (before + all.diags).push(
                    diag::error("no drawable points after coercion"@),
                )
            } else {
                r matches Some(series) && views::views(series@) == all.series
            }
        }),
{
    let fields = spec.y_fields();
    assert(dsl::all_parts_view(fields@).len() == fields.len());
    if fields.len() == 0 {
        diag::report(diags, Diagnostic::error("chart spec has no `y` channel"));
        return None;
    }
    let ghost xm = coord_views(xs@);
    let ghost all = built(spec@, table@, xm);
    let ghost before = views::views(diags@);
    assert(dsl::all_parts_view(fields@)[0].0 == fields@[0].0@);
    let series = if fields.len() > 1 {
        wide_series(table, xs, &fields, diags)
    } else {
        match spec.color_field() {
            Some((color_field, _)) => long_series(table, xs, fields[0].0, color_field, diags),
            None => wide_series(table, xs, &fields, diags),
        }
    };
    assert(views::views(diags@) == before + all.diags);
    match series {
        None => None,
        Some(series) => {
            if nothing_drawable(&series) {
                diag::report(diags, Diagnostic::error("no drawable points after coercion"));
                None
            } else {
                Some(series)
            }
        },
    }
}

/// Whether no series has a point.
fn nothing_drawable(series: &Vec<Series>) -> (r: bool)
    ensures
        r == undrawable(views::views(series@)),
{
    let ghost all = views::views(series@);
    let mut i: usize = 0;
    while i < series.len()
        invariant
            i <= series.len(),
            all == views::views(series@),
            forall|k: int| 0 <= k < i ==> (#[trigger] all[k]).points.len() == 0,
        decreases series.len() - i,
    {
        assert(all[i as int].points.len() == series@[i as int].points.len());
        if series[i].points.len() > 0 {
            return false;
        }
        i = i + 1;
    }
    true
}

/// Long encoding: look up the value and the color column, and group the rows.
fn long_series(
    table: &Table,
    xs: &Vec<Option<Coord>>,
    y_field: &str,
    color_field: &str,
    diags: &mut Vec<Diagnostic>,
) -> (r: Option<Vec<Series>>)
    ensures
        ({
            let all = long(table@, coord_views(xs@), y_field@, color_field@);
            &&& views::views(final(diags)@) == views::views(old(diags)@) + all.diags
            &&& match r {
                Some(series) => all.complete && views::views(series@) == all.series,
                None => !all.complete,
            }
        }),
{
    let ghost before = views::views(diags@);
    match table.column(y_field) {
        None => {
            report_missing(diags, "y", y_field);
            assert(views::views(diags@) =~= before + seq![missing_column("y"@, y_field@)]);
            None
        },
        Some(y) => match table.column(color_field) {
            None => {
                report_missing(diags, "color", color_field);
                assert(views::views(diags@) =~= before + seq![
                    missing_column("color"@, color_field@),
                ]);
                None
            },
            Some(color) => Some(group_rows(xs, &y.cells, &color.cells, diags)),
        },
    }
}

// --- Bubble sizes -----------------------------------------------------------------

/// The sizes of the first `n` rows that have a point: the row's number, or zero.
pub open spec fn row_sizes(
    xs: Seq<Option<CoordModel>>,
    ys: Seq<Seq<char>>,
    sizes: Seq<Seq<char>>,
    n: int,
) -> Seq<Seq<char>>
    decreases n,
{
    if n <= 0 {
        seq![]
    } else {
        let earlier = row_sizes(xs, ys, sizes, n - 1);
        if point_at(xs, ys, n - 1) is None {
            earlier
        } else {
            match number_of(data::cell_at(sizes, n - 1)) {
                Some(number) => earlier.push(number),
                None => earlier.push(text::decimal(0)),
            }
        }
    }
}

/// The sizes a size column gives the first series, where there is one for each of its points.
pub open spec fn sizes_for(
    spec: SpecModel,
    table: Seq<ColumnModel>,
    xs: Seq<Option<CoordModel>>,
    points: nat,
) -> Seq<Seq<char>> {
    match dsl::bound(spec.size) {
        Some(size) => match (
            data::find_column(table, size.0),
            data::find_column(table, dsl::y_bound(spec.y)[0].0),
        ) {
            (Some(column), Some(y)) => {
                let sizes = row_sizes(xs, y.cells, column.cells, xs.len() as int);
                if registry::mark_channels(spec.mark).size && sizes.len() == points {
                    sizes
                } else {
                    seq![]
                }
            },
            _ => seq![],
        },
        None => seq![],
    }
}

/// The series with their sizes. Only the first series gets any.
pub open spec fn sized(
    spec: SpecModel,
    table: Seq<ColumnModel>,
    xs: Seq<Option<CoordModel>>,
    series: Seq<SeriesModel>,
) -> Seq<SeriesModel> {
    if series.len() == 0 {
        series
    } else {
        series.update(
            0,
            SeriesModel {
                sizes: sizes_for(spec, table, xs, series[0].points.len()),
                ..series[0]
            },
        )
    }
}

/// One size per row that has a point.
fn collect_sizes(xs: &Vec<Option<Coord>>, y_cells: &Vec<String>, cells: &Vec<String>) -> (r: Vec<
    Number,
>)
    ensures
        views::views(r@) == row_sizes(
            coord_views(xs@),
            views::views(y_cells@),
            views::views(cells@),
            xs.len() as int,
        ),
{
    broadcast use crate::views::lemma_views_push;

    let ghost xm = coord_views(xs@);
    let ghost ym = views::views(y_cells@);
    let ghost sm = views::views(cells@);
    let mut out: Vec<Number> = Vec::new();
    assert(views::views(out@) =~= seq![]);
    let mut i: usize = 0;
    while i < xs.len()
        invariant
            i <= xs.len(),
            xm == coord_views(xs@),
            ym == views::views(y_cells@),
            sm == views::views(cells@),
            views::views(out@) == row_sizes(xm, ym, sm, i as int),
        decreases xs.len() - i,
    {
        assert(xm[i as int] == views::opt_view(xs@[i as int]));
        let y = as_number(data::str_or_empty(y_cells, i));
        if xs[i].is_some() && y.is_some() {
            match as_number(data::str_or_empty(cells, i)) {
                Some(n) => {
                    out.push(n);
                },
                None => {
                    out.push(Number::whole(0));
                },
            }
        }
        i = i + 1;
    }
    out
}

/// Fill the first series' `sizes` from the size channel when the mark accepts it (`Point`).
/// The size column is coerced quantitative; one value per *surviving* point, aligned to the
/// rows that produced the points (those with both x and y present — the same filter
/// `zip_points` applies). Left empty when no size channel is bound or unsupported, and when
/// the first series does not hold the points of all the rows.
fn fill_sizes(
    spec: &ChartSpec,
    table: &Table,
    xs: &Vec<Option<Coord>>,
    series: Vec<Series>,
) -> (r: Vec<Series>)
    requires
        dsl::y_bound(spec@.y).len() > 0,
        forall|k: int| 0 <= k < series.len() ==> (#[trigger] series@[k])@.sizes.len() == 0,
    ensures
        views::views(r@) == sized(spec@, table@, coord_views(xs@), views::views(series@)),
{
    let ghost all = views::views(series@);
    let mut series = series;
    if series.len() == 0 {
        return series;
    }
    let n = series[0].points.len();
    let ghost expected = sizes_for(spec@, table@, coord_views(xs@), all[0].points.len());
    assert(all[0].sizes =~= seq![]);
    assert(all[0].points.len() == n);
    assert(all =~= all.update(0, SeriesModel { sizes: seq![], ..all[0] }));
    match spec.size_field() {
        Some((field, _)) => {
            if registry::caps(spec.mark).channels.size {
                let fields = spec.y_fields();
                assert(dsl::all_parts_view(fields@)[0].0 == fields@[0].0@);
                match (table.column(field), table.column(fields[0].0)) {
                    (Some(column), Some(y)) => {
                        let sizes = collect_sizes(xs, &y.cells, &column.cells);
                        assert(views::views(sizes@).len() == sizes.len());
                        if sizes.len() == n {
                            series[0].sizes = sizes;
                            assert(series@[0]@ == (SeriesModel { sizes: expected, ..all[0] }));
                        }
                    },
                    _ => {},
                }
            }
        },
        None => {},
    }
    assert(views::views(series@) =~= sized(spec@, table@, coord_views(xs@), all));
    series
}

// --- Cartesian marks --------------------------------------------------------------

/// A configured title, or the default.
pub open spec fn title_or(title: Option<Seq<char>>, default: Seq<char>) -> Seq<char> {
    match title {
        Some(t) => t,
        None => default,
    }
}

/// A configured scale, or the identity.
pub open spec fn scale_or_linear(scale: Option<dsl::ScaleModel>) -> dsl::ScaleModel {
    match scale {
        Some(s) => s,
        None => dsl::linear_scale(),
    }
}

/// The default title of the y axis: the only y field's name, or "value".
pub open spec fn y_title(spec: SpecModel) -> Seq<char> {
    let fields = dsl::y_bound(spec.y);
    if fields.len() == 1 {
        fields[0].0
    } else {
        "value"@
    }
}

/// The type of an x column: the one declared, or else the one inferred.
pub open spec fn x_type(declared: Option<DataType>, cells: Seq<Seq<char>>) -> DataType {
    match declared {
        Some(ty) => ty,
        None => typing::inferred(cells),
    }
}

/// What a cartesian mark draws, or what stands in the way.
pub open spec fn cartesian(spec: SpecModel, table: Seq<ColumnModel>) -> Result<
    ChartModel,
    Seq<DiagModel>,
> {
    let warnings = channel_warnings(spec);
    match dsl::bound(spec.x) {
        None => Err(warnings.push(diag::error("chart spec has no `x` channel"@))),
        Some(x) => match data::find_column(table, x.0) {
            None => Err(warnings.push(missing_column("x"@, x.0))),
            Some(column) => {
                let ty = x_type(x.1, column.cells);
                let xs = axis_values(column.cells, ty);
                let all = built(spec, table, xs);
                if dsl::y_bound(spec.y).len() == 0 {
                    Err(warnings.push(diag::error("chart spec has no `y` channel"@)))
                } else if !all.complete {
                    Err(warnings + all.diags)
                } else if undrawable(all.series) {
                    Err(
                        (warnings + all.diags).push(
                            diag::error("no drawable points after coercion"@),
                        ),
                    )
                } else {
                    Ok(
                        ChartModel {
                            mark: spec.mark,
                            series: sized(spec, table, xs, all.series),
                            slices: seq![],
                            table: None,
                            x_axis: AxisModel {
                                title: title_or(spec.config.x_title, x.0),
                                kind: axis_kind(column.cells, ty),
                                scale: scale_or_linear(spec.config.x_scale),
                            },
                            y_axis: AxisModel {
                                title: title_or(spec.config.y_title, y_title(spec)),
                                kind: AxisKindModel::Quantitative,
                                scale: scale_or_linear(spec.config.y_scale),
                            },
                            config: spec.config,
                        },
                    )
                }
            },
        },
    }
}

/// The contents of what `resolve` returns.
pub open spec fn outcome(r: Result<ResolvedChart, Vec<Diagnostic>>) -> Result<
    ChartModel,
    Seq<DiagModel>,
> {
    match r {
        Ok(chart) => Ok(chart@),
        Err(diags) => Err(views::views(diags@)),
    }
}

/// A configured title, or the default.
fn title_text(title: &Option<String>, default: &str) -> (r: String)
    ensures
        r@ == title_or(views::opt_view(*title), default@),
{
    match title {
        Some(t) => t.clone(),
        None => default.to_owned(),
    }
}

/// Series as they are built have no sizes.
pub proof fn lemma_built_without_sizes(
    spec: SpecModel,
    table: Seq<ColumnModel>,
    xs: Seq<Option<CoordModel>>,
    k: int,
)
    requires
        0 <= k < built(spec, table, xs).series.len(),
    ensures
        built(spec, table, xs).series[k].sizes.len() == 0,
{
    let fields = dsl::y_bound(spec.y);
    if fields.len() > 1 || dsl::bound(spec.color) is None {
        lemma_wide_without_sizes(table, xs, fields, k);
    }
}

proof fn lemma_wide_without_sizes(
    table: Seq<ColumnModel>,
    xs: Seq<Option<CoordModel>>,
    fields: Seq<(Seq<char>, Option<DataType>)>,
    k: int,
)
    requires
        0 <= k < wide(table, xs, fields).series.len(),
    ensures
        wide(table, xs, fields).series[k].sizes.len() == 0,
    decreases fields.len(),
{
    if fields.len() > 0 {
        let earlier = wide(table, xs, fields.drop_last());
        if k < earlier.series.len() {
            lemma_wide_without_sizes(table, xs, fields.drop_last(), k);
        }
    }
}

/// Resolve a cartesian mark (`Bar`/`Line`/`Point`/`Area`): x + y series, sizes, and scaled
/// axes.
fn resolve_cartesian(spec: &ChartSpec, table: &Table) -> (r: Result<
    ResolvedChart,
    Vec<Diagnostic>,
>)
    ensures
        outcome(r) == cartesian(spec@, table@),
{
    let mut diags = validate_channels(spec);
    let (field, declared) = match spec.x_field() {
        Some(parts) => parts,
        None => {
            diag::report(&mut diags, Diagnostic::error("chart spec has no `x` channel"));
            return Err(diags);
        },
    };
    let column = match table.column(field) {
        Some(column) => column,
        None => {
            report_missing(&mut diags, "x", field);
            return Err(diags);
        },
    };
    let ty = match declared {
        Some(ty) => ty,
        None => typing::infer_type(column.cells.as_slice()),
    };
    let (xs, kind) = map_axis(&column.cells, ty);
    let series = match build_series(spec, table, &xs, &mut diags) {
        Some(series) => series,
        None => return Err(diags),
    };
    proof {
        let all = built(spec@, table@, coord_views(xs@)).series;
        assert forall|k: int| 0 <= k < series.len() implies (#[trigger] series@[k])@.sizes.len()
            == 0 by {
            assert(all[k] == series@[k]@);
            lemma_built_without_sizes(spec@, table@, coord_views(xs@), k);
        }
    }
    let series = fill_sizes(spec, table, &xs, series);
    let fields = spec.y_fields();
    assert(dsl::all_parts_view(fields@).len() == fields.len());
    let default_title = if fields.len() == 1 {
        assert(dsl::all_parts_view(fields@)[0].0 == fields@[0].0@);
        fields[0].0
    } else {
        "value"
    };
    let chart = ResolvedChart {
        mark: spec.mark,
        series,
        slices: Vec::new(),
        table: None,
        x_axis: Axis {
            title: title_text(&spec.config.x_title, field),
            kind,
            scale: dsl::scale_or_default(&spec.config.x_scale),
        },
        y_axis: Axis {
            title: title_text(&spec.config.y_title, default_title),
            kind: AxisKind::Quantitative,
            scale: dsl::scale_or_default(&spec.config.y_scale),
        },
        config: spec.config.clone(),
    };
    assert(chart@.slices =~= seq![]);
    Ok(chart)
}

// --- Histograms -------------------------------------------------------------------

/// The numbers among the first `n` cells.
pub open spec fn numbers(cells: Seq<Seq<char>>, n: int) -> Seq<Seq<char>>
    decreases n,
{
    if n <= 0 {
        seq![]
    } else {
        match number_of(cells[n - 1]) {
            Some(number) => numbers(cells, n - 1).push(number),
            None => numbers(cells, n - 1),
        }
    }
}

/// The number of buckets: the one configured, at least one, or the default.
pub open spec fn bucket_count(bins: Option<usize>) -> int {
    match bins {
        Some(n) => if n == 0 {
            1
        } else {
            n as int
        },
        None => DEFAULT_BINS as int,
    }
}

/// The numbers that a histogram sorts into buckets, where it has a column to take them from.
pub open spec fn samples_of(spec: SpecModel, table: Seq<ColumnModel>) -> Option<SamplesModel> {
    match dsl::bound(spec.x) {
        Some(x) => match data::find_column(table, x.0) {
            Some(column) => Some(
                SamplesModel {
                    values: numbers(column.cells, column.cells.len() as int),
                    bins: bucket_count(spec.config.bins),
                },
            ),
            None => None,
        },
        None => None,
    }
}

/// The points of a histogram: each bucket's center, and how many samples landed in it.
pub open spec fn bucket_points(binning: BinningModel) -> Seq<(CoordModel, CoordModel)> {
    let bins = binning.centers.len();
    let n = binning.landed.len() as int;
    Seq::new(
        bins,
        |b: int|
            (
                CoordModel::Number(binning.centers[b]),
                CoordModel::Whole(arithmetic::tallied(binning.landed, bins as int, b, n)),
            ),
    )
}

/// What a histogram draws of its buckets, or what stands in the way.
pub open spec fn histogram(
    spec: SpecModel,
    table: Seq<ColumnModel>,
    computed: ComputedModel,
) -> Result<ChartModel, Seq<DiagModel>> {
    let warnings = channel_warnings(spec);
    match dsl::bound(spec.x) {
        None => Err(warnings.push(diag::error("histogram spec has no `x` channel to bin"@))),
        Some(x) => match (samples_of(spec, table), computed.binning) {
            (None, _) => Err(warnings.push(missing_column("x"@, x.0))),
            (Some(_), None) => Err(unfinished(spec)),
            (Some(samples), Some(binning)) => if !arithmetic::sorts(binning, samples) {
                Err(unfinished(spec))
            } else {
                Ok(
                    ChartModel {
                        mark: spec.mark,
                        series: seq![
                            SeriesModel {
                                name: seq![],
                                points: bucket_points(binning),
                                sizes: seq![],
                            },
                        ],
                        slices: seq![],
                        table: None,
                        x_axis: AxisModel {
                            title: title_or(spec.config.x_title, x.0),
                            kind: AxisKindModel::Quantitative,
                            scale: scale_or_linear(spec.config.x_scale),
                        },
                        y_axis: AxisModel {
                            title: title_or(spec.config.y_title, "count"@),
                            kind: AxisKindModel::Quantitative,
                            scale: scale_or_linear(spec.config.y_scale),
                        },
                        config: spec.config,
                    },
                )
            },
        },
    }
}

/// The report on a histogram whose numbers cannot be sorted into buckets, or on an arc without a
/// slice to draw: the channel warnings and the error.
pub open spec fn unfinished(spec: SpecModel) -> Seq<DiagModel> {
    channel_warnings(spec).push(
        diag::error(
            if spec.mark is Histogram {
                "histogram has no numeric values to bin"@
            } else {
                "arc has no positive slices after aggregation"@
            },
        ),
    )
}

/// Report a histogram whose numbers cannot be sorted into buckets, or an arc without a slice to
/// draw.
fn report_unfinished(spec: &ChartSpec) -> (r: Vec<Diagnostic>)
    ensures
        views::views(r@) == unfinished(spec@),
{
    let mut diags = validate_channels(spec);
    let message = match spec.mark {
        Mark::Histogram => "histogram has no numeric values to bin",
        _ => "arc has no positive slices after aggregation",
    };
    diag::report(&mut diags, Diagnostic::error(message));
    diags
}

/// The numbers among a column's cells.
fn collect_numbers(cells: &Vec<String>) -> (r: Vec<Number>)
    ensures
        views::views(r@) == numbers(views::views(cells@), cells.len() as int),
{
    broadcast use crate::views::lemma_views_push;

    let ghost all = views::views(cells@);
    let mut out: Vec<Number> = Vec::new();
    assert(views::views(out@) =~= seq![]);
    let mut i: usize = 0;
    while i < cells.len()
        invariant
            i <= cells.len(),
            all == views::views(cells@),
            views::views(out@) == numbers(all, i as int),
        decreases cells.len() - i,
    {
        match as_number(cells[i].as_str()) {
            Some(n) => {
                out.push(n);
            },
            None => {},
        }
        i = i + 1;
    }
    out
}

/// The numbers of a column, and how many equal-width buckets they go into. `config.bins` sets
/// the bucket count (default 20).
fn collect_samples(spec: &ChartSpec, column: &Column) -> (r: Samples)
    ensures
        r@ == (SamplesModel {
            values: numbers(column@.cells, column@.cells.len() as int),
            bins: bucket_count(spec@.config.bins),
        }),
{
    let bins: usize = match spec.config.bins {
        Some(n) => if n == 0 {
            1
        } else {
            n
        },
        None => DEFAULT_BINS,
    };
    Samples { values: collect_numbers(&column.cells), bins }
}

/// Count samples into the buckets of a binning: one `(bin_center, count)` per bucket. `None`
/// when it is not a binning of the samples.
pub fn count_samples(samples: &Samples, binning: &Binning) -> (r: Option<Vec<(Coord, Coord)>>)
    ensures
        match r {
            Some(points) => arithmetic::sorts(binning@, samples@) && backend::point_views(points@)
                == bucket_points(binning@),
            None => !arithmetic::sorts(binning@, samples@),
        },
{
    if !arithmetic::is_binning_of(binning, samples) {
        return None;
    }
    assert(binning@.centers.len() == binning.centers.len());
    let counts = arithmetic::tally_bins(&binning.landed, binning.centers.len());
    let mut points: Vec<(Coord, Coord)> = Vec::new();
    let mut b: usize = 0;
    while b < counts.len()
        invariant
            b <= counts.len(),
            counts.len() == binning.centers.len(),
            binning@.centers.len() == binning.centers.len(),
            forall|k: int|
                0 <= k < counts.len() ==> #[trigger] counts@[k] == arithmetic::tallied(
                    binning.landed@,
                    binning.centers.len() as int,
                    k,
                    binning.landed.len() as int,
                ),
            points.len() == b,
            forall|k: int|
                0 <= k < b ==> ((#[trigger] points@[k]).0@, points@[k].1@) == bucket_points(
                    binning@,
                )[k],
        decreases counts.len() - b,
    {
        points.push((Coord::Number(binning.centers[b].clone()), Coord::Whole(counts[b])));
        b = b + 1;
    }
    assert(backend::point_views(points@) =~= bucket_points(binning@));
    Some(points)
}

/// Resolve a `Histogram`: count the numbers of the `x` column in the buckets they were computed
/// to fall into, and emit one series of `(bin_center, count)`. The x axis is quantitative (the
/// binned value) and the y axis is the computed count. Errors when x is unbound/missing or no
/// numeric value exists to bin.
fn resolve_histogram(spec: &ChartSpec, table: &Table, computed: &Computed) -> (r: Result<
    ResolvedChart,
    Vec<Diagnostic>,
>)
    requires
        spec@.mark is Histogram,
    ensures
        outcome(r) == histogram(spec@, table@, computed@),
{
    let mut diags = validate_channels(spec);
    let (field, _) = match spec.x_field() {
        Some(parts) => parts,
        None => {
            diag::report(
                &mut diags,
                Diagnostic::error("histogram spec has no `x` channel to bin"),
            );
            return Err(diags);
        },
    };
    let column = match table.column(field) {
        Some(column) => column,
        None => {
            report_missing(&mut diags, "x", field);
            return Err(diags);
        },
    };
    let samples = collect_samples(spec, column);
    let counted = match &computed.binning {
        Some(binning) => count_samples(&samples, binning),
        None => None,
    };
    let points = match counted {
        Some(points) => points,
        None => return Err(report_unfinished(spec)),
    };
    let ghost drawn = backend::point_views(points@);
    let one = Series { name: String::new(), points, sizes: Vec::new() };
    assert(one@ =~= SeriesModel { name: seq![], points: drawn, sizes: seq![] });
    let chart = ResolvedChart {
        mark: spec.mark,
        series: vec![one],
        slices: Vec::new(),
        table: None,
        x_axis: Axis {
            title: title_text(&spec.config.x_title, field),
            kind: AxisKind::Quantitative,
            scale: dsl::scale_or_default(&spec.config.x_scale),
        },
        y_axis: Axis {
            title: title_text(&spec.config.y_title, "count"),
            kind: AxisKind::Quantitative,
            scale: dsl::scale_or_default(&spec.config.y_scale),
        },
        config: spec.config.clone(),
    };
    assert(chart@.slices =~= seq![]);
    assert(chart@.series =~= seq![SeriesModel { name: seq![], points: drawn, sizes: seq![] }]);
    Ok(chart)
}

// --- Arcs -------------------------------------------------------------------------

/// The placeholder axis of a mark that has none.
pub open spec fn no_axis() -> AxisModel {
    AxisModel { title: seq![], kind: AxisKindModel::Quantitative, scale: dsl::linear_scale() }
}

/// The labels of the first `n` rows that have a number, each once, in the order in which they are
/// first seen.
pub open spec fn slice_labels(labels: Seq<Seq<char>>, thetas: Seq<Seq<char>>, n: int) -> Seq<
    Seq<char>,
>
    decreases n,
{
    if n <= 0 {
        seq![]
    } else {
        let earlier = slice_labels(labels, thetas, n - 1);
        if number_of(data::cell_at(thetas, n - 1)) is Some && text::index_of(earlier, labels[n - 1])
            is None {
            earlier.push(labels[n - 1])
        } else {
            earlier
        }
    }
}

/// The numbers of those of the first `n` rows that carry a label.
pub open spec fn slice_parts(
    labels: Seq<Seq<char>>,
    thetas: Seq<Seq<char>>,
    label: Seq<char>,
    n: int,
) -> Seq<Seq<char>>
    decreases n,
{
    if n <= 0 {
        seq![]
    } else {
        let earlier = slice_parts(labels, thetas, label, n - 1);
        match number_of(data::cell_at(thetas, n - 1)) {
            Some(number) => if labels[n - 1] == label {
                earlier.push(number)
            } else {
                earlier
            },
            None => earlier,
        }
    }
}

/// The numbers of each distinct label, in the order in which the labels are first seen.
pub open spec fn slice_groups(labels: Seq<Seq<char>>, thetas: Seq<Seq<char>>) -> Seq<
    Seq<Seq<char>>,
> {
    let n = labels.len() as int;
    slice_labels(labels, thetas, n).map_values(
        |label: Seq<char>| slice_parts(labels, thetas, label, n),
    )
}

/// The slices of those of the first `n` labels whose numbers add up to more than zero, colored in
/// sequence.
pub open spec fn positive_slices(labels: Seq<Seq<char>>, sums: Seq<SumModel>, n: int) -> Seq<
    SliceModel,
>
    decreases n,
{
    if n <= 0 {
        seq![]
    } else {
        let earlier = positive_slices(labels, sums, n - 1);
        if n - 1 < sums.len() && sums[n - 1].sign is Positive {
            earlier.push(
                SliceModel {
                    label: labels[n - 1],
                    value: sums[n - 1].value,
                    color_index: earlier.len() as int,
                },
            )
        } else {
            earlier
        }
    }
}

/// The slices of an arc, given the sum of each of its groups.
pub open spec fn slices(labels: Seq<Seq<char>>, thetas: Seq<Seq<char>>, sums: Seq<SumModel>) -> Seq<
    SliceModel,
> {
    let named = slice_labels(labels, thetas, labels.len() as int);
    positive_slices(named, sums, named.len() as int)
}

/// The theta and the color column of an arc, where it has both.
pub open spec fn arc_columns(spec: SpecModel, table: Seq<ColumnModel>) -> Option<
    (ColumnModel, ColumnModel),
> {
    match (dsl::bound(spec.theta), dsl::bound(spec.color)) {
        (Some(theta), Some(color)) => match (
            data::find_column(table, theta.0),
            data::find_column(table, color.0),
        ) {
            (Some(thetas), Some(labels)) => Some((thetas, labels)),
            _ => None,
        },
        _ => None,
    }
}

/// The numbers that an arc adds up for each of its slices, where it has columns to take them
/// from.
pub open spec fn groups_of(spec: SpecModel, table: Seq<ColumnModel>) -> Seq<Seq<Seq<char>>> {
    match arc_columns(spec, table) {
        Some(columns) => slice_groups(columns.1.cells, columns.0.cells),
        None => seq![],
    }
}

/// The slices an arc draws, or what stands in the way.
pub open spec fn arc(spec: SpecModel, table: Seq<ColumnModel>, computed: ComputedModel) -> Result<
    ChartModel,
    Seq<DiagModel>,
> {
    let warnings = channel_warnings(spec);
    match (dsl::bound(spec.theta), dsl::bound(spec.color)) {
        (None, _) => Err(warnings.push(diag::error("arc spec has no `theta` channel"@))),
        (_, None) => Err(
            warnings.push(diag::error("arc spec has no `color` channel to group slices"@)),
        ),
        (Some(theta), Some(color)) => match (
            data::find_column(table, theta.0),
            data::find_column(table, color.0),
        ) {
            (None, _) => Err(warnings.push(missing_column("theta"@, theta.0))),
            (_, None) => Err(warnings.push(missing_column("color"@, color.0))),
            (Some(thetas), Some(labels)) => {
                let drawn = slices(labels.cells, thetas.cells, computed.sums);
                if drawn.len() == 0 {
                    Err(unfinished(spec))
                } else {
                    Ok(
                        ChartModel {
                            mark: spec.mark,
                            series: seq![],
                            slices: drawn,
                            table: None,
                            x_axis: no_axis(),
                            y_axis: no_axis(),
                            config: spec.config,
                        },
                    )
                }
            },
        },
    }
}

/// A label that no row with a number carries has no parts.
proof fn lemma_absent_slice_is_empty(
    labels: Seq<Seq<char>>,
    thetas: Seq<Seq<char>>,
    label: Seq<char>,
    n: int,
)
    requires
        text::index_of(slice_labels(labels, thetas, n), label) is None,
    ensures
        slice_parts(labels, thetas, label, n) == Seq::<Seq<char>>::empty(),
    decreases n,
{
    if n > 0 {
        let earlier = slice_labels(labels, thetas, n - 1);
        lemma_index_stays(earlier, labels[n - 1], label);
        lemma_absent_slice_is_empty(labels, thetas, label, n - 1);
    }
}

/// An unused placeholder axis for marks without a cartesian plane.
fn empty_axis() -> (r: Axis)
    ensures
        r@ == no_axis(),
{
    let r = Axis {
        title: String::new(),
        kind: AxisKind::Quantitative,
        scale: Scale::default(),
    };
    assert(r@.title =~= seq![]);
    r
}

/// Collect theta per color category in first-seen order: the categories, and the numbers of each.
fn group_thetas(color_cells: &Vec<String>, theta_cells: &Vec<String>) -> (r: (
    Vec<String>,
    Vec<Vec<Number>>,
))
    ensures
        views::views(r.0@) == slice_labels(
            views::views(color_cells@),
            views::views(theta_cells@),
            color_cells.len() as int,
        ),
        arithmetic::group_views(r.1@) == slice_groups(
            views::views(color_cells@),
            views::views(theta_cells@),
        ),
{
    broadcast use crate::views::lemma_views_push;

    let ghost lm = views::views(color_cells@);
    let ghost tm = views::views(theta_cells@);
    let mut labels: Vec<String> = Vec::new();
    let mut out: Vec<Vec<Number>> = Vec::new();
    assert(views::views(labels@) =~= seq![]);
    let mut i: usize = 0;
    while i < color_cells.len()
        invariant
            i <= color_cells.len(),
            lm == views::views(color_cells@),
            tm == views::views(theta_cells@),
            views::views(labels@) == slice_labels(lm, tm, i as int),
            out.len() == labels.len(),
            forall|k: int|
                0 <= k < out.len() ==> views::views((#[trigger] out@[k])@) == slice_parts(
                    lm,
                    tm,
                    labels@[k]@,
                    i as int,
                ),
            forall|k: int, l: int|
                0 <= k < l < labels.len() ==> (#[trigger] labels@[k])@ != (#[trigger] labels@[l])@,
        decreases color_cells.len() - i,
    {
        let label = color_cells[i].as_str();
        let ghost before = views::views(labels@);
        match as_number(data::str_or_empty(theta_cells, i)) {
            None => {},
            Some(number) => {
                let slot = match text::position(&labels, label) {
                    Some(k) => {
                        proof {
                            text::lemma_index_of(before, label@);
                        }
                        k
                    },
                    None => {
                        let k = labels.len();
                        proof {
                            text::lemma_index_of(before, label@);
                            lemma_absent_slice_is_empty(lm, tm, label@, i as int);
                            assert(forall|j: int|
                                0 <= j < labels.len() ==> (#[trigger] labels@[j])@ == before[j]);
                        }
                        labels.push(label.to_owned());
                        let none: Vec<Number> = Vec::new();
                        assert(views::views(none@) =~= slice_parts(lm, tm, label@, i as int));
                        out.push(none);
                        k
                    },
                };
                assert(labels@[slot as int]@ == label@) by {
                    if slot < before.len() {
                        assert(before[slot as int] == labels@[slot as int]@);
                    }
                }
                assert(forall|k: int|
                    0 <= k < out.len() && k != slot ==> (#[trigger] labels@[k])@ != label@);
                let ghost held = out@;
                out[slot].push(number);
                assert(views::views(out@[slot as int]@) == views::views(held[slot as int]@).push(
                    number@,
                ));
                assert forall|k: int| 0 <= k < out.len() implies views::views(
                    (#[trigger] out@[k])@,
                ) == slice_parts(lm, tm, labels@[k]@, i + 1) by {
                    if k != slot {
                        assert(out@[k] == held[k]);
                        assert(labels@[k]@ != label@);
                    }
                }
            },
        }
        i = i + 1;
    }
    assert(arithmetic::group_views(out@) =~= slice_groups(lm, tm)) by {
        assert(forall|k: int|
            0 <= k < labels.len() ==> (#[trigger] labels@[k])@ == views::views(labels@)[k]);
    }
    (labels, out)
}

/// One `Slice` per category whose numbers add up to more than zero: non-positive totals are
/// dropped so a wedge is always drawable. Each surviving group gets a sequential `color_index`.
fn aggregate_slices(labels: &Vec<String>, sums: &Vec<Sum>) -> (r: Vec<Slice>)
    ensures
        views::views(r@) == positive_slices(
            views::views(labels@),
            views::views(sums@),
            labels.len() as int,
        ),
{
    broadcast use crate::views::lemma_views_push;

    let ghost lm = views::views(labels@);
    let ghost sm = views::views(sums@);
    let mut kept: Vec<Slice> = Vec::new();
    assert(views::views(kept@) =~= seq![]);
    let mut i: usize = 0;
    while i < labels.len()
        invariant
            i <= labels.len(),
            lm == views::views(labels@),
            sm == views::views(sums@),
            views::views(kept@) == positive_slices(lm, sm, i as int),
        decreases labels.len() - i,
    {
        if i < sums.len() && matches!(sums[i].sign, Sign::Positive) {
            let color_index = kept.len();
            let one = Slice {
                label: labels[i].clone(),
                value: sums[i].value.clone(),
                color_index,
            };
            assert(views::views(kept@).len() == kept.len());
            assert(sm[i as int] == sums@[i as int]@);
            assert(one@ == (SliceModel {
                label: lm[i as int],
                value: sm[i as int].value,
                color_index: color_index as int,
            }));
            kept.push(one);
        }
        i = i + 1;
    }
    kept
}

/// Resolve an `Arc`: group rows by the `color`/category field, take the sum of the `theta` field
/// per group, and emit one `Slice` per group (in first-seen order) with a stable color index.
/// `series` and the axes are left empty/unused. Errors when theta or color is unbound, the
/// columns are missing, or no positive-magnitude slice survives.
fn resolve_arc(spec: &ChartSpec, table: &Table, computed: &Computed) -> (r: Result<
    ResolvedChart,
    Vec<Diagnostic>,
>)
    requires
        spec@.mark is Arc,
    ensures
        outcome(r) == arc(spec@, table@, computed@),
{
    let mut diags = validate_channels(spec);
    let (theta_field, _) = match spec.theta_field() {
        Some(parts) => parts,
        None => {
            diag::report(&mut diags, Diagnostic::error("arc spec has no `theta` channel"));
            return Err(diags);
        },
    };
    let (color_field, _) = match spec.color_field() {
        Some(parts) => parts,
        None => {
            diag::report(
                &mut diags,
                Diagnostic::error("arc spec has no `color` channel to group slices"),
            );
            return Err(diags);
        },
    };
    let theta = match table.column(theta_field) {
        Some(column) => column,
        None => {
            report_missing(&mut diags, "theta", theta_field);
            return Err(diags);
        },
    };
    let color = match table.column(color_field) {
        Some(column) => column,
        None => {
            report_missing(&mut diags, "color", color_field);
            return Err(diags);
        },
    };
    let (labels, _) = group_thetas(&color.cells, &theta.cells);
    assert(views::views(labels@).len() == labels.len());
    let slices = aggregate_slices(&labels, &computed.sums);
    assert(views::views(slices@).len() == slices.len());
    if slices.len() == 0 {
        return Err(report_unfinished(spec));
    }
    let chart = ResolvedChart {
        mark: spec.mark,
        series: Vec::new(),
        slices,
        table: None,
        x_axis: empty_axis(),
        y_axis: empty_axis(),
        config: spec.config.clone(),
    };
    assert(chart@.series =~= seq![]);
    Ok(chart)
}

// --- Tables -----------------------------------------------------------------------

/// Those of the names that are columns of the table.
pub open spec fn present(table: Seq<ColumnModel>, wanted: Seq<Seq<char>>) -> Seq<Seq<char>>
    decreases wanted.len(),
{
    if wanted.len() == 0 {
        seq![]
    } else {
        let earlier = present(table, wanted.drop_last());
        if data::find_column(table, wanted.last()) is Some {
            earlier.push(wanted.last())
        } else {
            earlier
        }
    }
}

/// The warnings about those of the names that are not.
pub open spec fn absent(table: Seq<ColumnModel>, wanted: Seq<Seq<char>>) -> Seq<DiagModel>
    decreases wanted.len(),
{
    if wanted.len() == 0 {
        seq![]
    } else {
        let earlier = absent(table, wanted.drop_last());
        if data::find_column(table, wanted.last()) is Some {
            earlier
        } else {
            earlier.push(
                diag::warning(
                    "table column `"@ + wanted.last() + "` is not in the data and was dropped"@,
                ),
            )
        }
    }
}

/// The columns a table shows, in order: those asked for that the data has, or all of them.
pub open spec fn chosen(spec: SpecModel, table: Seq<ColumnModel>) -> Seq<Seq<char>> {
    match spec.columns {
        Some(wanted) => present(table, wanted),
        None => data::names(table),
    }
}

/// The data of the columns of the given names.
pub open spec fn columns_named(table: Seq<ColumnModel>, names: Seq<Seq<char>>) -> Seq<
    ColumnModel,
> {
    names.map_values(|name: Seq<char>| data::find_column(table, name)->0)
}

/// Cell `r` of a column as a value of the type its cells have in common. A column that is too
/// short has nothing to show there.
pub open spec fn typed_cell(column: ColumnModel, r: int) -> ValueModel {
    if 0 <= r < column.cells.len() {
        typing::coerced(column.cells[r], typing::inferred(column.cells))
    } else {
        ValueModel::Category(seq![])
    }
}

/// The typed rows of the given columns.
pub open spec fn typed_rows(columns: Seq<ColumnModel>) -> Seq<Seq<ValueModel>> {
    Seq::new(
        data::rows(columns),
        |r: int| Seq::new(columns.len(), |c: int| typed_cell(columns[c], r)),
    )
}

/// The grid a table mark shows, or what stands in the way.
pub open spec fn grid(spec: SpecModel, table: Seq<ColumnModel>) -> Result<
    ChartModel,
    Seq<DiagModel>,
> {
    let names = chosen(spec, table);
    let dropped = match spec.columns {
        Some(wanted) => absent(table, wanted),
        None => seq![],
    };
    if names.len() == 0 {
        Err(
            (channel_warnings(spec) + dropped).push(diag::error("table has no columns to show"@)),
        )
    } else {
        Ok(
            ChartModel {
                mark: spec.mark,
                series: seq![],
                slices: seq![],
                table: Some(
                    TableViewModel {
                        headers: names,
                        rows: typed_rows(columns_named(table, names)),
                        transpose: spec.config.transpose,
                    },
                ),
                x_axis: no_axis(),
                y_axis: no_axis(),
                config: spec.config,
            },
        )
    }
}

/// The columns a table shows.
fn choose_columns(spec: &ChartSpec, table: &Table, diags: &mut Vec<Diagnostic>) -> (r: Vec<String>)
    ensures
        views::views(r@) == chosen(spec@, table@),
        views::views(final(diags)@) == views::views(old(diags)@) + (match spec@.columns {
            Some(wanted) => absent(table@, wanted),
            None => seq![],
        }),
{
    broadcast use crate::views::lemma_views_push;

    let ghost start = views::views(diags@);
    let mut out: Vec<String> = Vec::new();
    assert(views::views(out@) =~= seq![]);
    match &spec.columns {
        Some(wanted) => {
            let ghost all = views::views(wanted@);
            assert(start =~= start + absent(table@, all.take(0)));
            let mut i: usize = 0;
            while i < wanted.len()
                invariant
                    i <= wanted.len(),
                    all == views::views(wanted@),
                    views::views(out@) == present(table@, all.take(i as int)),
                    views::views(diags@) == start + absent(table@, all.take(i as int)),
                decreases wanted.len() - i,
            {
                proof {
                    views::lemma_take_push(all, i as int);
                }
                let name = wanted[i].as_str();
                match table.column(name) {
                    Some(_) => {
                        out.push(name.to_owned());
                    },
                    None => {
                        let message = text::framed(
                            "table column `",
                            name,
                            "` is not in the data and was dropped",
                        );
                        diag::report(diags, Diagnostic::warning(message.as_str()));
                        assert(views::views(diags@) =~= start + absent(table@, all.take(i + 1)));
                    },
                }
                i = i + 1;
            }
            proof {
                views::lemma_take_all(all);
            }
        },
        None => {
            let mut i: usize = 0;
            while i < table.columns.len()
                invariant
                    i <= table.columns.len(),
                    out.len() == i,
                    forall|k: int| 0 <= k < i ==> (#[trigger] out@[k])@ == table@[k].name,
                decreases table.columns.len() - i,
            {
                out.push(table.columns[i].name.clone());
                i = i + 1;
            }
            assert(views::views(out@) =~= data::names(table@));
            assert(start =~= start + Seq::<DiagModel>::empty());
        },
    }
    out
}

/// Every chosen column is a column of the data.
proof fn lemma_chosen_are_columns(spec: SpecModel, table: Seq<ColumnModel>, k: int)
    requires
        0 <= k < chosen(spec, table).len(),
    ensures
        data::find_column(table, chosen(spec, table)[k]) is Some,
{
    match spec.columns {
        Some(wanted) => {
            lemma_present_are_columns(table, wanted, k);
        },
        None => {
            text::lemma_index_of(data::names(table), data::names(table)[k]);
        },
    }
}

proof fn lemma_present_are_columns(table: Seq<ColumnModel>, wanted: Seq<Seq<char>>, k: int)
    requires
        0 <= k < present(table, wanted).len(),
    ensures
        data::find_column(table, present(table, wanted)[k]) is Some,
    decreases wanted.len(),
{
    if wanted.len() > 0 && k < present(table, wanted.drop_last()).len() {
        lemma_present_are_columns(table, wanted.drop_last(), k);
    }
}

/// A column's cells as values of the type they have in common.
fn typed_column(column: &Column) -> (r: Vec<Value>)
    ensures
        r.len() == column@.cells.len(),
        forall|k: int| 0 <= k < r.len() ==> (#[trigger] r@[k])@ == typed_cell(column@, k),
{
    let ty = typing::infer_type(column.cells.as_slice());
    let mut out: Vec<Value> = Vec::new();
    let mut i: usize = 0;
    while i < column.cells.len()
        invariant
            i <= column.cells.len(),
            ty == typing::inferred(column@.cells),
            out.len() == i,
            forall|k: int| 0 <= k < i ==> (#[trigger] out@[k])@ == typed_cell(column@, k),
        decreases column.cells.len() - i,
    {
        out.push(typing::coerce(column.cells[i].as_str(), ty));
        i = i + 1;
    }
    out
}

/// The rows of columns of values, with nothing to show where a column is too short.
fn transpose_columns(columns: &Vec<Vec<Value>>, n: usize, Ghost(models): Ghost<Seq<ColumnModel>>) -> (r:
    Vec<Vec<Value>>)
    requires
        columns.len() == models.len(),
        n == data::rows(models),
        forall|c: int|
            0 <= c < columns.len() ==> (#[trigger] columns@[c]).len() == models[c].cells.len(),
        forall|c: int, k: int|
            0 <= c < columns.len() && 0 <= k < columns@[c].len() ==> (#[trigger] columns@[c]@[k])@
                == typed_cell(models[c], k),
    ensures
        backend::value_rows(r@) == typed_rows(models),
{
    let mut out: Vec<Vec<Value>> = Vec::new();
    let mut r: usize = 0;
    while r < n
        invariant
            r <= n,
            n == data::rows(models),
            columns.len() == models.len(),
            forall|c: int|
                0 <= c < columns.len() ==> (#[trigger] columns@[c]).len() == models[c].cells.len(),
            forall|c: int, k: int|
                0 <= c < columns.len() && 0 <= k < columns@[c].len() ==> (
                #[trigger] columns@[c]@[k])@ == typed_cell(models[c], k),
            out.len() == r,
            forall|k: int|
                0 <= k < r ==> views::views((#[trigger] out@[k])@) == typed_rows(models)[k],
        decreases n - r,
    {
        let mut line: Vec<Value> = Vec::new();
        let mut c: usize = 0;
        while c < columns.len()
            invariant
                c <= columns.len(),
                columns.len() == models.len(),
                forall|c: int|
                    0 <= c < columns.len() ==> (#[trigger] columns@[c]).len()
                        == models[c].cells.len(),
                forall|c: int, k: int|
                    0 <= c < columns.len() && 0 <= k < columns@[c].len() ==> (
                    #[trigger] columns@[c]@[k])@ == typed_cell(models[c], k),
                line.len() == c,
                forall|k: int|
                    0 <= k < c ==> (#[trigger] line@[k])@ == typed_cell(models[k], r as int),
            decreases columns.len() - c,
        {
            let value = if r < columns[c].len() {
                columns[c][r].clone()
            } else {
                let v = Value::Category(String::new());
                assert(v@->Category_0 =~= seq![]);
                v
            };
            line.push(value);
            c = c + 1;
        }
        assert(views::views(line@) =~= typed_rows(models)[r as int]);
        out.push(line);
        r = r + 1;
    }
    assert(backend::value_rows(out@) =~= typed_rows(models));
    out
}

/// Resolve the `Table` mark: select columns (from `spec.columns`, defaulting to every column in
/// natural order) and coerce each cell by its column's inferred type. Unknown column names are
/// dropped with a warning. Errors when no column resolves (nothing to draw). The transpose flag
/// rides along on the `TableView`.
fn resolve_table(spec: &ChartSpec, table: &Table) -> (r: Result<ResolvedChart, Vec<Diagnostic>>)
    ensures
        outcome(r) == grid(spec@, table@),
{
    let mut diags = validate_channels(spec);
    let names = choose_columns(spec, table, &mut diags);
    let ghost wanted = views::views(names@);
    assert(wanted.len() == names.len());
    if names.len() == 0 {
        diag::report(&mut diags, Diagnostic::error("table has no columns to show"));
        return Err(diags);
    }
    let ghost models = columns_named(table@, wanted);
    let mut columns: Vec<Vec<Value>> = Vec::new();
    let mut longest: usize = 0;
    let mut i: usize = 0;
    while i < names.len()
        invariant
            i <= names.len(),
            wanted == views::views(names@),
            wanted == chosen(spec@, table@),
            models == columns_named(table@, wanted),
            columns.len() == i,
            longest == data::rows(models.take(i as int)),
            forall|c: int| 0 <= c < i ==> (#[trigger] columns@[c]).len() == models[c].cells.len(),
            forall|c: int, k: int|
                0 <= c < i && 0 <= k < columns@[c].len() ==> (#[trigger] columns@[c]@[k])@
                    == typed_cell(models[c], k),
        decreases names.len() - i,
    {
        proof {
            lemma_chosen_are_columns(spec@, table@, i as int);
            views::lemma_take_push(models, i as int);
            assert(wanted[i as int] == names@[i as int]@);
        }
        match table.column(names[i].as_str()) {
            Some(column) => {
                assert(models[i as int] == column@);
                let typed = typed_column(column);
                if typed.len() > longest {
                    longest = typed.len();
                }
                columns.push(typed);
            },
            None => {},
        }
        i = i + 1;
    }
    proof {
        views::lemma_take_all(models);
    }
    let rows = transpose_columns(&columns, longest, Ghost(models));
    let chart = ResolvedChart {
        mark: spec.mark,
        series: Vec::new(),
        slices: Vec::new(),
        table: Some(TableView { headers: names, rows, transpose: spec.config.transpose }),
        x_axis: empty_axis(),
        y_axis: empty_axis(),
        config: spec.config.clone(),
    };
    assert(chart@.series =~= seq![]);
    assert(chart@.slices =~= seq![]);
    Ok(chart)
}

// --- The resolver -----------------------------------------------------------------

/// The numbers that a chart needs arithmetic on.
pub open spec fn owed(spec: SpecModel, table: Seq<ColumnModel>) -> TermsModel {
    TermsModel {
        samples: if spec.mark is Histogram {
            samples_of(spec, table)
        } else {
            None
        },
        groups: if spec.mark is Arc {
            groups_of(spec, table)
        } else {
            seq![]
        },
    }
}

/// The numbers that a chart needs arithmetic on: what a `Histogram` sorts into equal-width
/// buckets, and what an `Arc` adds up for each of its slices. The results go into [`resolve`].
pub fn terms(spec: &ChartSpec, table: &Table) -> (r: Terms)
    ensures
        r@ == owed(spec@, table@),
{
    let samples = match spec.mark {
        Mark::Histogram => match spec.x_field() {
            Some((field, _)) => match table.column(field) {
                Some(column) => Some(collect_samples(spec, column)),
                None => None,
            },
            None => None,
        },
        _ => None,
    };
    let groups = match spec.mark {
        Mark::Arc => match (spec.theta_field(), spec.color_field()) {
            (Some((theta, _)), Some((color, _))) => match (table.column(theta), table.column(color)) {
                (Some(thetas), Some(labels)) => group_thetas(&labels.cells, &thetas.cells).1,
                _ => Vec::new(),
            },
            _ => Vec::new(),
        },
        _ => Vec::new(),
    };
    let r = Terms { samples, groups };
    assert(r@ =~= owed(spec@, table@));
    r
}

/// What a spec draws of a table, given what was computed from its terms, or what stands in the
/// way.
pub open spec fn resolved(
    spec: SpecModel,
    table: Seq<ColumnModel>,
    computed: ComputedModel,
) -> Result<ChartModel, Seq<DiagModel>> {
    match spec.mark {
        Mark::Arc => arc(spec, table, computed),
        Mark::Histogram => histogram(spec, table, computed),
        Mark::Table => grid(spec, table),
        _ => cartesian(spec, table),
    }
}

/// Resolve a spec and table to a renderer-neutral chart, or a list of errors, given what was
/// computed from their [`terms`].
/// Errors are returned when a required channel is absent or a referenced column is
/// missing; dropped rows yield warnings (reported with the error, when they leave no drawable
/// data). The mark drives the lowering: `Arc` aggregates radial slices, `Histogram` bins the x
/// column, and the cartesian marks build `(x, y)` series. Bound channels are
/// validated against the mark's registry caps.
pub fn resolve(spec: &ChartSpec, table: &Table, computed: &Computed) -> (r: Result<
    ResolvedChart,
    Vec<Diagnostic>,
>)
    ensures
        outcome(r) == resolved(spec@, table@, computed@),
{
    match spec.mark {
        Mark::Arc => resolve_arc(spec, table, computed),
        Mark::Histogram => resolve_histogram(spec, table, computed),
        Mark::Table => resolve_table(spec, table),
        _ => resolve_cartesian(spec, table),
    }
}

// --- Scale drops ------------------------------------------------------------------

/// How many of the first `n` signs a scale's transform is not defined for.
pub open spec fn rejected(kind: ScaleKind, signs: Seq<Sign>, n: int) -> int
    decreases n,
{
    if n <= 0 {
        0
    } else {
        rejected(kind, signs, n - 1) + if kind.maps(signs[n - 1]) {
            0int
        } else {
            1
        }
    }
}

/// The warning about the points a scale drops on an axis, where it drops any.
pub open spec fn scale_warning(axis: Seq<char>, drops: int) -> Seq<DiagModel> {
    if drops > 0 {
        seq![
            diag::warning(
                axis + " scale drops "@ + text::decimal(drops as nat)
                    + " non-positive point(s) the transform cannot map"@,
            ),
        ]
    } else {
        seq![]
    }
}

/// Count the signs a scale's transform is not defined for.
fn count_rejected(kind: ScaleKind, signs: &Vec<Sign>) -> (r: usize)
    ensures
        r == rejected(kind, signs@, signs.len() as int),
{
    let mut count: usize = 0;
    let mut i: usize = 0;
    while i < signs.len()
        invariant
            i <= signs.len(),
            count <= i,
            count == rejected(kind, signs@, i as int),
        decreases signs.len() - i,
    {
        if !kind.admits(signs[i]) {
            count = count + 1;
        }
        i = i + 1;
    }
    count
}

fn warn_scale(diags: &mut Vec<Diagnostic>, axis: &str, drops: usize)
    ensures
        views::views(final(diags)@) == views::views(old(diags)@) + scale_warning(
            axis@,
            drops as int,
        ),
{
    if drops > 0 {
        let number = text::decimal_text(drops as u64);
        let mut message = text::framed(axis, " scale drops ", number.as_str());
        message.append(" non-positive point(s) the transform cannot map");
        diag::report(diags, Diagnostic::warning(message.as_str()));
    }
}

/// Warn when a non-linear axis scale will silently drop points the backend cannot transform
/// (log of `<= 0`, sqrt of `< 0`), given where the coordinates of all points lie relative to
/// zero on each axis. The backend's transform is the actual filter; this surfaces the loss to
/// the author.
pub fn warn_scale_drops(spec: &ChartSpec, x_signs: &Vec<Sign>, y_signs: &Vec<Sign>) -> (r: Vec<
    Diagnostic,
>)
    ensures
        views::views(r@) == scale_warning(
            "x"@,
            rejected(
                scale_or_linear(spec@.config.x_scale).kind,
                x_signs@,
                x_signs.len() as int,
            ),
        ) + scale_warning(
            "y"@,
            rejected(
                scale_or_linear(spec@.config.y_scale).kind,
                y_signs@,
                y_signs.len() as int,
            ),
        ),
{
    let x_scale = dsl::scale_or_default(&spec.config.x_scale);
    let y_scale = dsl::scale_or_default(&spec.config.y_scale);
    let mut diags: Vec<Diagnostic> = Vec::new();
    assert(views::views(diags@) =~= seq![]);
    warn_scale(&mut diags, "x", count_rejected(x_scale.kind, x_signs));
    warn_scale(&mut diags, "y", count_rejected(y_scale.kind, y_signs));
    diags
}

} // verus!
