//! What holds of the resolver as a whole: laws that relate several of its parts.

use crate::arithmetic;
use crate::arithmetic::BinningModel;
use crate::arithmetic::ComputedModel;
use crate::arithmetic::SumModel;
use crate::backend::AxisKindModel;
use crate::backend::ChartModel;
use crate::backend::CoordModel;
use crate::backend::SeriesModel;
use crate::data;
use crate::data::ColumnModel;
use crate::diag::DiagModel;
use crate::diag::Severity;
use crate::dsl;
use crate::dsl::DataType;
use crate::dsl::Mark;
use crate::dsl::ScaleKind;
use crate::dsl::ScaleModel;
use crate::dsl::Sign;
use crate::dsl::SpecModel;
use crate::registry;
use crate::resolve;
use crate::row_laws;
use crate::text;
use crate::typing;
use crate::typing::ValueModel;
use vstd::prelude::*;

verus! {

// --- Rows -------------------------------------------------------------------------

/// Every row of a series either has a point or is reported as dropped.
pub proof fn law_rows_are_drawn_or_reported(
    xs: Seq<Option<CoordModel>>,
    ys: Seq<Seq<char>>,
    field: Seq<char>,
    n: int,
)
    requires
        0 <= n,
    ensures
        resolve::points(xs, ys, n).len() + resolve::series_drops(xs, ys, field, n).len() == n,
    decreases n,
{
    if n > 0 {
        law_rows_are_drawn_or_reported(xs, ys, field, n - 1);
    }
}

/// The lengths of the first `k` groups, added up.
pub open spec fn group_total(
    xs: Seq<Option<CoordModel>>,
    ys: Seq<Seq<char>>,
    keys: Seq<Seq<char>>,
    names: Seq<Seq<char>>,
    n: int,
) -> nat
    decreases names.len(),
{
    if names.len() == 0 {
        0
    } else {
        group_total(xs, ys, keys, names.drop_last(), n) + resolve::group_points(
            xs,
            ys,
            keys,
            names.last(),
            n,
        ).len()
    }
}

/// The names of the groups are distinct.
pub proof fn law_group_names_are_distinct(
    xs: Seq<Option<CoordModel>>,
    ys: Seq<Seq<char>>,
    keys: Seq<Seq<char>>,
    n: int,
)
    ensures
        resolve::group_names(xs, ys, keys, n).no_duplicates(),
    decreases n,
{
    if n > 0 {
        law_group_names_are_distinct(xs, ys, keys, n - 1);
        text::lemma_index_of(
            resolve::group_names(xs, ys, keys, n - 1),
            data::cell_at(keys, n - 1),
        );
    }
}

/// One more row adds its point to the group of its key, and to no other.
proof fn lemma_group_total_step(
    xs: Seq<Option<CoordModel>>,
    ys: Seq<Seq<char>>,
    keys: Seq<Seq<char>>,
    names: Seq<Seq<char>>,
    n: int,
)
    requires
        0 < n,
        names.no_duplicates(),
    ensures
        group_total(xs, ys, keys, names, n) == group_total(xs, ys, keys, names, n - 1) + (
        if resolve::point_at(xs, ys, n - 1) is Some && names.contains(data::cell_at(keys, n - 1)) {
            1nat
        } else {
            0
        }),
    decreases names.len(),
{
    if names.len() > 0 {
        let front = names.drop_last();
        let key = data::cell_at(keys, n - 1);
        assert(front.no_duplicates());
        lemma_group_total_step(xs, ys, keys, front, n);
        if names.last() == key {
            assert(names[names.len() - 1] == key);
            if front.contains(key) {
                let i = choose|i: int| 0 <= i < front.len() && front[i] == key;
                assert(names[i] == key);
            }
        } else {
            if names.contains(key) {
                let i = choose|i: int| 0 <= i < names.len() && names[i] == key;
                assert(front[i] == key);
            }
            if front.contains(key) {
                let i = choose|i: int| 0 <= i < front.len() && front[i] == key;
                assert(names[i] == key);
            }
        }
    }
}

/// Splitting rows by color loses none and draws none twice: the groups together have as many
/// points as the column has without a split.
pub proof fn law_groups_partition_the_rows(
    xs: Seq<Option<CoordModel>>,
    ys: Seq<Seq<char>>,
    keys: Seq<Seq<char>>,
    n: int,
)
    requires
        0 <= n,
    ensures
        group_total(xs, ys, keys, resolve::group_names(xs, ys, keys, n), n) == resolve::points(
            xs,
            ys,
            n,
        ).len(),
    decreases n,
{
    if n > 0 {
        law_groups_partition_the_rows(xs, ys, keys, n - 1);
        let earlier = resolve::group_names(xs, ys, keys, n - 1);
        let now = resolve::group_names(xs, ys, keys, n);
        let key = data::cell_at(keys, n - 1);
        law_group_names_are_distinct(xs, ys, keys, n);
        text::lemma_index_of(earlier, key);
        lemma_group_total_step(xs, ys, keys, now, n);
        if now != earlier {
            assert(now.drop_last() =~= earlier);
            assert(now.last() == key);
            assert(now[now.len() - 1] == key);
            resolve::lemma_absent_group_is_empty(xs, ys, keys, key, n - 1);
            assert(group_total(xs, ys, keys, now, n - 1) == group_total(
                xs,
                ys,
                keys,
                earlier,
                n - 1,
            ));
        } else if resolve::point_at(xs, ys, n - 1) is Some {
            match text::index_of(earlier, key) {
                Some(i) => {
                    assert(now[i] == key);
                },
                None => {},
            }
        }
    }
}

// --- Categories -------------------------------------------------------------------

/// The labels of a categorical axis are distinct.
pub proof fn law_categories_are_distinct(cells: Seq<Seq<char>>, n: int)
    ensures
        resolve::categories(cells, n).no_duplicates(),
    decreases n,
{
    if n > 0 {
        law_categories_are_distinct(cells, n - 1);
        if let ValueModel::Category(label) = typing::coerced(cells[n - 1], DataType::Nominal) {
            text::lemma_index_of(resolve::categories(cells, n - 1), label);
        }
    }
}

/// The label of each of the first `m` cells is among the labels of the first `n`.
proof fn lemma_category_is_listed(cells: Seq<Seq<char>>, i: int, n: int)
    requires
        0 <= i < n,
    ensures
        typing::coerced(cells[i], DataType::Nominal) matches ValueModel::Category(label)
            ==> text::index_of(resolve::categories(cells, n), label) is Some,
    decreases n,
{
    if let ValueModel::Category(label) = typing::coerced(cells[i], DataType::Nominal) {
        let earlier = resolve::categories(cells, n - 1);
        if i < n - 1 {
            lemma_category_is_listed(cells, i, n - 1);
        }
        if let ValueModel::Category(last) = typing::coerced(cells[n - 1], DataType::Nominal) {
            resolve::lemma_index_stays(earlier, last, label);
        }
    }
}

/// The coordinate of a cell on a categorical axis is the place of its label among the axis's
/// labels: every filled cell has one, and the axis labels it with what the cell says.
pub proof fn law_category_index_names_the_cell(cells: Seq<Seq<char>>, ty: DataType, i: int)
    requires
        0 <= i < cells.len(),
        ty is Ordinal || ty is Nominal,
        typing::is_filled(cells[i]),
    ensures
        resolve::axis_value(cells, ty, i) matches Some(CoordModel::Whole(k)) && resolve::axis_kind(
            cells,
            ty,
        ) matches AxisKindModel::Categorical(labels) && 0 <= k < labels.len() && labels[k]
            == text::trimmed(cells[i]),
{
    let label = text::trimmed(cells[i]);
    assert(typing::coerced(cells[i], ty) == ValueModel::Category(label));
    assert(typing::coerced(cells[i], DataType::Nominal) == ValueModel::Category(label));
    lemma_category_is_listed(cells, i, cells.len() as int);
    text::lemma_index_of(resolve::categories(cells, cells.len() as int), label);
}

// --- Wide and long ----------------------------------------------------------------

/// The place of row `i`, column `j` where rows of `w` columns are written one after the other.
#[verifier::opaque]
pub open spec fn place(i: int, j: int, w: int) -> int {
    i * w + j
}

/// The row and the column of a place, and the places next to it.
proof fn lemma_place(i: int, j: int, w: int)
    requires
        0 <= i,
        0 <= j < w,
    ensures
        place(i, j, w) >= 0,
        place(i, j, w) / w == i,
        place(i, j, w) % w == j,
        place(i, j + 1, w) == place(i, j, w) + 1,
        place(0, 0, w) == 0,
        place(i, w, w) == place(i + 1, 0, w),
{
    reveal(place);
    vstd::arithmetic::div_mod::lemma_fundamental_div_mod_converse(i * w + j, w, i, j);
    assert(i * w >= 0) by (nonlinear_arith)
        requires
            i >= 0,
            w > 0,
    ;
    assert((i + 1) * w == i * w + w) by (nonlinear_arith);
    assert(0 * w == 0) by (nonlinear_arith);
}

/// A place in the first `m` rows lies before the next row.
proof fn lemma_place_before(i: int, j: int, m: int, w: int)
    requires
        0 <= i < m,
        0 <= j < w,
    ensures
        place(i, j, w) < place(m, 0, w),
{
    reveal(place);
    assert((i + 1) * w <= m * w) by (nonlinear_arith)
        requires
            i + 1 <= m,
            0 < w,
    ;
    assert((i + 1) * w == i * w + w) by (nonlinear_arith);
}

/// Every place before row `m` is that of its row and its column.
proof fn lemma_place_of(k: int, m: int, w: int)
    requires
        0 < w,
        0 <= m,
        0 <= k < place(m, 0, w),
    ensures
        0 <= k / w < m,
        0 <= k % w < w,
        place(k / w, k % w, w) == k,
{
    reveal(place);
    vstd::arithmetic::div_mod::lemma_fundamental_div_mod(k, w);
    let q = k / w;
    assert(w * q == q * w) by (nonlinear_arith);
    vstd::arithmetic::div_mod::lemma_mod_bound(k, w);
    if q >= m {
        assert(q * w >= m * w) by (nonlinear_arith)
            requires
                q >= m,
                w > 0,
        ;
    }
    if q < 0 {
        assert(q * w <= -w) by (nonlinear_arith)
            requires
                q <= -1,
                w > 0,
        ;
    }
}

/// A column repeated `w` times row by row.
pub open spec fn repeated(x: Seq<Seq<char>>, w: int) -> Seq<Seq<char>> {
    Seq::new(place(x.len() as int, 0, w) as nat, |k: int| x[k / w])
}

/// The names of `w` columns, once for each row.
pub open spec fn melted_keys(names: Seq<Seq<char>>, rows: int) -> Seq<Seq<char>> {
    Seq::new(
        place(rows, 0, names.len() as int) as nat,
        |k: int| names[k % names.len() as int],
    )
}

/// The cells of columns, row by row.
pub open spec fn melted_values(columns: Seq<Seq<Seq<char>>>, rows: int) -> Seq<Seq<char>> {
    Seq::new(
        place(rows, 0, columns.len() as int) as nat,
        |k: int|
            data::cell_at(columns[k % columns.len() as int], k / columns.len() as int),
    )
}

/// One series per column, named after it.
pub open spec fn column_series(
    xs: Seq<Option<CoordModel>>,
    names: Seq<Seq<char>>,
    columns: Seq<Seq<Seq<char>>>,
) -> Seq<SeriesModel> {
    Seq::new(
        names.len(),
        |j: int|
            resolve::column_series(
                xs,
                ColumnModel { name: names[j], cells: columns[j] },
                names[j],
            ),
    )
}

/// The copies of a cell.
proof fn lemma_repeated(x: Seq<Seq<char>>, w: int, i: int, j: int)
    requires
        0 <= i < x.len(),
        0 <= j < w,
    ensures
        0 <= place(i, j, w) < repeated(x, w).len(),
        repeated(x, w).len() == place(x.len() as int, 0, w),
        repeated(x, w)[place(i, j, w)] == x[i],
{
    lemma_place(i, j, w);
    lemma_place_before(i, j, x.len() as int, w);
}

/// Repeating a cell adds no category.
proof fn lemma_repeated_categories(x: Seq<Seq<char>>, w: int, i: int, j: int)
    requires
        0 < w,
        0 <= i < x.len(),
        0 <= j <= w,
    ensures
        resolve::categories(repeated(x, w), place(i, j, w)) == (if j == 0 {
            resolve::categories(x, i)
        } else {
            resolve::categories(x, i + 1)
        }),
    decreases i, j,
{
    let all = repeated(x, w);
    if j == 0 {
        if i > 0 {
            lemma_repeated_categories(x, w, i - 1, w);
            lemma_place(i - 1, 0, w);
        } else {
            lemma_place(0, 0, w);
        }
    } else {
        lemma_repeated_categories(x, w, i, j - 1);
        lemma_place(i, j - 1, w);
        lemma_repeated(x, w, i, j - 1);
        if let ValueModel::Category(label) = typing::coerced(x[i], DataType::Nominal) {
            lemma_category_is_listed(x, i, i + 1);
        }
    }
}

/// What holds of every filled cell of a column holds of every filled cell of one with no others.
proof fn lemma_fewer_cells(a: Seq<Seq<char>>, b: Seq<Seq<char>>)
    requires
        forall|i: int| 0 <= i < a.len() ==> b.contains(#[trigger] a[i]),
    ensures
        (forall|k: int| 0 <= k < b.len() ==> !typing::is_filled(#[trigger] b[k])) ==> (forall|
            i: int,
        |
            0 <= i < a.len() ==> !typing::is_filled(#[trigger] a[i])),
        typing::all_numbers(b) ==> typing::all_numbers(a),
        typing::all_dates(b) ==> typing::all_dates(a),
{
    assert forall|i: int| 0 <= i < a.len() implies exists|k: int|
        0 <= k < b.len() && b[k] == #[trigger] a[i] by {
        assert(b.contains(a[i]));
    }
}

/// Repeating a column does not change the type that it is inferred to have.
proof fn lemma_repeated_type(x: Seq<Seq<char>>, w: int)
    requires
        0 < w,
    ensures
        typing::inferred(repeated(x, w)) == typing::inferred(x),
{
    let all = repeated(x, w);
    lemma_place(x.len() as int, 0, w);
    assert forall|i: int| 0 <= i < x.len() implies all.contains(#[trigger] x[i]) by {
        lemma_repeated(x, w, i, 0);
    }
    assert forall|k: int| 0 <= k < all.len() implies x.contains(#[trigger] all[k]) by {
        lemma_place_of(k, x.len() as int, w);
        assert(x[k / w] == all[k]);
    }
    lemma_fewer_cells(x, all);
    lemma_fewer_cells(all, x);
}

/// Repeating a column changes neither the type that it is inferred to have nor the kind of its
/// axis, and each copy of a cell gets the coordinate of the cell.
pub proof fn law_repeating_a_column_keeps_its_axis(x: Seq<Seq<char>>, w: int, declared: Option<
    DataType,
>)
    requires
        0 < w,
    ensures
        resolve::x_type(declared, repeated(x, w)) == resolve::x_type(declared, x),
        resolve::axis_kind(repeated(x, w), resolve::x_type(declared, x)) == resolve::axis_kind(
            x,
            resolve::x_type(declared, x),
        ),
        forall|i: int, j: int|
            0 <= i < x.len() && 0 <= j < w ==> resolve::axis_value(
                repeated(x, w),
                resolve::x_type(declared, x),
                #[trigger] place(i, j, w),
            ) == resolve::axis_value(x, resolve::x_type(declared, x), i),
{
    let all = repeated(x, w);
    let ty = resolve::x_type(declared, x);
    let m = x.len() as int;
    lemma_repeated_type(x, w);
    if m > 0 {
        lemma_repeated_categories(x, w, m - 1, w);
        lemma_place(m - 1, 0, w);
        lemma_repeated(x, w, 0, 0);
    } else {
        lemma_place(0, 0, w);
    }
    assert(resolve::categories(all, all.len() as int) == resolve::categories(x, m));
    assert forall|i: int, j: int| 0 <= i < x.len() && 0 <= j < w implies resolve::axis_value(
        all,
        ty,
        #[trigger] place(i, j, w),
    ) == resolve::axis_value(x, ty, i) by {
        lemma_repeated(x, w, i, j);
    }
}

/// One row and column of melted data.
proof fn lemma_melted_row(
    x: Seq<Seq<char>>,
    ty: DataType,
    names: Seq<Seq<char>>,
    columns: Seq<Seq<Seq<char>>>,
    i: int,
    j: int,
)
    requires
        names.len() == columns.len(),
        0 <= i < x.len(),
        0 <= j < names.len(),
        resolve::axis_value(
            repeated(x, names.len() as int),
            ty,
            place(i, j, names.len() as int),
        ) == resolve::axis_value(x, ty, i),
    ensures
        ({
            let w = names.len() as int;
            let m = x.len() as int;
            let k = place(i, j, w);
            &&& resolve::point_at(
                resolve::axis_values(repeated(x, w), ty),
                melted_values(columns, m),
                k,
            ) == resolve::point_at(resolve::axis_values(x, ty), columns[j], i)
            &&& data::cell_at(melted_keys(names, m), k) == names[j]
        }),
{
    let w = names.len() as int;
    let m = x.len() as int;
    let k = place(i, j, w);
    lemma_place(i, j, w);
    lemma_place_before(i, j, m, w);
    lemma_repeated(x, w, i, j);
    assert(melted_values(columns, m)[k] == data::cell_at(columns[j], i));
    assert(melted_keys(names, m)[k] == names[j]);
}

/// The points of one group of melted data, after `i` whole rows and `j` columns of the next.
proof fn lemma_melted_points(
    x: Seq<Seq<char>>,
    ty: DataType,
    names: Seq<Seq<char>>,
    columns: Seq<Seq<Seq<char>>>,
    c: int,
    i: int,
    j: int,
)
    requires
        names.no_duplicates(),
        names.len() == columns.len(),
        0 <= c < names.len(),
        0 <= i <= x.len(),
        i == x.len() ==> j == 0,
        0 <= j <= names.len(),
        forall|i: int, j: int|
            0 <= i < x.len() && 0 <= j < names.len() ==> resolve::axis_value(
                repeated(x, names.len() as int),
                ty,
                #[trigger] place(i, j, names.len() as int),
            ) == resolve::axis_value(x, ty, i),
    ensures
        resolve::group_points(
            resolve::axis_values(repeated(x, names.len() as int), ty),
            melted_values(columns, x.len() as int),
            melted_keys(names, x.len() as int),
            names[c],
            place(i, j, names.len() as int),
        ) == resolve::points(
            resolve::axis_values(x, ty),
            columns[c],
            if j > c {
                i + 1
            } else {
                i
            },
        ),
    decreases i, j,
{
    let w = names.len() as int;
    if j == 0 {
        if i > 0 {
            lemma_melted_points(x, ty, names, columns, c, i - 1, w);
            lemma_place(i - 1, 0, w);
        } else {
            lemma_place(0, 0, w);
        }
    } else {
        lemma_melted_points(x, ty, names, columns, c, i, j - 1);
        lemma_place(i, j - 1, w);
        lemma_melted_row(x, ty, names, columns, i, j - 1);
        if j - 1 != c {
            assert(names[j - 1] != names[c]);
        }
    }
}

/// Wide and long data collapse to the same series. Data with one column per series, and the same
/// data with one row per value and the column's name beside it, give the same x axis, and the
/// same points for each name; where the long data names every column, in column order, they
/// give the same series.
pub proof fn law_wide_and_long_agree(
    x: Seq<Seq<char>>,
    declared: Option<DataType>,
    names: Seq<Seq<char>>,
    columns: Seq<Seq<Seq<char>>>,
)
    requires
        names.len() > 0,
        names.no_duplicates(),
        names.len() == columns.len(),
    ensures
        ({
            let w = names.len() as int;
            let ty = resolve::x_type(declared, x);
            let xl = resolve::axis_values(repeated(x, w), ty);
            let yl = melted_values(columns, x.len() as int);
            let kl = melted_keys(names, x.len() as int);
            let xs = resolve::axis_values(x, ty);
            &&& resolve::x_type(declared, repeated(x, w)) == ty
            &&& resolve::axis_kind(repeated(x, w), ty) == resolve::axis_kind(x, ty)
            &&& forall|c: int|
                0 <= c < w ==> resolve::group_points(
                    xl,
                    yl,
                    kl,
                    #[trigger] names[c],
                    xl.len() as int,
                ) == resolve::points(xs, columns[c], xs.len() as int)
            &&& resolve::group_names(xl, yl, kl, xl.len() as int) == names ==> resolve::groups(
                xl,
                yl,
                kl,
            ) == column_series(xs, names, columns)
        }),
{
    let w = names.len() as int;
    let m = x.len() as int;
    let ty = resolve::x_type(declared, x);
    let xl = resolve::axis_values(repeated(x, w), ty);
    let yl = melted_values(columns, m);
    let kl = melted_keys(names, m);
    let xs = resolve::axis_values(x, ty);
    law_repeating_a_column_keeps_its_axis(x, w, declared);
    lemma_place(m, 0, w);
    assert(xl.len() == place(m, 0, w));
    assert forall|c: int| 0 <= c < w implies resolve::group_points(
        xl,
        yl,
        kl,
        #[trigger] names[c],
        xl.len() as int,
    ) == resolve::points(xs, columns[c], m) by {
        lemma_melted_points(x, ty, names, columns, c, m, 0);
    }
    if resolve::group_names(xl, yl, kl, xl.len() as int) == names {
        let long = resolve::groups(xl, yl, kl);
        let wide = column_series(xs, names, columns);
        assert forall|c: int| 0 <= c < w implies long[c] == wide[c] by {
            assert(long[c].name == names[c]);
        }
        assert(long =~= wide);
    }
}

// --- Results ----------------------------------------------------------------------

/// A spec with only those channels bound that its mark accepts.
pub open spec fn accepted(spec: SpecModel) -> SpecModel {
    let ch = registry::mark_channels(spec.mark);
    SpecModel {
        x: if ch.x {
            spec.x
        } else {
            None
        },
        y: if ch.y {
            spec.y
        } else {
            None
        },
        color: if ch.color {
            spec.color
        } else {
            None
        },
        size: if ch.size {
            spec.size
        } else {
            None
        },
        theta: if ch.theta {
            spec.theta
        } else {
            None
        },
        ..spec
    }
}

/// A declared type is authoritative: the x axis is of the kind of that type, whatever the column's
/// cells look like.
pub proof fn law_declared_type_is_authoritative(
    spec: SpecModel,
    table: Seq<ColumnModel>,
    field: Seq<char>,
    ty: DataType,
    computed: ComputedModel,
    chart: ChartModel,
)
    requires
        registry::is_cartesian(spec.mark),
        !(spec.mark is Histogram),
        dsl::bound(spec.x) == Some((field, Some(ty))),
        resolve::resolved(spec, table, computed) == Ok::<ChartModel, Seq<DiagModel>>(chart),
    ensures
        data::find_column(table, field) is Some,
        chart.x_axis.kind == resolve::axis_kind(data::find_column(table, field)->0.cells, ty),
{
}

/// A channel that the mark does not accept is ignored: it changes nothing of what is drawn.
#[verifier::spinoff_prover]
pub proof fn law_unaccepted_channels_are_ignored(
    spec: SpecModel,
    table: Seq<ColumnModel>,
    computed: ComputedModel,
)
    ensures
        resolve::resolved(spec, table, computed) matches Ok(chart) ==> resolve::resolved(
            accepted(spec),
            table,
            computed,
        ) == Ok::<ChartModel, Seq<DiagModel>>(chart),
        resolve::resolved(accepted(spec), table, computed) matches Ok(chart) ==> resolve::resolved(
            spec,
            table,
            computed,
        ) == Ok::<ChartModel, Seq<DiagModel>>(chart),
{
    let less = accepted(spec);
    if registry::plots_xy(spec.mark) {
        match dsl::bound(spec.x) {
            Some(x) => match data::find_column(table, x.0) {
                Some(column) => {
                    let ty = resolve::x_type(x.1, column.cells);
                    let xs = resolve::axis_values(column.cells, ty);
                    let series = resolve::built(spec, table, xs).series;
                    assert(resolve::built(less, table, xs) == resolve::built(spec, table, xs));
                    if !(spec.mark is Point) && series.len() > 0 {
                        assert(resolve::sizes_for(spec, table, xs, series[0].points.len()) =~= seq![]);
                        assert(resolve::sizes_for(less, table, xs, series[0].points.len()) =~= seq![]);
                    }
                    assert(resolve::sized(spec, table, xs, series) == resolve::sized(
                        less,
                        table,
                        xs,
                        series,
                    ));
                },
                None => {},
            },
            None => {},
        }
    }
}

/// A chart that resolves warns of nothing it needs: a spec whose channels its mark accepts has
/// no channel warnings.
pub proof fn law_accepted_channels_give_no_warning(spec: SpecModel)
    ensures
        resolve::channel_warnings(accepted(spec)) == Seq::<DiagModel>::empty(),
{
    assert(resolve::channel_warnings(accepted(spec)) =~= Seq::<DiagModel>::empty());
}

/// Whether a report ends with an error.
pub open spec fn ends_with_an_error(diags: Seq<DiagModel>) -> bool {
    diags.len() > 0 && diags.last().severity == Severity::Error
}

/// A failed resolution ends with the error that stopped it.
pub proof fn law_failure_ends_with_an_error(
    spec: SpecModel,
    table: Seq<ColumnModel>,
    computed: ComputedModel,
)
    ensures
        resolve::resolved(spec, table, computed) matches Err(diags) ==> ends_with_an_error(diags),
{
    match spec.mark {
        Mark::Arc => {
            assert(resolve::arc(spec, table, computed) matches Err(diags) ==> ends_with_an_error(
                diags,
            ));
        },
        Mark::Histogram => {
            assert(resolve::histogram(spec, table, computed) matches Err(diags) ==> ends_with_an_error(
                diags,
            ));
        },
        Mark::Table => {
            assert(resolve::grid(spec, table) matches Err(diags) ==> ends_with_an_error(diags));
        },
        _ => {
            lemma_cartesian_failure_ends_with_an_error(spec, table);
        },
    }
}

#[verifier::spinoff_prover]
proof fn lemma_cartesian_failure_ends_with_an_error(spec: SpecModel, table: Seq<ColumnModel>)
    ensures
        resolve::cartesian(spec, table) matches Err(diags) ==> ends_with_an_error(diags),
{
    if let Some(x) = dsl::bound(spec.x) {
        if let Some(column) = data::find_column(table, x.0) {
            let xs = resolve::axis_values(column.cells, resolve::x_type(x.1, column.cells));
            let all = resolve::built(spec, table, xs);
            if !all.complete && dsl::y_bound(spec.y).len() > 0 {
                lemma_incomplete_build_ends_with_an_error(spec, table, xs);
                assert((resolve::channel_warnings(spec) + all.diags).last() == all.diags.last());
            }
        }
    }
}

proof fn lemma_incomplete_build_ends_with_an_error(
    spec: SpecModel,
    table: Seq<ColumnModel>,
    xs: Seq<Option<CoordModel>>,
)
    requires
        dsl::y_bound(spec.y).len() > 0,
        !resolve::built(spec, table, xs).complete,
    ensures
        ends_with_an_error(resolve::built(spec, table, xs).diags),
{
    if dsl::y_bound(spec.y).len() > 1 || dsl::bound(spec.color) is None {
        lemma_incomplete_ends_with_an_error(table, xs, dsl::y_bound(spec.y));
    }
}

proof fn lemma_incomplete_ends_with_an_error(
    table: Seq<ColumnModel>,
    xs: Seq<Option<CoordModel>>,
    fields: Seq<(Seq<char>, Option<DataType>)>,
)
    requires
        !resolve::wide(table, xs, fields).complete,
    ensures
        ends_with_an_error(resolve::wide(table, xs, fields).diags),
    decreases fields.len(),
{
    if fields.len() > 0 && !resolve::wide(table, xs, fields.drop_last()).complete {
        lemma_incomplete_ends_with_an_error(table, xs, fields.drop_last());
    }
}

/// Whether a chart holds points and nothing else to draw.
pub open spec fn only_series(chart: ChartModel) -> bool {
    &&& !resolve::undrawable(chart.series)
    &&& chart.slices.len() == 0
    &&& chart.table is None
}

/// Whether a chart holds slices and nothing else to draw, colored in sequence from the first
/// palette color on.
pub open spec fn only_slices(chart: ChartModel) -> bool {
    &&& chart.series.len() == 0
    &&& chart.slices.len() > 0
    &&& chart.table is None
    &&& forall|k: int|
        0 <= k < chart.slices.len() ==> (#[trigger] chart.slices[k]).color_index == k
}

/// Whether a chart holds a table and nothing else to draw. The table has a column, and its rows
/// are as long as its header.
pub open spec fn only_table(chart: ChartModel) -> bool {
    &&& chart.series.len() == 0
    &&& chart.slices.len() == 0
    &&& chart.table matches Some(view) && view.headers.len() > 0 && forall|r: int|
        0 <= r < view.rows.len() ==> (#[trigger] view.rows[r]).len() == view.headers.len()
}

/// Whether a chart of a spec holds exactly what its mark draws: an arc only slices, a table only
/// its grid, and every other mark only series, with at least one point. It has the spec's mark
/// and configuration, and sizes are parallel to the points or absent.
pub open spec fn holds_its_payload(spec: SpecModel, chart: ChartModel) -> bool {
    &&& chart.mark == spec.mark
    &&& chart.config == spec.config
    &&& match spec.mark {
        Mark::Arc => only_slices(chart),
        Mark::Table => only_table(chart),
        _ => only_series(chart),
    }
    &&& forall|i: int|
        0 <= i < chart.series.len() ==> (#[trigger] chart.series[i]).sizes.len() == 0
            || chart.series[i].sizes.len() == chart.series[i].points.len()
}

/// What resolves is drawable: the chart holds exactly what its mark draws.
pub proof fn law_resolved_charts_hold_one_payload(
    spec: SpecModel,
    table: Seq<ColumnModel>,
    computed: ComputedModel,
)
    ensures
        resolve::resolved(spec, table, computed) matches Ok(chart) ==> holds_its_payload(
            spec,
            chart,
        ),
{
    match spec.mark {
        Mark::Arc => {
            if let Some(columns) = resolve::arc_columns(spec, table) {
                let cells = columns.1.cells;
                let named = resolve::slice_labels(cells, columns.0.cells, cells.len() as int);
                law_slices_are_colored_in_sequence(named, computed.sums, named.len() as int);
            }
        },
        Mark::Histogram => {
            if let Ok(chart) = resolve::histogram(spec, table, computed) {
                assert(chart.series[0].points.len() > 0);
            }
        },
        Mark::Table => {},
        _ => {
            lemma_cartesian_payload(spec, table);
        },
    }
}

#[verifier::spinoff_prover]
proof fn lemma_cartesian_payload(spec: SpecModel, table: Seq<ColumnModel>)
    requires
        registry::plots_xy(spec.mark),
    ensures
        resolve::cartesian(spec, table) matches Ok(chart) ==> holds_its_payload(spec, chart),
{
    if let Ok(chart) = resolve::cartesian(spec, table) {
        let x = dsl::bound(spec.x)->0;
        let column = data::find_column(table, x.0)->0;
        let xs = resolve::axis_values(column.cells, resolve::x_type(x.1, column.cells));
        let series = resolve::built(spec, table, xs).series;
        let i = choose|i: int| 0 <= i < series.len() && (#[trigger] series[i]).points.len() != 0;
        assert(chart.series[i].points == series[i].points);
        assert forall|k: int| 0 <= k < chart.series.len() implies (
        #[trigger] chart.series[k]).sizes.len() == 0 || chart.series[k].sizes.len()
            == chart.series[k].points.len() by {
            if k > 0 {
                assert(chart.series[k] == series[k]);
                resolve::lemma_built_without_sizes(spec, table, xs, k);
            }
        }
    }
}

/// The slices of an arc are colored in sequence from the first palette color on.
pub proof fn law_slices_are_colored_in_sequence(
    labels: Seq<Seq<char>>,
    sums: Seq<SumModel>,
    n: int,
)
    ensures
        forall|k: int|
            0 <= k < resolve::positive_slices(labels, sums, n).len() ==> (
            #[trigger] resolve::positive_slices(labels, sums, n)[k]).color_index == k,
        n >= 0 ==> resolve::positive_slices(labels, sums, n).len() <= n,
    decreases n,
{
    if n > 0 {
        law_slices_are_colored_in_sequence(labels, sums, n - 1);
    }
}

/// The place among the labels of a slice of the first `n` of them.
proof fn lemma_kept_slice(labels: Seq<Seq<char>>, sums: Seq<SumModel>, n: int, k: int) -> (j: int)
    requires
        0 <= n <= labels.len(),
        0 <= k < resolve::positive_slices(labels, sums, n).len(),
    ensures
        0 <= j < n,
        j < sums.len(),
        sums[j].sign is Positive,
        resolve::positive_slices(labels, sums, n)[k].label == labels[j],
        resolve::positive_slices(labels, sums, n)[k].value == sums[j].value,
    decreases n,
{
    let earlier = resolve::positive_slices(labels, sums, n - 1);
    if k < earlier.len() {
        lemma_kept_slice(labels, sums, n - 1, k)
    } else {
        n - 1
    }
}

/// Each slice of an arc has the label and the sum of one of its groups, and the sum is positive.
pub proof fn law_slices_have_positive_sums(
    spec: SpecModel,
    table: Seq<ColumnModel>,
    computed: ComputedModel,
    chart: ChartModel,
    k: int,
)
    requires
        spec.mark is Arc,
        resolve::resolved(spec, table, computed) == Ok::<ChartModel, Seq<DiagModel>>(chart),
        0 <= k < chart.slices.len(),
    ensures
        ({
            let (thetas, labels) = resolve::arc_columns(spec, table)->0;
            let named = resolve::slice_labels(
                labels.cells,
                thetas.cells,
                labels.cells.len() as int,
            );
            &&& resolve::owed(spec, table).groups.len() == named.len()
            &&& exists|j: int|
                0 <= j < named.len() && j < computed.sums.len() && (
                #[trigger] computed.sums[j]).sign is Positive && chart.slices[k].value
                    == computed.sums[j].value && chart.slices[k].label == named[j]
        }),
{
    let (thetas, labels) = resolve::arc_columns(spec, table)->0;
    let named = resolve::slice_labels(labels.cells, thetas.cells, labels.cells.len() as int);
    let j = lemma_kept_slice(named, computed.sums, named.len() as int, k);
    assert(computed.sums[j].sign is Positive);
}

/// How many samples the first `k` points of a histogram count.
pub open spec fn drawn_count(points: Seq<(CoordModel, CoordModel)>, k: int) -> int
    decreases k,
{
    if k <= 0 {
        0
    } else {
        drawn_count(points, k - 1) + match points[k - 1].1 {
            CoordModel::Whole(n) => n,
            _ => 0,
        }
    }
}

proof fn lemma_drawn_count(binning: BinningModel, k: int)
    requires
        0 <= k <= binning.centers.len(),
    ensures
        drawn_count(resolve::bucket_points(binning), k) == arithmetic::tally_sum(
            binning.landed,
            binning.centers.len() as int,
            k,
            binning.landed.len() as int,
        ),
    decreases k,
{
    if k > 0 {
        lemma_drawn_count(binning, k - 1);
    }
}

/// A histogram draws one series, and its counts add up to the numbers in its column: none is left
/// out, and none is counted twice.
pub proof fn law_histograms_count_every_number(
    spec: SpecModel,
    table: Seq<ColumnModel>,
    computed: ComputedModel,
    chart: ChartModel,
)
    requires
        spec.mark is Histogram,
        resolve::resolved(spec, table, computed) == Ok::<ChartModel, Seq<DiagModel>>(chart),
    ensures
        chart.series.len() == 1,
        resolve::owed(spec, table).samples is Some,
        drawn_count(chart.series[0].points, chart.series[0].points.len() as int)
            == resolve::owed(spec, table).samples->0.values.len(),
{
    let binning = computed.binning->0;
    let bins = binning.centers.len() as int;
    lemma_drawn_count(binning, bins);
    arithmetic::law_every_number_is_counted(
        binning.landed,
        bins,
        binning.landed.len() as int,
    );
}

/// A chart that no arithmetic is owed on resolves the same whatever was computed.
pub proof fn law_other_marks_need_no_arithmetic(
    spec: SpecModel,
    table: Seq<ColumnModel>,
    computed: ComputedModel,
    other: ComputedModel,
)
    requires
        !(spec.mark is Arc),
        !(spec.mark is Histogram),
    ensures
        resolve::resolved(spec, table, computed) == resolve::resolved(spec, table, other),
{
}

/// The labels of an arc's slices are distinct.
pub proof fn law_slice_labels_are_distinct(
    labels: Seq<Seq<char>>,
    thetas: Seq<Seq<char>>,
    n: int,
)
    ensures
        resolve::slice_labels(labels, thetas, n).no_duplicates(),
    decreases n,
{
    if n > 0 {
        law_slice_labels_are_distinct(labels, thetas, n - 1);
        text::lemma_index_of(resolve::slice_labels(labels, thetas, n - 1), labels[n - 1]);
    }
}

// --- Warnings ---------------------------------------------------------------------

/// The channels, in order, by name.
pub open spec fn channel_names() -> Seq<Seq<char>> {
    seq!["x"@, "y"@, "color"@, "size"@, "theta"@]
}

/// Whether each channel is bound although the mark does not accept it.
pub open spec fn ignored_channels(spec: SpecModel) -> spec_fn(int) -> bool {
    let ch = registry::mark_channels(spec.mark);
    |i: int|
        {
            ||| i == 0 && spec.x is Some && !ch.x
            ||| i == 1 && spec.y is Some && !ch.y
            ||| i == 2 && spec.color is Some && !ch.color
            ||| i == 3 && spec.size is Some && !ch.size
            ||| i == 4 && spec.theta is Some && !ch.theta
        }
}

/// There is one warning for each channel that is bound although the mark does not accept it, in
/// channel order, and no other: it names the channel and the mark.
pub proof fn law_ignored_channels_are_warned_of(spec: SpecModel) -> (which: Seq<int>)
    ensures
        row_laws::picks(which, 5, ignored_channels(spec)),
        resolve::channel_warnings(spec).len() == which.len(),
        forall|k: int|
            0 <= k < which.len() ==> #[trigger] resolve::channel_warnings(spec)[k] == (DiagModel {
                severity: Severity::Warning,
                message: "channel `"@ + channel_names()[which[k]] + "` is ignored by mark `"@
                    + spec.mark.spec_name() + "`"@,
            }),
{
    let test = ignored_channels(spec);
    let ch = registry::mark_channels(spec.mark);
    let one = |bound: bool, allowed: bool, i: int|
        resolve::channel_warning(bound, allowed, channel_names()[i], spec.mark);
    row_laws::lemma_picks_none(0, test);
    let none = Seq::<int>::empty();
    let w0 = Seq::<DiagModel>::empty();
    let x = lemma_one_more_warning(spec, none, w0, 0, one(spec.x is Some, ch.x, 0));
    let w1 = one(spec.x is Some, ch.x, 0);
    assert(w0 + w1 =~= w1);
    let y = lemma_one_more_warning(spec, x, w1, 1, one(spec.y is Some, ch.y, 1));
    let w2 = w1 + one(spec.y is Some, ch.y, 1);
    let c = lemma_one_more_warning(spec, y, w2, 2, one(spec.color is Some, ch.color, 2));
    let w3 = w2 + one(spec.color is Some, ch.color, 2);
    let s = lemma_one_more_warning(spec, c, w3, 3, one(spec.size is Some, ch.size, 3));
    let w4 = w3 + one(spec.size is Some, ch.size, 3);
    let t = lemma_one_more_warning(spec, s, w4, 4, one(spec.theta is Some, ch.theta, 4));
    assert(resolve::channel_warnings(spec) == w4 + one(spec.theta is Some, ch.theta, 4));
    t
}

/// Whether warnings are those about the given channels.
spec fn warn_of(warnings: Seq<DiagModel>, which: Seq<int>, mark: Mark) -> bool {
    &&& warnings.len() == which.len()
    &&& forall|k: int|
        0 <= k < which.len() ==> #[trigger] warnings[k] == (DiagModel {
            severity: Severity::Warning,
            message: "channel `"@ + channel_names()[which[k]] + "` is ignored by mark `"@
                + mark.spec_name() + "`"@,
        })
}

proof fn lemma_one_more_warning(
    spec: SpecModel,
    which: Seq<int>,
    warnings: Seq<DiagModel>,
    i: int,
    more: Seq<DiagModel>,
) -> (all: Seq<int>)
    requires
        0 <= i < 5,
        row_laws::picks(which, i, ignored_channels(spec)),
        warn_of(warnings, which, spec.mark),
        more == (if ignored_channels(spec)(i) {
            seq![
                DiagModel {
                    severity: Severity::Warning,
                    message: "channel `"@ + channel_names()[i] + "` is ignored by mark `"@
                        + spec.mark.spec_name() + "`"@,
                },
            ]
        } else {
            seq![]
        }),
    ensures
        row_laws::picks(all, i + 1, ignored_channels(spec)),
        warn_of(warnings + more, all, spec.mark),
{
    let test = ignored_channels(spec);
    row_laws::lemma_picks_next(which, i, test);
    if test(i) {
        which.push(i)
    } else {
        assert(warnings + more =~= warnings);
        which
    }
}

/// Whether each sign is one that a scale cannot map: a logarithm takes only what is above zero, a
/// square root only what is not below it, and a linear scale takes everything.
pub open spec fn unmapped(kind: ScaleKind, signs: Seq<Sign>) -> spec_fn(int) -> bool {
    |i: int|
        {
            ||| kind == ScaleKind::Log && signs[i] != Sign::Positive
            ||| kind == ScaleKind::Sqrt && signs[i] != Sign::Positive && signs[i] != Sign::Zero
        }
}

/// A scale drops exactly the points whose coordinate it cannot map.
pub proof fn law_scales_drop_what_they_cannot_map(kind: ScaleKind, signs: Seq<Sign>, n: int) -> (
which: Seq<int>)
    requires
        0 <= n <= signs.len(),
    ensures
        row_laws::picks(which, n, unmapped(kind, signs)),
        resolve::rejected(kind, signs, n) == which.len(),
    decreases n,
{
    let test = unmapped(kind, signs);
    if n > 0 {
        let which = law_scales_drop_what_they_cannot_map(kind, signs, n - 1);
        row_laws::lemma_picks_next(which, n - 1, test);
        if test(n - 1) {
            which.push(n - 1)
        } else {
            which
        }
    } else {
        row_laws::lemma_picks_none(n, test);
        seq![]
    }
}

/// Dropped points are warned of once per axis, with their number; an axis that drops none is not.
pub proof fn law_dropped_points_are_warned_of(axis: Seq<char>, drops: nat)
    ensures
        drops == 0 ==> resolve::scale_warning(axis, drops as int).len() == 0,
        drops > 0 ==> resolve::scale_warning(axis, drops as int) == seq![
            DiagModel {
                severity: Severity::Warning,
                message: axis + " scale drops "@ + text::decimal(drops)
                    + " non-positive point(s) the transform cannot map"@,
            },
        ],
{
}

// --- Failures ---------------------------------------------------------------------

/// Whether a resolution failed with the given error, behind the warnings about the channels.
pub open spec fn fails_with(
    spec: SpecModel,
    drawn: Result<ChartModel, Seq<DiagModel>>,
    message: Seq<char>,
) -> bool {
    &&& drawn matches Err(diags)
    &&& resolve::channel_warnings(spec).is_prefix_of(diags)
    &&& diags.len() > resolve::channel_warnings(spec).len()
    &&& diags.last() == (DiagModel { severity: Severity::Error, message })
}

/// The error about a column that is not there.
pub open spec fn not_found(role: Seq<char>, name: Seq<char>) -> Seq<char> {
    role + " column `"@ + name + "` not found in data"@
}

/// The first y field without a column is the one that is reported.
proof fn lemma_first_missing_y(
    table: Seq<ColumnModel>,
    xs: Seq<Option<CoordModel>>,
    fields: Seq<(Seq<char>, Option<DataType>)>,
    j: int,
)
    requires
        0 <= j < fields.len(),
        data::find_column(table, fields[j].0) is None,
        forall|k: int|
            0 <= k < j ==> data::find_column(table, (#[trigger] fields[k]).0) is Some,
    ensures
        !resolve::wide(table, xs, fields).complete,
        resolve::wide(table, xs, fields).diags.len() > 0,
        resolve::wide(table, xs, fields).diags.last() == (DiagModel {
            severity: Severity::Error,
            message: not_found("y"@, fields[j].0),
        }),
    decreases fields.len(),
{
    let front = fields.drop_last();
    if j < front.len() {
        assert(front[j] == fields[j]);
        assert forall|k: int| 0 <= k < j implies data::find_column(
            table,
            (#[trigger] front[k]).0,
        ) is Some by {
            assert(front[k] == fields[k]);
        }
        lemma_first_missing_y(table, xs, front, j);
    } else {
        row_laws::lemma_wide_series(table, xs, front);
        assert forall|k: int| 0 <= k < front.len() implies data::find_column(
            table,
            (#[trigger] front[k]).0,
        ) is Some by {
            assert(front[k] == fields[k]);
        }
    }
}

/// A report behind warnings ends with the report's last line, and starts with the warnings.
proof fn lemma_report_behind(warnings: Seq<DiagModel>, more: Seq<DiagModel>)
    requires
        more.len() > 0,
    ensures
        warnings.is_prefix_of(warnings + more),
        (warnings + more).last() == more.last(),
        (warnings + more).len() > warnings.len(),
{
    assert((warnings + more).take(warnings.len() as int) =~= warnings);
}

/// A cartesian chart that does not resolve says what is missing: the x channel, its column, the y
/// channel, the first y column that is not there, the color column that splits a single y field,
/// or a row to draw.
#[verifier::spinoff_prover]
pub proof fn law_cartesian_failures_say_what_is_missing(
    spec: SpecModel,
    table: Seq<ColumnModel>,
    computed: ComputedModel,
    j: int,
)
    requires
        registry::plots_xy(spec.mark),
    ensures
        ({
            let drawn = resolve::resolved(spec, table, computed);
            let fields = dsl::y_bound(spec.y);
            let x = row_laws::name_of(spec.x);
            let color = row_laws::name_of(spec.color);
            if spec.x is None {
                fails_with(spec, drawn, "chart spec has no `x` channel"@)
            } else if data::find_column(table, x) is None {
                fails_with(spec, drawn, not_found("x"@, x))
            } else if fields.len() == 0 {
                fails_with(spec, drawn, "chart spec has no `y` channel"@)
            } else {
                &&& 0 <= j < fields.len() && data::find_column(table, fields[j].0) is None && (
                forall|k: int|
                    0 <= k < j ==> data::find_column(table, (#[trigger] fields[k]).0) is Some)
                    ==> fails_with(spec, drawn, not_found("y"@, fields[j].0))
                &&& !row_laws::is_wide(spec) && data::find_column(table, fields[0].0) is Some
                    && data::find_column(table, color) is None ==> fails_with(
                    spec,
                    drawn,
                    not_found("color"@, color),
                )
                &&& (forall|k: int|
                    0 <= k < fields.len() ==> data::find_column(table, (#[trigger] fields[k]).0)
                        is Some) && (row_laws::is_wide(spec) || data::find_column(table, color)
                    is Some) && !row_laws::has_what_it_draws(spec, table) ==> fails_with(
                    spec,
                    drawn,
                    "no drawable points after coercion"@,
                )
            }
        }),
{
    let warnings = resolve::channel_warnings(spec);
    let fields = dsl::y_bound(spec.y);
    let one = |m: Seq<char>| DiagModel { severity: Severity::Error, message: m };
    assert forall|d: DiagModel| warnings.is_prefix_of(#[trigger] warnings.push(d)) by {
        assert(warnings.push(d).take(warnings.len() as int) =~= warnings);
    }
    if spec.x is Some && data::find_column(table, row_laws::name_of(spec.x)) is Some
        && fields.len() > 0 {
        let xs = resolve::axis_values(
            row_laws::x_cells(spec, table),
            row_laws::type_of_x(spec, table),
        );
        let all = resolve::built(spec, table, xs);
        row_laws::lemma_wide_series(table, xs, fields);
        row_laws::law_charts_resolve_when_they_have_what_they_draw(spec, table, computed);
        let nothing = (warnings + all.diags).push(one("no drawable points after coercion"@));
        assert(nothing.take(warnings.len() as int) =~= warnings);
        if 0 <= j < fields.len() && data::find_column(table, fields[j].0) is None && (forall|
            k: int,
        |
            0 <= k < j ==> data::find_column(table, (#[trigger] fields[k]).0) is Some) {
            if row_laws::is_wide(spec) {
                lemma_first_missing_y(table, xs, fields, j);
            }
            lemma_report_behind(warnings, all.diags);
        }
        if !all.complete && all.diags.len() > 0 {
            lemma_report_behind(warnings, all.diags);
        }
    }
}

/// A histogram that does not resolve says what is missing: the x channel, its column, or numbers
/// that were sorted.
pub proof fn law_histogram_failures_say_what_is_missing(
    spec: SpecModel,
    table: Seq<ColumnModel>,
    computed: ComputedModel,
)
    requires
        spec.mark is Histogram,
    ensures
        ({
            let drawn = resolve::resolved(spec, table, computed);
            let x = row_laws::name_of(spec.x);
            if spec.x is None {
                fails_with(spec, drawn, "histogram spec has no `x` channel to bin"@)
            } else if data::find_column(table, x) is None {
                fails_with(spec, drawn, not_found("x"@, x))
            } else {
                drawn is Err ==> fails_with(
                    spec,
                    drawn,
                    "histogram has no numeric values to bin"@,
                )
            }
        }),
{
    let warnings = resolve::channel_warnings(spec);
    assert forall|d: DiagModel| warnings.is_prefix_of(#[trigger] warnings.push(d)) by {
        assert(warnings.push(d).take(warnings.len() as int) =~= warnings);
    }
}

/// An arc that does not resolve says what is missing: the theta or the color channel, the column of
/// either, or a group with a positive sum.
pub proof fn law_arc_failures_say_what_is_missing(
    spec: SpecModel,
    table: Seq<ColumnModel>,
    computed: ComputedModel,
)
    requires
        spec.mark is Arc,
    ensures
        ({
            let drawn = resolve::resolved(spec, table, computed);
            let theta = row_laws::name_of(spec.theta);
            let color = row_laws::name_of(spec.color);
            if spec.theta is None {
                fails_with(spec, drawn, "arc spec has no `theta` channel"@)
            } else if spec.color is None {
                fails_with(spec, drawn, "arc spec has no `color` channel to group slices"@)
            } else if data::find_column(table, theta) is None {
                fails_with(spec, drawn, not_found("theta"@, theta))
            } else if data::find_column(table, color) is None {
                fails_with(spec, drawn, not_found("color"@, color))
            } else {
                drawn is Err ==> fails_with(
                    spec,
                    drawn,
                    "arc has no positive slices after aggregation"@,
                )
            }
        }),
{
    let warnings = resolve::channel_warnings(spec);
    assert forall|d: DiagModel| warnings.is_prefix_of(#[trigger] warnings.push(d)) by {
        assert(warnings.push(d).take(warnings.len() as int) =~= warnings);
    }
}

/// A table that does not resolve says that it has no columns.
pub proof fn law_table_failures_say_what_is_missing(
    spec: SpecModel,
    table: Seq<ColumnModel>,
    computed: ComputedModel,
)
    requires
        spec.mark is Table,
    ensures
        resolve::resolved(spec, table, computed) is Err ==> fails_with(
            spec,
            resolve::resolved(spec, table, computed),
            "table has no columns to show"@,
        ),
{
    if let Err(diags) = resolve::resolved(spec, table, computed) {
        let warnings = resolve::channel_warnings(spec);
        assert(diags.take(warnings.len() as int) =~= warnings);
    }
}

/// Arcs and tables are drawn without axes: theirs have no title, and map nothing.
pub proof fn law_arcs_and_tables_have_no_axes(
    spec: SpecModel,
    table: Seq<ColumnModel>,
    computed: ComputedModel,
    chart: ChartModel,
)
    requires
        spec.mark is Arc || spec.mark is Table,
        resolve::resolved(spec, table, computed) == Ok::<ChartModel, Seq<DiagModel>>(chart),
    ensures
        chart.x_axis == chart.y_axis,
        chart.x_axis.title.len() == 0,
        chart.x_axis.kind is Quantitative,
        chart.x_axis.scale == (ScaleModel {
            kind: ScaleKind::Linear,
            domain: None,
            zero: false,
        }),
{
}

} // verus!
