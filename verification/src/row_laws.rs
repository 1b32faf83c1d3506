//! Which rows of a table a chart draws, and where: laws that tie what is drawn to the cells it is
//! drawn from.
//!
//! What a chart takes from a table it takes row by row. The laws say of each part of a chart which
//! rows it comes from, by their numbers, and what each row contributes.

use crate::arithmetic::ComputedModel;
use crate::backend::AxisKindModel;
use crate::backend::ChartModel;
use crate::backend::CoordModel;
use crate::backend::SeriesModel;
use crate::data;
use crate::data::ColumnModel;
use crate::diag::DiagModel;
use crate::diag::Severity;
use crate::dsl;
use crate::dsl::DataType;
use crate::dsl::FieldModel;
use crate::dsl::ScaleKind;
use crate::dsl::ScaleModel;
use crate::dsl::SpecModel;
use crate::registry;
use crate::resolve;
use crate::text;
use crate::typing;
use vstd::prelude::*;

verus! {

// --- Picking rows -----------------------------------------------------------------

/// Whether `rows` are the numbers of exactly those of the first `n` rows that pass a test, in
/// order, each once.
pub open spec fn picks(rows: Seq<int>, n: int, test: spec_fn(int) -> bool) -> bool {
    &&& forall|k: int| 0 <= k < rows.len() ==> 0 <= #[trigger] rows[k] < n && test(rows[k])
    &&& forall|k: int, l: int| 0 <= k < l < rows.len() ==> #[trigger] rows[k] < #[trigger] rows[l]
    &&& forall|i: int| 0 <= i < n && #[trigger] test(i) ==> rows.contains(i)
}

/// Of no rows, none is picked.
pub proof fn lemma_picks_none(n: int, test: spec_fn(int) -> bool)
    requires
        n <= 0,
    ensures
        picks(seq![], n, test),
{
}

/// One more row is picked exactly where it passes the test.
pub proof fn lemma_picks_next(rows: Seq<int>, n: int, test: spec_fn(int) -> bool)
    requires
        0 <= n,
        picks(rows, n, test),
    ensures
        picks(
            if test(n) {
                rows.push(n)
            } else {
                rows
            },
            n + 1,
            test,
        ),
{
    if test(n) {
        let more = rows.push(n);
        assert forall|i: int| 0 <= i < n + 1 && #[trigger] test(i) implies more.contains(i) by {
            if i < n {
                assert(rows.contains(i));
                let k = choose|k: int| 0 <= k < rows.len() && rows[k] == i;
                assert(more[k] == i);
            } else {
                assert(more[rows.len() as int] == i);
            }
        }
    }
}

/// The rows that pass a test are determined by it.
pub proof fn law_picked_rows_are_unique(
    a: Seq<int>,
    b: Seq<int>,
    n: int,
    test: spec_fn(int) -> bool,
)
    requires
        picks(a, n, test),
        picks(b, n, test),
    ensures
        a == b,
    decreases n,
{
    if n <= 0 {
        assert(a.len() == 0) by {
            if a.len() > 0 {
                assert(0 <= a[0] < n);
            }
        }
        assert(b.len() == 0) by {
            if b.len() > 0 {
                assert(0 <= b[0] < n);
            }
        }
        assert(a =~= b);
    } else {
        let (c, d) = (lemma_picks_fewer(a, n, test), lemma_picks_fewer(b, n, test));
        law_picked_rows_are_unique(c, d, n - 1, test);
    }
}

/// Without the last row, the others are still picked.
proof fn lemma_picks_fewer(a: Seq<int>, n: int, test: spec_fn(int) -> bool) -> (c: Seq<int>)
    requires
        0 < n,
        picks(a, n, test),
    ensures
        picks(c, n - 1, test),
        a == (if test(n - 1) {
            c.push(n - 1)
        } else {
            c
        }),
{
    if test(n - 1) {
        assert(a.contains(n - 1));
        let k = choose|k: int| 0 <= k < a.len() && a[k] == n - 1;
        if k < a.len() - 1 {
            assert(a[k] < a[a.len() - 1]);
        }
        let c = a.drop_last();
        assert forall|i: int| 0 <= i < n - 1 && #[trigger] test(i) implies c.contains(i) by {
            assert(a.contains(i));
            let l = choose|l: int| 0 <= l < a.len() && a[l] == i;
            assert(c[l] == i);
        }
        assert(a =~= c.push(n - 1));
        c
    } else {
        assert forall|k: int| 0 <= k < a.len() implies #[trigger] a[k] < n - 1 by {
            assert(test(a[k]));
        }
        a
    }
}

/// Whether names are the keys of those of the first `n` rows that pass a test, each once, in the
/// order in which they are first seen: the `k`-th is first seen in row `firsts[k]`.
pub open spec fn first_seen(
    names: Seq<Seq<char>>,
    firsts: Seq<int>,
    n: int,
    test: spec_fn(int) -> bool,
    key: spec_fn(int) -> Seq<char>,
) -> bool {
    &&& firsts.len() == names.len()
    &&& forall|k: int|
        0 <= k < firsts.len() ==> 0 <= #[trigger] firsts[k] < n && test(firsts[k]) && key(
            firsts[k],
        ) == names[k]
    &&& forall|k: int, l: int|
        0 <= k < l < firsts.len() ==> #[trigger] firsts[k] < #[trigger] firsts[l]
    &&& forall|k: int, i: int|
        0 <= k < firsts.len() && 0 <= i < firsts[k] && test(i) ==> #[trigger] key(i)
            != #[trigger] names[k]
    &&& forall|i: int| 0 <= i < n && #[trigger] test(i) ==> names.contains(key(i))
}

/// One more row adds its key, where it passes the test and the key is new.
pub proof fn lemma_first_seen_next(
    names: Seq<Seq<char>>,
    firsts: Seq<int>,
    n: int,
    test: spec_fn(int) -> bool,
    key: spec_fn(int) -> Seq<char>,
) -> (more: Seq<int>)
    requires
        0 <= n,
        first_seen(names, firsts, n, test, key),
    ensures
        first_seen(
            if test(n) && text::index_of(names, key(n)) is None {
                names.push(key(n))
            } else {
                names
            },
            more,
            n + 1,
            test,
            key,
        ),
{
    text::lemma_index_of(names, key(n));
    if test(n) && text::index_of(names, key(n)) is None {
        let all = names.push(key(n));
        let more = firsts.push(n);
        assert forall|i: int| 0 <= i < n + 1 && #[trigger] test(i) implies all.contains(key(i)) by {
            if i < n {
                let k = choose|k: int| 0 <= k < names.len() && names[k] == key(i);
                assert(all[k] == key(i));
            } else {
                assert(all[names.len() as int] == key(n));
            }
        }
        assert forall|k: int, i: int|
            0 <= k < more.len() && 0 <= i < more[k] && test(i) implies #[trigger] key(i)
            != #[trigger] all[k] by {
            if k < names.len() {
                assert(all[k] == names[k] && more[k] == firsts[k]);
            } else {
                assert(names.contains(key(i)));
            }
        }
        more
    } else {
        if test(n) {
            let k = text::index_of(names, key(n))->0;
            assert(names[k] == key(n));
        }
        firsts
    }
}

// --- Numbers and coordinates ------------------------------------------------------

/// A cell gives a number exactly where it holds one: the number it holds.
pub proof fn lemma_number_of(cell: Seq<char>)
    ensures
        resolve::number_of(cell) == (if typing::holds_number(cell) {
            Some(text::trimmed(cell))
        } else {
            None
        }),
{
    typing::law_cells_read_as_what_they_say(cell, DataType::Quantitative);
}

/// Whether a cell has a place on an axis of the given type: it holds a number, a date, or
/// anything at all.
pub open spec fn has_place(ty: DataType, cell: Seq<char>) -> bool {
    match ty {
        DataType::Quantitative => typing::holds_number(cell),
        DataType::Temporal => typing::holds_date(cell),
        DataType::Ordinal | DataType::Nominal => text::trimmed(cell).len() > 0,
    }
}

/// Whether a coordinate is where a cell stands on an axis: at the number the cell holds, at the
/// epoch seconds the cell denotes, or at the place of the cell's text among the axis's labels.
pub open spec fn stands_at(kind: AxisKindModel, cell: Seq<char>, at: CoordModel) -> bool {
    match kind {
        AxisKindModel::Quantitative => at == CoordModel::Number(text::trimmed(cell)),
        AxisKindModel::Temporal => at matches CoordModel::Time(t) && typing::date_of(
            text::trimmed(cell),
        ) == Some(t),
        AxisKindModel::Categorical(labels) => at matches CoordModel::Whole(k) && 0 <= k
            < labels.len() && labels[k] == text::trimmed(cell),
    }
}

/// Whether an axis is of the kind of a type.
pub open spec fn is_kind_of(kind: AxisKindModel, ty: DataType) -> bool {
    match kind {
        AxisKindModel::Quantitative => ty is Quantitative,
        AxisKindModel::Temporal => ty is Temporal,
        AxisKindModel::Categorical(_) => ty is Ordinal || ty is Nominal,
    }
}

/// Every cell that has a place on an axis has a coordinate there, and stands where its
/// coordinate says; no other cell has one.
pub proof fn law_coordinates_are_where_cells_stand(cells: Seq<Seq<char>>, ty: DataType, i: int)
    requires
        0 <= i < cells.len(),
    ensures
        is_kind_of(resolve::axis_kind(cells, ty), ty),
        match resolve::axis_value(cells, ty, i) {
            Some(at) => has_place(ty, cells[i]) && stands_at(
                resolve::axis_kind(cells, ty),
                cells[i],
                at,
            ),
            None => !has_place(ty, cells[i]),
        },
{
    typing::law_cells_read_as_what_they_say(cells[i], ty);
    if (ty is Ordinal || ty is Nominal) && has_place(ty, cells[i]) {
        crate::laws::law_category_index_names_the_cell(cells, ty, i);
    }
}

/// Two cells that denote different instants stand at different places on a time axis, as far
/// apart as the instants are.
pub proof fn law_different_instants_stand_apart(
    cells: Seq<Seq<char>>,
    i: int,
    j: int,
    t: int,
    u: int,
)
    requires
        0 <= i < cells.len(),
        0 <= j < cells.len(),
        typing::date_of(text::trimmed(cells[i])) == Some(t),
        typing::date_of(text::trimmed(cells[j])) == Some(u),
    ensures
        resolve::axis_value(cells, DataType::Temporal, i) matches Some(CoordModel::Time(a))
            && resolve::axis_value(cells, DataType::Temporal, j) matches Some(CoordModel::Time(b))
            && a - b == t - u,
{
    law_coordinates_are_where_cells_stand(cells, DataType::Temporal, i);
    law_coordinates_are_where_cells_stand(cells, DataType::Temporal, j);
}

/// Whether each of the cells has something in it.
pub open spec fn filled_cells(cells: Seq<Seq<char>>) -> spec_fn(int) -> bool {
    |i: int| text::trimmed(cells[i]).len() > 0
}

/// The trimmed texts of cells.
pub open spec fn trimmed_cells(cells: Seq<Seq<char>>) -> spec_fn(int) -> Seq<char> {
    |i: int| text::trimmed(cells[i])
}

/// The labels of a categorical axis are the texts of its filled cells, each once, in the order in
/// which they are first seen.
pub proof fn law_labels_are_in_first_seen_order(cells: Seq<Seq<char>>, n: int) -> (firsts: Seq<int>)
    requires
        0 <= n <= cells.len(),
    ensures
        first_seen(
            resolve::categories(cells, n),
            firsts,
            n,
            filled_cells(cells),
            trimmed_cells(cells),
        ),
    decreases n,
{
    let (test, key) = (filled_cells(cells), trimmed_cells(cells));
    if n > 0 {
        let firsts = law_labels_are_in_first_seen_order(cells, n - 1);
        typing::law_cells_read_as_what_they_say(cells[n - 1], DataType::Nominal);
        lemma_first_seen_next(resolve::categories(cells, n - 1), firsts, n - 1, test, key)
    } else {
        seq![]
    }
}

// --- Points -----------------------------------------------------------------------

/// Whether each row has an x coordinate and a number to draw at it.
pub open spec fn has_both(xs: Seq<Option<CoordModel>>, ys: Seq<Seq<char>>) -> spec_fn(int) -> bool {
    |i: int| xs[i] is Some && typing::holds_number(data::cell_at(ys, i))
}

/// Whether each row has both, and the given key.
pub open spec fn has_both_and_key(
    xs: Seq<Option<CoordModel>>,
    ys: Seq<Seq<char>>,
    keys: Seq<Seq<char>>,
    key: Seq<char>,
) -> spec_fn(int) -> bool {
    |i: int|
        xs[i] is Some && typing::holds_number(data::cell_at(ys, i)) && data::cell_at(keys, i) == key
}

/// Whether each row has no point.
pub open spec fn lacks_one(xs: Seq<Option<CoordModel>>, ys: Seq<Seq<char>>) -> spec_fn(int) -> bool {
    |i: int| !(xs[i] is Some && typing::holds_number(data::cell_at(ys, i)))
}

/// The point of a row that has both: its coordinate, and the number its y cell holds.
pub open spec fn point_of(xs: Seq<Option<CoordModel>>, ys: Seq<Seq<char>>, i: int) -> (
    CoordModel,
    CoordModel,
) {
    (xs[i]->0, CoordModel::Number(text::trimmed(data::cell_at(ys, i))))
}

proof fn lemma_point_at(xs: Seq<Option<CoordModel>>, ys: Seq<Seq<char>>, i: int)
    ensures
        resolve::point_at(xs, ys, i) == (if xs[i] is Some && typing::holds_number(
            data::cell_at(ys, i),
        ) {
            Some(point_of(xs, ys, i))
        } else {
            None
        }),
{
    lemma_number_of(data::cell_at(ys, i));
}

/// The points of a series are those of exactly the rows that have both an x and a number, in row
/// order, each with its own row's x and number.
pub proof fn law_points_are_those_of_the_rows(
    xs: Seq<Option<CoordModel>>,
    ys: Seq<Seq<char>>,
    n: int,
) -> (rows: Seq<int>)
    requires
        0 <= n,
    ensures
        picks(rows, n, has_both(xs, ys)),
        resolve::points(xs, ys, n).len() == rows.len(),
        forall|k: int|
            0 <= k < rows.len() ==> #[trigger] resolve::points(xs, ys, n)[k] == point_of(
                xs,
                ys,
                rows[k],
            ),
    decreases n,
{
    if n > 0 {
        let rows = law_points_are_those_of_the_rows(xs, ys, n - 1);
        lemma_point_at(xs, ys, n - 1);
        lemma_picks_next(rows, n - 1, has_both(xs, ys));
        if has_both(xs, ys)(n - 1) {
            rows.push(n - 1)
        } else {
            rows
        }
    } else {
        lemma_picks_none(n, has_both(xs, ys));
        seq![]
    }
}

/// The points of a group are those of exactly the rows with its key that have both an x and a
/// number, in row order, each with its own row's x and number.
pub proof fn law_group_points_are_those_of_its_rows(
    xs: Seq<Option<CoordModel>>,
    ys: Seq<Seq<char>>,
    keys: Seq<Seq<char>>,
    key: Seq<char>,
    n: int,
) -> (rows: Seq<int>)
    requires
        0 <= n,
    ensures
        picks(rows, n, has_both_and_key(xs, ys, keys, key)),
        resolve::group_points(xs, ys, keys, key, n).len() == rows.len(),
        forall|k: int|
            0 <= k < rows.len() ==> #[trigger] resolve::group_points(xs, ys, keys, key, n)[k]
                == point_of(xs, ys, rows[k]),
    decreases n,
{
    let test = has_both_and_key(xs, ys, keys, key);
    if n > 0 {
        let rows = law_group_points_are_those_of_its_rows(xs, ys, keys, key, n - 1);
        lemma_point_at(xs, ys, n - 1);
        lemma_picks_next(rows, n - 1, test);
        if test(n - 1) {
            rows.push(n - 1)
        } else {
            rows
        }
    } else {
        lemma_picks_none(n, test);
        seq![]
    }
}

/// The keys of rows.
pub open spec fn keys_of(keys: Seq<Seq<char>>) -> spec_fn(int) -> Seq<char> {
    |i: int| data::cell_at(keys, i)
}

/// The groups are named after the keys of the rows that are drawn, each once, in the order in
/// which they are first seen.
pub proof fn law_groups_are_in_first_seen_order(
    xs: Seq<Option<CoordModel>>,
    ys: Seq<Seq<char>>,
    keys: Seq<Seq<char>>,
    n: int,
) -> (firsts: Seq<int>)
    requires
        0 <= n,
    ensures
        first_seen(
            resolve::group_names(xs, ys, keys, n),
            firsts,
            n,
            has_both(xs, ys),
            keys_of(keys),
        ),
    decreases n,
{
    if n > 0 {
        let firsts = law_groups_are_in_first_seen_order(xs, ys, keys, n - 1);
        lemma_point_at(xs, ys, n - 1);
        lemma_first_seen_next(
            resolve::group_names(xs, ys, keys, n - 1),
            firsts,
            n - 1,
            has_both(xs, ys),
            keys_of(keys),
        )
    } else {
        seq![]
    }
}

/// The rows of a series that have no point are reported, each by its number, in row order.
pub proof fn law_dropped_rows_are_reported_by_number(
    xs: Seq<Option<CoordModel>>,
    ys: Seq<Seq<char>>,
    field: Seq<char>,
    n: int,
) -> (rows: Seq<int>)
    requires
        0 <= n,
    ensures
        picks(rows, n, lacks_one(xs, ys)),
        resolve::series_drops(xs, ys, field, n).len() == rows.len(),
        resolve::row_drops(xs, ys, n).len() == rows.len(),
        forall|k: int|
            0 <= k < rows.len() ==> (#[trigger] resolve::series_drops(xs, ys, field, n)[k])
                == (DiagModel {
                severity: Severity::Warning,
                message: "dropped row "@ + text::decimal(rows[k] as nat) + " for series `"@ + field
                    + "`: missing x or y"@,
            }),
        forall|k: int|
            0 <= k < rows.len() ==> (#[trigger] resolve::row_drops(xs, ys, n)[k]) == (DiagModel {
                severity: Severity::Warning,
                message: "dropped row "@ + text::decimal(rows[k] as nat) + ": missing x or y"@,
            }),
    decreases n,
{
    let test = lacks_one(xs, ys);
    if n > 0 {
        let rows = law_dropped_rows_are_reported_by_number(xs, ys, field, n - 1);
        lemma_point_at(xs, ys, n - 1);
        lemma_picks_next(rows, n - 1, test);
        if test(n - 1) {
            rows.push(n - 1)
        } else {
            rows
        }
    } else {
        lemma_picks_none(n, test);
        seq![]
    }
}

/// A size for each row that has a point, in row order: the number that the row's size cell holds,
/// or zero.
pub proof fn law_sizes_are_those_of_the_rows(
    xs: Seq<Option<CoordModel>>,
    ys: Seq<Seq<char>>,
    sizes: Seq<Seq<char>>,
    n: int,
) -> (rows: Seq<int>)
    requires
        0 <= n,
    ensures
        picks(rows, n, has_both(xs, ys)),
        resolve::row_sizes(xs, ys, sizes, n).len() == rows.len(),
        forall|k: int|
            0 <= k < rows.len() ==> #[trigger] resolve::row_sizes(xs, ys, sizes, n)[k] == size_in(
                data::cell_at(sizes, rows[k]),
            ),
    decreases n,
{
    let test = has_both(xs, ys);
    if n > 0 {
        let rows = law_sizes_are_those_of_the_rows(xs, ys, sizes, n - 1);
        lemma_point_at(xs, ys, n - 1);
        lemma_number_of(data::cell_at(sizes, n - 1));
        assert(text::decimal(0) =~= seq!['0']);
        lemma_picks_next(rows, n - 1, test);
        if test(n - 1) {
            rows.push(n - 1)
        } else {
            rows
        }
    } else {
        lemma_picks_none(n, test);
        seq![]
    }
}

/// The size a cell gives a point: the number it holds, or zero.
pub open spec fn size_in(cell: Seq<char>) -> Seq<char> {
    if typing::holds_number(cell) {
        text::trimmed(cell)
    } else {
        seq!['0']
    }
}

// --- Cartesian charts -------------------------------------------------------------

/// Whether each row of an x and a y column is drawn on an x axis of the given type.
pub open spec fn drawn_rows(ty: DataType, x: Seq<Seq<char>>, y: Seq<Seq<char>>) -> spec_fn(
    int,
) -> bool {
    |i: int| has_place(ty, x[i]) && typing::holds_number(data::cell_at(y, i))
}

/// Whether each row is drawn and has the given key.
pub open spec fn drawn_rows_with_key(
    ty: DataType,
    x: Seq<Seq<char>>,
    y: Seq<Seq<char>>,
    keys: Seq<Seq<char>>,
    key: Seq<char>,
) -> spec_fn(int) -> bool {
    |i: int|
        has_place(ty, x[i]) && typing::holds_number(data::cell_at(y, i)) && data::cell_at(keys, i)
            == key
}

/// Whether points are those of the given rows of an x and a y column: each stands where its row's
/// x cell does, and is as high as the number in its row's y cell.
pub open spec fn are_points_of(
    points: Seq<(CoordModel, CoordModel)>,
    rows: Seq<int>,
    kind: AxisKindModel,
    x: Seq<Seq<char>>,
    y: Seq<Seq<char>>,
) -> bool {
    &&& points.len() == rows.len()
    &&& forall|k: int|
        0 <= k < rows.len() ==> stands_at(kind, x[rows[k]], (#[trigger] points[k]).0)
            && points[k].1 == CoordModel::Number(text::trimmed(data::cell_at(y, rows[k])))
}

/// The type of the x axis: the one declared, or else the one inferred from the column's cells.
pub open spec fn type_of_x(spec: SpecModel, table: Seq<ColumnModel>) -> DataType {
    match spec.x {
        Some(FieldModel::Full(_, Some(ty))) => ty,
        _ => typing::inferred(x_cells(spec, table)),
    }
}

/// The name of the field that a channel is bound to, in either form of a binding.
pub open spec fn name_of(binding: Option<FieldModel>) -> Seq<char> {
    match binding {
        Some(FieldModel::Shorthand(name)) => name,
        Some(FieldModel::Full(name, _)) => name,
        None => seq![],
    }
}

/// The cells of the column of the given name.
pub open spec fn cells_named(table: Seq<ColumnModel>, name: Seq<char>) -> Seq<Seq<char>> {
    data::find_column(table, name)->0.cells
}

/// The cells of the x column.
pub open spec fn x_cells(spec: SpecModel, table: Seq<ColumnModel>) -> Seq<Seq<char>> {
    cells_named(table, name_of(spec.x))
}

/// Whether a spec draws one series per y field: it has several, or no color to split one by.
pub open spec fn is_wide(spec: SpecModel) -> bool {
    dsl::y_bound(spec.y).len() > 1 || spec.color is None
}

/// Rows with a coordinate are those whose cell has a place.
proof fn lemma_same_rows(ty: DataType, x: Seq<Seq<char>>, y: Seq<Seq<char>>, rows: Seq<int>)
    requires
        picks(rows, x.len() as int, has_both(resolve::axis_values(x, ty), y)),
    ensures
        picks(rows, x.len() as int, drawn_rows(ty, x, y)),
        forall|k: int|
            0 <= k < rows.len() ==> stands_at(
                resolve::axis_kind(x, ty),
                x[#[trigger] rows[k]],
                resolve::axis_values(x, ty)[rows[k]]->0,
            ),
{
    let (a, b) = (has_both(resolve::axis_values(x, ty), y), drawn_rows(ty, x, y));
    assert forall|i: int| 0 <= i < x.len() implies #[trigger] a(i) == b(i) by {
        law_coordinates_are_where_cells_stand(x, ty, i);
    }
    assert forall|i: int| 0 <= i < x.len() && #[trigger] b(i) implies rows.contains(i) by {
        assert(a(i));
    }
    assert forall|k: int| 0 <= k < rows.len() implies stands_at(
        resolve::axis_kind(x, ty),
        x[#[trigger] rows[k]],
        resolve::axis_values(x, ty)[rows[k]]->0,
    ) by {
        law_coordinates_are_where_cells_stand(x, ty, rows[k]);
    }
}

proof fn lemma_same_keyed_rows(
    ty: DataType,
    x: Seq<Seq<char>>,
    y: Seq<Seq<char>>,
    keys: Seq<Seq<char>>,
    key: Seq<char>,
    rows: Seq<int>,
)
    requires
        picks(rows, x.len() as int, has_both_and_key(resolve::axis_values(x, ty), y, keys, key)),
    ensures
        picks(rows, x.len() as int, drawn_rows_with_key(ty, x, y, keys, key)),
        forall|k: int|
            0 <= k < rows.len() ==> stands_at(
                resolve::axis_kind(x, ty),
                x[#[trigger] rows[k]],
                resolve::axis_values(x, ty)[rows[k]]->0,
            ),
{
    let a = has_both_and_key(resolve::axis_values(x, ty), y, keys, key);
    let b = drawn_rows_with_key(ty, x, y, keys, key);
    assert forall|i: int| 0 <= i < x.len() implies #[trigger] a(i) == b(i) by {
        law_coordinates_are_where_cells_stand(x, ty, i);
    }
    assert forall|i: int| 0 <= i < x.len() && #[trigger] b(i) implies rows.contains(i) by {
        assert(a(i));
    }
    assert forall|k: int| 0 <= k < rows.len() implies stands_at(
        resolve::axis_kind(x, ty),
        x[#[trigger] rows[k]],
        resolve::axis_values(x, ty)[rows[k]]->0,
    ) by {
        law_coordinates_are_where_cells_stand(x, ty, rows[k]);
    }
}

/// A complete build has the series of every field.
pub proof fn lemma_wide_series(
    table: Seq<ColumnModel>,
    xs: Seq<Option<CoordModel>>,
    fields: Seq<(Seq<char>, Option<DataType>)>,
)
    ensures
        resolve::wide(table, xs, fields).complete <==> (forall|j: int|
            0 <= j < fields.len() ==> data::find_column(table, (#[trigger] fields[j]).0) is Some),
        resolve::wide(table, xs, fields).complete ==> {
            &&& resolve::wide(table, xs, fields).series.len() == fields.len()
            &&& forall|j: int|
                0 <= j < fields.len() ==> #[trigger] resolve::wide(table, xs, fields).series[j]
                    == (SeriesModel {
                    name: fields[j].0,
                    points: resolve::points(
                        xs,
                        cells_named(table, fields[j].0),
                        xs.len() as int,
                    ),
                    sizes: seq![],
                })
        },
    decreases fields.len(),
{
    if fields.len() > 0 {
        let front = fields.drop_last();
        lemma_wide_series(table, xs, front);
        assert(forall|j: int| 0 <= j < front.len() ==> #[trigger] front[j] == fields[j]);
        let last = fields[fields.len() - 1];
        assert(fields.last() == last);
        if resolve::wide(table, xs, front).complete {
            if data::find_column(table, last.0) is Some {
                assert forall|j: int| 0 <= j < fields.len() implies data::find_column(
                    table,
                    (#[trigger] fields[j]).0,
                ) is Some by {
                    if j < front.len() {
                        assert(front[j] == fields[j]);
                    }
                }
            }
        } else {
            let j = choose|j: int|
                0 <= j < front.len() && !(data::find_column(table, (#[trigger] front[j]).0)
                    is Some);
            assert(fields[j] == front[j]);
        }
    }
}

/// A chart of a y list, or of one y field without a color, has one series per field, in order and
/// named after it. Each draws exactly the rows whose x cell has a place and whose y cell holds a
/// number: in row order, where the x cell stands, and as high as the number.
pub proof fn law_wide_charts_draw_their_rows(
    spec: SpecModel,
    table: Seq<ColumnModel>,
    computed: ComputedModel,
    chart: ChartModel,
    j: int,
) -> (rows: Seq<int>)
    requires
        registry::plots_xy(spec.mark),
        is_wide(spec),
        resolve::resolved(spec, table, computed) == Ok::<ChartModel, Seq<DiagModel>>(chart),
        0 <= j < dsl::y_bound(spec.y).len(),
    ensures
        ({
            let x = x_cells(spec, table);
            let field = dsl::y_bound(spec.y)[j].0;
            let y = cells_named(table, field);
            &&& chart.series.len() == dsl::y_bound(spec.y).len()
            &&& chart.series[j].name == field
            &&& is_kind_of(chart.x_axis.kind, type_of_x(spec, table))
            &&& picks(rows, x.len() as int, drawn_rows(type_of_x(spec, table), x, y))
            &&& are_points_of(chart.series[j].points, rows, chart.x_axis.kind, x, y)
        }),
{
    let x = x_cells(spec, table);
    let ty = type_of_x(spec, table);
    let xs = resolve::axis_values(x, ty);
    let fields = dsl::y_bound(spec.y);
    let y = cells_named(table, fields[j].0);
    lemma_wide_series(table, xs, fields);
    let all = resolve::wide(table, xs, fields).series;
    assert(resolve::built(spec, table, xs).series == all);
    assert(chart.series[j].points == all[j].points);
    let rows = law_points_are_those_of_the_rows(xs, y, xs.len() as int);
    lemma_same_rows(ty, x, y, rows);
    rows
}

/// A chart of one y field split by a color has one series per key among the rows that are drawn,
/// named after it, in the order in which the keys are first seen.
pub proof fn law_long_charts_name_their_series(
    spec: SpecModel,
    table: Seq<ColumnModel>,
    computed: ComputedModel,
    chart: ChartModel,
) -> (firsts: Seq<int>)
    requires
        registry::plots_xy(spec.mark),
        !is_wide(spec),
        resolve::resolved(spec, table, computed) == Ok::<ChartModel, Seq<DiagModel>>(chart),
    ensures
        ({
            let x = x_cells(spec, table);
            let y = cells_named(table, dsl::y_bound(spec.y)[0].0);
            let keys = cells_named(table, name_of(spec.color));
            first_seen(
                chart.series.map_values(|s: SeriesModel| s.name),
                firsts,
                x.len() as int,
                drawn_rows(type_of_x(spec, table), x, y),
                keys_of(keys),
            )
        }),
{
    let x = x_cells(spec, table);
    let ty = type_of_x(spec, table);
    let xs = resolve::axis_values(x, ty);
    let y = cells_named(table, dsl::y_bound(spec.y)[0].0);
    let keys = cells_named(table, name_of(spec.color));
    let firsts = law_groups_are_in_first_seen_order(xs, y, keys, xs.len() as int);
    let names = chart.series.map_values(|s: SeriesModel| s.name);
    assert(resolve::built(spec, table, xs).series == resolve::groups(xs, y, keys));
    assert(names =~= resolve::group_names(xs, y, keys, xs.len() as int));
    let (a, b) = (has_both(xs, y), drawn_rows(ty, x, y));
    assert forall|i: int| 0 <= i < x.len() implies #[trigger] a(i) == b(i) by {
        law_coordinates_are_where_cells_stand(x, ty, i);
    }
    assert forall|i: int| 0 <= i < x.len() && #[trigger] b(i) implies names.contains(
        keys_of(keys)(i),
    ) by {
        assert(a(i));
    }
    assert forall|k: int, i: int|
        0 <= k < firsts.len() && 0 <= i < firsts[k] && b(i) implies #[trigger] keys_of(keys)(i)
        != #[trigger] names[k] by {
        assert(a(i) == b(i));
    }
    assert forall|k: int| 0 <= k < firsts.len() implies b(#[trigger] firsts[k]) by {
        assert(a(firsts[k]) == b(firsts[k]));
    }
    firsts
}

/// Each series of a chart split by a color draws exactly the rows with its key whose x cell has a
/// place and whose y cell holds a number: in row order, where the x cell stands, and as high as
/// the number.
pub proof fn law_long_charts_draw_their_rows(
    spec: SpecModel,
    table: Seq<ColumnModel>,
    computed: ComputedModel,
    chart: ChartModel,
    j: int,
) -> (rows: Seq<int>)
    requires
        registry::plots_xy(spec.mark),
        !is_wide(spec),
        resolve::resolved(spec, table, computed) == Ok::<ChartModel, Seq<DiagModel>>(chart),
        0 <= j < chart.series.len(),
    ensures
        ({
            let x = x_cells(spec, table);
            let y = cells_named(table, dsl::y_bound(spec.y)[0].0);
            let keys = cells_named(table, name_of(spec.color));
            let ty = type_of_x(spec, table);
            &&& is_kind_of(chart.x_axis.kind, ty)
            &&& picks(
                rows,
                x.len() as int,
                drawn_rows_with_key(ty, x, y, keys, chart.series[j].name),
            )
            &&& are_points_of(chart.series[j].points, rows, chart.x_axis.kind, x, y)
        }),
{
    let x = x_cells(spec, table);
    let ty = type_of_x(spec, table);
    let xs = resolve::axis_values(x, ty);
    let y = cells_named(table, dsl::y_bound(spec.y)[0].0);
    let keys = cells_named(table, name_of(spec.color));
    let all = resolve::groups(xs, y, keys);
    assert(resolve::built(spec, table, xs).series == all);
    let key = chart.series[j].name;
    assert(chart.series[j].points == resolve::group_points(xs, y, keys, key, xs.len() as int));
    let rows = law_group_points_are_those_of_its_rows(xs, y, keys, key, xs.len() as int);
    lemma_same_keyed_rows(ty, x, y, keys, key, rows);
    rows
}

/// The points of a bubble chart have the sizes in the size column: one for each point of the first
/// series, from the point's own row, zero where the row has none. No other series has sizes, nor
/// has a chart of another mark.
pub proof fn law_bubbles_have_the_sizes_of_their_rows(
    spec: SpecModel,
    table: Seq<ColumnModel>,
    computed: ComputedModel,
    chart: ChartModel,
) -> (rows: Seq<int>)
    requires
        registry::plots_xy(spec.mark),
        is_wide(spec),
        resolve::resolved(spec, table, computed) == Ok::<ChartModel, Seq<DiagModel>>(chart),
    ensures
        forall|j: int| 0 < j < chart.series.len() ==> (#[trigger] chart.series[j]).sizes.len() == 0,
        spec.mark is Point && spec.size is Some && data::find_column(
            table,
            name_of(spec.size),
        ) is Some ==> {
            let x = x_cells(spec, table);
            let y = cells_named(table, dsl::y_bound(spec.y)[0].0);
            let cells = cells_named(table, name_of(spec.size));
            &&& picks(rows, x.len() as int, drawn_rows(type_of_x(spec, table), x, y))
            &&& are_points_of(chart.series[0].points, rows, chart.x_axis.kind, x, y)
            &&& chart.series[0].sizes.len() == rows.len()
            &&& forall|k: int|
                0 <= k < rows.len() ==> #[trigger] chart.series[0].sizes[k] == size_in(
                    data::cell_at(cells, rows[k]),
                )
        },
        !(spec.mark is Point) || spec.size is None ==> chart.series[0].sizes.len() == 0,
{
    let x = x_cells(spec, table);
    let ty = type_of_x(spec, table);
    let xs = resolve::axis_values(x, ty);
    let fields = dsl::y_bound(spec.y);
    let y = cells_named(table, fields[0].0);
    lemma_wide_series(table, xs, fields);
    let all = resolve::wide(table, xs, fields).series;
    assert(resolve::built(spec, table, xs).series == all);
    assert forall|j: int| 0 < j < chart.series.len() implies (
    #[trigger] chart.series[j]).sizes.len() == 0 by {
        assert(chart.series[j] == all[j]);
    }
    let rows = law_wide_charts_draw_their_rows(spec, table, computed, chart, 0);
    if spec.mark is Point && spec.size is Some && data::find_column(
        table,
        name_of(spec.size),
    ) is Some {
        let cells = cells_named(table, name_of(spec.size));
        let n = xs.len() as int;
        let sized = law_sizes_are_those_of_the_rows(xs, y, cells, n);
        lemma_same_rows(ty, x, y, sized);
        law_picked_rows_are_unique(rows, sized, n, drawn_rows(ty, x, y));
        assert(all[0].points.len() == rows.len());
        assert(chart.series[0].sizes == resolve::row_sizes(xs, y, cells, n));
    }
    rows
}

/// Whether some row of an x and a y column is drawn.
pub open spec fn draws_something(ty: DataType, x: Seq<Seq<char>>, y: Seq<Seq<char>>) -> bool {
    exists|i: int| 0 <= i < x.len() && #[trigger] drawn_rows(ty, x, y)(i)
}

/// Whether a cartesian chart has what it draws: an x column, a y field, a column for each y field
/// and for the color that splits a single one, and a row to draw.
pub open spec fn has_what_it_draws(spec: SpecModel, table: Seq<ColumnModel>) -> bool {
    let fields = dsl::y_bound(spec.y);
    &&& spec.x is Some
    &&& data::find_column(table, name_of(spec.x)) is Some
    &&& fields.len() > 0
    &&& forall|j: int|
        0 <= j < fields.len() ==> data::find_column(table, (#[trigger] fields[j]).0) is Some
    &&& !is_wide(spec) ==> data::find_column(table, name_of(spec.color)) is Some
    &&& exists|j: int|
        0 <= j < fields.len() && draws_something(
            type_of_x(spec, table),
            x_cells(spec, table),
            cells_named(table, (#[trigger] fields[j]).0),
        )
}

proof fn lemma_some_row_is_picked(n: int, test: spec_fn(int) -> bool, rows: Seq<int>)
    requires
        picks(rows, n, test),
    ensures
        rows.len() > 0 <==> exists|i: int| 0 <= i < n && #[trigger] test(i),
{
    if rows.len() > 0 {
        assert(0 <= rows[0] < n && test(rows[0]));
    }
    if exists|i: int| 0 <= i < n && #[trigger] test(i) {
        let i = choose|i: int| 0 <= i < n && #[trigger] test(i);
        assert(rows.contains(i));
    }
}

/// A chart with an x column, y columns and a row to draw resolves, and no other cartesian chart
/// does.
#[verifier::spinoff_prover]
pub proof fn law_charts_resolve_when_they_have_what_they_draw(
    spec: SpecModel,
    table: Seq<ColumnModel>,
    computed: ComputedModel,
)
    requires
        registry::plots_xy(spec.mark),
    ensures
        resolve::resolved(spec, table, computed) is Ok <==> has_what_it_draws(spec, table),
{
    let fields = dsl::y_bound(spec.y);
    if spec.x is Some && data::find_column(table, name_of(spec.x)) is Some
        && fields.len() > 0 {
        let x = x_cells(spec, table);
        let ty = type_of_x(spec, table);
        let xs = resolve::axis_values(x, ty);
        let n = xs.len() as int;
        let all = resolve::built(spec, table, xs);
        lemma_wide_series(table, xs, fields);
        assert forall|j: int| 0 <= j < fields.len() implies draws_something(
            ty,
            x,
            cells_named(table, (#[trigger] fields[j]).0),
        ) == (resolve::points(xs, cells_named(table, fields[j].0), n).len() > 0) by {
            let y = cells_named(table, fields[j].0);
            let rows = law_points_are_those_of_the_rows(xs, y, n);
            lemma_same_rows(ty, x, y, rows);
            lemma_some_row_is_picked(n, drawn_rows(ty, x, y), rows);
        }
        if is_wide(spec) {
            assert(all == resolve::wide(table, xs, fields));
            if all.complete {
                if has_what_it_draws(spec, table) {
                    let j = choose|j: int|
                        0 <= j < fields.len() && draws_something(
                            ty,
                            x,
                            cells_named(table, (#[trigger] fields[j]).0),
                        );
                    assert(all.series[j].points.len() > 0);
                }
                if !resolve::undrawable(all.series) {
                    let j = choose|j: int|
                        0 <= j < all.series.len() && (#[trigger] all.series[j]).points.len() != 0;
                    assert(draws_something(ty, x, cells_named(table, fields[j].0)));
                }
            }
        } else {
            lemma_long_is_drawable(spec, table, xs);
        }
    }
}

/// A chart split by a color draws something exactly where it does so without the split.
proof fn lemma_long_is_drawable(
    spec: SpecModel,
    table: Seq<ColumnModel>,
    xs: Seq<Option<CoordModel>>,
)
    requires
        !is_wide(spec),
        dsl::y_bound(spec.y).len() > 0,
    ensures
        ({
            let field = dsl::y_bound(spec.y)[0].0;
            let all = resolve::built(spec, table, xs);
            &&& dsl::y_bound(spec.y).len() == 1
            &&& all.complete <==> data::find_column(table, field) is Some && data::find_column(
                table,
                name_of(spec.color),
            ) is Some
            &&& all.complete ==> (resolve::undrawable(all.series) <==> resolve::points(
                xs,
                cells_named(table, field),
                xs.len() as int,
            ).len() == 0)
        }),
{
    let field = dsl::y_bound(spec.y)[0].0;
    let all = resolve::built(spec, table, xs);
    if all.complete {
        let n = xs.len() as int;
        let y = cells_named(table, field);
        let keys = cells_named(table, name_of(spec.color));
        let names = resolve::group_names(xs, y, keys, n);
        let rows = law_points_are_those_of_the_rows(xs, y, n);
        let firsts = law_groups_are_in_first_seen_order(xs, y, keys, n);
        if rows.len() > 0 {
            let i = rows[0];
            let key = keys_of(keys)(i);
            assert(has_both(xs, y)(i));
            assert(names.contains(key));
            let k = choose|k: int| 0 <= k < names.len() && names[k] == key;
            let mine = law_group_points_are_those_of_its_rows(xs, y, keys, key, n);
            assert(has_both_and_key(xs, y, keys, key)(i));
            assert(mine.contains(i));
            assert(all.series[k].points.len() > 0);
        }
        if !resolve::undrawable(all.series) {
            let k = choose|k: int|
                0 <= k < all.series.len() && (#[trigger] all.series[k]).points.len() != 0;
            let mine = law_group_points_are_those_of_its_rows(xs, y, keys, names[k], n);
            assert(has_both_and_key(xs, y, keys, names[k])(mine[0]));
            assert(has_both(xs, y)(mine[0]));
            assert(rows.contains(mine[0]));
        }
    }
}

/// The axes of a cartesian chart have the titles that are configured, or else the names of the
/// fields on them, and the scales that are configured, or else linear ones.
pub proof fn law_axes_are_titled_and_scaled(
    spec: SpecModel,
    table: Seq<ColumnModel>,
    computed: ComputedModel,
    chart: ChartModel,
)
    requires
        registry::is_cartesian(spec.mark),
        resolve::resolved(spec, table, computed) == Ok::<ChartModel, Seq<DiagModel>>(chart),
    ensures
        spec.config.x_title matches Some(t) ==> chart.x_axis.title == t,
        spec.config.y_title matches Some(t) ==> chart.y_axis.title == t,
        spec.config.x_title is None ==> chart.x_axis.title == name_of(spec.x),
        spec.config.y_title is None ==> chart.y_axis.title == (if spec.mark is Histogram {
            "count"@
        } else if dsl::y_bound(spec.y).len() == 1 {
            dsl::y_bound(spec.y)[0].0
        } else {
            "value"@
        }),
        spec.config.x_scale matches Some(s) ==> chart.x_axis.scale == s,
        spec.config.y_scale matches Some(s) ==> chart.y_axis.scale == s,
        spec.config.x_scale is None ==> chart.x_axis.scale == (ScaleModel {
            kind: ScaleKind::Linear,
            domain: None,
            zero: false,
        }),
        spec.config.y_scale is None ==> chart.y_axis.scale == (ScaleModel {
            kind: ScaleKind::Linear,
            domain: None,
            zero: false,
        }),
        chart.y_axis.kind is Quantitative,
        spec.mark is Histogram ==> chart.x_axis.kind is Quantitative,
{
}

} // verus!
