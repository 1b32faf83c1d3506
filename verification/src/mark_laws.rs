//! What histograms, arcs and tables hold of the cells they are made from.

use crate::arithmetic;
use crate::arithmetic::ComputedModel;
use crate::arithmetic::SumModel;
use crate::backend::ChartModel;
use crate::backend::CoordModel;
use crate::backend::SliceModel;
use crate::data;
use crate::data::ColumnModel;
use crate::data_view;
use crate::diag::DiagModel;
use crate::diag::Severity;
use crate::dsl::DataType;
use crate::dsl::Sign;
use crate::dsl::SpecModel;
use crate::resolve;
use crate::row_laws;
use crate::text;
use crate::typing;
use crate::typing::ValueModel;
use vstd::prelude::*;

verus! {

// --- Histograms -------------------------------------------------------------------

/// Whether each cell holds a number.
pub open spec fn number_cells(cells: Seq<Seq<char>>) -> spec_fn(int) -> bool {
    |i: int| typing::holds_number(cells[i])
}

/// The numbers of a column are those of exactly the cells that hold one, in order, each as it
/// stands in its cell.
pub proof fn law_numbers_are_those_of_the_cells(cells: Seq<Seq<char>>, n: int) -> (rows: Seq<int>)
    requires
        0 <= n,
    ensures
        row_laws::picks(rows, n, number_cells(cells)),
        resolve::numbers(cells, n).len() == rows.len(),
        forall|k: int|
            0 <= k < rows.len() ==> #[trigger] resolve::numbers(cells, n)[k] == text::trimmed(
                cells[rows[k]],
            ),
    decreases n,
{
    let test = number_cells(cells);
    if n > 0 {
        let rows = law_numbers_are_those_of_the_cells(cells, n - 1);
        row_laws::lemma_number_of(cells[n - 1]);
        row_laws::lemma_picks_next(rows, n - 1, test);
        if test(n - 1) {
            rows.push(n - 1)
        } else {
            rows
        }
    } else {
        row_laws::lemma_picks_none(n, test);
        seq![]
    }
}

/// The samples of a histogram are the numbers in its x column, all of them, in order; they go
/// into as many buckets as are configured, at least one, or into twenty.
pub proof fn law_histograms_sample_their_column(spec: SpecModel, table: Seq<ColumnModel>) -> (rows:
    Seq<int>)
    requires
        spec.mark is Histogram,
        spec.x is Some,
        data::find_column(table, row_laws::name_of(spec.x)) is Some,
    ensures
        resolve::owed(spec, table).samples matches Some(samples) && {
            let cells = row_laws::x_cells(spec, table);
            &&& row_laws::picks(rows, cells.len() as int, number_cells(cells))
            &&& samples.values.len() == rows.len()
            &&& forall|k: int|
                0 <= k < rows.len() ==> #[trigger] samples.values[k] == text::trimmed(
                    cells[rows[k]],
                )
            &&& spec.config.bins is None ==> samples.bins == 20
            &&& spec.config.bins matches Some(n) ==> samples.bins == (if n >= 1 {
                n as int
            } else {
                1
            })
        },
{
    let cells = row_laws::x_cells(spec, table);
    law_numbers_are_those_of_the_cells(cells, cells.len() as int)
}

/// Whether each number counts in bucket `b`: it was computed to fall there, or past the end where
/// `b` is the last.
pub open spec fn lands_in(landed: Seq<usize>, bins: int, b: int) -> spec_fn(int) -> bool {
    |i: int| landed[i] == b || (b == bins - 1 && landed[i] >= bins)
}

/// A bucket counts exactly the numbers that land in it.
pub proof fn law_buckets_count_what_lands_in_them(
    landed: Seq<usize>,
    bins: int,
    b: int,
    n: int,
) -> (rows: Seq<int>)
    requires
        0 <= n <= landed.len(),
        0 <= b < bins,
    ensures
        row_laws::picks(rows, n, lands_in(landed, bins, b)),
        arithmetic::tallied(landed, bins, b, n) == rows.len(),
    decreases n,
{
    let test = lands_in(landed, bins, b);
    if n > 0 {
        let rows = law_buckets_count_what_lands_in_them(landed, bins, b, n - 1);
        row_laws::lemma_picks_next(rows, n - 1, test);
        if test(n - 1) {
            rows.push(n - 1)
        } else {
            rows
        }
    } else {
        row_laws::lemma_picks_none(n, test);
        seq![]
    }
}

/// A histogram draws one point per bucket, in order: at the bucket's center, and as high as the
/// number of samples that land in it.
pub proof fn law_histograms_draw_their_buckets(
    spec: SpecModel,
    table: Seq<ColumnModel>,
    computed: ComputedModel,
    chart: ChartModel,
    b: int,
) -> (rows: Seq<int>)
    requires
        spec.mark is Histogram,
        resolve::resolved(spec, table, computed) == Ok::<ChartModel, Seq<DiagModel>>(chart),
        computed.binning matches Some(binning) && 0 <= b < binning.centers.len(),
    ensures
        ({
            let binning = computed.binning->0;
            let bins = binning.centers.len() as int;
            &&& chart.series.len() == 1
            &&& chart.series[0].name.len() == 0
            &&& chart.series[0].points.len() == bins
            &&& row_laws::picks(
                rows,
                binning.landed.len() as int,
                lands_in(binning.landed, bins, b),
            )
            &&& chart.series[0].points[b] == (
                CoordModel::Number(binning.centers[b]),
                CoordModel::Whole(rows.len() as int),
            )
        }),
{
    let binning = computed.binning->0;
    law_buckets_count_what_lands_in_them(
        binning.landed,
        binning.centers.len() as int,
        b,
        binning.landed.len() as int,
    )
}

/// A histogram resolves exactly where its x column is there, holds a number, and its numbers were
/// sorted: each fell somewhere, into as many buckets as there are to be, or into one.
pub proof fn law_histograms_resolve_when_they_are_sorted(
    spec: SpecModel,
    table: Seq<ColumnModel>,
    computed: ComputedModel,
)
    requires
        spec.mark is Histogram,
    ensures
        resolve::resolved(spec, table, computed) is Ok <==> {
            &&& spec.x is Some
            &&& data::find_column(table, row_laws::name_of(spec.x)) is Some
            &&& resolve::owed(spec, table).samples matches Some(samples)
            &&& computed.binning matches Some(binning)
            &&& samples.values.len() > 0
            &&& binning.landed.len() == samples.values.len()
            &&& binning.centers.len() == samples.bins || binning.centers.len() == 1
        },
{
}

// --- Arcs -------------------------------------------------------------------------

/// Whether each row has a number in its theta cell.
pub open spec fn theta_rows(thetas: Seq<Seq<char>>) -> spec_fn(int) -> bool {
    |i: int| typing::holds_number(data::cell_at(thetas, i))
}

/// Whether each row has a number in its theta cell, and the given label.
pub open spec fn theta_rows_with_label(
    labels: Seq<Seq<char>>,
    thetas: Seq<Seq<char>>,
    label: Seq<char>,
) -> spec_fn(int) -> bool {
    |i: int| typing::holds_number(data::cell_at(thetas, i)) && labels[i] == label
}

/// The labels of rows.
pub open spec fn labels_of(labels: Seq<Seq<char>>) -> spec_fn(int) -> Seq<char> {
    |i: int| labels[i]
}

/// The group of a label holds the numbers of exactly the rows that carry the label and have one,
/// in row order, as often as they occur.
pub proof fn law_groups_hold_the_numbers_of_their_rows(
    labels: Seq<Seq<char>>,
    thetas: Seq<Seq<char>>,
    label: Seq<char>,
    n: int,
) -> (rows: Seq<int>)
    requires
        0 <= n,
    ensures
        row_laws::picks(rows, n, theta_rows_with_label(labels, thetas, label)),
        resolve::slice_parts(labels, thetas, label, n).len() == rows.len(),
        forall|k: int|
            0 <= k < rows.len() ==> #[trigger] resolve::slice_parts(labels, thetas, label, n)[k]
                == text::trimmed(data::cell_at(thetas, rows[k])),
    decreases n,
{
    let test = theta_rows_with_label(labels, thetas, label);
    if n > 0 {
        let rows = law_groups_hold_the_numbers_of_their_rows(labels, thetas, label, n - 1);
        row_laws::lemma_number_of(data::cell_at(thetas, n - 1));
        row_laws::lemma_picks_next(rows, n - 1, test);
        if test(n - 1) {
            rows.push(n - 1)
        } else {
            rows
        }
    } else {
        row_laws::lemma_picks_none(n, test);
        seq![]
    }
}

/// The labels of an arc are those of the rows with a number, each once, in the order in which they
/// are first seen.
pub proof fn law_slices_are_in_first_seen_order(
    labels: Seq<Seq<char>>,
    thetas: Seq<Seq<char>>,
    n: int,
) -> (firsts: Seq<int>)
    requires
        0 <= n,
    ensures
        row_laws::first_seen(
            resolve::slice_labels(labels, thetas, n),
            firsts,
            n,
            theta_rows(thetas),
            labels_of(labels),
        ),
    decreases n,
{
    if n > 0 {
        let firsts = law_slices_are_in_first_seen_order(labels, thetas, n - 1);
        row_laws::lemma_number_of(data::cell_at(thetas, n - 1));
        row_laws::lemma_first_seen_next(
            resolve::slice_labels(labels, thetas, n - 1),
            firsts,
            n - 1,
            theta_rows(thetas),
            labels_of(labels),
        )
    } else {
        seq![]
    }
}

/// The lengths of groups, added up.
pub open spec fn total_length(groups: Seq<Seq<Seq<char>>>) -> nat
    decreases groups.len(),
{
    if groups.len() == 0 {
        0
    } else {
        total_length(groups.drop_last()) + groups.last().len()
    }
}

/// The numbers of the first `n` rows, grouped by the given labels.
spec fn grouped(
    labels: Seq<Seq<char>>,
    thetas: Seq<Seq<char>>,
    names: Seq<Seq<char>>,
    n: int,
) -> Seq<Seq<Seq<char>>> {
    names.map_values(|name: Seq<char>| resolve::slice_parts(labels, thetas, name, n))
}

/// One more row adds its number to the group of its label, and to no other.
proof fn lemma_total_step(
    labels: Seq<Seq<char>>,
    thetas: Seq<Seq<char>>,
    names: Seq<Seq<char>>,
    n: int,
)
    requires
        0 < n,
        names.no_duplicates(),
    ensures
        total_length(grouped(labels, thetas, names, n)) == total_length(
            grouped(labels, thetas, names, n - 1),
        ) + (if theta_rows(thetas)(n - 1) && names.contains(labels[n - 1]) {
            1nat
        } else {
            0
        }),
    decreases names.len(),
{
    row_laws::lemma_number_of(data::cell_at(thetas, n - 1));
    if names.len() > 0 {
        let front = names.drop_last();
        let label = labels[n - 1];
        assert(front.no_duplicates());
        lemma_total_step(labels, thetas, front, n);
        assert(grouped(labels, thetas, names, n).drop_last() =~= grouped(labels, thetas, front, n));
        assert(grouped(labels, thetas, names, n - 1).drop_last() =~= grouped(
            labels,
            thetas,
            front,
            n - 1,
        ));
        if names.last() == label {
            assert(names[names.len() - 1] == label);
            if front.contains(label) {
                let i = choose|i: int| 0 <= i < front.len() && front[i] == label;
                assert(names[i] == label);
            }
        } else {
            if names.contains(label) {
                let i = choose|i: int| 0 <= i < names.len() && names[i] == label;
                assert(front[i] == label);
            }
            if front.contains(label) {
                let i = choose|i: int| 0 <= i < front.len() && front[i] == label;
                assert(names[i] == label);
            }
        }
    }
}

/// Grouping loses no row with a number and counts none twice: the groups of an arc together hold
/// as many numbers as there are rows with one.
pub proof fn law_groups_partition_the_numbers(
    labels: Seq<Seq<char>>,
    thetas: Seq<Seq<char>>,
) -> (rows: Seq<int>)
    ensures
        row_laws::picks(rows, labels.len() as int, theta_rows(thetas)),
        total_length(resolve::slice_groups(labels, thetas)) == rows.len(),
{
    let n = labels.len() as int;
    let rows = lemma_groups_partition(labels, thetas, n);
    assert(resolve::slice_groups(labels, thetas) =~= grouped(
        labels,
        thetas,
        resolve::slice_labels(labels, thetas, n),
        n,
    ));
    rows
}

proof fn lemma_groups_partition(
    labels: Seq<Seq<char>>,
    thetas: Seq<Seq<char>>,
    n: int,
) -> (rows: Seq<int>)
    requires
        0 <= n <= labels.len(),
    ensures
        row_laws::picks(rows, n, theta_rows(thetas)),
        total_length(grouped(labels, thetas, resolve::slice_labels(labels, thetas, n), n))
            == rows.len(),
    decreases n,
{
    let test = theta_rows(thetas);
    if n > 0 {
        let rows = lemma_groups_partition(labels, thetas, n - 1);
        row_laws::lemma_picks_next(rows, n - 1, test);
        row_laws::lemma_number_of(data::cell_at(thetas, n - 1));
        let earlier = resolve::slice_labels(labels, thetas, n - 1);
        let now = resolve::slice_labels(labels, thetas, n);
        let label = labels[n - 1];
        crate::laws::law_slice_labels_are_distinct(labels, thetas, n);
        text::lemma_index_of(earlier, label);
        lemma_total_step(labels, thetas, now, n);
        if now != earlier {
            assert(now.drop_last() =~= earlier);
            assert(now[now.len() - 1] == label);
            let empty = law_groups_hold_the_numbers_of_their_rows(labels, thetas, label, n - 1);
            let firsts = law_slices_are_in_first_seen_order(labels, thetas, n - 1);
            if empty.len() > 0 {
                assert(theta_rows_with_label(labels, thetas, label)(empty[0]));
                assert(theta_rows(thetas)(empty[0]));
                assert(earlier.contains(labels_of(labels)(empty[0])));
            }
            assert(grouped(labels, thetas, now, n - 1).drop_last() =~= grouped(
                labels,
                thetas,
                earlier,
                n - 1,
            ));
        } else if test(n - 1) {
            let i = text::index_of(earlier, label)->0;
            assert(now[i] == label);
        }
        if test(n - 1) {
            rows.push(n - 1)
        } else {
            rows
        }
    } else {
        row_laws::lemma_picks_none(n, test);
        seq![]
    }
}

/// Whether each group has a positive sum.
pub open spec fn positive_sums(sums: Seq<SumModel>) -> spec_fn(int) -> bool {
    |j: int| j < sums.len() && sums[j].sign == Sign::Positive
}

/// The slices are those of exactly the groups with a positive sum, in group order, each with its
/// group's label and sum, and colored in sequence.
pub proof fn law_slices_are_those_of_the_positive_sums(
    labels: Seq<Seq<char>>,
    sums: Seq<SumModel>,
    n: int,
) -> (kept: Seq<int>)
    requires
        0 <= n <= labels.len(),
    ensures
        row_laws::picks(kept, n, positive_sums(sums)),
        resolve::positive_slices(labels, sums, n).len() == kept.len(),
        forall|k: int|
            0 <= k < kept.len() ==> #[trigger] resolve::positive_slices(labels, sums, n)[k] == (
            SliceModel {
                label: labels[kept[k]],
                value: sums[kept[k]].value,
                color_index: k,
            }),
    decreases n,
{
    let test = positive_sums(sums);
    if n > 0 {
        let kept = law_slices_are_those_of_the_positive_sums(labels, sums, n - 1);
        row_laws::lemma_picks_next(kept, n - 1, test);
        if test(n - 1) {
            kept.push(n - 1)
        } else {
            kept
        }
    } else {
        row_laws::lemma_picks_none(n, test);
        seq![]
    }
}

/// The cells of the color column.
pub open spec fn color_cells(spec: SpecModel, table: Seq<ColumnModel>) -> Seq<Seq<char>> {
    row_laws::cells_named(table, row_laws::name_of(spec.color))
}

/// The cells of the theta column.
pub open spec fn theta_cells(spec: SpecModel, table: Seq<ColumnModel>) -> Seq<Seq<char>> {
    row_laws::cells_named(table, row_laws::name_of(spec.theta))
}

/// Whether an arc has its two columns.
pub open spec fn has_its_columns(spec: SpecModel, table: Seq<ColumnModel>) -> bool {
    &&& spec.theta is Some
    &&& spec.color is Some
    &&& data::find_column(table, row_laws::name_of(spec.theta)) is Some
    &&& data::find_column(table, row_laws::name_of(spec.color)) is Some
}

/// What an arc hands out to be added up: a group for each label among the rows with a number, in
/// the order in which the labels are first seen. Each group holds the numbers of exactly the rows
/// that carry its label, as often as they occur, and together they hold the number of every row
/// that has one.
pub proof fn law_arcs_hand_out_their_rows(spec: SpecModel, table: Seq<ColumnModel>, g: int) -> (r: (
    Seq<Seq<char>>,
    Seq<int>,
    Seq<int>,
    Seq<int>,
))
    requires
        spec.mark is Arc,
        has_its_columns(spec, table),
        0 <= g < resolve::owed(spec, table).groups.len(),
    ensures
        ({
            let (names, firsts, rows, all) = r;
            let labels = color_cells(spec, table);
            let thetas = theta_cells(spec, table);
            let n = labels.len() as int;
            let groups = resolve::owed(spec, table).groups;
            &&& row_laws::first_seen(names, firsts, n, theta_rows(thetas), labels_of(labels))
            &&& groups.len() == names.len()
            &&& row_laws::picks(rows, n, theta_rows_with_label(labels, thetas, names[g]))
            &&& groups[g].len() == rows.len()
            &&& forall|k: int|
                0 <= k < rows.len() ==> #[trigger] groups[g][k] == text::trimmed(
                    data::cell_at(thetas, rows[k]),
                )
            &&& row_laws::picks(all, n, theta_rows(thetas))
            &&& total_length(groups) == all.len()
        }),
{
    let labels = color_cells(spec, table);
    let thetas = theta_cells(spec, table);
    let n = labels.len() as int;
    let names = resolve::slice_labels(labels, thetas, n);
    let firsts = law_slices_are_in_first_seen_order(labels, thetas, n);
    let rows = law_groups_hold_the_numbers_of_their_rows(labels, thetas, names[g], n);
    let all = law_groups_partition_the_numbers(labels, thetas);
    assert(resolve::owed(spec, table).groups == resolve::slice_groups(labels, thetas));
    (names, firsts, rows, all)
}

/// An arc draws a slice for each of its groups with a positive sum: in the order in which their
/// labels are first seen, with the group's label and sum, and colored in sequence. It resolves
/// exactly where it has its columns and such a group.
pub proof fn law_arcs_draw_their_positive_groups(
    spec: SpecModel,
    table: Seq<ColumnModel>,
    computed: ComputedModel,
) -> (r: (Seq<Seq<char>>, Seq<int>, Seq<int>))
    requires
        spec.mark is Arc,
    ensures
        ({
            let (names, firsts, kept) = r;
            let labels = color_cells(spec, table);
            let thetas = theta_cells(spec, table);
            let drawn = resolve::resolved(spec, table, computed);
            &&& !has_its_columns(spec, table) ==> drawn is Err
            &&& has_its_columns(spec, table) ==> {
                &&& row_laws::first_seen(
                    names,
                    firsts,
                    labels.len() as int,
                    theta_rows(thetas),
                    labels_of(labels),
                )
                &&& names.len() == resolve::owed(spec, table).groups.len()
                &&& row_laws::picks(kept, names.len() as int, positive_sums(computed.sums))
                &&& drawn is Ok <==> kept.len() > 0
                &&& drawn matches Ok(chart) ==> chart.slices.len() == kept.len() && forall|k: int|
                    0 <= k < kept.len() ==> #[trigger] chart.slices[k] == (SliceModel {
                        label: names[kept[k]],
                        value: computed.sums[kept[k]].value,
                        color_index: k,
                    })
            }
        }),
{
    if has_its_columns(spec, table) {
        let labels = color_cells(spec, table);
        let thetas = theta_cells(spec, table);
        let n = labels.len() as int;
        let names = resolve::slice_labels(labels, thetas, n);
        let firsts = law_slices_are_in_first_seen_order(labels, thetas, n);
        let kept = law_slices_are_those_of_the_positive_sums(
            names,
            computed.sums,
            names.len() as int,
        );
        (names, firsts, kept)
    } else {
        (seq![], seq![], seq![])
    }
}

// --- Tables -----------------------------------------------------------------------

/// Whether each name is that of a column.
pub open spec fn names_of_columns(table: Seq<ColumnModel>, names: Seq<Seq<char>>) -> spec_fn(
    int,
) -> bool {
    |i: int| data::find_column(table, names[i]) is Some
}

/// Whether each name is not that of a column.
pub open spec fn names_of_nothing(table: Seq<ColumnModel>, names: Seq<Seq<char>>) -> spec_fn(
    int,
) -> bool {
    |i: int| data::find_column(table, names[i]) is None
}

/// Of the columns that are asked for, those that the data has are shown, in the order in which
/// they are asked for.
pub proof fn law_known_columns_are_shown(table: Seq<ColumnModel>, wanted: Seq<Seq<char>>) -> (kept:
    Seq<int>)
    ensures
        row_laws::picks(kept, wanted.len() as int, names_of_columns(table, wanted)),
        resolve::present(table, wanted).len() == kept.len(),
        forall|k: int|
            0 <= k < kept.len() ==> #[trigger] resolve::present(table, wanted)[k]
                == wanted[kept[k]],
{
    lemma_present(table, wanted, wanted.len() as int)
}

proof fn lemma_present(table: Seq<ColumnModel>, wanted: Seq<Seq<char>>, n: int) -> (kept: Seq<int>)
    requires
        0 <= n <= wanted.len(),
    ensures
        row_laws::picks(kept, n, names_of_columns(table, wanted)),
        resolve::present(table, wanted.take(n)).len() == kept.len(),
        forall|k: int|
            0 <= k < kept.len() ==> #[trigger] resolve::present(table, wanted.take(n))[k]
                == wanted[kept[k]],
        n == wanted.len() ==> wanted.take(n) == wanted,
    decreases n,
{
    let test = names_of_columns(table, wanted);
    crate::views::lemma_take_all(wanted);
    if n > 0 {
        let kept = lemma_present(table, wanted, n - 1);
        crate::views::lemma_take_push(wanted, n - 1);
        row_laws::lemma_picks_next(kept, n - 1, test);
        if test(n - 1) {
            kept.push(n - 1)
        } else {
            kept
        }
    } else {
        row_laws::lemma_picks_none(n, test);
        seq![]
    }
}

/// Of the columns that are asked for, each that the data does not have is reported by name, in
/// order.
pub proof fn law_unknown_columns_are_reported(
    table: Seq<ColumnModel>,
    wanted: Seq<Seq<char>>,
) -> (lost: Seq<int>)
    ensures
        row_laws::picks(lost, wanted.len() as int, names_of_nothing(table, wanted)),
        resolve::absent(table, wanted).len() == lost.len(),
        forall|k: int|
            0 <= k < lost.len() ==> #[trigger] resolve::absent(table, wanted)[k] == (DiagModel {
                severity: Severity::Warning,
                message: "table column `"@ + wanted[lost[k]]
                    + "` is not in the data and was dropped"@,
            }),
{
    lemma_absent(table, wanted, wanted.len() as int)
}

proof fn lemma_absent(table: Seq<ColumnModel>, wanted: Seq<Seq<char>>, n: int) -> (lost: Seq<int>)
    requires
        0 <= n <= wanted.len(),
    ensures
        row_laws::picks(lost, n, names_of_nothing(table, wanted)),
        resolve::absent(table, wanted.take(n)).len() == lost.len(),
        forall|k: int|
            0 <= k < lost.len() ==> #[trigger] resolve::absent(table, wanted.take(n))[k] == (
            DiagModel {
                severity: Severity::Warning,
                message: "table column `"@ + wanted[lost[k]]
                    + "` is not in the data and was dropped"@,
            }),
        n == wanted.len() ==> wanted.take(n) == wanted,
    decreases n,
{
    let test = names_of_nothing(table, wanted);
    crate::views::lemma_take_all(wanted);
    if n > 0 {
        let lost = lemma_absent(table, wanted, n - 1);
        crate::views::lemma_take_push(wanted, n - 1);
        row_laws::lemma_picks_next(lost, n - 1, test);
        if test(n - 1) {
            lost.push(n - 1)
        } else {
            lost
        }
    } else {
        row_laws::lemma_picks_none(n, test);
        seq![]
    }
}

/// Whether a value is what a cell reads as, as a value of the given type.
pub open spec fn reads_as(cell: Seq<char>, ty: DataType, value: ValueModel) -> bool {
    if row_laws::has_place(ty, cell) {
        match value {
            ValueModel::Number(n) => ty is Quantitative && n == text::trimmed(cell),
            ValueModel::Time(t) => ty is Temporal && typing::date_of(text::trimmed(cell)) == Some(
                t,
            ),
            ValueModel::Category(c) => (ty is Ordinal || ty is Nominal) && c == text::trimmed(cell),
            ValueModel::Missing => false,
        }
    } else {
        value is Missing
    }
}

/// A table shows the columns that are asked for and that the data has, in the order in which they
/// are asked for, or else every column in its own order. It resolves exactly where there is one.
pub proof fn law_tables_show_their_columns(
    spec: SpecModel,
    table: Seq<ColumnModel>,
    computed: ComputedModel,
) -> (kept: Seq<int>)
    requires
        spec.mark is Table,
    ensures
        ({
            let wanted = match spec.columns {
                Some(names) => names,
                None => table.map_values(|c: ColumnModel| c.name),
            };
            let drawn = resolve::resolved(spec, table, computed);
            &&& row_laws::picks(kept, wanted.len() as int, names_of_columns(table, wanted))
            &&& spec.columns is None ==> kept.len() == table.len()
            &&& drawn is Ok <==> kept.len() > 0
            &&& drawn matches Ok(chart) ==> chart.table matches Some(view) && {
                &&& view.headers.len() == kept.len()
                &&& forall|k: int|
                    0 <= k < kept.len() ==> #[trigger] view.headers[k] == wanted[kept[k]]
                &&& view.transpose == spec.config.transpose
            }
        }),
{
    match spec.columns {
        Some(names) => { law_known_columns_are_shown(table, names) },
        None => {
            let wanted = table.map_values(|c: ColumnModel| c.name);
            let kept = Seq::new(table.len(), |i: int| i);
            let test = names_of_columns(table, wanted);
            assert forall|i: int| 0 <= i < wanted.len() implies #[trigger] test(i)
                && kept.contains(i) by {
                let at = data::law_columns_are_found_by_name(table, wanted[i]);
                assert(table[i].name == wanted[i]);
                assert(kept[i] == i);
            }
            assert forall|k: int| 0 <= k < kept.len() implies test(#[trigger] kept[k]) by {
                assert(test(k));
            }
            assert(data::names(table) =~= wanted);
            kept
        },
    }
}

/// Each line of a table shows, below each header, the cell of the line's row in the header's
/// column, read as what the whole column is, and nothing where the column is too short. There
/// are as many lines as the longest of the columns has cells.
pub proof fn law_tables_show_their_cells(
    spec: SpecModel,
    table: Seq<ColumnModel>,
    computed: ComputedModel,
    chart: ChartModel,
    r: int,
    c: int,
)
    requires
        spec.mark is Table,
        resolve::resolved(spec, table, computed) == Ok::<ChartModel, Seq<DiagModel>>(chart),
        chart.table matches Some(view) && 0 <= c < view.headers.len(),
    ensures
        ({
            let view = chart.table->0;
            let cells = row_laws::cells_named(table, view.headers[c]);
            &&& cells.len() <= view.rows.len()
            &&& exists|k: int|
                0 <= k < view.headers.len() && row_laws::cells_named(
                    table,
                    #[trigger] view.headers[k],
                ).len() == view.rows.len()
            &&& 0 <= r < view.rows.len() ==> {
                &&& view.rows[r].len() == view.headers.len()
                &&& r < cells.len() ==> reads_as(
                    cells[r],
                    typing::inferred(cells),
                    view.rows[r][c],
                )
                &&& r >= cells.len() ==> view.rows[r][c] == ValueModel::Category(seq![])
            }
        }),
{
    let view = chart.table->0;
    let columns = resolve::columns_named(table, view.headers);
    data::law_rows_are_those_of_the_longest_column(columns);
    assert(columns[c].cells == row_laws::cells_named(table, view.headers[c]));
    let k = choose|k: int|
        0 <= k < columns.len() && (#[trigger] columns[k]).cells.len() == data::rows(columns);
    assert(row_laws::cells_named(table, view.headers[k]).len() == view.rows.len());
    let cells = columns[c].cells;
    if 0 <= r < cells.len() {
        typing::law_cells_read_as_what_they_say(cells[r], typing::inferred(cells));
    }
}

/// The data pane shows each cell of the table at its row and column, read as what the whole column
/// is, and a missing value where the column is too short.
pub proof fn law_data_pane_shows_every_cell(table: Seq<ColumnModel>, r: int, c: int)
    requires
        0 <= c < table.len(),
        0 <= r < data::rows(table),
    ensures
        data_view::types_of(table)[c] == typing::inferred(table[c].cells),
        data_view::parsed_rows(table).len() == data::rows(table),
        data_view::parsed_rows(table)[r].len() == table.len(),
        r < table[c].cells.len() ==> reads_as(
            table[c].cells[r],
            typing::inferred(table[c].cells),
            data_view::parsed_rows(table)[r][c],
        ),
        r >= table[c].cells.len() ==> data_view::parsed_rows(table)[r][c] is Missing,
{
    typing::law_cells_read_as_what_they_say(
        data::cell_at(table[c].cells, r),
        typing::inferred(table[c].cells),
    );
    assert(text::trimmed(Seq::<char>::empty()) =~= Seq::<char>::empty());
}

} // verus!
