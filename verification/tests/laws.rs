use std::cell::Cell;

use hiker_charts::arithmetic::{
    is_binning_of, tally_bins, Binning, Computed, Samples, Sum, Terms,
};
use hiker_charts::backend::{
    Axis as ChartAxis, AxisKind, Backend, Coord, RenderError, RenderOutput, ResolvedChart, Series,
    Size, TableView,
};
use hiker_charts::block::{parse_block, split_block};
use hiker_charts::calendar::{civil_from_days, days_from_civil};
use hiker_charts::cli::{
    block_inputs, format_diagnostics, input_chart, painted_svg, pair_inputs, parse_args, usage,
    Args,
};
use hiker_charts::data::{Column, Table};
use hiker_charts::data_view::{column_types, data_rows, type_label as pane_label};
use hiker_charts::diag::{join_messages, Diagnostic, Severity};
use hiker_charts::display::format_epoch;
use hiker_charts::draw::{
    category_label, chart_grid, drawn_axes, is_bubble_series, is_horizontal, is_stacked,
    keep_scaled, layout, orient, range_source, routine, shows_legend, step_points, table_grid,
    Layout, RangeSource, Routine,
};
use hiker_charts::dsl::{
    ChartSpec, Config, DataType, FieldDef, Mark, Orientation, Scale, ScaleKind, Sign, YEncoding,
};
use hiker_charts::identity::content_hash;
use hiker_charts::model::{Axis, BuilderState, Channel, Provenance, SeriesMode};
use hiker_charts::numeral::Number;
use hiker_charts::panel::{
    apply_theme, channel_tag, choose_series_mode, color_to_rgb, control_column, current_field,
    current_scale, current_type, is_long, is_y, mark_label, marks, opt, palette_label, palettes,
    rgb_to_color, scale_kind_label, scale_kinds, set_field, set_manual_domain, set_y,
    simple_current, simple_set, type_label, type_text, types, Control, SimpleChannel, ThemeChoice,
};
use hiker_charts::preview::{
    key_action, pointer_action, svg_key, KeyAction, PaneMode, PointerAction, PreviewState,
};
use hiker_charts::resolve::{
    count_samples, resolve, terms, validate_channels, warn_scale_drops, DEFAULT_BINS,
};
use hiker_charts::text::{decimal_text, is_whitespace, trim};
use hiker_charts::theme::{hex, parse_hex, series_color, Color, Palette, Theme};
use hiker_charts::typing::{coerce, infer_type, parse_date, Value};

const SIZE: Size = Size { width: 320, height: 240 };

fn number(s: &str) -> Number {
    Number::parse(s).unwrap()
}

fn strings(items: &[&str]) -> Vec<String> {
    items.iter().map(|s| (*s).to_string()).collect()
}

fn short(name: &str) -> FieldDef {
    FieldDef::Shorthand(name.to_string())
}

fn csv(text: &str) -> Table {
    Table::from_csv(text.as_bytes()).unwrap()
}

/// A spec with an x channel and y channels.
fn plot(mark: Mark, x: &str, y: &[&str]) -> ChartSpec {
    let mut spec = ChartSpec::new(mark);
    spec.x = Some(short(x));
    spec.y = Some(YEncoding::Many(y.iter().map(|n| short(n)).collect()));
    spec
}

fn arc(theta: &str, color: &str) -> ChartSpec {
    let mut spec = ChartSpec::new(Mark::Arc);
    spec.theta = Some(short(theta));
    spec.color = Some(short(color));
    spec
}

fn messages(diags: &[Diagnostic]) -> Vec<&str> {
    diags.iter().map(|d| d.message.as_str()).collect()
}

/// Resolve a chart that needs no arithmetic.
fn draw(spec: &ChartSpec, table: &Table) -> Result<ResolvedChart, Vec<Diagnostic>> {
    resolve(spec, table, &Computed::default())
}

fn binned(landed: &[usize], centers: &[&str]) -> Binning {
    Binning { landed: landed.to_vec(), centers: centers.iter().map(|c| number(c)).collect() }
}

fn sum(value: &str, sign: Sign) -> Sum {
    Sum { value: number(value), sign }
}

fn whole(n: usize) -> Coord {
    Coord::Whole(n)
}

fn num(s: &str) -> Coord {
    Coord::Number(number(s))
}

// --- Text and numerals -------------------------------------------------------------

#[test]
fn whitespace_is_the_standard_one() {
    for c in '\u{0}'..=char::MAX {
        assert_eq!(is_whitespace(c), c.is_whitespace(), "{c:?}");
    }
}

#[test]
fn trimming_twice_is_trimming_once() {
    for s in ["", " ", "a", "  a b\t", "\u{3000}x\u{a0}", "\r\nq\n"] {
        assert_eq!(trim(s), s.trim());
        assert_eq!(trim(trim(s)), trim(s));
    }
}

#[test]
fn decimals_are_numerals() {
    for n in [0, 7, 10, 120, 86_400, u64::MAX] {
        assert_eq!(decimal_text(n), n.to_string());
        assert_eq!(Number::whole(n).as_str(), n.to_string());
        assert!(Number::parse(&decimal_text(n)).is_some());
    }
}

#[test]
fn numerals_are_what_the_standard_library_reads() {
    let texts = [
        "0", "5", "-5", "+5", "5.", ".5", "-.5", "1e3", "1E3", "1e+3", "1e-3", "1.5e10", ".5e1",
        "5.e1", "inf", "INF", "+inf", "-Infinity", "nan", "NaN", "-nan", "", "+", "-", ".", "e",
        "e5", ".e5", "5e", "5e+", "5e-", "1.2.3", "--5", "+-5", "1_000", " 5", "5 ", "0x10",
        "infin", "nanx", "infinityy", "1e5.5", "٣", "1,5", "5f", "00012", "-0",
    ];
    for t in texts {
        assert_eq!(Number::parse(t).is_some(), t.parse::<f64>().is_ok(), "{t:?}");
        if let Some(n) = Number::parse(t) {
            assert_eq!(n.as_str(), t);
        }
    }
}

// --- Calendar and dates ------------------------------------------------------------

#[test]
fn civil_dates_and_day_numbers_invert_each_other() {
    for z in [-800_000, -719_468, -1, 0, 59, 60, 11_016, 18_628, 19_782, 2_932_896] {
        let (y, m, d) = civil_from_days(z);
        assert_eq!(days_from_civil(y, m, d), z);
    }
    assert_eq!(civil_from_days(0), (1970, 1, 1));
    assert_eq!(civil_from_days(-1), (1969, 12, 31));
    assert_eq!(civil_from_days(11_016), (2000, 2, 29));
    assert_eq!(civil_from_days(-719_468), (0, 3, 1));
}

#[test]
fn years_follow_each_other() {
    let length = |y: i64| days_from_civil(y + 1, 1, 1) - days_from_civil(y, 1, 1);
    assert_eq!(length(2000), 366);
    assert_eq!(length(1900), 365);
    assert_eq!(length(2024), 366);
    assert_eq!(length(2023), 365);
    assert_eq!(length(-4), 366);
}

#[test]
fn formatting_inverts_parsing() {
    for date in ["1970-01-01", "2024-02-29", "0000-01-01", "9999-12-31", "1969-07-20"] {
        assert_eq!(format_epoch(parse_date(date).unwrap()), date);
    }
    assert_eq!(format_epoch(parse_date("2021/3/5").unwrap()), "2021-03-05");
    assert_eq!(format_epoch(parse_date("2021-03").unwrap()), "2021-03-01");
}

#[test]
fn days_past_the_end_of_a_month_run_on() {
    assert_eq!(format_epoch(parse_date("2021-02-31").unwrap()), "2021-03-03");
}

#[test]
fn times_floor_to_their_day() {
    assert_eq!(format_epoch(-1), "1969-12-31");
    assert_eq!(format_epoch(86_399), "1970-01-01");
    assert_eq!(format_epoch(86_400), "1970-01-02");
    assert_eq!(format_epoch(-86_400), "1969-12-31");
    assert_eq!(format_epoch(-86_401), "1969-12-30");
    assert_eq!(parse_date("1969-12-31T23:59:59"), Some(-1));
}

// --- Typing ------------------------------------------------------------------------

#[test]
fn inference_loses_no_filled_cell() {
    for cells in [
        strings(&["1", "", "2e5", "nan"]),
        strings(&["2020-01-01", "2021/6/5", ""]),
        strings(&["a", "1", ""]),
    ] {
        let ty = infer_type(&cells);
        assert_ne!(ty, DataType::Ordinal);
        for cell in cells.iter().filter(|c| !c.is_empty()) {
            assert_ne!(coerce(cell, ty), Value::Missing);
        }
    }
}

#[test]
fn coercion_reads_each_type() {
    assert_eq!(coerce("1970-01-02", DataType::Temporal), Value::Time(86_400));
    assert_eq!(coerce("low", DataType::Ordinal), Value::Category("low".to_string()));
    assert_eq!(coerce("", DataType::Nominal), Value::Missing);
    assert_eq!(coerce("12", DataType::Temporal), Value::Missing);
}

// --- Tables and CSV ----------------------------------------------------------------

#[test]
fn csv_reads_back_what_it_writes() {
    let table = Table {
        columns: vec![
            Column { name: "a,b".to_string(), cells: strings(&["x\"y", "line\nbreak", ""]) },
            Column { name: "c".to_string(), cells: strings(&[" pad ", "é", "last"]) },
        ],
    };
    let text = table.to_csv();
    assert_eq!(text, "\"a,b\",c\n\"x\"\"y\", pad \n\"line\nbreak\",é\n,last\n");
    assert_eq!(csv(&text), table);
}

#[test]
fn short_columns_are_filled_up_when_written() {
    let table = Table {
        columns: vec![
            Column { name: "a".to_string(), cells: strings(&["1"]) },
            Column { name: "b".to_string(), cells: strings(&["2", "3"]) },
        ],
    };
    assert_eq!(table.row_count(), 2);
    assert_eq!(table.to_csv(), "a,b\n1,2\n,3\n");
    assert_eq!(csv(&table.to_csv()).column("a").unwrap().cells, strings(&["1", ""]));
}

#[test]
fn csv_that_is_not_text_is_an_error() {
    let err = Table::from_csv(b"a,b\n\xff\xfe,2\n").unwrap_err();
    assert!(err.message.contains("UTF-8"), "{}", err.message);
}

#[test]
fn records_become_columns() {
    let table = Table::from_records(
        strings(&["a", "b"]),
        vec![strings(&["1", "2", "extra"]), strings(&["3"])],
    );
    assert_eq!(table.columns.len(), 2);
    assert_eq!(table.column("a").unwrap().cells, strings(&["1", "3"]));
    assert_eq!(table.column("b").unwrap().cells, strings(&["2", ""]));
}

#[test]
fn the_first_of_two_columns_of_one_name_is_found() {
    let table = csv("a,a\n1,2\n");
    assert_eq!(table.column("a").unwrap().cells, strings(&["1"]));
}

// --- Themes ------------------------------------------------------------------------

#[test]
fn hex_reads_back() {
    for c in [Color::rgb(0, 0, 0), Color::rgb(255, 127, 14), Color::rgb(1, 160, 254)] {
        assert_eq!(parse_hex(&hex(c)), Some(c));
    }
    assert_eq!(hex(Color::rgb(31, 119, 180)), "#1f77b4");
}

#[test]
fn hex_colors_are_three_or_six_digits() {
    assert_eq!(parse_hex("#f0a"), Some(Color::rgb(255, 0, 170)));
    assert_eq!(parse_hex("FF8000"), Some(Color::rgb(255, 128, 0)));
    for bad in ["", "#", "#ff", "#ffff", "#gg0000", "##f00", "+f0000", "#éé"] {
        assert_eq!(parse_hex(bad), None, "{bad}");
    }
}

#[test]
fn series_colors_come_from_the_palette_and_else_the_theme() {
    let theme = Theme::light();
    let palette = Some(strings(&["#ff0000", "no color"]));
    assert_eq!(series_color(&palette, &theme, 0), Color::rgb(255, 0, 0));
    assert_eq!(series_color(&palette, &theme, 1), theme.series[1]);
    assert_eq!(series_color(&palette, &theme, 2), theme.series[2]);
    let wrapped = theme.series.len() + 1;
    assert_eq!(series_color(&Some(Vec::new()), &theme, wrapped), theme.series[1]);
    let bare = Theme { series: Vec::new(), ..Theme::light() };
    assert_eq!(series_color(&None, &bare, 4), bare.foreground);
}

// --- Channel validation ------------------------------------------------------------

#[test]
fn unaccepted_channels_are_warned_about_in_order() {
    let mut spec = plot(Mark::Arc, "a", &["b"]);
    spec.size = Some(short("c"));
    spec.theta = Some(short("d"));
    let diags = validate_channels(&spec);
    assert!(diags.iter().all(|d| d.severity == Severity::Warning));
    assert_eq!(
        messages(&diags),
        [
            "channel `x` is ignored by mark `Arc`",
            "channel `y` is ignored by mark `Arc`",
            "channel `size` is ignored by mark `Arc`",
        ]
    );
}

#[test]
fn accepted_channels_give_no_warning() {
    let mut spec = plot(Mark::Point, "a", &["b"]);
    spec.color = Some(short("c"));
    spec.size = Some(short("d"));
    assert!(validate_channels(&spec).is_empty());
}

#[test]
fn an_unaccepted_channel_changes_nothing_that_is_drawn() {
    let table = csv("a,b,c\n1,2,3\n4,5,6\n");
    let spec = plot(Mark::Bar, "a", &["b"]);
    let mut with_theta = plot(Mark::Bar, "a", &["b"]);
    with_theta.theta = Some(short("c"));
    with_theta.size = Some(short("c"));
    assert_eq!(draw(&with_theta, &table), draw(&spec, &table));
}

// --- Resolving ---------------------------------------------------------------------

#[test]
fn every_way_to_fail_has_its_error() {
    let table = csv("m,v,e\njan,1,\nfeb,2,\n");
    let mut no_x = plot(Mark::Line, "m", &["v"]);
    no_x.x = None;
    let mut no_y = plot(Mark::Line, "m", &["v"]);
    no_y.y = None;
    let mut bad_color = plot(Mark::Line, "m", &["v"]);
    bad_color.color = Some(short("nope"));
    let mut no_bin = ChartSpec::new(Mark::Histogram);
    no_bin.config.bins = Some(3);
    let mut bad_bin = ChartSpec::new(Mark::Histogram);
    bad_bin.x = Some(short("nope"));
    let mut no_theta = arc("v", "m");
    no_theta.theta = None;
    let mut no_color = arc("v", "m");
    no_color.color = None;
    let mut no_columns = ChartSpec::new(Mark::Table);
    no_columns.columns = Some(strings(&["nope"]));
    let cases = [
        (no_x, "chart spec has no `x` channel"),
        (plot(Mark::Bar, "nope", &["v"]), "x column `nope` not found in data"),
        (no_y, "chart spec has no `y` channel"),
        (plot(Mark::Line, "m", &["nope"]), "y column `nope` not found in data"),
        (bad_color, "color column `nope` not found in data"),
        (plot(Mark::Area, "m", &["e"]), "no drawable points after coercion"),
        (no_bin, "histogram spec has no `x` channel to bin"),
        (bad_bin, "x column `nope` not found in data"),
        (no_theta, "arc spec has no `theta` channel"),
        (no_color, "arc spec has no `color` channel to group slices"),
        (arc("nope", "m"), "theta column `nope` not found in data"),
        (arc("v", "nope"), "color column `nope` not found in data"),
        (no_columns, "table has no columns to show"),
    ];
    for (spec, message) in cases {
        let diags = draw(&spec, &table).unwrap_err();
        let last = diags.last().unwrap();
        assert_eq!(last.severity, Severity::Error);
        assert_eq!(last.message, message);
    }
}

#[test]
fn rows_are_drawn_or_reported() {
    // Nothing is drawn, so every dropped row is in the report.
    let table = csv("m,v\njan,x\n,2\nmar,\n");
    let mut spec = plot(Mark::Line, "m", &["v"]);
    spec.y = Some(YEncoding::One(FieldDef::Full(hiker_charts::dsl::FieldSpec {
        field: "v".to_string(),
        ty: Some(DataType::Quantitative),
    })));
    let diags = draw(&spec, &table).unwrap_err();
    assert_eq!(
        messages(&diags),
        [
            "dropped row 0 for series `v`: missing x or y",
            "dropped row 1 for series `v`: missing x or y",
            "dropped row 2 for series `v`: missing x or y",
            "no drawable points after coercion",
        ]
    );
}

#[test]
fn groups_partition_the_rows() {
    let table = csv("x,g,v\n1,b,10\n2,a,20\n3,b,30\n4,,40\n");
    let mut spec = plot(Mark::Line, "x", &["v"]);
    let without = draw(&spec, &table).unwrap();
    spec.color = Some(short("g"));
    let split = draw(&spec, &table).unwrap();
    let names: Vec<&str> = split.series.iter().map(|s| s.name.as_str()).collect();
    assert_eq!(names, ["b", "a", ""]);
    let drawn: usize = split.series.iter().map(|s| s.points.len()).sum();
    assert_eq!(drawn, without.series[0].points.len());
    assert_eq!(split.series[0].points, vec![(num("1"), num("10")), (num("3"), num("30"))]);
}

#[test]
fn categories_are_distinct_and_name_their_cells() {
    let table = csv("m,v\nb,1\na,2\nb,3\nc,4\n");
    let chart = draw(&plot(Mark::Bar, "m", &["v"]), &table).unwrap();
    let AxisKind::Categorical(labels) = &chart.x_axis.kind else { panic!("categorical") };
    assert_eq!(labels, &strings(&["b", "a", "c"]));
    for (point, cell) in chart.series[0].points.iter().zip(["b", "a", "b", "c"]) {
        let Coord::Whole(i) = point.0 else { panic!("an index") };
        assert_eq!(labels[i], cell);
    }
}

#[test]
fn wide_and_long_data_agree() {
    let wide = draw(
        &plot(Mark::Area, "day", &["a", "b"]),
        &csv("day,a,b\n2021-01-01,1,2\n2021-01-02,3,4\n"),
    )
    .unwrap();
    let mut spec = plot(Mark::Area, "day", &["value"]);
    spec.color = Some(short("metric"));
    let long = draw(
        &spec,
        &csv("day,metric,value\n2021-01-01,a,1\n2021-01-01,b,2\n2021-01-02,a,3\n2021-01-02,b,4\n"),
    )
    .unwrap();
    assert_eq!(wide.series, long.series);
    assert_eq!(wide.x_axis, long.x_axis);
}

#[test]
fn resolved_charts_are_drawable() {
    let table = csv("x,y,s\n1,2,9\n3,4,\n");
    let mut spec = plot(Mark::Point, "x", &["y"]);
    spec.size = Some(short("s"));
    let chart = draw(&spec, &table).unwrap();
    assert!(!chart.series[0].points.is_empty());
    assert_eq!(chart.series[0].sizes, vec![number("9"), number("0")]);
}

#[test]
fn declared_types_are_authoritative() {
    let table = csv("x,v\n1,5\n2,6\n");
    let mut spec = plot(Mark::Line, "x", &["v"]);
    assert_eq!(draw(&spec, &table).unwrap().x_axis.kind, AxisKind::Quantitative);
    spec.x = Some(FieldDef::Full(hiker_charts::dsl::FieldSpec {
        field: "x".to_string(),
        ty: Some(DataType::Ordinal),
    }));
    let chart = draw(&spec, &table).unwrap();
    assert_eq!(chart.x_axis.kind, AxisKind::Categorical(strings(&["1", "2"])));
    assert_eq!(chart.series[0].points[1], (whole(1), num("6")));
}

#[test]
fn titles_default_to_the_fields() {
    let table = csv("x,a,b\n1,2,3\n");
    let one = draw(&plot(Mark::Line, "x", &["a"]), &table).unwrap();
    assert_eq!((one.x_axis.title.as_str(), one.y_axis.title.as_str()), ("x", "a"));
    let many = draw(&plot(Mark::Line, "x", &["a", "b"]), &table).unwrap();
    assert_eq!(many.y_axis.title, "value");
    let mut named = plot(Mark::Line, "x", &["a"]);
    named.config.x_title = Some("time".to_string());
    assert_eq!(draw(&named, &table).unwrap().x_axis.title, "time");
}

#[test]
fn a_histogram_hands_on_its_numbers() {
    let mut spec = ChartSpec::new(Mark::Histogram);
    spec.x = Some(short("v"));
    let owed = terms(&spec, &csv("v\n3\nx\n1.5\n"));
    let values = vec![number("3"), number("1.5")];
    assert_eq!(owed, Terms { samples: Some(Samples { values, bins: DEFAULT_BINS }), groups: vec![] });
    assert_eq!(DEFAULT_BINS, 20);
    spec.config.bins = Some(3);
    assert_eq!(terms(&spec, &csv("v\n3\n")).samples.unwrap().bins, 3);
}

#[test]
fn a_histogram_counts_its_numbers() {
    let table = csv("v\n3\nx\n1\n2\n3\n");
    let mut spec = ChartSpec::new(Mark::Histogram);
    spec.x = Some(short("v"));
    spec.config.bins = Some(2);
    let samples = terms(&spec, &table).samples.unwrap();
    let binning = binned(&[2, 0, 1, 2], &["1.5", "2.5"]);
    assert!(is_binning_of(&binning, &samples));
    let points = vec![(num("1.5"), whole(1)), (num("2.5"), whole(3))];
    assert_eq!(count_samples(&samples, &binning), Some(points));
    let computed = Computed { binning: Some(binning), sums: vec![] };
    let chart = resolve(&spec, &table, &computed).unwrap();
    assert_eq!((chart.mark, chart.series.len()), (Mark::Histogram, 1));
    assert!(chart.slices.is_empty() && chart.table.is_none());
    assert_eq!(chart.y_axis.title, "count");
    let drawn: usize = chart.series[0]
        .points
        .iter()
        .map(|p| match p.1 {
            Coord::Whole(n) => n,
            _ => panic!("a count"),
        })
        .sum();
    assert_eq!(drawn, samples.values.len());
}

#[test]
fn samples_that_are_not_sorted_are_not_drawn() {
    let table = csv("v\n3\n1\n");
    let mut spec = ChartSpec::new(Mark::Histogram);
    spec.x = Some(short("v"));
    spec.config.bins = Some(2);
    let samples = terms(&spec, &table).samples.unwrap();
    let misfits = [
        None,
        Some(binned(&[0], &["1", "2"])),
        Some(binned(&[0, 1], &[])),
        Some(binned(&[0, 1], &["1", "2", "3"])),
    ];
    for binning in misfits {
        if let Some(b) = &binning {
            assert_eq!(count_samples(&samples, b), None);
        }
        let computed = Computed { binning, sums: vec![] };
        assert_eq!(
            messages(&resolve(&spec, &table, &computed).unwrap_err()),
            ["histogram has no numeric values to bin"]
        );
    }
}

#[test]
fn every_number_is_counted() {
    let buckets = vec![0, 2, 1, 2, 7, 3];
    let counts = tally_bins(&buckets, 3);
    assert_eq!(counts, vec![1, 1, 4]);
    assert_eq!(counts.iter().sum::<usize>(), buckets.len());
}

#[test]
fn slices_are_distinct_and_colored_in_sequence() {
    let table = csv("g,v\na,1\nb,-5\na,2\nc,4\n");
    let spec = arc("v", "g");
    let owed = terms(&spec, &table);
    let groups =
        vec![vec![number("1"), number("2")], vec![number("-5")], vec![number("4")]];
    assert_eq!(owed, Terms { samples: None, groups });
    let sums =
        vec![sum("3", Sign::Positive), sum("-5", Sign::Negative), sum("4", Sign::Positive)];
    let chart = resolve(&spec, &table, &Computed { binning: None, sums }).unwrap();
    let kept: Vec<(&str, &str, usize)> = chart
        .slices
        .iter()
        .map(|s| (s.label.as_str(), s.value.as_str(), s.color_index))
        .collect();
    assert_eq!(kept, [("a", "3", 0), ("c", "4", 1)]);
    assert!(chart.series.is_empty() && chart.table.is_none());
}

#[test]
fn slices_without_a_positive_sum_are_not_drawn() {
    let table = csv("g,v\na,-1\nb,0\nc,nan\n");
    let spec = arc("v", "g");
    let sums =
        vec![sum("-1", Sign::Negative), sum("0", Sign::Zero), sum("nan", Sign::Unordered)];
    assert_eq!(
        messages(&resolve(&spec, &table, &Computed { binning: None, sums }).unwrap_err()),
        ["arc has no positive slices after aggregation"]
    );
}

#[test]
fn other_marks_need_no_arithmetic() {
    let table = csv("x,y\n1,2\n3,4\n");
    let sums = vec![sum("1", Sign::Positive)];
    let some = Computed { binning: Some(binned(&[0], &["1"])), sums };
    for mark in [Mark::Line, Mark::Bar, Mark::Area, Mark::Point, Mark::Table] {
        let spec = plot(mark, "x", &["y"]);
        assert_eq!(terms(&spec, &table), Terms { samples: None, groups: vec![] });
        assert_eq!(resolve(&spec, &table, &some), draw(&spec, &table));
    }
}

#[test]
fn scale_drops_are_counted_per_axis() {
    let mut spec = plot(Mark::Line, "x", &["y"]);
    spec.config.x_scale = Some(Scale { kind: ScaleKind::Log, domain: None, zero: false });
    spec.config.y_scale = Some(Scale { kind: ScaleKind::Sqrt, domain: None, zero: false });
    let signs = vec![Sign::Positive, Sign::Zero, Sign::Negative, Sign::Unordered];
    let diags = warn_scale_drops(&spec, &signs, &signs);
    assert_eq!(
        messages(&diags),
        [
            "x scale drops 3 non-positive point(s) the transform cannot map",
            "y scale drops 2 non-positive point(s) the transform cannot map",
        ]
    );
    assert!(warn_scale_drops(&plot(Mark::Line, "x", &["y"]), &signs, &signs).is_empty());
}

#[test]
fn unknown_table_columns_are_reported_when_none_is_left() {
    let mut spec = ChartSpec::new(Mark::Table);
    spec.columns = Some(strings(&["p", "q"]));
    let diags = draw(&spec, &csv("a\n1\n")).unwrap_err();
    assert_eq!(
        messages(&diags),
        [
            "table column `p` is not in the data and was dropped",
            "table column `q` is not in the data and was dropped",
            "table has no columns to show",
        ]
    );
}

// --- Blocks ------------------------------------------------------------------------

#[test]
fn splitting_inverts_assembling() {
    for (config, data) in [("mark: bar\n", "a,b\n1,2\n"), ("", "x\n---\n"), ("a\n\n", "")] {
        let body = format!("{config}---\n{data}");
        assert_eq!(split_block(&body), (config, Some(data)));
    }
}

#[test]
fn a_dashed_line_at_the_end_separates_too() {
    assert_eq!(split_block("mark: bar\n---"), ("mark: bar\n", Some("")));
    assert_eq!(split_block("mark: bar\n----\nx\n"), ("mark: bar\n----\nx\n", None));
    assert_eq!(split_block(""), ("", None));
}

#[test]
fn block_errors_name_their_half() {
    let diags = parse_block("x", Err("boom".to_string())).unwrap_err();
    assert_eq!(diags, vec![Diagnostic::error("chart config: boom")]);
    assert_eq!(join_messages(&diags, "; "), "chart config: boom");
    let two = vec![Diagnostic::error("a"), Diagnostic::warning("b")];
    assert_eq!(join_messages(&two, "; "), "a; b");
}

// --- Identity ----------------------------------------------------------------------

#[test]
fn every_input_counts() {
    let table = csv("ab,c\n1,2\n");
    let theme = Theme::light();
    let spec = plot(Mark::Line, "ab", &["c"]);
    let base = content_hash(&spec, &table, &theme, SIZE);
    let mut edits: Vec<ChartSpec> = Vec::new();
    for i in 0..8 {
        let mut s = plot(Mark::Line, "ab", &["c"]);
        match i {
            0 => s.mark = Mark::Area,
            1 => s.x = Some(short("c")),
            2 => s.y = Some(YEncoding::One(short("c"))),
            3 => s.data = Some(String::new()),
            4 => s.columns = Some(Vec::new()),
            5 => s.config.title = Some(String::new()),
            6 => s.config.bins = Some(20),
            _ => s.extra.push(("k".to_string(), "1\n".to_string())),
        }
        edits.push(s);
    }
    for edit in &edits {
        assert_ne!(content_hash(edit, &table, &theme, SIZE), base);
    }
    // The same letters cut in other places are another table.
    assert_ne!(content_hash(&spec, &csv("a,bc\n1,2\n"), &theme, SIZE), base);
    assert_ne!(content_hash(&spec, &csv("ab,c\n12,\n"), &theme, SIZE), base);
    assert_ne!(content_hash(&spec, &table, &Theme::dark(), SIZE), base);
    let taller = Size { width: 320, height: 241 };
    assert_ne!(content_hash(&spec, &table, &theme, taller), base);
}

// --- The builder -------------------------------------------------------------------

/// Counts how often it paints.
struct Counting {
    paints: Cell<u32>,
    fails: bool,
}

impl Backend for Counting {
    fn render(
        &self,
        chart: &ResolvedChart,
        _theme: &Theme,
        _size: Size,
    ) -> Result<RenderOutput, RenderError> {
        self.paints.set(self.paints.get() + 1);
        if self.fails {
            return Err(RenderError::Backend("no ink".to_string()));
        }
        Ok(RenderOutput { svg: format!("<svg>{}</svg>", chart.mark.name()) })
    }
}

fn builder() -> BuilderState {
    BuilderState::new(
        plot(Mark::Line, "month", &["revenue"]),
        csv("month,revenue,profit\njan,100,20\nfeb,140,35\n"),
        Theme::default(),
        SIZE,
    )
}

#[test]
fn rendering_twice_paints_once() {
    let backend = Counting { paints: Cell::new(0), fails: false };
    let mut s = builder();
    assert_eq!(s.render(&backend, &Computed::default()).unwrap().svg, "<svg>Line</svg>");
    assert_eq!(s.render(&backend, &Computed::default()).unwrap().svg, "<svg>Line</svg>");
    assert_eq!(backend.paints.get(), 1);
    s.set_mark(Mark::Bar);
    assert_eq!(s.render(&backend, &Computed::default()).unwrap().svg, "<svg>Bar</svg>");
    assert_eq!(backend.paints.get(), 2);
}

#[test]
fn rendering_keeps_the_inputs() {
    let backend = Counting { paints: Cell::new(0), fails: true };
    let mut s = builder();
    assert!(s.render(&backend, &Computed::default()).is_none());
    assert_eq!(backend.paints.get(), 1);
    assert_eq!(s.spec(), builder().spec());
    assert_eq!(s.table(), builder().table());
    s.set_x(Some("nope"));
    assert!(s.render(&backend, &Computed::default()).is_none());
    assert_eq!(backend.paints.get(), 1, "an unresolvable chart is not painted");
}

#[test]
fn adding_and_removing_undo_each_other() {
    let mut s = builder();
    s.add_y("profit");
    s.add_y("profit");
    assert_eq!(s.spec().y_fields(), vec![("revenue", None), ("profit", None)]);
    s.remove_y("profit");
    assert_eq!(s.spec().y_fields(), vec![("revenue", None)]);
    s.remove_y("revenue");
    assert!(s.spec().y_fields().is_empty());
}

#[test]
fn toggling_flips_membership() {
    let mut s = builder();
    for column in ["month", "profit", "month"] {
        let shown = s.is_column_shown(column);
        s.toggle_column(column);
        assert_eq!(s.is_column_shown(column), !shown);
    }
}

#[test]
fn moving_up_undoes_moving_down() {
    let mut s = builder();
    s.move_column(1, false);
    assert_eq!(s.shown_columns(), strings(&["month", "profit", "revenue"]));
    s.move_column(2, true);
    assert_eq!(s.shown_columns(), strings(&["month", "revenue", "profit"]));
    s.move_column(9, true);
    assert_eq!(s.shown_columns(), strings(&["month", "revenue", "profit"]));
}

#[test]
fn setting_a_color_keeps_the_others() {
    let mut s = builder();
    s.set_series_color(0, Color::rgb(1, 2, 3));
    s.set_series_color(1, Color::rgb(4, 5, 6));
    let before: Vec<Color> = (0..6).map(|i| s.effective_series_color(i)).collect();
    s.set_series_color(3, Color::rgb(9, 9, 9));
    for (i, color) in before.iter().enumerate().filter(|(i, _)| *i != 3) {
        assert_eq!(s.effective_series_color(i), *color);
    }
    assert_eq!(s.effective_series_color(3), Color::rgb(9, 9, 9));
}

#[test]
fn series_past_the_overrides_fall_back_to_the_theme() {
    let mut s = BuilderState::new(
        plot(Mark::Line, "a", &["b"]),
        Table::default(),
        Theme::light(),
        SIZE,
    );
    s.set_series_color(1, Color::rgb(255, 0, 0));
    assert_eq!(s.effective_series_color(0), Color::rgb(31, 119, 180));
    assert_eq!(s.effective_series_color(1), Color::rgb(255, 0, 0));
    assert_eq!(s.effective_series_color(2), Color::rgb(44, 160, 44));
}

#[test]
fn editing_y_keeps_declared_types() {
    let mut s = builder();
    let mut spec = plot(Mark::Line, "month", &["revenue"]);
    spec.y = Some(YEncoding::One(FieldDef::Full(hiker_charts::dsl::FieldSpec {
        field: "revenue".to_string(),
        ty: Some(DataType::Temporal),
    })));
    s = BuilderState::new(spec, s.table().clone(), Theme::default(), SIZE);
    let typed = ("revenue", Some(DataType::Temporal));
    s.add_y("profit");
    assert_eq!(s.spec().y_fields(), vec![typed, ("profit", None)]);
    s.add_y("month");
    s.remove_y("profit");
    assert_eq!(s.spec().y_fields(), vec![typed, ("month", None)]);
    s.set_series_mode(SeriesMode::Long, Some("profit"));
    assert_eq!(s.spec().y_fields(), vec![typed]);
    assert!(matches!(s.spec().y, Some(YEncoding::One(_))));
    set_y(&mut s, "profit", true);
    set_y(&mut s, "profit", false);
    assert_eq!(s.spec().y_fields(), vec![typed]);
}

#[test]
fn a_config_ends_with_exactly_one_newline() {
    let s = builder();
    for yaml in ["a", "a\n", "a\n\n", "a\n\n\n"] {
        assert_eq!(s.to_block_reference(yaml), "```chart\na\n```");
    }
    for yaml in ["", "\n", "\n\n"] {
        assert_eq!(s.to_block_reference(yaml), "```chart\n\n```");
    }
    assert_eq!(s.to_block_reference("a\n\nb\n\n"), "```chart\na\n\nb\n```");
    let prov = Provenance { note_id: String::new(), byte_range: 0..1 };
    let data = Some("m,v\na,1\n\n".to_string());
    let opened = BuilderState::from_block(
        Ok(plot(Mark::Line, "m", &["v"])),
        csv("m,v\na,1\n"),
        data,
        prov,
        Theme::default(),
        SIZE,
    )
    .ok()
    .unwrap();
    assert_eq!(opened.save_block("a\n\n").unwrap().0, "a\n---\nm,v\na,1\n\n");
    assert_eq!(opened.to_block_inline("a\n\n"), "```chart\na\n---\nm,v\na,1\n\n```");
}

#[test]
fn opening_and_saving_keeps_the_data() {
    let body = "mark: line\n---\nmonth,v\r\n\"a,b\",1\n\nc,2";
    let prov = Provenance { note_id: "n".to_string(), byte_range: 3..9 };
    let spec = plot(Mark::Line, "month", &["v"]);
    let s = BuilderState::from_block_body(body, Ok(spec), prov, Theme::default(), SIZE)
        .ok()
        .unwrap();
    let (saved, range) = s.save_block("mark: line").unwrap();
    assert_eq!(saved, body);
    assert_eq!(range, 3..9);
}

#[test]
fn edits_keep_unknown_fields_and_the_data() {
    let body = "mark: line\n---\nmonth,v\na,1\n";
    let mut spec = plot(Mark::Line, "month", &["v"]);
    spec.extra.push(("future".to_string(), "42\n".to_string()));
    spec.data = Some("kept.csv".to_string());
    let prov = Provenance { note_id: "n".to_string(), byte_range: 0..4 };
    let mut s = BuilderState::from_block_body(body, Ok(spec), prov, Theme::default(), SIZE)
        .ok()
        .unwrap();
    s.set_mark(Mark::Bar);
    s.add_y("month");
    s.set_series_mode(SeriesMode::Long, Some("month"));
    s.toggle_column("v");
    s.set_scale_zero(Axis::Y, true);
    s.set_series_color(2, Color::rgb(1, 1, 1));
    set_manual_domain(&mut s, Axis::X, true);
    s.set_theme(Theme::dark());
    assert_eq!(s.spec().extra, vec![("future".to_string(), "42\n".to_string())]);
    assert_eq!(s.spec().data.as_deref(), Some("kept.csv"));
    assert_eq!(s.table(), &csv("month,v\na,1\n"));
    let (saved, range) = s.save_block("mark: bar\n").unwrap();
    assert_eq!(split_block(&saved), ("mark: bar\n", Some("month,v\na,1\n")));
    assert_eq!(range, 0..4);
}

#[test]
fn a_spec_goes_through_the_builder_unchanged() {
    let mut spec = plot(Mark::Area, "a", &["b", "c"]);
    spec.extra.push(("k".to_string(), "[1, 2]\n".to_string()));
    spec.config.title = Some("T".to_string());
    let s = BuilderState::new(spec.clone(), csv("a,b,c\n1,2,3\n"), Theme::light(), SIZE);
    assert_eq!(s.spec(), &spec);
}

#[test]
fn failing_to_open_says_why() {
    let open = |body: &str, config: Result<ChartSpec, String>| {
        let prov = Provenance { note_id: String::new(), byte_range: 0..0 };
        BuilderState::from_block_body(body, config, prov, Theme::default(), SIZE).err().unwrap()
    };
    assert_eq!(open("x\n---\na\n", Err("bad".to_string())), "chart config: bad");
    assert_eq!(
        open("x\n", Ok(ChartSpec::new(Mark::Bar))),
        "chart block has no inline data (expected a `---` line followed by CSV)"
    );
    let prov = Provenance { note_id: String::new(), byte_range: 0..0 };
    let failed = BuilderState::from_block(
        Err("bad".to_string()),
        Table::default(),
        None,
        prov,
        Theme::default(),
        SIZE,
    );
    assert_eq!(failed.err().unwrap(), "bad");
}

#[test]
fn blocks_are_fenced() {
    let mut s = builder();
    assert_eq!(
        s.to_block("mark: line"),
        "```chart\nmark: line\n---\nmonth,revenue,profit\njan,100,20\nfeb,140,35\n```"
    );
    assert_eq!(s.to_block_reference("mark: line\n"), "```chart\nmark: line\n```");
    assert_eq!(s.reference_spec("d.csv").data.as_deref(), Some("d.csv"));
    let mut spec = plot(Mark::Line, "month", &["revenue"]);
    spec.data = Some("d.csv".to_string());
    s = BuilderState::new(spec, Table::default(), Theme::default(), SIZE);
    assert_eq!(s.to_block("data: d.csv\n"), "```chart\ndata: d.csv\n```");
}

#[test]
fn modes_and_types_edit_the_channels() {
    let mut s = builder();
    s.set_series_mode(SeriesMode::Long, Some("profit"));
    s.set_field_type(Channel::Color, Some(DataType::Ordinal));
    assert_eq!(s.spec().color_field(), Some(("profit", Some(DataType::Ordinal))));
    s.set_field_type(Channel::Color, None);
    assert_eq!(s.spec().color_field(), Some(("profit", None)));
    s.set_color(None);
    s.set_x(None);
    s.set_field_type(Channel::X, Some(DataType::Nominal));
    assert_eq!(s.spec().x_field(), None);
    s.set_title(Some("T"));
    s.toggle_legend();
    assert_eq!(s.spec().config.title.as_deref(), Some("T"));
    assert!(!s.spec().config.legend);
    s.set_x_scale(Some(Scale { kind: ScaleKind::Sqrt, domain: None, zero: true }));
    s.set_scale_kind(Axis::X, ScaleKind::Linear);
    assert_eq!(
        s.spec().config.x_scale,
        Some(Scale { kind: ScaleKind::Linear, domain: None, zero: true })
    );
    assert_eq!(s.size(), SIZE);
}

#[test]
fn an_undrawable_chart_has_no_series_names() {
    let mut s = builder();
    s.set_x(Some("nope"));
    assert!(s.series_names(&Computed::default()).is_empty());
    s.set_mark(Mark::Histogram);
    s.set_x(Some("revenue"));
    assert!(s.series_names(&Computed::default()).is_empty());
    let computed = Computed { binning: Some(binned(&[0, 0], &["120"])), sums: vec![] };
    assert_eq!(s.series_names(&computed), strings(&[""]));
    assert_eq!(s.terms(), terms(s.spec(), s.table()));
}

// --- Drawing decisions -------------------------------------------------------------

fn axis(title: &str, kind: AxisKind) -> ChartAxis {
    ChartAxis { title: title.to_string(), kind, scale: Scale::default() }
}

fn bare_chart(mark: Mark, table: Option<TableView>) -> ResolvedChart {
    ResolvedChart {
        mark,
        series: Vec::new(),
        slices: Vec::new(),
        table,
        x_axis: axis("x", AxisKind::Quantitative),
        y_axis: axis("y", AxisKind::Temporal),
        config: Config::default(),
    }
}

#[test]
fn marks_have_a_layout_and_a_routine() {
    assert_eq!(layout(Mark::Table), Layout::Table);
    assert_eq!(layout(Mark::Arc), Layout::Radial);
    assert_eq!(layout(Mark::Histogram), Layout::Cartesian);
    let mut config = Config::default();
    assert_eq!(routine(Mark::Bar, &config), Routine::Bars);
    assert_eq!(routine(Mark::Area, &config), Routine::Areas);
    config.stack = true;
    assert_eq!(routine(Mark::Bar, &config), Routine::StackedBars);
    assert_eq!(routine(Mark::Area, &config), Routine::StackedAreas);
    assert_eq!(routine(Mark::Line, &config), Routine::Lines);
    assert!(is_stacked(Mark::Bar, &config) && !is_stacked(Mark::Line, &config));
    config.orientation = Some(Orientation::Horizontal);
    assert_eq!(routine(Mark::Bar, &config), Routine::StackedHorizontalBars);
    config.stack = false;
    assert_eq!(routine(Mark::Bar, &config), Routine::HorizontalBars);
    assert_eq!(routine(Mark::Point, &config), Routine::Points);
    assert_eq!(routine(Mark::Histogram, &config), Routine::Histogram);
    assert_eq!(routine(Mark::Arc, &config), Routine::Nothing);
    assert!(is_horizontal(Mark::Area, &config) && !is_horizontal(Mark::Line, &config));
}

#[test]
fn horizontal_charts_exchange_their_axes() {
    let mut chart = bare_chart(Mark::Bar, None);
    assert_eq!(drawn_axes(&chart).0.title, "x");
    chart.config.orientation = Some(Orientation::Horizontal);
    let (first, second) = drawn_axes(&chart);
    assert_eq!((first.title.as_str(), second.title.as_str()), ("y", "x"));
    assert_eq!(orient(&vec![(1.0, 2.0)], true), vec![(2.0, 1.0)]);
    assert_eq!(orient(&vec![(1.0, 2.0)], false), vec![(1.0, 2.0)]);
}

#[test]
fn legends_need_a_name() {
    let mut chart = bare_chart(Mark::Line, None);
    let series = |name: &str| Series {
        name: name.to_string(),
        points: Vec::new(),
        sizes: Vec::new(),
    };
    chart.series.push(series(""));
    assert!(!shows_legend(&chart));
    chart.series.push(series("a"));
    assert!(shows_legend(&chart));
    chart.config.legend = false;
    assert!(!shows_legend(&chart));
}

#[test]
fn sizes_stay_parallel_to_the_kept_points() {
    let scaled = vec![Some((1, 2)), None, Some((3, 4))];
    let (points, sizes) = keep_scaled(&scaled, &vec!['a', 'b', 'c']);
    assert_eq!(points, vec![(1, 2), (3, 4)]);
    assert_eq!(sizes, vec!['a', 'c']);
    assert!(is_bubble_series(&points, &sizes));
    let (_, none) = keep_scaled(&scaled, &Vec::<char>::new());
    assert!(none.is_empty());
    assert!(!is_bubble_series(&points, &none));
}

#[test]
fn staircases_hold_each_value() {
    assert_eq!(
        step_points(&vec![(0, 5), (1, 7), (2, 6)]),
        vec![(0, 5), (1, 5), (1, 7), (2, 7), (2, 6)]
    );
    assert_eq!(step_points(&vec![(0, 5)]), vec![(0, 5)]);
    assert!(step_points(&Vec::<(u8, u8)>::new()).is_empty());
}

#[test]
fn ranges_come_from_the_domain_where_it_maps() {
    let domain = Some((number("0"), number("10")));
    let log = Scale { kind: ScaleKind::Log, domain: domain.clone(), zero: true };
    assert_eq!(range_source(&log, Sign::Positive, Sign::Positive), RangeSource::Domain);
    assert_eq!(range_source(&log, Sign::Zero, Sign::Positive), RangeSource::Data);
    let sqrt = Scale { kind: ScaleKind::Sqrt, domain, zero: true };
    assert_eq!(range_source(&sqrt, Sign::Zero, Sign::Positive), RangeSource::Domain);
    assert_eq!(range_source(&sqrt, Sign::Negative, Sign::Positive), RangeSource::DataAndZero);
    let plain = Scale::default();
    assert_eq!(range_source(&plain, Sign::Zero, Sign::Zero), RangeSource::Data);
}

#[test]
fn transposing_exchanges_rows_and_columns() {
    let headers = strings(&["a", "b"]);
    let rows = vec![strings(&["1", "2"]), strings(&["3", "4"])];
    let natural = table_grid(&headers, &rows, false);
    let turned = table_grid(&headers, &rows, true);
    for r in 0..3 {
        for c in 0..2 {
            assert_eq!(natural.cells[r][c], turned.cells[c][r]);
        }
    }
    assert!(natural.is_header(0, 1) && !natural.is_header(1, 0));
    assert!(turned.is_header(1, 0) && !turned.is_header(0, 1));
}

#[test]
fn columns_weigh_their_longest_cell() {
    let rows = vec![strings(&["é", ""]), strings(&["four", ""])];
    let grid = table_grid(&strings(&["id", ""]), &rows, false);
    assert_eq!(grid.column_weights(2), vec![4, 1]);
}

#[test]
fn a_chart_without_cells_is_empty() {
    let none = bare_chart(Mark::Table, None);
    assert!(matches!(chart_grid(&none, &Vec::new()), Err(RenderError::Empty)));
    let view = TableView { headers: Vec::new(), rows: Vec::new(), transpose: true };
    let blank = bare_chart(Mark::Table, Some(view));
    assert!(matches!(chart_grid(&blank, &Vec::new()), Err(RenderError::Empty)));
    let view = TableView {
        headers: strings(&["n", "d"]),
        rows: vec![vec![Value::Number(number("1.50")), Value::Missing]],
        transpose: false,
    };
    let filled = bare_chart(Mark::Table, Some(view));
    let grid = chart_grid(&filled, &vec![strings(&["1.5", ""])]).unwrap();
    assert_eq!(grid.cells, vec![strings(&["n", "d"]), strings(&["1.5", "—"])]);
}

#[test]
fn ticks_beside_the_categories_have_no_label() {
    let labels = strings(&["jan", "feb"]);
    assert_eq!(category_label(&labels, Some(1)), "feb");
    assert_eq!(category_label(&labels, Some(2)), "");
    assert_eq!(category_label(&labels, None), "");
}

// --- The panel ---------------------------------------------------------------------

#[test]
fn controls_follow_the_registry() {
    assert_eq!(
        control_column(Mark::Arc),
        vec![
            Control::Mark,
            Control::Separator,
            Control::ColorField,
            Control::ThetaField,
            Control::Separator,
            Control::Titles,
            Control::FillOpacity,
            Control::InnerRadius,
            Control::Separator,
            Control::Theme,
            Control::Separator,
            Control::Export,
        ]
    );
    for mark in marks() {
        let controls = control_column(mark);
        let caps = hiker_charts::registry::caps(mark);
        assert_eq!(controls.contains(&Control::YFields), caps.channels.y);
        assert_eq!(controls.contains(&Control::Scales), caps.options.scales);
        assert_eq!(controls.contains(&Control::SeriesColors), caps.cartesian);
        assert_eq!(controls.contains(&Control::Bins), caps.options.bins);
    }
}

#[test]
fn choices_have_labels() {
    let marks: Vec<&str> = marks().into_iter().map(mark_label).collect();
    assert_eq!(marks, ["Bar", "Line", "Point", "Area", "Histogram", "Arc"]);
    assert_eq!(mark_label(Mark::Table), "Table");
    let kinds: Vec<&str> = scale_kinds().into_iter().map(scale_kind_label).collect();
    assert_eq!(kinds, ["Linear", "Log", "Sqrt"]);
    let labels: Vec<&str> = types().into_iter().map(type_label).collect();
    assert_eq!(labels, ["Quantitative", "Temporal", "Ordinal", "Nominal"]);
    let labels: Vec<&str> = palettes().into_iter().map(palette_label).collect();
    assert_eq!(labels, ["Category10", "Pastel", "Warm", "Cool", "Mono"]);
    assert_eq!((channel_tag(Channel::X), channel_tag(Channel::Color)), ("x", "color"));
    assert_eq!(type_text(Some(DataType::Nominal), None), "Nominal");
    assert_eq!(type_text(None, Some(DataType::Temporal)), "Auto (Temporal)");
    assert_eq!(type_text(None, None), "Auto (?)");
    assert_eq!((opt(""), opt("t")), (None, Some("t")));
    assert_eq!(rgb_to_color(color_to_rgb(Color::rgb(7, 8, 9))), Color::rgb(7, 8, 9));
    assert_eq!(pane_label(DataType::Quantitative), "quantitative");
}

#[test]
fn controls_edit_the_builder() {
    let mut s = builder();
    assert_eq!(current_field(&s, Channel::X), Some("month"));
    set_field(&mut s, Channel::X, Some("profit"));
    assert_eq!(current_field(&s, Channel::X), Some("profit"));
    assert_eq!(current_type(&s, Channel::Color), None);
    set_y(&mut s, "profit", true);
    assert!(is_y(&s, "profit"));
    set_y(&mut s, "profit", false);
    assert!(!is_y(&s, "profit"));
    simple_set(&mut s, SimpleChannel::Size, Some("profit"));
    assert_eq!(simple_current(&s, SimpleChannel::Size), Some("profit"));
    assert_eq!(simple_current(&s, SimpleChannel::Theta), None);
    choose_series_mode(&mut s, SeriesMode::Long);
    assert!(is_long(&s));
    assert_eq!(current_field(&s, Channel::Color), Some("month"));
    choose_series_mode(&mut s, SeriesMode::Wide);
    assert!(!is_long(&s));
    set_manual_domain(&mut s, Axis::Y, true);
    let (lo, hi) = current_scale(&s, Axis::Y).domain.unwrap();
    assert_eq!((lo.as_str().parse(), hi.as_str().parse()), (Ok(0.0), Ok(1.0)));
    set_manual_domain(&mut s, Axis::Y, false);
    assert_eq!(current_scale(&s, Axis::Y), Scale::default());
}

#[test]
fn themes_apply_when_the_choice_changes() {
    let mut s = builder();
    s.set_theme(Theme::light().with_palette(Palette::Mono));
    let same = ThemeChoice::default();
    apply_theme(&mut s, same, same);
    assert_eq!(s.theme().series, Palette::Mono.colors());
    let dark = ThemeChoice { dark: true, palette: Palette::Cool };
    apply_theme(&mut s, same, dark);
    assert_eq!(s.theme(), &dark.theme());
}

// --- The preview and the data pane -------------------------------------------------

#[test]
fn a_texture_is_uploaded_once_per_svg() {
    let mut view = PreviewState::new();
    assert_eq!(view.mode, PaneMode::default());
    assert!(view.needs_upload("<svg/>"));
    view.uploaded("<svg/>");
    assert!(!view.needs_upload("<svg/>"));
    assert_eq!(view.key, Some(svg_key("<svg/>")));
    assert!(view.needs_upload("<svg></svg>"));
}

#[test]
fn a_chart_is_framed_once() {
    let mut view = PreviewState::new();
    assert!(!view.take_fit(false));
    assert!(view.take_fit(true));
    assert!(!view.take_fit(true));
}

#[test]
fn gestures_have_an_order() {
    assert_eq!(key_action(true, true, true), KeyAction::Fit);
    assert_eq!(key_action(false, true, true), KeyAction::ZoomIn);
    assert_eq!(key_action(false, false, true), KeyAction::ZoomOut);
    assert_eq!(key_action(false, false, false), KeyAction::Nothing);
    assert_eq!(pointer_action(false, true, true), PointerAction::Nothing);
    assert_eq!(pointer_action(true, true, true), PointerAction::Zoom);
    assert_eq!(pointer_action(true, false, true), PointerAction::Pan);
    assert_eq!(pointer_action(true, false, false), PointerAction::Nothing);
}

#[test]
fn the_data_pane_shows_parsed_cells() {
    let table = csv("d,v\n1970-01-02,1\n,x\n");
    assert_eq!(column_types(&table), vec![DataType::Temporal, DataType::Nominal]);
    assert_eq!(
        data_rows(&table),
        vec![
            vec![Value::Time(86_400), Value::Category("1".to_string())],
            vec![Value::Missing, Value::Category("x".to_string())],
        ]
    );
}

// --- The command line --------------------------------------------------------------

#[test]
fn argument_errors_are_told_apart() {
    let fail = |argv: &[&str]| parse_args(strings(argv)).unwrap_err();
    assert_eq!(fail(&["-o"]), "`-o` needs an output path");
    assert_eq!(fail(&["a", "--help"]), usage());
    assert_eq!(fail(&["-x", "a"]), format!("unknown flag `-x`\n{}", usage()));
    let none = format!("expected a block file, or a spec and a data path\n{}", usage());
    assert_eq!(fail(&[]), none);
    assert_eq!(fail(&["a", "b", "c"]), none);
}

#[test]
fn the_last_output_path_counts() {
    let args = parse_args(strings(&["-o", "1.svg", "a", "--output", "-"])).unwrap();
    let out_path = Some("-".to_string());
    assert_eq!(args, Args::Block { block_path: "a".to_string(), out_path });
}

#[test]
fn each_step_has_its_message() {
    let spec = || plot(Mark::Line, "m", &["v"]);
    let failed = |r: Result<(ChartSpec, Table), String>| r.unwrap_err();
    assert_eq!(
        failed(block_inputs("config\n", Ok(spec()))),
        "block has no inline data (expected a `---` line followed by CSV)"
    );
    assert_eq!(
        failed(block_inputs("config\n", Err("bad".to_string()))),
        "could not resolve chart:\n  error: chart config: bad"
    );
    assert_eq!(failed(pair_inputs(Err("bad".to_string()), b"m,v\n")), "parsing spec: bad");
    assert!(failed(pair_inputs(Ok(spec()), b"m,v\n\xff,1\n")).starts_with("parsing data: "));
    let (short_of_v, table) = pair_inputs(Ok(spec()), b"m\n1\n").unwrap();
    assert_eq!(
        input_chart(&short_of_v, &table, &Computed::default()).unwrap_err(),
        "could not resolve chart:\n  error: y column `v` not found in data"
    );
    let (block_spec, table) = block_inputs("x\n---\nm,v\na,1\n", Ok(spec())).unwrap();
    assert_eq!((&block_spec, &table), (&spec(), &csv("m,v\na,1\n")));
    let chart = input_chart(&block_spec, &table, &Computed::default());
    assert_eq!(chart, Ok(draw(&spec(), &table).unwrap()));
    assert_eq!(format_diagnostics(&Vec::new()), "could not resolve chart:");
    assert_eq!(
        painted_svg(Err(RenderError::Empty)),
        Err("rendering chart: chart has no drawable series or points".to_string())
    );
    assert_eq!(
        painted_svg(Err(RenderError::Backend("x".to_string()))),
        Err("rendering chart: backend error: x".to_string())
    );
    assert_eq!(painted_svg(Ok(RenderOutput { svg: "s".to_string() })), Ok("s".to_string()));
}
