#![allow(deprecated)]

use hiker_charts::arithmetic::{Binning, Computed, Samples, Sum, Terms};
use hiker_charts::backend::{
    AxisKind, Backend, Coord, RenderError, RenderOutput, ResolvedChart, Series, Size,
};
use hiker_charts::block::{parse_block, split_block, ParsedBlock};
use hiker_charts::cli::{
    block_inputs, format_diagnostics, input_chart, painted_svg, pair_inputs, parse_args, Args,
    CANVAS_HEIGHT, CANVAS_WIDTH,
};
use hiker_charts::data::Table;
use hiker_charts::deps::data_dependencies;
use hiker_charts::diag::Diagnostic;
use hiker_charts::draw::{format_rows, table_grid};
use hiker_charts::dsl::{
    ChartSpec, Config, DataType, FieldDef, FieldSpec, Interpolate, Mark, Orientation, Scale,
    ScaleKind, Sign, YEncoding,
};
use hiker_charts::identity::content_hash;
use hiker_charts::model::{Axis, BuilderState, Channel, Provenance, SeriesMode};
use hiker_charts::numeral::Number;
use hiker_charts::resolve::{resolve, terms};
use hiker_charts::theme::{hex, series_color, Color, Palette, Theme};
use hiker_charts::typing::Value;

use serde_yml::{Mapping, Value as Yaml};

// --- Reading and writing specs -----------------------------------------------------

fn number(x: f64) -> Number {
    Number::parse(&format!("{x}")).unwrap()
}

fn amount(n: &Number) -> f64 {
    n.as_str().parse().unwrap()
}

fn amount_opt(n: &Option<Number>) -> Option<f64> {
    n.as_ref().map(amount)
}

fn text(value: &Yaml) -> Option<String> {
    value.as_str().map(|s| s.to_string())
}

fn text_list(value: &Yaml) -> Vec<String> {
    value.as_sequence().unwrap().iter().map(|v| text(v).unwrap()).collect()
}

fn mark_named(name: &str) -> Option<Mark> {
    let marks = [
        Mark::Bar,
        Mark::Line,
        Mark::Point,
        Mark::Area,
        Mark::Histogram,
        Mark::Arc,
        Mark::Table,
    ];
    marks.into_iter().find(|m| m.name().to_lowercase() == name)
}

fn type_named(name: &str) -> DataType {
    match name {
        "quantitative" => DataType::Quantitative,
        "temporal" => DataType::Temporal,
        "ordinal" => DataType::Ordinal,
        "nominal" => DataType::Nominal,
        other => panic!("unknown type {other}"),
    }
}

fn field(value: &Yaml) -> FieldDef {
    match text(value) {
        Some(name) => FieldDef::Shorthand(name),
        None => {
            let map = value.as_mapping().unwrap();
            FieldDef::Full(FieldSpec {
                field: text(map.get("field").unwrap()).unwrap(),
                ty: map.get("type").map(|t| type_named(t.as_str().unwrap())),
            })
        }
    }
}

fn scale(value: &Yaml) -> Scale {
    let map = value.as_mapping().unwrap();
    let kind = match map.get("kind").and_then(|k| k.as_str()) {
        Some("log") => ScaleKind::Log,
        Some("sqrt") => ScaleKind::Sqrt,
        _ => ScaleKind::Linear,
    };
    let domain = map.get("domain").map(|d| {
        let ends = d.as_sequence().unwrap();
        (number(ends[0].as_f64().unwrap()), number(ends[1].as_f64().unwrap()))
    });
    let zero = map.get("zero").and_then(|z| z.as_bool()).unwrap_or(false);
    Scale { kind, domain, zero }
}

fn config(value: &Yaml) -> Config {
    let map = value.as_mapping().unwrap();
    let mut c = Config::default();
    c.title = map.get("title").and_then(text);
    c.x_title = map.get("x_title").and_then(text);
    c.y_title = map.get("y_title").and_then(text);
    c.legend = map.get("legend").and_then(|v| v.as_bool()).unwrap_or(true);
    c.palette = map.get("palette").map(text_list);
    c.point_size = map.get("point_size").and_then(|v| v.as_f64()).map(number);
    c.line_width = map.get("line_width").and_then(|v| v.as_f64()).map(number);
    c.fill_opacity = map.get("fill_opacity").and_then(|v| v.as_f64()).map(number);
    c.inner_radius = map.get("inner_radius").and_then(|v| v.as_f64()).map(number);
    c.stack = map.get("stack").and_then(|v| v.as_bool()).unwrap_or(false);
    c.interpolate = match map.get("interpolate").and_then(|v| v.as_str()) {
        Some("step") => Some(Interpolate::Step),
        Some("linear") => Some(Interpolate::Linear),
        _ => None,
    };
    c.show_grid = map.get("show_grid").and_then(|v| v.as_bool()).unwrap_or(true);
    c.orientation = match map.get("orientation").and_then(|v| v.as_str()) {
        Some("horizontal") => Some(Orientation::Horizontal),
        Some("vertical") => Some(Orientation::Vertical),
        _ => None,
    };
    c.bins = map.get("bins").and_then(|v| v.as_u64()).map(|n| n as usize);
    c.x_scale = map.get("x_scale").map(scale);
    c.y_scale = map.get("y_scale").map(scale);
    c.transpose = map.get("transpose").and_then(|v| v.as_bool()).unwrap_or(false);
    c
}

fn from_yaml(yaml: &str) -> Result<ChartSpec, String> {
    let value: Yaml = serde_yml::from_str(yaml).map_err(|e| e.to_string())?;
    let map = value.as_mapping().ok_or("expected a mapping")?;
    let name = map.get("mark").and_then(|m| m.as_str()).ok_or("missing field `mark`")?;
    let mut spec = ChartSpec::new(mark_named(name).ok_or("unknown mark")?);
    for (key, v) in map.iter() {
        match key.as_str() {
            "mark" => {}
            "x" => spec.x = Some(field(v)),
            "y" => {
                spec.y = Some(match v.as_sequence() {
                    Some(items) => YEncoding::Many(items.iter().map(field).collect()),
                    None => YEncoding::One(field(v)),
                })
            }
            "color" => spec.color = Some(field(v)),
            "size" => spec.size = Some(field(v)),
            "theta" => spec.theta = Some(field(v)),
            "data" => spec.data = text(v),
            "columns" => spec.columns = Some(text_list(v)),
            "config" => spec.config = config(v),
            other => spec.extra.push((other.to_string(), serde_yml::to_string(v).unwrap())),
        }
    }
    Ok(spec)
}

fn field_value(def: &FieldDef) -> Yaml {
    match def.parts() {
        (name, None) => Yaml::from(name),
        (name, Some(ty)) => {
            let mut map = Mapping::new();
            map.insert("field".to_string(), Yaml::from(name));
            map.insert("type".to_string(), Yaml::from(format!("{ty:?}").to_lowercase()));
            Yaml::from(map)
        }
    }
}

/// Writes the channels and the data reference; the specs here keep the default config.
fn to_yaml(spec: &ChartSpec) -> String {
    assert_eq!(spec.config, Config::default());
    let mut map = Mapping::new();
    map.insert("mark".to_string(), Yaml::from(spec.mark.name().to_lowercase()));
    if let Some(x) = &spec.x {
        map.insert("x".to_string(), field_value(x));
    }
    match &spec.y {
        Some(YEncoding::One(def)) => {
            map.insert("y".to_string(), field_value(def));
        }
        Some(YEncoding::Many(defs)) => {
            let items: Vec<Yaml> = defs.iter().map(field_value).collect();
            map.insert("y".to_string(), Yaml::from(items));
        }
        None => {}
    }
    if let Some(color) = &spec.color {
        map.insert("color".to_string(), field_value(color));
    }
    if let Some(data) = &spec.data {
        map.insert("data".to_string(), Yaml::from(data.as_str()));
    }
    serde_yml::to_string(&Yaml::from(map)).unwrap()
}

fn parse(body: &str) -> Result<ParsedBlock, Vec<Diagnostic>> {
    parse_block(body, from_yaml(split_block(body).0))
}

// --- Painting ----------------------------------------------------------------------

fn coord(c: &Coord) -> f64 {
    match c {
        Coord::Number(n) => amount(n),
        Coord::Time(t) => *t as f64,
        Coord::Whole(n) => *n as f64,
    }
}

fn points(series: &Series) -> Vec<(f64, f64)> {
    series.points.iter().map(|(x, y)| (coord(x), coord(y))).collect()
}

/// The bucket of each sample and the center of each bucket. Equal samples share one bucket.
fn sort_samples(samples: &Samples) -> Option<Binning> {
    let values: Vec<f64> = samples.values.iter().map(amount).collect();
    let lo = values.iter().copied().fold(f64::INFINITY, f64::min);
    let hi = values.iter().copied().fold(f64::NEG_INFINITY, f64::max);
    if !lo.is_finite() || !hi.is_finite() {
        return None;
    }
    if (hi - lo).abs() < f64::EPSILON {
        return Some(Binning { landed: vec![0; values.len()], centers: vec![number(lo)] });
    }
    let width = (hi - lo) / samples.bins as f64;
    Some(Binning {
        landed: values.iter().map(|v| ((v - lo) / width) as usize).collect(),
        centers: (0..samples.bins).map(|i| number(lo + (i as f64 + 0.5) * width)).collect(),
    })
}

fn add_up(parts: &[Number]) -> Sum {
    let total: f64 = parts.iter().map(amount).sum();
    let sign = if total > 0.0 {
        Sign::Positive
    } else if total < 0.0 {
        Sign::Negative
    } else if total == 0.0 {
        Sign::Zero
    } else {
        Sign::Unordered
    };
    Sum { value: number(total), sign }
}

fn compute(terms: &Terms) -> Computed {
    Computed {
        binning: terms.samples.as_ref().and_then(sort_samples),
        sums: terms.groups.iter().map(|g| add_up(g)).collect(),
    }
}

fn resolve_all(spec: &ChartSpec, table: &Table) -> Result<ResolvedChart, Vec<Diagnostic>> {
    resolve(spec, table, &compute(&terms(spec, table)))
}

fn number_texts(rows: &[Vec<Value>]) -> Vec<Vec<String>> {
    rows.iter()
        .map(|row| {
            row.iter()
                .map(|v| match v {
                    Value::Number(n) => format!("{}", amount(n)),
                    _ => String::new(),
                })
                .collect()
        })
        .collect()
}

/// Lists what a chart draws in a small SVG document.
struct Outline;

impl Backend for Outline {
    fn render(
        &self,
        chart: &ResolvedChart,
        theme: &Theme,
        size: Size,
    ) -> Result<RenderOutput, RenderError> {
        if chart.series.is_empty() && chart.slices.is_empty() && chart.table.is_none() {
            return Err(RenderError::Empty);
        }
        let mut svg = format!(
            "<svg xmlns=\"http://www.w3.org/2000/svg\" width=\"{}\" height=\"{}\">",
            size.width, size.height
        );
        svg.push_str(&format!("<title>{}</title>", chart.mark.name()));
        for (i, s) in chart.series.iter().enumerate() {
            let color = hex(series_color(&chart.config.palette, theme, i));
            svg.push_str(&format!("<g stroke=\"{color}\">{} {:?}</g>", s.name, points(s)));
        }
        for s in &chart.slices {
            svg.push_str(&format!("<g>{} {}</g>", s.label, amount(&s.value)));
        }
        if let Some(table) = &chart.table {
            let rows = format_rows(table, &number_texts(&table.rows));
            let grid = table_grid(&table.headers, &rows, table.transpose);
            for row in &grid.cells {
                svg.push_str(&format!("<text>{}</text>", row.join(" ")));
            }
        }
        svg.push_str("</svg>");
        Ok(RenderOutput { svg })
    }
}

fn paint(inputs: Result<(ChartSpec, Table), String>) -> Result<String, String> {
    let (spec, table) = inputs?;
    let chart = input_chart(&spec, &table, &compute(&terms(&spec, &table)))?;
    let size = Size { width: CANVAS_WIDTH, height: CANVAS_HEIGHT };
    painted_svg(Outline.render(&chart, &Theme::default(), size))
}

fn render_block(body: &str) -> Result<String, String> {
    paint(block_inputs(body, from_yaml(split_block(body).0)))
}

fn render_svg(spec_yaml: &str, csv: &[u8]) -> Result<String, String> {
    paint(pair_inputs(from_yaml(spec_yaml), csv))
}

// --- Specs -------------------------------------------------------------------------

#[test]
fn parses_shorthand_and_list_y() {
    let yaml = "mark: line\nx: month\ny: [revenue, profit]\n";
    let spec = from_yaml(yaml).unwrap();
    assert_eq!(spec.mark, Mark::Line);
    assert_eq!(spec.x_field(), Some(("month", None)));
    assert_eq!(spec.y_fields(), vec![("revenue", None), ("profit", None)]);
}

#[test]
fn parses_full_field_with_type() {
    let yaml = "mark: point\nx: { field: t, type: temporal }\ny: v\n";
    let spec = from_yaml(yaml).unwrap();
    assert_eq!(spec.x_field(), Some(("t", Some(DataType::Temporal))));
    assert!(matches!(spec.y, Some(YEncoding::One(FieldDef::Shorthand(_)))));
}

#[test]
fn legend_defaults_true_color_optional() {
    let spec = from_yaml("mark: area\nx: a\ny: b\n").unwrap();
    assert!(spec.config.legend);
    assert_eq!(spec.color_field(), None);
    assert_eq!(spec.data, None);
}

#[test]
fn old_spec_without_new_fields_deserializes() {
    let yaml = "mark: bar\nx: month\ny: [revenue, profit]\nconfig:\n  title: Old\n";
    let spec = from_yaml(yaml).unwrap();
    assert_eq!(spec.config.point_size, None);
    assert_eq!(spec.config.line_width, None);
    assert_eq!(spec.config.fill_opacity, None);
    assert!(!spec.config.stack);
    assert_eq!(spec.config.interpolate, None);
    assert!(spec.config.show_grid);
    assert!(spec.config.legend);
}

#[test]
fn histogram_and_arc_marks_parse() {
    assert_eq!(from_yaml("mark: histogram\nx: v\n").unwrap().mark, Mark::Histogram);
    assert_eq!(from_yaml("mark: arc\ntheta: v\ncolor: c\n").unwrap().mark, Mark::Arc);
}

// --- Dependencies ------------------------------------------------------------------

#[test]
fn external_data_is_a_dependency() {
    let spec = from_yaml("mark: line\nx: a\ny: b\ndata: sales.csv\n").unwrap();
    assert_eq!(data_dependencies(&spec), vec!["sales.csv".to_string()]);
}

#[test]
fn inline_data_has_no_dependencies() {
    let spec = from_yaml("mark: line\nx: a\ny: b\n").unwrap();
    assert!(data_dependencies(&spec).is_empty());
}

#[test]
fn empty_identifier_is_ignored() {
    let spec = from_yaml("mark: line\nx: a\ny: b\ndata: ''\n").unwrap();
    assert!(data_dependencies(&spec).is_empty());
}

#[test]
fn identifier_is_passed_through_verbatim() {
    let spec = from_yaml("mark: line\nx: a\ny: b\ndata: ../some/Path To.csv\n").unwrap();
    assert_eq!(data_dependencies(&spec), vec!["../some/Path To.csv".to_string()]);
}

// --- Identity ----------------------------------------------------------------------

fn inputs() -> (ChartSpec, Table, Theme, Size) {
    let spec = from_yaml("mark: line\nx: month\ny: v\n").unwrap();
    let table = Table::from_csv(b"month,v\njan,1\n").unwrap();
    let size = Size { width: 640, height: 480 };
    (spec, table, Theme::default(), size)
}

#[test]
fn identical_inputs_hash_equal() {
    let (s, t, th, sz) = inputs();
    assert_eq!(content_hash(&s, &t, &th, sz), content_hash(&s, &t, &th, sz));
}

#[test]
fn spec_change_changes_hash() {
    let (s, t, th, sz) = inputs();
    let base = content_hash(&s, &t, &th, sz);
    let s2 = from_yaml("mark: bar\nx: month\ny: v\n").unwrap();
    assert_ne!(base, content_hash(&s2, &t, &th, sz));
}

#[test]
fn data_change_changes_hash() {
    let (s, _t, th, sz) = inputs();
    let t2 = Table::from_csv(b"month,v\njan,2\n").unwrap();
    let t1 = Table::from_csv(b"month,v\njan,1\n").unwrap();
    assert_ne!(content_hash(&s, &t1, &th, sz), content_hash(&s, &t2, &th, sz));
}

#[test]
fn theme_and_size_change_the_hash() {
    let (s, t, th, sz) = inputs();
    let base = content_hash(&s, &t, &th, sz);
    let mut th2 = th.clone();
    th2.background = Color::rgb(0, 0, 0);
    assert_ne!(base, content_hash(&s, &t, &th2, sz));
    let sz2 = Size { width: 800, height: 480 };
    assert_ne!(base, content_hash(&s, &t, &th, sz2));
}

// --- Blocks ------------------------------------------------------------------------

const BLOCK: &str =
    "mark: line\nx: month\ny: revenue\n---\nmonth,revenue\n2024-01,100\n2024-02,140\n";

#[test]
fn parse_block_yields_spec_and_table() {
    let parsed = parse(BLOCK).expect("valid block parses");
    assert_eq!(parsed.spec.mark, Mark::Line);
    let table = parsed.table.expect("inline csv yields a table");
    assert_eq!(table.columns.len(), 2);
    assert_eq!(table.row_count(), 2);
    assert_eq!(parsed.csv_body.as_deref(), Some("month,revenue\n2024-01,100\n2024-02,140\n"));
}

#[test]
fn parse_block_without_csv_has_no_table() {
    let parsed = parse("mark: bar\nx: a\ny: b\ndata: sales.csv\n").expect("parses");
    assert!(parsed.table.is_none());
    assert!(parsed.csv_body.is_none());
    assert_eq!(parsed.spec.data.as_deref(), Some("sales.csv"));
}

#[test]
fn bad_config_is_a_diagnostic() {
    let diags = parse("mark: : :\n---\na,b\n1,2\n").unwrap_err();
    assert!(diags[0].message.contains("chart config"), "got: {:?}", diags);
}

// --- Resolving ---------------------------------------------------------------------

fn chart(spec_yaml: &str, csv: &[u8]) -> ResolvedChart {
    let spec = from_yaml(spec_yaml).unwrap();
    let table = Table::from_csv(csv).unwrap();
    resolve_all(&spec, &table).unwrap()
}

fn shown_rows(chart: &ResolvedChart) -> Vec<Vec<String>> {
    let t = chart.table.as_ref().expect("table mark resolves a TableView");
    format_rows(t, &number_texts(&t.rows))
}

#[test]
fn table_defaults_to_all_columns_and_formats_cells() {
    let c = chart("mark: table\n", b"day,revenue\n2021-01-01,1000\n2021-02-01,1400.5\n");
    let t = c.table.as_ref().expect("table mark resolves a TableView");
    assert_eq!(t.headers, vec!["day", "revenue"]);
    // Dates are formatted via the temporal inference; numbers normalized.
    assert_eq!(
        shown_rows(&c),
        vec![
            vec!["2021-01-01".to_string(), "1000".to_string()],
            vec!["2021-02-01".to_string(), "1400.5".to_string()],
        ]
    );
    assert!(!t.transpose);
    assert!(c.series.is_empty() && c.slices.is_empty());
}

#[test]
fn table_selects_and_orders_columns_dropping_unknowns() {
    let c = chart(
        "mark: table\ncolumns: [revenue, month, nope]\nconfig:\n  transpose: true\n",
        b"month,revenue,profit\njan,100,20\nfeb,140,35\n",
    );
    let t = c.table.as_ref().expect("table view");
    assert_eq!(t.headers, vec!["revenue", "month"]);
    assert_eq!(shown_rows(&c)[0], vec!["100".to_string(), "jan".to_string()]);
    assert!(t.transpose);
}

#[test]
fn table_with_no_known_columns_errors() {
    let spec = from_yaml("mark: table\ncolumns: [missing]\n").unwrap();
    let table = Table::from_csv(b"month,revenue\njan,100\n").unwrap();
    assert!(resolve_all(&spec, &table).is_err());
}

#[test]
fn wide_and_long_produce_identical_series() {
    let wide = chart(
        "mark: line\nx: month\ny: [revenue, profit]\n",
        b"month,revenue,profit\njan,100,20\nfeb,140,35\n",
    );
    let long = chart(
        "mark: line\nx: month\ny: value\ncolor: metric\n",
        b"month,metric,value\njan,revenue,100\njan,profit,20\nfeb,revenue,140\nfeb,profit,35\n",
    );
    assert_eq!(wide.series, long.series);
    assert_eq!(wide.series.len(), 2);
    assert_eq!(wide.series[0].name, "revenue");
    assert_eq!(points(&wide.series[0]), vec![(0.0, 100.0), (1.0, 140.0)]);
}

#[test]
fn single_series_resolves() {
    let c = chart("mark: bar\nx: month\ny: revenue\n", b"month,revenue\njan,100\nfeb,140\n");
    assert_eq!(c.series.len(), 1);
    assert_eq!(c.series[0].name, "revenue");
    assert!(matches!(c.x_axis.kind, AxisKind::Categorical(_)));
}

#[test]
fn categorical_x_indexes_stably() {
    let c = chart("mark: line\nx: month\ny: v\n", b"month,v\njan,1\nfeb,2\njan,3\n");
    match &c.x_axis.kind {
        AxisKind::Categorical(labels) => assert_eq!(labels, &["jan", "feb"]),
        other => panic!("expected categorical, got {other:?}"),
    }
    assert_eq!(points(&c.series[0]), vec![(0.0, 1.0), (1.0, 2.0), (0.0, 3.0)]);
}

#[test]
fn temporal_x_is_epoch_seconds() {
    let c = chart(
        "mark: line\nx: { field: d, type: temporal }\ny: v\n",
        b"d,v\n1970-01-01,5\n1970-01-02,6\n",
    );
    assert!(matches!(c.x_axis.kind, AxisKind::Temporal));
    assert_eq!(points(&c.series[0]), vec![(0.0, 5.0), (86_400.0, 6.0)]);
}

#[test]
fn missing_column_is_a_diagnostic() {
    let spec = from_yaml("mark: bar\nx: nope\ny: v\n").unwrap();
    let table = Table::from_csv(b"month,v\njan,1\n").unwrap();
    let errs = resolve_all(&spec, &table).unwrap_err();
    assert!(errs.iter().any(|d| d.message.contains("nope")));
}

#[test]
fn rows_with_missing_values_are_dropped() {
    let c = chart("mark: line\nx: month\ny: v\n", b"month,v\njan,1\nfeb,\nmar,3\n");
    assert_eq!(points(&c.series[0]), vec![(0.0, 1.0), (2.0, 3.0)]);
}

/// Histogram bins the x column into equal-width buckets; y axis is titled "count".
#[test]
fn histogram_bins_x_into_counts() {
    let c = chart("mark: histogram\nx: v\nconfig:\n  bins: 2\n", b"v\n0\n1\n2\n3\n4\n");
    assert_eq!(c.series.len(), 1);
    let counts: Vec<f64> = points(&c.series[0]).iter().map(|&(_, n)| n).collect();
    // range 0..4, 2 bins of width 2: [0,2) gets 0,1; the max 4 lands in the last bin.
    assert_eq!(counts.iter().sum::<f64>(), 5.0);
    assert_eq!(counts.len(), 2);
    assert_eq!(counts, vec![2.0, 3.0]);
    assert_eq!(c.y_axis.title, "count");
    assert!(c.slices.is_empty());
}

/// Histogram bin centers sit at the middle of each equal-width bucket.
#[test]
fn histogram_bin_centers_are_midpoints() {
    let c = chart("mark: histogram\nx: v\nconfig:\n  bins: 2\n", b"v\n0\n10\n");
    let centers: Vec<f64> = points(&c.series[0]).iter().map(|&(x, _)| x).collect();
    assert_eq!(centers, vec![2.5, 7.5]);
}

/// Samples that are all equal collapse to a single bucket at their value.
#[test]
fn equal_samples_share_one_bucket() {
    let c = chart("mark: histogram\nx: v\nconfig:\n  bins: 4\n", b"v\n7\n7\n7\n");
    assert_eq!(points(&c.series[0]), vec![(7.0, 3.0)]);
}

/// Charts whose numbers leave nothing to draw are errors.
#[test]
fn undrawable_arithmetic_is_an_error() {
    let fail = |yaml: &str, csv: &[u8]| {
        let spec = from_yaml(yaml).unwrap();
        let diags = resolve_all(&spec, &Table::from_csv(csv).unwrap()).unwrap_err();
        diags.last().unwrap().message.clone()
    };
    let unbinnable = "histogram has no numeric values to bin";
    assert_eq!(fail("mark: histogram\nx: v\n", b"v\na\nb\n"), unbinnable);
    assert_eq!(fail("mark: histogram\nx: v\n", b"v\ninf\n-inf\n"), unbinnable);
    assert_eq!(
        fail("mark: arc\ntheta: v\ncolor: g\n", b"g,v\na,-1\nb,0\na,1\n"),
        "arc has no positive slices after aggregation"
    );
}

/// Arc groups by color and sums theta per group into slices; series stays empty.
#[test]
fn arc_aggregates_slices_by_color() {
    let c = chart(
        "mark: arc\ntheta: amt\ncolor: region\n",
        b"region,amt\nnorth,10\nsouth,5\nnorth,15\n",
    );
    assert!(c.series.is_empty());
    assert_eq!(c.slices.len(), 2);
    assert_eq!(c.slices[0].label, "north");
    assert_eq!(amount(&c.slices[0].value), 25.0);
    assert_eq!(c.slices[0].color_index, 0);
    assert_eq!(c.slices[1].label, "south");
    assert_eq!(amount(&c.slices[1].value), 5.0);
    assert_eq!(c.slices[1].color_index, 1);
}

/// Arc without a theta channel is a hard error.
#[test]
fn arc_missing_theta_errors() {
    let spec = from_yaml("mark: arc\ncolor: region\n").unwrap();
    let table = Table::from_csv(b"region,amt\nnorth,10\n").unwrap();
    let errs = resolve_all(&spec, &table).unwrap_err();
    assert!(errs.iter().any(|d| d.message.contains("theta")));
}

/// A bound size channel fills the (single) series' sizes for a point mark.
#[test]
fn size_channel_populates_sizes_for_points() {
    let c = chart("mark: point\nx: a\ny: b\nsize: pop\n", b"a,b,pop\n1,2,100\n3,4,200\n");
    let sizes: Vec<f64> = c.series[0].sizes.iter().map(amount).collect();
    assert_eq!(sizes, vec![100.0, 200.0]);
}

/// A size channel on a mark that does not accept it leaves sizes empty and warns.
#[test]
fn size_on_bar_is_ignored_with_warning() {
    let spec = from_yaml("mark: bar\nx: a\ny: b\nsize: pop\n").unwrap();
    let table = Table::from_csv(b"a,b,pop\n1,2,100\n").unwrap();
    let c = resolve_all(&spec, &table).unwrap();
    assert!(c.series[0].sizes.is_empty());
}

/// Config axis scales are copied onto the resolved axes.
#[test]
fn config_scales_copied_into_axes() {
    let c = chart(
        "mark: line\nx: a\ny: b\nconfig:\n  y_scale:\n    kind: log\n",
        b"a,b\n1,10\n2,100\n",
    );
    assert_eq!(c.y_axis.scale.kind, ScaleKind::Log);
    assert_eq!(c.x_axis.scale.kind, ScaleKind::Linear);
}

// --- The builder -------------------------------------------------------------------

fn table() -> Table {
    Table::from_csv(b"month,revenue,profit\njan,100,20\nfeb,140,35\n").unwrap()
}

fn render(s: &mut BuilderState) -> Option<&RenderOutput> {
    let computed = compute(&s.terms());
    s.render(&Outline, &computed)
}

fn state() -> BuilderState {
    let spec = from_yaml("mark: line\nx: month\ny: revenue\n").unwrap();
    BuilderState::new(spec, table(), Theme::default(), Size { width: 320, height: 240 })
}

#[test]
fn transition_changes_spec() {
    let mut s = state();
    assert_eq!(s.spec().mark, Mark::Line);
    s.set_mark(Mark::Bar);
    assert_eq!(s.spec().mark, Mark::Bar);
    s.add_y("profit");
    assert_eq!(s.spec().y_fields().len(), 2);
    s.remove_y("revenue");
    assert_eq!(s.spec().y_fields(), vec![("profit", None)]);
}

#[test]
fn columns_and_inferred_types() {
    let s = state();
    assert_eq!(s.columns(), vec!["month", "revenue", "profit"]);
    assert_eq!(s.inferred_type("revenue"), Some(DataType::Quantitative));
    assert_eq!(s.inferred_type("month"), Some(DataType::Nominal));
    assert_eq!(s.inferred_type("nope"), None);
}

#[test]
fn set_field_type_promotes_to_full_form() {
    let mut s = state();
    s.set_field_type(Channel::X, Some(DataType::Temporal));
    assert_eq!(s.spec().x_field(), Some(("month", Some(DataType::Temporal))));
}

#[test]
fn series_mode_toggles_wide_long() {
    let mut s = state();
    s.add_y("profit");
    s.set_series_mode(SeriesMode::Long, Some("metric"));
    assert_eq!(s.spec().y_fields().len(), 1);
    assert_eq!(s.spec().color_field(), Some(("metric", None)));
    s.set_series_mode(SeriesMode::Wide, None);
    assert_eq!(s.spec().color_field(), None);
}

#[test]
fn render_caches_until_input_changes() {
    let mut s = state();
    let first = render(&mut s).expect("first render").svg.clone();
    // Same inputs: the cached output is byte-identical (no recompute).
    let second = render(&mut s).expect("cached render").svg.clone();
    assert_eq!(first, second);
    // A spec change invalidates the cache and yields different output.
    s.set_mark(Mark::Bar);
    let third = render(&mut s).expect("re-render").svg.clone();
    assert_ne!(first, third);
}

#[test]
fn to_block_is_self_contained_and_round_trips() {
    let s = state();
    let block = s.to_block(&to_yaml(s.spec()));
    assert!(block.starts_with("```chart\n"));
    assert!(block.ends_with("```"));
    assert!(block.contains("---\n"), "self-contained block carries inline CSV");
    let inner = block.trim_start_matches("```chart\n").trim_end_matches("```");
    let parsed = parse(inner).expect("self-contained block parses");
    assert_eq!(&parsed.spec, s.spec());
    let table = parsed.table.expect("inline CSV yields a table");
    assert_eq!(table.columns.len(), 3, "month,revenue,profit survive the round-trip");
}

#[test]
fn to_block_reference_emits_data_path_and_no_csv() {
    let s = state();
    let block = s.to_block_reference(&to_yaml(&s.reference_spec("data/sales.csv")));
    assert!(!block.contains("---\n"), "reference block carries no inline CSV");
    let inner = block.trim_start_matches("```chart\n").trim_end_matches("```");
    let parsed = parse(inner).expect("reference block parses");
    assert_eq!(parsed.spec.data.as_deref(), Some("data/sales.csv"));
    assert!(parsed.table.is_none());
    // The live spec is untouched (no `data:` leaked in).
    assert_eq!(s.spec().data, None);
}

#[test]
fn to_block_inline_serializes_table_without_csv_body() {
    let s = state(); // built from a table, so there is no CSV text to keep
    let block = s.to_block_inline(&to_yaml(s.spec()));
    let inner = block.trim_start_matches("```chart\n").trim_end_matches("```");
    let parsed = parse(inner).expect("parses");
    let table = parsed.table.expect("table serialized into the block");
    assert_eq!(table.row_count(), 2, "both data rows serialized");
}

#[test]
fn from_block_save_preserves_csv_verbatim() {
    let csv = "month,revenue\njan,100\nfeb,140\n";
    let prov = Provenance { note_id: "n1".to_string(), byte_range: 10..42 };
    let s = BuilderState::from_block(
        from_yaml("mark: bar\nx: month\ny: revenue\n"),
        table(),
        Some(csv.to_string()),
        prov,
        Theme::default(),
        Size { width: 320, height: 240 },
    )
    .ok()
    .unwrap();
    let (body, range) = s.save_block(&to_yaml(s.spec())).expect("provenance present");
    assert_eq!(range, 10..42);
    assert!(body.contains("---\n"));
    // The original CSV bytes survive verbatim after the separator.
    assert!(body.ends_with(csv));
}

#[test]
fn save_block_none_without_provenance() {
    let s = state();
    assert!(s.save_block(&to_yaml(s.spec())).is_none());
}

#[test]
fn from_block_body_parses_inline_csv_and_round_trips() {
    let body = "mark: bar\nx: month\ny: revenue\n---\nmonth,revenue\njan,100\nfeb,140\n";
    let prov = Provenance { note_id: "n1".to_string(), byte_range: 0..body.len() };
    let s = BuilderState::from_block_body(
        body,
        from_yaml(split_block(body).0),
        prov,
        Theme::default(),
        Size { width: 320, height: 240 },
    )
    .ok()
    .expect("inline-csv block opens");
    // The inline CSV became the builder's table.
    assert_eq!(s.columns(), vec!["month", "revenue"]);
    assert_eq!(s.spec().mark, Mark::Bar);
    // Save re-emits the `---` + CSV shape the read half just consumed: the data
    // bytes survive verbatim, so open→save is a faithful round-trip.
    let (saved, _) = s.save_block(&to_yaml(s.spec())).expect("provenance present");
    assert!(saved.contains("---\n"));
    assert!(saved.ends_with("month,revenue\njan,100\nfeb,140\n"));
}

#[test]
fn from_block_body_errors_without_inline_data() {
    let prov = Provenance { note_id: "n1".to_string(), byte_range: 0..0 };
    let body = "mark: bar\nx: a\ny: b\ndata: sales.csv\n";
    let result = BuilderState::from_block_body(
        body,
        from_yaml(split_block(body).0),
        prov,
        Theme::default(),
        Size { width: 320, height: 240 },
    );
    match result {
        Err(err) => assert!(err.contains("no inline data"), "got: {err}"),
        Ok(_) => panic!("a block without inline data should not open"),
    }
}

#[test]
fn styling_transitions_change_config() {
    let mut s = state();
    s.set_x_title(Some("Month"));
    s.set_y_title(Some("USD"));
    s.set_point_size(Some(number(6.0)));
    s.set_line_width(Some(number(2.5)));
    s.set_fill_opacity(Some(number(0.4)));
    s.set_stack(true);
    s.set_interpolate(Some(Interpolate::Step));
    s.set_show_grid(false);
    let c = &s.spec().config;
    assert_eq!(c.x_title.as_deref(), Some("Month"));
    assert_eq!(c.y_title.as_deref(), Some("USD"));
    assert_eq!(amount_opt(&c.point_size), Some(6.0));
    assert_eq!(amount_opt(&c.line_width), Some(2.5));
    assert_eq!(amount_opt(&c.fill_opacity), Some(0.4));
    assert!(c.stack);
    assert_eq!(c.interpolate, Some(Interpolate::Step));
    assert!(!c.show_grid);
    // Clearing an Option title removes it.
    s.set_x_title(None);
    assert_eq!(s.spec().config.x_title, None);
}

#[test]
fn set_theme_replaces_theme() {
    let mut s = state();
    assert_eq!(s.theme(), &Theme::light());
    s.set_theme(Theme::dark().with_palette(Palette::Warm));
    assert_eq!(s.theme().background, Theme::dark().background);
    assert_eq!(s.theme().series, Palette::Warm.colors());
}

#[test]
fn set_series_color_pads_and_renders() {
    let mut s = state();
    s.add_y("profit"); // two series: revenue, profit
    // Color the second series red; the first is padded from the theme.
    s.set_series_color(1, Color::rgb(0xff, 0x00, 0x00));
    let palette = s.spec().config.palette.as_ref().expect("palette set");
    assert_eq!(palette.len(), 2);
    assert_eq!(palette[1], "#ff0000");
    // The padded first entry is the theme's first series color.
    assert_eq!(palette[0], "#1f77b4");
    // The override shows up in the rendered SVG.
    let svg = render(&mut s).expect("render").svg.clone();
    assert!(svg.to_uppercase().contains("FF0000"), "override color missing");
    // Reset drops the override.
    s.clear_palette();
    assert!(s.spec().config.palette.is_none());
}

#[test]
fn size_and_theta_channels_bind_and_clear() {
    let mut s = state();
    s.set_size(Some("revenue"));
    s.set_theta(Some("profit"));
    assert_eq!(s.spec().size_field(), Some(("revenue", None)));
    assert_eq!(s.spec().theta_field(), Some(("profit", None)));
    s.set_size(None);
    s.set_theta(None);
    assert_eq!(s.spec().size_field(), None);
    assert_eq!(s.spec().theta_field(), None);
}

#[test]
fn new_option_transitions_change_config() {
    let mut s = state();
    s.set_orientation(Some(Orientation::Horizontal));
    s.set_bins(Some(15));
    s.set_inner_radius(Some(number(0.3)));
    let c = &s.spec().config;
    assert_eq!(c.orientation, Some(Orientation::Horizontal));
    assert_eq!(c.bins, Some(15));
    assert_eq!(amount_opt(&c.inner_radius), Some(0.3));
    s.set_orientation(None);
    s.set_bins(None);
    s.set_inner_radius(None);
    let c = &s.spec().config;
    assert_eq!(c.orientation, None);
    assert_eq!(c.bins, None);
    assert_eq!(c.inner_radius, None);
}

#[test]
fn scale_edits_compose_kind_domain_zero() {
    let mut s = state();
    s.set_scale_kind(Axis::X, ScaleKind::Log);
    s.set_scale_domain(Axis::X, Some((number(1.0), number(1000.0))));
    s.set_scale_zero(Axis::X, true);
    let x = s.spec().config.x_scale.clone().expect("x scale set");
    assert_eq!(x.kind, ScaleKind::Log);
    assert_eq!(x.domain.map(|(a, b)| (amount(&a), amount(&b))), Some((1.0, 1000.0)));
    assert!(x.zero);
    // The y axis is untouched.
    assert_eq!(s.spec().config.y_scale, None);
    // set_y_scale writes the whole value; clearing restores the linear identity.
    s.set_y_scale(None);
    assert_eq!(s.spec().config.y_scale, None);
}

#[test]
fn table_columns_default_to_all_then_become_explicit() {
    let mut s = state();
    // No explicit columns yet: shown set is every data column in order.
    assert_eq!(s.shown_columns(), vec!["month", "revenue", "profit"]);
    assert!(s.is_column_shown("revenue"));
    // Removing one materializes the explicit list of the rest.
    s.toggle_column("revenue");
    assert_eq!(s.shown_columns(), vec!["month", "profit"]);
    assert!(!s.is_column_shown("revenue"));
    assert_eq!(
        s.spec().columns.as_deref(),
        Some(["month", "profit"].map(String::from).as_slice())
    );
    // Re-adding appends at the end.
    s.toggle_column("revenue");
    assert_eq!(s.shown_columns(), vec!["month", "profit", "revenue"]);
}

#[test]
fn move_column_reorders_and_clamps() {
    let mut s = state();
    s.move_column(0, false); // month down past revenue
    assert_eq!(s.shown_columns(), vec!["revenue", "month", "profit"]);
    s.move_column(0, true); // already at front: no-op
    assert_eq!(s.shown_columns(), vec!["revenue", "month", "profit"]);
    s.move_column(2, false); // last item down: no-op
    assert_eq!(s.shown_columns(), vec!["revenue", "month", "profit"]);
}

#[test]
fn table_mark_renders_through_backend() {
    let mut s = state();
    s.set_mark(Mark::Table);
    s.set_transpose(true);
    assert!(s.spec().config.transpose);
    let svg = render(&mut s).expect("table renders").svg.clone();
    assert!(svg.contains("<svg") && svg.contains("revenue"));
}

#[test]
fn series_names_wide_are_y_fields() {
    let mut s = state();
    s.add_y("profit");
    assert_eq!(s.series_names(&compute(&s.terms())), vec!["revenue", "profit"]);
}

#[test]
fn series_names_long_are_category_values() {
    let csv = b"day,metric,value\nmon,a,1\nmon,b,2\ntue,a,3\ntue,b,4\n";
    let spec = from_yaml("mark: line\nx: day\ny: value\ncolor: metric\n").unwrap();
    let s = BuilderState::new(
        spec,
        Table::from_csv(csv).unwrap(),
        Theme::default(),
        Size { width: 320, height: 240 },
    );
    let mut names = s.series_names(&compute(&s.terms()));
    names.sort();
    assert_eq!(names, vec!["a", "b"]);
}

#[test]
fn export_returns_a_chart_block() {
    let s = state();
    let block = s.to_block(&to_yaml(s.spec()));
    assert!(block.starts_with("```chart\n"));
    assert!(block.contains("mark: line"));
    assert!(block.ends_with("```"));
}

// --- The command line --------------------------------------------------------------

const SPEC: &str = "mark: line\nx: month\ny: revenue\n";
const CSV: &str = "month,revenue\n2024-01,10\n2024-02,20\n2024-03,15\n";
const INLINE: &str =
    "mark: line\nx: month\ny: revenue\n---\nmonth,revenue\n2024-01,10\n2024-02,20\n";

#[test]
fn render_path_produces_non_empty_svg() {
    let svg = render_svg(SPEC, CSV.as_bytes()).expect("render should succeed");
    assert!(svg.contains("<svg"), "output should be an SVG document");
    assert!(svg.len() > 100, "SVG should have real content");
}

#[test]
fn render_block_with_inline_csv_produces_svg() {
    let svg = render_block(INLINE).expect("inline block should render");
    assert!(svg.contains("<svg"), "output should be an SVG document");
}

#[test]
fn render_block_without_data_is_an_error() {
    let err = render_block("mark: line\nx: month\ny: revenue\n").unwrap_err();
    assert!(err.contains("no inline data"), "got: {err}");
}

#[test]
fn bad_yaml_is_reported() {
    let err = render_svg("mark: : :\n", CSV.as_bytes()).unwrap_err();
    assert!(err.contains("parsing spec"), "got: {err}");
}

#[test]
fn missing_column_surfaces_diagnostics() {
    let err = render_svg("mark: line\nx: nope\ny: revenue\n", CSV.as_bytes()).unwrap_err();
    assert!(err.contains("resolve"), "got: {err}");
}

#[test]
fn parse_args_reads_pair_with_output_flag() {
    let args = parse_args(vec![
        "spec.yaml".into(),
        "data.csv".into(),
        "-o".into(),
        "out.svg".into(),
    ])
    .expect("valid args");
    match args {
        Args::Pair { spec_path, data_path, out_path } => {
            assert_eq!(spec_path, "spec.yaml");
            assert_eq!(data_path, "data.csv");
            assert_eq!(out_path.as_deref(), Some("out.svg"));
        }
        Args::Block { .. } => panic!("two positionals should parse as a pair"),
    }
}

#[test]
fn parse_args_reads_single_block_file() {
    let args = parse_args(vec!["chart.block".into(), "-o".into(), "out.svg".into()])
        .expect("valid args");
    match args {
        Args::Block { block_path, out_path } => {
            assert_eq!(block_path, "chart.block");
            assert_eq!(out_path.as_deref(), Some("out.svg"));
        }
        Args::Pair { .. } => panic!("one positional should parse as a block"),
    }
}

#[test]
fn parse_args_requires_at_least_one_positional() {
    assert!(parse_args(vec![]).is_err());
    assert!(parse_args(vec!["-o".into(), "out.svg".into()]).is_err());
    assert!(parse_args(vec!["a".into(), "b".into(), "c".into()]).is_err());
}

#[test]
fn parse_args_rejects_unknown_flag() {
    match parse_args(vec!["--bogus".into()]) {
        Err(err) => assert!(err.contains("unknown flag"), "got: {err}"),
        Ok(_) => panic!("unknown flag should be rejected"),
    }
}

#[test]
fn diagnostics_format_with_severity_labels() {
    let text = format_diagnostics(&vec![
        Diagnostic::error("missing column"),
        Diagnostic::warning("dropped a row"),
    ]);
    assert!(text.contains("error: missing column"));
    assert!(text.contains("warning: dropped a row"));
}
