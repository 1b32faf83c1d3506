use hiker_charts::backend::{Axis, AxisKind, Coord, RenderError, RenderOutput, Series, Size, Slice};
use hiker_charts::block::split_block;
use hiker_charts::calendar::days_from_civil;
use hiker_charts::data::Table;
use hiker_charts::diag::{Diagnostic, Severity};
use hiker_charts::display::{format_epoch, format_value};
use hiker_charts::dsl::{DataType, Mark, Scale};
use hiker_charts::host::{DataResolver, ResolveError};
use hiker_charts::numeral::Number;
use hiker_charts::panel::ThemeChoice;
use hiker_charts::preview::svg_key;
use hiker_charts::registry::caps;
use hiker_charts::theme::{Color, Palette, Theme};
use hiker_charts::typing::{coerce, infer_type, parse_date, Value};

fn number(s: &str) -> Number {
    Number::parse(s).unwrap()
}

fn strings(items: &[&str]) -> Vec<String> {
    items.iter().map(|s| (*s).to_string()).collect()
}

// --- Registry ---

#[test]
fn bar_is_cartesian_with_xy_color_and_stack() {
    let c = caps(Mark::Bar);
    assert!(c.cartesian);
    assert!(c.channels.x && c.channels.y && c.channels.color);
    assert!(!c.channels.size && !c.channels.theta);
    assert!(c.options.stack && c.options.orientation && c.options.scales);
    assert!(!c.options.bins && !c.options.inner_radius);
}

#[test]
fn line_supports_interpolate_not_stack() {
    let c = caps(Mark::Line);
    assert!(c.options.interpolate && c.options.line_width);
    assert!(!c.options.stack && !c.options.orientation);
}

#[test]
fn point_supports_size_channel() {
    let c = caps(Mark::Point);
    assert!(c.channels.size);
    assert!(c.options.point_size && c.options.scales);
}

#[test]
fn area_stacks_and_fills() {
    let c = caps(Mark::Area);
    assert!(c.options.stack && c.options.fill_opacity && c.options.line_width);
}

#[test]
fn histogram_takes_x_and_bins_not_y_channel() {
    let c = caps(Mark::Histogram);
    assert!(c.cartesian);
    assert!(c.channels.x && c.channels.color);
    assert!(!c.channels.y, "y is the computed frequency, not a bound channel");
    assert!(c.options.bins && c.options.scales);
}

#[test]
fn arc_is_radial_with_theta_and_inner_radius() {
    let c = caps(Mark::Arc);
    assert!(!c.cartesian, "arc is radial, no cartesian axes");
    assert!(c.channels.theta && c.channels.color);
    assert!(!c.channels.x && !c.channels.y);
    assert!(c.options.inner_radius && c.options.fill_opacity);
    assert!(!c.options.scales, "radial marks have no axis scales");
}

#[test]
fn no_mark_enables_scales_without_being_cartesian() {
    for mark in [
        Mark::Bar,
        Mark::Line,
        Mark::Point,
        Mark::Area,
        Mark::Histogram,
        Mark::Arc,
        Mark::Table,
    ] {
        let c = caps(mark);
        assert!(!c.options.scales || c.cartesian, "scales imply cartesian for {mark:?}");
    }
}

#[test]
fn table_is_noncartesian_with_no_channels_or_options() {
    let c = caps(Mark::Table);
    assert!(!c.cartesian);
    assert!(!c.channels.x && !c.channels.y && !c.channels.color);
    assert!(!c.channels.size && !c.channels.theta);
    assert!(!c.options.stack && !c.options.scales && !c.options.fill_opacity);
}

// --- Theme ---

#[test]
fn rgb_is_opaque() {
    assert_eq!(Color::rgb(1, 2, 3), Color { r: 1, g: 2, b: 3, a: 255 });
}

#[test]
fn default_theme_has_palette() {
    let theme = Theme::default();
    assert!(!theme.series.is_empty());
    assert_eq!(theme.background, Color::rgb(255, 255, 255));
}

#[test]
fn themes_compare_by_value() {
    assert_eq!(Theme::default(), Theme::default());
}

#[test]
fn light_and_dark_differ() {
    let light = Theme::light();
    let dark = Theme::dark();
    assert_ne!(light.background, dark.background);
    assert_ne!(light.foreground, dark.foreground);
    assert_ne!(light.gridline, dark.gridline);
    assert_eq!(Theme::default(), light);
    assert_eq!(Theme::from_dark_mode(true), dark);
    assert_eq!(Theme::from_dark_mode(false), light);
}

#[test]
fn every_palette_is_nonempty_and_distinct() {
    let all =
        [Palette::Category10, Palette::Pastel, Palette::Warm, Palette::Cool, Palette::Mono];
    let mut lists = Vec::new();
    for p in all {
        let colors = p.colors();
        assert!(colors.len() >= 6, "palette should have >=6 colors");
        // All colors within a palette are distinct.
        for (i, a) in colors.iter().enumerate() {
            for b in &colors[i + 1..] {
                assert_ne!(a, b, "duplicate color within {p:?}");
            }
        }
        lists.push(colors);
    }
    // The palettes differ from one another.
    for (i, a) in lists.iter().enumerate() {
        for b in &lists[i + 1..] {
            assert_ne!(a, b, "two palettes are identical");
        }
    }
}

#[test]
fn with_palette_swaps_series_only() {
    let base = Theme::light();
    let swapped = Theme::light().with_palette(Palette::Warm);
    assert_eq!(base.background, swapped.background);
    assert_eq!(base.foreground, swapped.foreground);
    assert_eq!(swapped.series, Palette::Warm.colors());
    assert_ne!(base.series, swapped.series);
}

#[test]
fn theme_choice_builds_dark_palette_theme() {
    let choice = ThemeChoice { dark: true, palette: Palette::Warm };
    let theme = choice.theme();
    assert_eq!(theme.background, Theme::dark().background);
    assert_eq!(theme.series, Palette::Warm.colors());
}

// --- Typing ---

#[test]
fn infers_quantitative_temporal_nominal() {
    assert_eq!(infer_type(&strings(&["1", "2.5", "-3"])), DataType::Quantitative);
    assert_eq!(infer_type(&strings(&["2020-01-01", "2021-06"])), DataType::Temporal);
    assert_eq!(infer_type(&strings(&["jan", "feb"])), DataType::Nominal);
    assert_eq!(infer_type(&strings(&["", ""])), DataType::Nominal);
}

#[test]
fn inference_ignores_empty_cells() {
    assert_eq!(infer_type(&strings(&["1", "", "2"])), DataType::Quantitative);
}

#[test]
fn coerce_number_date_and_garbage() {
    assert_eq!(coerce("42.5", DataType::Quantitative), Value::Number(number("42.5")));
    assert_eq!(coerce("not a num", DataType::Quantitative), Value::Missing);
    assert_eq!(coerce("", DataType::Quantitative), Value::Missing);
    assert_eq!(coerce("nope", DataType::Temporal), Value::Missing);
    assert_eq!(coerce("region", DataType::Nominal), Value::Category("region".to_string()));
}

#[test]
fn epoch_anchor_and_known_dates() {
    assert_eq!(days_from_civil(1970, 1, 1), 0);
    assert_eq!(parse_date("1970-01-01"), Some(0));
    assert_eq!(parse_date("1970-01-02"), Some(86_400));
    // 2000-01-01 is 10957 days after the epoch.
    assert_eq!(parse_date("2000-01-01"), Some(10_957 * 86_400));
}

#[test]
fn supported_date_formats() {
    let day = parse_date("2021-03-15").unwrap();
    assert_eq!(parse_date("2021/03/15"), Some(day));
    assert_eq!(parse_date("2021-03-15T00:00:00"), Some(day));
    assert_eq!(parse_date("2021-03-15T01:00:00"), Some(day + 3600));
    assert_eq!(parse_date("2021-03"), Some(parse_date("2021-03-01").unwrap()));
}

#[test]
fn rejects_malformed_dates() {
    assert_eq!(parse_date("2021-13-01"), None);
    assert_eq!(parse_date("2021-00-01"), None);
    assert_eq!(parse_date("2021-01-32"), None);
    assert_eq!(parse_date("2021-01-01T25:00:00"), None);
    assert_eq!(parse_date("garbage"), None);
    assert_eq!(parse_date("21-1-1"), None);
}

// --- Display ---

#[test]
fn epoch_round_trips_known_dates() {
    assert_eq!(format_epoch(0), "1970-01-01");
    assert_eq!(format_epoch(1_609_459_200), "2021-01-01");
}

#[test]
fn epoch_formatter_is_inverse_of_iso_date() {
    // 1970-01-01 is epoch 0; verify our civil-date math directly.
    assert_eq!(format_epoch(0), "1970-01-01");
    assert_eq!(format_epoch(1_609_459_200), "2021-01-01");
}

#[test]
fn value_rendering_covers_each_variant() {
    assert_eq!(format_value(&Value::Number(number("12.0")), "12"), "12");
    assert_eq!(format_value(&Value::Time(0), ""), "1970-01-01");
    assert_eq!(format_value(&Value::Category("north".to_string()), ""), "north");
    assert_eq!(format_value(&Value::Missing, ""), "—");
}

// --- Diagnostics ---

#[test]
fn error_constructor_sets_severity() {
    let d = Diagnostic::error("missing column `month`");
    assert_eq!(d.severity, Severity::Error);
    assert_eq!(d.message, "missing column `month`");
}

#[test]
fn warning_constructor_sets_severity() {
    let d = Diagnostic::warning("dropped 2 rows");
    assert_eq!(d.severity, Severity::Warning);
    assert_eq!(d.message, "dropped 2 rows");
}

#[test]
fn diagnostics_compare_by_value() {
    assert_eq!(Diagnostic::error("x"), Diagnostic::error("x"));
    assert_ne!(Diagnostic::error("x"), Diagnostic::warning("x"));
}

// --- Data ---

#[test]
fn parses_header_and_rows() {
    let csv = b"month,revenue\njan,100\nfeb,140\n";
    let table = Table::from_csv(csv).unwrap();
    assert_eq!(table.columns.len(), 2);
    assert_eq!(table.column("month").unwrap().cells, vec!["jan", "feb"]);
    assert_eq!(table.column("revenue").unwrap().cells, vec!["100", "140"]);
    assert_eq!(table.row_count(), 2);
}

#[test]
fn missing_column_is_none() {
    let table = Table::from_csv(b"a,b\n1,2\n").unwrap();
    assert!(table.column("c").is_none());
}

#[test]
fn short_rows_padded_with_empty() {
    let table = Table::from_csv(b"a,b,c\n1,2\n").unwrap();
    assert_eq!(table.column("c").unwrap().cells, vec![""]);
}

#[test]
fn empty_table_has_zero_rows() {
    let table = Table::default();
    assert_eq!(table.row_count(), 0);
}

// --- Backend ---

#[test]
fn size_is_copy_and_comparable() {
    let s = Size { width: 640, height: 480 };
    let t = s;
    assert_eq!(s, t);
}

#[test]
fn categorical_axis_holds_labels() {
    let axis = Axis {
        title: "month".to_string(),
        kind: AxisKind::Categorical(vec!["jan".to_string(), "feb".to_string()]),
        scale: Scale::default(),
    };
    match axis.kind {
        AxisKind::Categorical(ref labels) => assert_eq!(labels.len(), 2),
        _ => panic!("expected categorical"),
    }
}

#[test]
fn render_error_messages_distinct() {
    assert_ne!(RenderError::Empty.message(), RenderError::Backend("x".to_string()).message());
}

#[test]
fn series_and_output_construct() {
    let series = Series {
        name: "a".to_string(),
        points: vec![(Coord::Number(number("0.0")), Coord::Number(number("1.0")))],
        sizes: Vec::new(),
    };
    assert_eq!(series.points.len(), 1);
    let out = RenderOutput { svg: "<svg/>".to_string() };
    assert!(out.svg.contains("svg"));
}

#[test]
fn slice_holds_label_value_and_color_index() {
    let s = Slice { label: "north".to_string(), value: number("42.0"), color_index: 2 };
    assert_eq!(s.label, "north");
    assert_eq!(s.value.as_str().parse::<f64>().unwrap(), 42.0);
    assert_eq!(s.color_index, 2);
}

// --- Host ---

struct Fixed;

impl DataResolver for Fixed {
    fn resolve(&self, id: &str) -> Result<Table, ResolveError> {
        if id == "ok.csv" {
            Table::from_csv(b"a,b\n1,2\n").map_err(|e| ResolveError(e.message))
        } else {
            Err(ResolveError(format!("unknown id: {id}")))
        }
    }
}

#[test]
fn resolver_returns_table_for_known_id() {
    let table = Fixed.resolve("ok.csv").unwrap();
    assert_eq!(table.columns.len(), 2);
}

#[test]
fn resolver_errors_for_unknown_id() {
    let err = Fixed.resolve("nope.csv").unwrap_err();
    assert_eq!(err.message(), "unknown id: nope.csv");
}

// --- Blocks ---

const BLOCK: &str =
    "mark: line\nx: month\ny: revenue\n---\nmonth,revenue\n2024-01,100\n2024-02,140\n";

#[test]
fn splits_config_from_csv_on_separator() {
    let (config, csv) = split_block(BLOCK);
    assert_eq!(config, "mark: line\nx: month\ny: revenue\n");
    assert_eq!(csv, Some("month,revenue\n2024-01,100\n2024-02,140\n"));
}

#[test]
fn no_separator_means_no_inline_csv() {
    let (config, csv) = split_block("mark: bar\nx: a\ny: b\n");
    assert_eq!(config, "mark: bar\nx: a\ny: b\n");
    assert_eq!(csv, None);
}

#[test]
fn separator_tolerates_trailing_whitespace_and_crlf() {
    let body = "mark: line\r\nx: a\r\ny: b\r\n---  \r\na,b\r\n1,2\r\n";
    let (config, csv) = split_block(body);
    assert_eq!(config, "mark: line\r\nx: a\r\ny: b\r\n");
    assert_eq!(csv, Some("a,b\r\n1,2\r\n"));
}

#[test]
fn only_the_first_separator_splits() {
    // A `---` inside the CSV body (unlikely, but possible) stays in the data.
    let body = "mark: line\nx: a\ny: b\n---\na,b\n1,2\n---\n3,4\n";
    let (_, csv) = split_block(body);
    assert_eq!(csv, Some("a,b\n1,2\n---\n3,4\n"));
}

// --- Preview ---

#[test]
fn svg_key_differs_by_content() {
    assert_ne!(svg_key("<svg/>"), svg_key("<svg></svg>"));
    assert_eq!(svg_key("<svg/>"), svg_key("<svg/>"));
}
