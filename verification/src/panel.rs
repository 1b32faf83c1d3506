//! What the builder panel decides: which controls a mark gets, what they are labelled, and which
//! `BuilderState` transition each of them is.
//!
//! Every control is a `BuilderState` transition, so the spec a panel builds is identical to a
//! hand-authored one. The controls that appear are gated by the mark's capabilities from the
//! registry; switching marks only hides controls — the underlying spec values are preserved.

use crate::dsl;
use crate::dsl::DataType;
use crate::dsl::Mark;
use crate::dsl::Scale;
use crate::dsl::ScaleKind;
use crate::dsl::SpecModel;
use crate::data;
use crate::model;
use crate::model::Axis;
use crate::model::BuilderState;
use crate::model::Channel;
use crate::model::SeriesMode;
use crate::numeral::Number;
use crate::registry;
use crate::registry::ChannelSet;
use crate::registry::OptionSet;
use crate::resolve;
use crate::text;
use crate::theme;
use crate::theme::Color;
use crate::theme::Palette;
use crate::theme::Theme;
use crate::theme::ThemeModel;
use crate::views;
use vstd::prelude::*;

verus! {

// --- Theme choice -----------------------------------------------------------------

/// The host-held global theme selection, carried across frames so the radio +
/// palette dropdown stay in sync. The panel applies it via `BuilderState::set_theme`
/// whenever it changes.
#[derive(Clone, Copy, Debug, PartialEq, Eq, Structural)]
pub struct ThemeChoice {
    /// Whether the dark preset is selected (else light).
    pub dark: bool,
    /// The categorical palette applied globally to series colors.
    pub palette: Palette,
}

/// The theme a choice stands for.
pub open spec fn chosen_theme(choice: ThemeChoice) -> ThemeModel {
    ThemeModel {
        series: theme::palette_colors(choice.palette),
        ..theme::preset(choice.dark)
    }
}

impl Default for ThemeChoice {
    /// Light preset with the strong `Category10` palette — the `BuilderState`
    /// default theme.
    fn default() -> (r: Self)
        ensures
            r == (ThemeChoice { dark: false, palette: Palette::Category10 }),
            chosen_theme(r) == theme::light_theme(),
    {
        ThemeChoice { dark: false, palette: Palette::Category10 }
    }
}

impl ThemeChoice {
    /// Build the `Theme` this choice represents.
    pub fn theme(self) -> (r: Theme)
        ensures
            r@ == chosen_theme(self),
    {
        Theme::from_dark_mode(self.dark).with_palette(self.palette)
    }
}

// --- Labels -----------------------------------------------------------------------

/// All marks a panel offers, in dropdown order.
pub fn marks() -> (r: Vec<Mark>)
    ensures
        r@ == seq![
            Mark::Bar,
            Mark::Line,
            Mark::Point,
            Mark::Area,
            Mark::Histogram,
            Mark::Arc,
        ],
{
    vec![Mark::Bar, Mark::Line, Mark::Point, Mark::Area, Mark::Histogram, Mark::Arc]
}

/// The human label of a mark.
pub fn mark_label(mark: Mark) -> (r: &'static str)
    ensures
        r@ == mark.spec_name(),
{
    mark.name()
}

/// The axis scale kinds, in dropdown order.
pub fn scale_kinds() -> (r: Vec<ScaleKind>)
    ensures
        r@ == seq![ScaleKind::Linear, ScaleKind::Log, ScaleKind::Sqrt],
{
    vec![ScaleKind::Linear, ScaleKind::Log, ScaleKind::Sqrt]
}

/// The human label of a scale kind.
pub fn scale_kind_label(kind: ScaleKind) -> (r: &'static str)
    ensures
        r@ == (match kind {
            ScaleKind::Linear => "Linear"@,
            ScaleKind::Log => "Log"@,
            ScaleKind::Sqrt => "Sqrt"@,
        }),
{
    match kind {
        ScaleKind::Linear => "Linear",
        ScaleKind::Log => "Log",
        ScaleKind::Sqrt => "Sqrt",
    }
}

/// All declarable data types, in dropdown order.
pub fn types() -> (r: Vec<DataType>)
    ensures
        r@ == seq![
            DataType::Quantitative,
            DataType::Temporal,
            DataType::Ordinal,
            DataType::Nominal,
        ],
{
    vec![DataType::Quantitative, DataType::Temporal, DataType::Ordinal, DataType::Nominal]
}

/// The human label of a data type.
pub open spec fn data_type_name(ty: DataType) -> Seq<char> {
    match ty {
        DataType::Quantitative => "Quantitative"@,
        DataType::Temporal => "Temporal"@,
        DataType::Ordinal => "Ordinal"@,
        DataType::Nominal => "Nominal"@,
    }
}

/// The human label for a data type.
pub fn type_label(ty: DataType) -> (r: &'static str)
    ensures
        r@ == data_type_name(ty),
{
    match ty {
        DataType::Quantitative => "Quantitative",
        DataType::Temporal => "Temporal",
        DataType::Ordinal => "Ordinal",
        DataType::Nominal => "Nominal",
    }
}

/// All selectable palettes, in dropdown order.
pub fn palettes() -> (r: Vec<Palette>)
    ensures
        r@ == seq![
            Palette::Category10,
            Palette::Pastel,
            Palette::Warm,
            Palette::Cool,
            Palette::Mono,
        ],
{
    vec![Palette::Category10, Palette::Pastel, Palette::Warm, Palette::Cool, Palette::Mono]
}

/// The human label of a palette.
pub fn palette_label(palette: Palette) -> (r: &'static str)
    ensures
        r@ == (match palette {
            Palette::Category10 => "Category10"@,
            Palette::Pastel => "Pastel"@,
            Palette::Warm => "Warm"@,
            Palette::Cool => "Cool"@,
            Palette::Mono => "Mono"@,
        }),
{
    match palette {
        Palette::Category10 => "Category10",
        Palette::Pastel => "Pastel",
        Palette::Warm => "Warm",
        Palette::Cool => "Cool",
        Palette::Mono => "Mono",
    }
}

/// A stable string tag for a channel, used to salt widget ids.
pub fn channel_tag(channel: Channel) -> (r: &'static str)
    ensures
        r@ == (match channel {
            Channel::X => "x"@,
            Channel::Color => "color"@,
        }),
{
    match channel {
        Channel::X => "x",
        Channel::Color => "color",
    }
}

/// The text of a channel's type picker: the declared type, or "Auto" labelled with the inferred
/// type when none is declared.
pub fn type_text(declared: Option<DataType>, inferred: Option<DataType>) -> (r: String)
    ensures
        r@ == (match declared {
            Some(ty) => data_type_name(ty),
            None => "Auto ("@ + (match inferred {
                Some(ty) => data_type_name(ty),
                None => "?"@,
            }) + ")"@,
        }),
{
    match declared {
        Some(ty) => type_label(ty).to_owned(),
        None => text::framed(
            "Auto (",
            match inferred {
                Some(ty) => type_label(ty),
                None => "?",
            },
            ")",
        ),
    }
}

/// Map an empty string to `None`, anything else to `Some`, for clearable titles.
pub fn opt(s: &str) -> (r: Option<&str>)
    ensures
        match r {
            Some(t) => t@ == s@ && s@.len() > 0,
            None => s@.len() == 0,
        },
{
    if s.unicode_len() == 0 {
        None
    } else {
        Some(s)
    }
}

/// Convert a color to an sRGB triple for a color button.
pub fn color_to_rgb(c: Color) -> (r: [u8; 3])
    ensures
        r@ == seq![c.r, c.g, c.b],
{
    [c.r, c.g, c.b]
}

/// Convert an sRGB triple back to an opaque color.
pub fn rgb_to_color(rgb: [u8; 3]) -> (r: Color)
    ensures
        r == theme::opaque_rgb(rgb@[0], rgb@[1], rgb@[2]),
{
    Color::rgb(rgb[0], rgb[1], rgb[2])
}

// --- Controls ---------------------------------------------------------------------

/// A control of the panel.
#[derive(Clone, Copy, Debug, PartialEq, Eq, Structural)]
pub enum Control {
    Separator,
    Mark,
    XField,
    ColorField,
    SizeField,
    ThetaField,
    YFields,
    SeriesMode,
    /// The titles and the legend checkbox.
    Titles,
    Stack,
    Interpolate,
    PointSize,
    LineWidth,
    FillOpacity,
    Orientation,
    Bins,
    InnerRadius,
    Gridlines,
    Scales,
    SeriesColors,
    Theme,
    Export,
}

/// Some controls where a condition holds, else none.
pub open spec fn given(condition: bool, controls: Seq<Control>) -> Seq<Control> {
    if condition {
        controls
    } else {
        seq![]
    }
}

/// The encoding-channel pickers of a mark, in order.
pub open spec fn channel_controls(ch: ChannelSet) -> Seq<Control> {
    given(ch.x, seq![Control::XField]) + given(ch.color, seq![Control::ColorField]) + given(
        ch.size,
        seq![Control::SizeField],
    ) + given(ch.theta, seq![Control::ThetaField]) + given(
        ch.y,
        seq![Control::Separator, Control::YFields],
    ) + given(ch.y && ch.color, seq![Control::Separator, Control::SeriesMode])
}

/// The option widgets of a mark, in order.
pub open spec fn option_controls(opts: OptionSet, cartesian: bool) -> Seq<Control> {
    seq![Control::Titles] + given(opts.stack, seq![Control::Stack]) + given(
        opts.interpolate,
        seq![Control::Interpolate],
    ) + given(opts.point_size, seq![Control::PointSize]) + given(
        opts.line_width,
        seq![Control::LineWidth],
    ) + given(opts.fill_opacity, seq![Control::FillOpacity]) + given(
        opts.orientation,
        seq![Control::Orientation],
    ) + given(opts.bins, seq![Control::Bins]) + given(
        opts.inner_radius,
        seq![Control::InnerRadius],
    ) + given(cartesian, seq![Control::Gridlines])
}

/// All the controls of a mark, top to bottom.
pub open spec fn mark_controls(mark: Mark) -> Seq<Control> {
    let caps = registry::mark_caps(mark);
    seq![Control::Mark, Control::Separator] + channel_controls(caps.channels) + seq![
        Control::Separator,
    ] + option_controls(caps.options, caps.cartesian) + given(
        caps.options.scales,
        seq![Control::Separator, Control::Scales],
    ) + given(caps.cartesian, seq![Control::Separator, Control::SeriesColors]) + seq![
        Control::Separator,
        Control::Theme,
        Control::Separator,
        Control::Export,
    ]
}

/// Append a control where a condition holds.
fn push_when(out: &mut Vec<Control>, condition: bool, control: Control)
    ensures
        final(out)@ == old(out)@ + given(condition, seq![control]),
{
    if condition {
        out.push(control);
    }
    assert(out@ =~= old(out)@ + given(condition, seq![control]));
}

/// Append a separator and a control where a condition holds.
fn push_below_when(out: &mut Vec<Control>, condition: bool, control: Control)
    ensures
        final(out)@ == old(out)@ + given(condition, seq![Control::Separator, control]),
{
    if condition {
        out.push(Control::Separator);
        out.push(control);
    }
    assert(out@ =~= old(out)@ + given(condition, seq![Control::Separator, control]));
}

/// The encoding-channel pickers, each gated by the channels a mark accepts: x, color, a
/// bubble-size picker, an arc-theta picker, and the y multiselect. Channels the mark does not
/// use are hidden (the spec value, if any, stays for forward-compat). The wide/long series
/// toggle is shown only for cartesian multi-series marks (those with both a y and a color
/// channel).
pub fn channel_section(ch: ChannelSet) -> (r: Vec<Control>)
    ensures
        r@ == channel_controls(ch),
{
    let mut out: Vec<Control> = Vec::new();
    push_when(&mut out, ch.x, Control::XField);
    assert(out@ =~= given(ch.x, seq![Control::XField]));
    push_when(&mut out, ch.color, Control::ColorField);
    push_when(&mut out, ch.size, Control::SizeField);
    push_when(&mut out, ch.theta, Control::ThetaField);
    push_below_when(&mut out, ch.y, Control::YFields);
    push_below_when(&mut out, ch.y && ch.color, Control::SeriesMode);
    out
}

/// Title/legend config plus the mark's option widgets, each gated by the options it honors:
/// stacking, interpolation, point size, line width, fill opacity, orientation, bins, and donut
/// inner-radius. The always-useful titles and the gridline toggle (for cartesian marks) live
/// here too.
pub fn options_section(opts: OptionSet, cartesian: bool) -> (r: Vec<Control>)
    ensures
        r@ == option_controls(opts, cartesian),
{
    let mut out: Vec<Control> = Vec::new();
    out.push(Control::Titles);
    assert(out@ =~= seq![Control::Titles]);
    push_when(&mut out, opts.stack, Control::Stack);
    push_when(&mut out, opts.interpolate, Control::Interpolate);
    push_when(&mut out, opts.point_size, Control::PointSize);
    push_when(&mut out, opts.line_width, Control::LineWidth);
    push_when(&mut out, opts.fill_opacity, Control::FillOpacity);
    push_when(&mut out, opts.orientation, Control::Orientation);
    push_when(&mut out, opts.bins, Control::Bins);
    push_when(&mut out, opts.inner_radius, Control::InnerRadius);
    push_when(&mut out, cartesian, Control::Gridlines);
    out
}

/// The scrollable stack of every control, top to bottom, gated by the mark's
/// capabilities from the registry so only applicable controls appear.
pub fn control_column(mark: Mark) -> (r: Vec<Control>)
    ensures
        r@ == mark_controls(mark),
{
    let caps = registry::caps(mark);
    let mut out: Vec<Control> = vec![Control::Mark, Control::Separator];
    assert(out@ =~= seq![Control::Mark, Control::Separator]);
    let mut channels = channel_section(caps.channels);
    out.append(&mut channels);
    out.push(Control::Separator);
    assert(out@ =~= seq![Control::Mark, Control::Separator] + channel_controls(caps.channels)
        + seq![Control::Separator]);
    let mut options = options_section(caps.options, caps.cartesian);
    out.append(&mut options);
    push_below_when(&mut out, caps.options.scales, Control::Scales);
    push_below_when(&mut out, caps.cartesian, Control::SeriesColors);
    let ghost before = out@;
    out.push(Control::Separator);
    out.push(Control::Theme);
    out.push(Control::Separator);
    out.push(Control::Export);
    assert(out@ =~= before + seq![
        Control::Separator,
        Control::Theme,
        Control::Separator,
        Control::Export,
    ]);
    out
}

/// The controls for a channel appear exactly when the mark accepts the channel, and those for an
/// option exactly when it honors the option.
pub proof fn law_controls_follow_the_registry(mark: Mark)
    ensures
        ({
            let shown = mark_controls(mark);
            let caps = registry::mark_caps(mark);
            &&& shown.contains(Control::XField) == caps.channels.x
            &&& shown.contains(Control::ColorField) == caps.channels.color
            &&& shown.contains(Control::SizeField) == caps.channels.size
            &&& shown.contains(Control::ThetaField) == caps.channels.theta
            &&& shown.contains(Control::YFields) == caps.channels.y
            &&& shown.contains(Control::Stack) == caps.options.stack
            &&& shown.contains(Control::Interpolate) == caps.options.interpolate
            &&& shown.contains(Control::PointSize) == caps.options.point_size
            &&& shown.contains(Control::LineWidth) == caps.options.line_width
            &&& shown.contains(Control::FillOpacity) == caps.options.fill_opacity
            &&& shown.contains(Control::Orientation) == caps.options.orientation
            &&& shown.contains(Control::Bins) == caps.options.bins
            &&& shown.contains(Control::InnerRadius) == caps.options.inner_radius
            &&& shown.contains(Control::Scales) == caps.options.scales
        }),
{
    let caps = registry::mark_caps(mark);
    let ch = caps.channels;
    let opts = caps.options;
    lemma_marks_controls_contain(mark, Control::XField);
    lemma_marks_controls_contain(mark, Control::ColorField);
    lemma_marks_controls_contain(mark, Control::SizeField);
    lemma_marks_controls_contain(mark, Control::ThetaField);
    lemma_marks_controls_contain(mark, Control::YFields);
    lemma_marks_controls_contain(mark, Control::Stack);
    lemma_marks_controls_contain(mark, Control::Interpolate);
    lemma_marks_controls_contain(mark, Control::PointSize);
    lemma_marks_controls_contain(mark, Control::LineWidth);
    lemma_marks_controls_contain(mark, Control::FillOpacity);
    lemma_marks_controls_contain(mark, Control::Orientation);
    lemma_marks_controls_contain(mark, Control::Bins);
    lemma_marks_controls_contain(mark, Control::InnerRadius);
    lemma_marks_controls_contain(mark, Control::Scales);
}

/// Whether a control is among those appended, or among those before.
proof fn lemma_contains_append(a: Seq<Control>, b: Seq<Control>, c: Control)
    ensures
        (a + b).contains(c) == (a.contains(c) || b.contains(c)),
{
    if a.contains(c) {
        let i = choose|i: int| 0 <= i < a.len() && a[i] == c;
        assert((a + b)[i] == c);
    }
    if b.contains(c) {
        let i = choose|i: int| 0 <= i < b.len() && b[i] == c;
        assert((a + b)[a.len() + i] == c);
    }
    if (a + b).contains(c) {
        let i = choose|i: int| 0 <= i < (a + b).len() && (a + b)[i] == c;
        if i < a.len() {
            assert(a[i] == c);
        } else {
            assert(b[i - a.len()] == c);
        }
    }
}

/// Whether a control is one of a pair.
proof fn lemma_contains_one(a: Control, b: Control, c: Control)
    ensures
        seq![a].contains(c) == (c == a),
        seq![a, b].contains(c) == (c == a || c == b),
        Seq::<Control>::empty().contains(c) == false,
{
    assert(seq![a][0] == a);
    assert(seq![a, b][0] == a);
    assert(seq![a, b][1] == b);
}

/// A control is among some that appear on a condition when the condition holds and it is one of
/// them.
proof fn lemma_contains_when(condition: bool, a: Control, c: Control)
    ensures
        given(condition, seq![a]).contains(c) == (condition && c == a),
        given(condition, seq![Control::Separator, a]).contains(c) == (condition && (c == a
            || c == Control::Separator)),
{
    lemma_contains_one(a, a, c);
    lemma_contains_one(Control::Separator, a, c);
}

/// Which controls a mark's column has.
proof fn lemma_marks_controls_contain(mark: Mark, c: Control)
    ensures
        mark_controls(mark).contains(c) == {
            let caps = registry::mark_caps(mark);
            let ch = caps.channels;
            let opts = caps.options;
            ||| c is Mark
            ||| c is Separator
            ||| c is Titles
            ||| c is Theme
            ||| c is Export
            ||| c is XField && ch.x
            ||| c is ColorField && ch.color
            ||| c is SizeField && ch.size
            ||| c is ThetaField && ch.theta
            ||| c is YFields && ch.y
            ||| c is SeriesMode && ch.y && ch.color
            ||| c is Stack && opts.stack
            ||| c is Interpolate && opts.interpolate
            ||| c is PointSize && opts.point_size
            ||| c is LineWidth && opts.line_width
            ||| c is FillOpacity && opts.fill_opacity
            ||| c is Orientation && opts.orientation
            ||| c is Bins && opts.bins
            ||| c is InnerRadius && opts.inner_radius
            ||| c is Gridlines && caps.cartesian
            ||| c is Scales && opts.scales
            ||| c is SeriesColors && caps.cartesian
        },
{
    let caps = registry::mark_caps(mark);
    let ch = caps.channels;
    let opts = caps.options;
    let x = given(ch.x, seq![Control::XField]);
    let color = given(ch.color, seq![Control::ColorField]);
    let size = given(ch.size, seq![Control::SizeField]);
    let theta = given(ch.theta, seq![Control::ThetaField]);
    let y = given(ch.y, seq![Control::Separator, Control::YFields]);
    let mode = given(ch.y && ch.color, seq![Control::Separator, Control::SeriesMode]);
    lemma_contains_when(ch.x, Control::XField, c);
    lemma_contains_when(ch.color, Control::ColorField, c);
    lemma_contains_when(ch.size, Control::SizeField, c);
    lemma_contains_when(ch.theta, Control::ThetaField, c);
    lemma_contains_when(ch.y, Control::YFields, c);
    lemma_contains_when(ch.y && ch.color, Control::SeriesMode, c);
    lemma_contains_append(x, color, c);
    lemma_contains_append(x + color, size, c);
    lemma_contains_append(x + color + size, theta, c);
    lemma_contains_append(x + color + size + theta, y, c);
    lemma_contains_append(x + color + size + theta + y, mode, c);
    let channels = channel_controls(ch);
    let titles = seq![Control::Titles];
    let stack = given(opts.stack, seq![Control::Stack]);
    let interpolate = given(opts.interpolate, seq![Control::Interpolate]);
    let point = given(opts.point_size, seq![Control::PointSize]);
    let line = given(opts.line_width, seq![Control::LineWidth]);
    let fill = given(opts.fill_opacity, seq![Control::FillOpacity]);
    let orientation = given(opts.orientation, seq![Control::Orientation]);
    let bins = given(opts.bins, seq![Control::Bins]);
    let radius = given(opts.inner_radius, seq![Control::InnerRadius]);
    let grid = given(caps.cartesian, seq![Control::Gridlines]);
    lemma_contains_one(Control::Titles, Control::Titles, c);
    lemma_contains_when(opts.stack, Control::Stack, c);
    lemma_contains_when(opts.interpolate, Control::Interpolate, c);
    lemma_contains_when(opts.point_size, Control::PointSize, c);
    lemma_contains_when(opts.line_width, Control::LineWidth, c);
    lemma_contains_when(opts.fill_opacity, Control::FillOpacity, c);
    lemma_contains_when(opts.orientation, Control::Orientation, c);
    lemma_contains_when(opts.bins, Control::Bins, c);
    lemma_contains_when(opts.inner_radius, Control::InnerRadius, c);
    lemma_contains_when(caps.cartesian, Control::Gridlines, c);
    lemma_contains_append(titles, stack, c);
    lemma_contains_append(titles + stack, interpolate, c);
    lemma_contains_append(titles + stack + interpolate, point, c);
    lemma_contains_append(titles + stack + interpolate + point, line, c);
    lemma_contains_append(titles + stack + interpolate + point + line, fill, c);
    lemma_contains_append(titles + stack + interpolate + point + line + fill, orientation, c);
    lemma_contains_append(
        titles + stack + interpolate + point + line + fill + orientation,
        bins,
        c,
    );
    lemma_contains_append(
        titles + stack + interpolate + point + line + fill + orientation + bins,
        radius,
        c,
    );
    lemma_contains_append(
        titles + stack + interpolate + point + line + fill + orientation + bins + radius,
        grid,
        c,
    );
    let options = option_controls(opts, caps.cartesian);
    let head = seq![Control::Mark, Control::Separator];
    let bar = seq![Control::Separator];
    let scales = given(opts.scales, seq![Control::Separator, Control::Scales]);
    let colors = given(caps.cartesian, seq![Control::Separator, Control::SeriesColors]);
    let tail = seq![Control::Separator, Control::Theme, Control::Separator, Control::Export];
    lemma_contains_one(Control::Mark, Control::Separator, c);
    lemma_contains_one(Control::Separator, Control::Separator, c);
    lemma_contains_when(opts.scales, Control::Scales, c);
    lemma_contains_when(caps.cartesian, Control::SeriesColors, c);
    lemma_contains_one(Control::Separator, Control::Theme, c);
    lemma_contains_one(Control::Separator, Control::Export, c);
    assert(tail =~= seq![Control::Separator, Control::Theme] + seq![
        Control::Separator,
        Control::Export,
    ]);
    lemma_contains_append(
        seq![Control::Separator, Control::Theme],
        seq![Control::Separator, Control::Export],
        c,
    );
    lemma_contains_append(head, channels, c);
    lemma_contains_append(head + channels, bar, c);
    lemma_contains_append(head + channels + bar, options, c);
    lemma_contains_append(head + channels + bar + options, scales, c);
    lemma_contains_append(head + channels + bar + options + scales, colors, c);
    lemma_contains_append(head + channels + bar + options + scales + colors, tail, c);
}

// --- Bindings ---------------------------------------------------------------------

/// A typeless single-field channel: size or theta. These bind a bare column (no per-field type).
#[derive(Clone, Copy, Debug, PartialEq, Eq, Structural)]
pub enum SimpleChannel {
    Size,
    Theta,
}

/// The parts of a single-field channel's binding.
pub open spec fn channel_parts(spec: SpecModel, channel: Channel) -> Option<
    (Seq<char>, Option<DataType>),
> {
    match channel {
        Channel::X => dsl::bound(spec.x),
        Channel::Color => dsl::bound(spec.color),
    }
}

/// The currently bound field name for a single-field channel, if any.
pub fn current_field(state: &BuilderState, channel: Channel) -> (r: Option<&str>)
    ensures
        model::opt_str(r) == (match channel_parts(state@.spec, channel) {
            Some(p) => Some(p.0),
            None => None,
        }),
{
    let parts = match channel {
        Channel::X => state.spec().x_field(),
        Channel::Color => state.spec().color_field(),
    };
    match parts {
        Some((name, _)) => Some(name),
        None => None,
    }
}

/// The declared type for a single-field channel, if one is declared.
pub fn current_type(state: &BuilderState, channel: Channel) -> (r: Option<DataType>)
    ensures
        r == (match channel_parts(state@.spec, channel) {
            Some(p) => p.1,
            None => None,
        }),
{
    let parts = match channel {
        Channel::X => state.spec().x_field(),
        Channel::Color => state.spec().color_field(),
    };
    match parts {
        Some((_, ty)) => ty,
        None => None,
    }
}

/// Apply a column binding to a single-field channel.
pub fn set_field(state: &mut BuilderState, channel: Channel, column: Option<&str>)
    ensures
        final(state)@ == model::with_spec(
            old(state)@,
            match channel {
                Channel::X => SpecModel {
                    x: model::shorthand(model::opt_str(column)),
                    ..old(state)@.spec
                },
                Channel::Color => SpecModel {
                    color: model::shorthand(model::opt_str(column)),
                    ..old(state)@.spec
                },
            },
        ),
        model::edit_keeps(old(state)@, final(state)@),
{
    match channel {
        Channel::X => state.set_x(column),
        Channel::Color => state.set_color(column),
    }
}

/// The currently bound column for a typeless channel, if any.
pub fn simple_current(state: &BuilderState, channel: SimpleChannel) -> (r: Option<&str>)
    ensures
        model::opt_str(r) == (match (match channel {
            SimpleChannel::Size => dsl::bound(state@.spec.size),
            SimpleChannel::Theta => dsl::bound(state@.spec.theta),
        }) {
            Some(p) => Some(p.0),
            None => None,
        }),
{
    let parts = match channel {
        SimpleChannel::Size => state.spec().size_field(),
        SimpleChannel::Theta => state.spec().theta_field(),
    };
    match parts {
        Some((name, _)) => Some(name),
        None => None,
    }
}

/// Apply a column binding to a typeless channel.
pub fn simple_set(state: &mut BuilderState, channel: SimpleChannel, column: Option<&str>)
    ensures
        final(state)@ == model::with_spec(
            old(state)@,
            match channel {
                SimpleChannel::Size => SpecModel {
                    size: model::shorthand(model::opt_str(column)),
                    ..old(state)@.spec
                },
                SimpleChannel::Theta => SpecModel {
                    theta: model::shorthand(model::opt_str(column)),
                    ..old(state)@.spec
                },
            },
        ),
        model::edit_keeps(old(state)@, final(state)@),
{
    match channel {
        SimpleChannel::Size => state.set_size(column),
        SimpleChannel::Theta => state.set_theta(column),
    }
}

/// Whether a column is one of the y fields.
pub fn is_y(state: &BuilderState, column: &str) -> (r: bool)
    ensures
        r == model::y_names(state@.spec.y).contains(column@),
{
    let fields = state.spec().y_fields();
    let ghost parts = dsl::all_parts_view(fields@);
    let ghost names = model::y_names(state@.spec.y);
    let mut i: usize = 0;
    while i < fields.len()
        invariant
            i <= fields.len(),
            parts == dsl::all_parts_view(fields@),
            parts == dsl::y_bound(state@.spec.y),
            names == model::y_names(state@.spec.y),
            forall|k: int| 0 <= k < i ==> names[k] != column@,
        decreases fields.len() - i,
    {
        assert(names[i as int] == parts[i as int].0);
        assert(parts[i as int].0 == fields@[i as int].0@);
        if text::same_text(fields[i].0, column) {
            return true;
        }
        i = i + 1;
    }
    false
}

/// Turn a column's y checkbox on or off.
pub fn set_y(state: &mut BuilderState, column: &str, on: bool)
    ensures
        final(state)@ == model::with_spec(
            old(state)@,
            SpecModel {
                y: if on {
                    model::y_with(old(state)@.spec.y, column@)
                } else {
                    model::y_without(old(state)@.spec.y, column@)
                },
                ..old(state)@.spec
            },
        ),
        model::edit_keeps(old(state)@, final(state)@),
{
    if on {
        state.add_y(column);
    } else {
        state.remove_y(column);
    }
}

/// Whether series are split by the values of a column.
pub fn is_long(state: &BuilderState) -> (r: bool)
    ensures
        r == (state@.spec.color is Some),
{
    state.spec().color_field().is_some()
}

/// Switch the series toggle: to one series per y column, or to a split by the first column.
pub fn choose_series_mode(state: &mut BuilderState, mode: SeriesMode)
    ensures
        final(state)@ == model::with_spec(
            old(state)@,
            model::in_mode(
                old(state)@.spec,
                mode,
                if mode is Long && old(state)@.table.len() > 0 {
                    Some(old(state)@.table[0].name)
                } else {
                    None
                },
            ),
        ),
        model::edit_keeps(old(state)@, final(state)@),
{
    match mode {
        SeriesMode::Wide => state.set_series_mode(SeriesMode::Wide, None),
        SeriesMode::Long => {
            let columns = state.columns();
            let ghost names = views::views(columns@);
            assert(names.len() == columns.len());
            assert(names == data::names(state@.table));
            if columns.len() > 0 {
                assert(names[0] == columns@[0]@);
                state.set_series_mode(SeriesMode::Long, Some(columns[0].as_str()));
            } else {
                state.set_series_mode(SeriesMode::Long, None);
            }
        },
    }
}

/// The current scale for a cartesian axis, or the linear default when none is set, so
/// the controls always have a complete value to read.
pub fn current_scale(state: &BuilderState, axis: Axis) -> (r: Scale)
    ensures
        r@ == resolve::scale_or_linear(model::scale_of(state@.spec.config, axis)),
{
    match axis {
        Axis::X => dsl::scale_or_default(&state.spec().config.x_scale),
        Axis::Y => dsl::scale_or_default(&state.spec().config.y_scale),
    }
}

/// Flip an axis between an auto domain and an explicit one, which starts out from zero to one.
pub fn set_manual_domain(state: &mut BuilderState, axis: Axis, manual: bool)
    ensures
        final(state)@ == model::with_config(
            old(state)@,
            model::with_scale(
                old(state)@.spec.config,
                axis,
                dsl::ScaleModel {
                    domain: if manual {
                        Some((text::decimal(0), text::decimal(1)))
                    } else {
                        None
                    },
                    ..resolve::scale_or_linear(model::scale_of(old(state)@.spec.config, axis))
                },
            ),
        ),
        model::edit_keeps(old(state)@, final(state)@),
{
    let domain = if manual {
        Some((Number::whole(0), Number::whole(1)))
    } else {
        None
    };
    state.set_scale_domain(axis, domain);
}

/// Apply a theme choice where it has changed.
pub fn apply_theme(state: &mut BuilderState, before: ThemeChoice, choice: ThemeChoice)
    ensures
        final(state)@ == (if choice == before {
            old(state)@
        } else {
            model::BuilderModel { theme: chosen_theme(choice), ..old(state)@ }
        }),
        model::edit_keeps(old(state)@, final(state)@),
{
    if choice != before {
        state.set_theme(choice.theme());
    }
}

// --- Laws -------------------------------------------------------------------------

/// A theme choice has the structural colors of its preset, whatever the palette, and the series
/// colors of its palette, whatever the preset.
pub proof fn law_theme_choices_combine(choice: ThemeChoice)
    ensures
        ({
            let t = chosen_theme(choice);
            let base = if choice.dark {
                theme::dark_theme()
            } else {
                theme::light_theme()
            };
            &&& t.background == base.background
            &&& t.foreground == base.foreground
            &&& t.gridline == base.gridline
            &&& t.series == theme::palette_colors(choice.palette)
        }),
{
}

/// What a picker shows is what was picked: binding a column to a channel shows the column there,
/// without a declared type, and changes nothing of what the other channel shows; clearing it
/// shows nothing.
pub proof fn law_pickers_show_what_was_picked(spec: SpecModel, column: Seq<char>)
    ensures
        ({
            let picked = model::shorthand(Some(column));
            let x = SpecModel { x: picked, ..spec };
            let color = SpecModel { color: picked, ..spec };
            &&& channel_parts(x, Channel::X) == Some((column, None::<DataType>))
            &&& channel_parts(x, Channel::Color) == channel_parts(spec, Channel::Color)
            &&& channel_parts(color, Channel::Color) == Some((column, None::<DataType>))
            &&& channel_parts(color, Channel::X) == channel_parts(spec, Channel::X)
            &&& channel_parts(
                SpecModel { x: model::shorthand(None), ..spec },
                Channel::X,
            ) is None
        }),
{
}

/// The mark picker is on top and the export at the bottom of every column of controls; the channel
/// pickers stand above the options.
pub proof fn law_controls_start_with_the_mark(mark: Mark)
    ensures
        ({
            let shown = mark_controls(mark);
            let ch = registry::mark_caps(mark).channels;
            let channels = channel_controls(ch);
            let n = channels.len() as int;
            &&& shown.len() >= n + 8
            &&& shown[0] == Control::Mark
            &&& shown.last() == Control::Export
            &&& shown.subrange(2, 2 + n) == channels
            &&& shown[n + 3] == Control::Titles
            &&& ch.x ==> channels[0] == Control::XField
        }),
{
    let shown = mark_controls(mark);
    let channels = channel_controls(registry::mark_caps(mark).channels);
    assert(shown.subrange(2, 2 + channels.len() as int) =~= channels);
}

} // verus!
