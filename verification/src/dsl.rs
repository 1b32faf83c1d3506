//! The chart DSL: `ChartSpec` plus its channel types.
//!
//! Channels are flat top-level fields, each a bare-string shorthand or a full object, and
//! unknown fields are captured in `extra` so they survive a round trip. The convenience
//! accessors normalize the shorthand/full and single/list distinctions for the resolver.

use crate::numeral::Number;
use crate::text;
use crate::views;
use vstd::prelude::*;

verus! {

/// The geometric mark a chart draws with.
#[derive(Clone, Copy, Debug, PartialEq, Eq, Structural)]
pub enum Mark {
    Bar,
    Line,
    Point,
    Area,
    /// Bins a single quantitative `x` column into equal-width buckets and draws their
    /// frequency as bars; the `y` axis is the computed count.
    Histogram,
    /// A radial pie/donut: each `color` category contributes a wedge sized by its summed
    /// `theta` value. Drawn without cartesian axes; `inner_radius` cuts a donut hole.
    Arc,
    /// A plain grid of the data's columns, formatted as text.
    Table,
}

/// Bar/area drawing orientation. `Vertical` (the default) runs bars up from the x axis;
/// `Horizontal` lays categories down the y axis with bars extending rightward.
#[derive(Clone, Copy, Debug, PartialEq, Eq, Structural)]
pub enum Orientation {
    Vertical,
    Horizontal,
}

/// The family of an axis scale transform. `Linear` is identity; `Log` is base-10; `Sqrt`
/// is the square-root transform (compresses large values).
#[derive(Clone, Copy, Debug, PartialEq, Eq, Structural)]
pub enum ScaleKind {
    Linear,
    Log,
    Sqrt,
}

/// Where a number lies relative to zero. `Unordered` is the number that is neither: NaN.
#[derive(Clone, Copy, Debug, PartialEq, Eq, Structural)]
pub enum Sign {
    Negative,
    Zero,
    Positive,
    Unordered,
}

/// The declared data type of a channel; authoritative over inference.
#[derive(Clone, Copy, Debug, PartialEq, Eq, Structural)]
pub enum DataType {
    Quantitative,
    Temporal,
    Ordinal,
    Nominal,
}

/// Line interpolation between consecutive points. `Linear` joins points with straight
/// segments; `Step` holds each value then steps to the next (horizontal-then-vertical),
/// giving a staircase line.
#[derive(Clone, Copy, Debug, PartialEq, Eq, Structural)]
pub enum Interpolate {
    Linear,
    Step,
}

impl Mark {
    /// The name of the mark's variant.
    pub open spec fn spec_name(self) -> Seq<char> {
        match self {
            Mark::Bar => "Bar"@,
            Mark::Line => "Line"@,
            Mark::Point => "Point"@,
            Mark::Area => "Area"@,
            Mark::Histogram => "Histogram"@,
            Mark::Arc => "Arc"@,
            Mark::Table => "Table"@,
        }
    }

    /// The name of the mark's variant, as it stands in diagnostics.
    pub fn name(self) -> (r: &'static str)
        ensures
            r@ == self.spec_name(),
    {
        match self {
            Mark::Bar => "Bar",
            Mark::Line => "Line",
            Mark::Point => "Point",
            Mark::Area => "Area",
            Mark::Histogram => "Histogram",
            Mark::Arc => "Arc",
            Mark::Table => "Table",
        }
    }
}

impl ScaleKind {
    /// Whether the forward transform is defined for a number of the given sign: every number
    /// is linear, only a positive one has a logarithm, and only one that is not below zero has
    /// a square root.
    pub open spec fn maps(self, sign: Sign) -> bool {
        match self {
            ScaleKind::Linear => true,
            ScaleKind::Log => sign is Positive,
            ScaleKind::Sqrt => sign is Positive || sign is Zero,
        }
    }

    /// Whether the forward transform is defined for a number of the given sign.
    pub fn admits(self, sign: Sign) -> (r: bool)
        ensures
            r == self.maps(sign),
    {
        match self {
            ScaleKind::Linear => true,
            ScaleKind::Log => matches!(sign, Sign::Positive),
            ScaleKind::Sqrt => matches!(sign, Sign::Positive | Sign::Zero),
        }
    }
}

// --- Scales -----------------------------------------------------------------------

/// A per-axis scale: the transform `kind`, an optional explicit `domain` (data-space
/// `(min, max)`), and whether the auto domain should include zero.
#[derive(Debug, PartialEq, Eq)]
pub struct Scale {
    pub kind: ScaleKind,
    pub domain: Option<(Number, Number)>,
    pub zero: bool,
}

/// What a [`Scale`] says.
#[verifier::ext_equal]
pub struct ScaleModel {
    pub kind: ScaleKind,
    pub domain: Option<(Seq<char>, Seq<char>)>,
    pub zero: bool,
}

impl View for Scale {
    type V = ScaleModel;

    open spec fn view(&self) -> ScaleModel {
        ScaleModel {
            kind: self.kind,
            domain: match self.domain {
                Some(d) => Some((d.0@, d.1@)),
                None => None,
            },
            zero: self.zero,
        }
    }
}

/// The identity scale: linear, no explicit domain, zero not forced.
pub open spec fn linear_scale() -> ScaleModel {
    ScaleModel { kind: ScaleKind::Linear, domain: None, zero: false }
}

impl Default for Scale {
    /// The identity scale: linear, no explicit domain, zero not forced.
    fn default() -> (r: Self)
        ensures
            r@ == linear_scale(),
    {
        Scale { kind: ScaleKind::Linear, domain: None, zero: false }
    }
}

impl Clone for Scale {
    fn clone(&self) -> (r: Self)
        ensures
            r == *self,
    {
        Scale {
            kind: self.kind,
            domain: match &self.domain {
                Some(d) => Some((d.0.clone(), d.1.clone())),
                None => None,
            },
            zero: self.zero,
        }
    }
}

/// The scale an axis gets: the one configured, or the identity.
pub fn scale_or_default(scale: &Option<Scale>) -> (r: Scale)
    ensures
        r@ == (match *scale {
            Some(s) => s@,
            None => linear_scale(),
        }),
{
    match scale {
        Some(s) => s.clone(),
        None => Scale::default(),
    }
}

// --- Channels ---------------------------------------------------------------------

/// The expanded object form of a channel binding: a field name and optional type.
#[derive(Debug, PartialEq, Eq)]
pub struct FieldSpec {
    pub field: String,
    pub ty: Option<DataType>,
}

/// A channel binding: `x: month` (shorthand) or `x: {field: month, type: temporal}`.
#[derive(Debug, PartialEq, Eq)]
pub enum FieldDef {
    Shorthand(String),
    Full(FieldSpec),
}

/// `y: revenue` or `y: [revenue, profit]` (wide multi-series).
#[derive(Debug, PartialEq, Eq)]
pub enum YEncoding {
    One(FieldDef),
    Many(Vec<FieldDef>),
}

/// What a [`FieldDef`] says.
#[verifier::ext_equal]
pub enum FieldModel {
    Shorthand(Seq<char>),
    Full(Seq<char>, Option<DataType>),
}

/// What a [`YEncoding`] says.
#[verifier::ext_equal]
pub enum YModel {
    One(FieldModel),
    Many(Seq<FieldModel>),
}

impl FieldModel {
    /// The field name and the declared type of a binding.
    pub open spec fn parts(self) -> (Seq<char>, Option<DataType>) {
        match self {
            FieldModel::Shorthand(name) => (name, None),
            FieldModel::Full(name, ty) => (name, ty),
        }
    }
}

impl View for FieldDef {
    type V = FieldModel;

    open spec fn view(&self) -> FieldModel {
        match self {
            FieldDef::Shorthand(name) => FieldModel::Shorthand(name@),
            FieldDef::Full(spec) => FieldModel::Full(spec.field@, spec.ty),
        }
    }
}

impl View for YEncoding {
    type V = YModel;

    open spec fn view(&self) -> YModel {
        match self {
            YEncoding::One(def) => YModel::One(def@),
            YEncoding::Many(defs) => YModel::Many(views::views(defs@)),
        }
    }
}

impl FieldDef {
    /// Normalize this binding to a field name plus an optional declared type.
    pub fn parts(&self) -> (r: (&str, Option<DataType>))
        ensures
            (r.0@, r.1) == self@.parts(),
    {
        match self {
            FieldDef::Shorthand(name) => (name.as_str(), None),
            FieldDef::Full(spec) => (spec.field.as_str(), spec.ty),
        }
    }
}

impl Clone for FieldSpec {
    fn clone(&self) -> (r: Self)
        ensures
            r == *self,
    {
        FieldSpec { field: self.field.clone(), ty: self.ty }
    }
}

impl Clone for FieldDef {
    fn clone(&self) -> (r: Self)
        ensures
            r == *self,
    {
        match self {
            FieldDef::Shorthand(name) => FieldDef::Shorthand(name.clone()),
            FieldDef::Full(spec) => FieldDef::Full(spec.clone()),
        }
    }
}

/// Copy a list of bindings.
pub fn copy_defs(defs: &Vec<FieldDef>) -> (r: Vec<FieldDef>)
    ensures
        r@ == defs@,
{
    let mut out: Vec<FieldDef> = Vec::new();
    let mut i: usize = 0;
    while i < defs.len()
        invariant
            i <= defs.len(),
            out@ == defs@.take(i as int),
        decreases defs.len() - i,
    {
        proof {
            views::lemma_take_push(defs@, i as int);
        }
        out.push(defs[i].clone());
        i = i + 1;
    }
    proof {
        views::lemma_take_all(defs@);
    }
    out
}

impl Clone for YEncoding {
    fn clone(&self) -> (r: Self)
        ensures
            r@ == self@,
    {
        match self {
            YEncoding::One(def) => YEncoding::One(def.clone()),
            YEncoding::Many(defs) => YEncoding::Many(copy_defs(defs)),
        }
    }
}

/// Copy an optional binding.
pub fn copy_def(def: &Option<FieldDef>) -> (r: Option<FieldDef>)
    ensures
        r == *def,
{
    match def {
        Some(d) => Some(d.clone()),
        None => None,
    }
}

/// The parts of an optional binding.
pub open spec fn bound(def: Option<FieldModel>) -> Option<(Seq<char>, Option<DataType>)> {
    match def {
        Some(d) => Some(d.parts()),
        None => None,
    }
}

/// The parts of the y channel's bindings: none, one, or many.
pub open spec fn y_bound(y: Option<YModel>) -> Seq<(Seq<char>, Option<DataType>)> {
    match y {
        None => seq![],
        Some(YModel::One(def)) => seq![def.parts()],
        Some(YModel::Many(defs)) => defs.map_values(|d: FieldModel| d.parts()),
    }
}

// --- Configuration ----------------------------------------------------------------

/// Presentation and styling options: titles, legend, palette, plus the mark-styling
/// knobs the host exposes (point/line sizes, fill opacity, stacking, interpolation,
/// gridlines). Every field has a default.
#[derive(Debug, PartialEq, Eq)]
pub struct Config {
    pub title: Option<String>,
    pub x_title: Option<String>,
    pub y_title: Option<String>,
    pub legend: bool,
    /// Hex palette override; the injected theme's series colors apply when absent.
    pub palette: Option<Vec<String>>,
    /// Point/scatter radius in pixels; the backend default applies when absent.
    pub point_size: Option<Number>,
    /// Line and area-border stroke width in pixels; backend default when absent.
    pub line_width: Option<Number>,
    /// Fill alpha between zero and one for area and bar fills; backend default when absent.
    pub fill_opacity: Option<Number>,
    /// Stack bar and area series on a running per-x cumulative baseline rather than
    /// drawing them grouped/overlaid.
    pub stack: bool,
    /// Line interpolation; `Linear` (the absent default) joins points straight,
    /// `Step` draws a staircase.
    pub interpolate: Option<Interpolate>,
    /// Draw mesh gridlines behind the marks. Axis lines and labels are kept either
    /// way; only the interior grid is suppressed when false.
    pub show_grid: bool,
    /// Bar/area orientation; `Vertical` (the absent default) draws bars upward, `Horizontal`
    /// lays categories down the y axis.
    pub orientation: Option<Orientation>,
    /// Histogram bucket count; the resolver applies a default of 20 when absent.
    pub bins: Option<usize>,
    /// Donut hole radius as a fraction of the outer radius (`Arc`); zero is a full pie.
    pub inner_radius: Option<Number>,
    /// X-axis scale (log/sqrt/domain/zero); the linear identity applies when absent.
    pub x_scale: Option<Scale>,
    /// Y-axis scale (log/sqrt/domain/zero); the linear identity applies when absent.
    pub y_scale: Option<Scale>,
    /// Draw a `Table`'s fields down the left and its records across.
    pub transpose: bool,
}

/// What a [`Config`] says.
#[verifier::ext_equal]
pub struct ConfigModel {
    pub title: Option<Seq<char>>,
    pub x_title: Option<Seq<char>>,
    pub y_title: Option<Seq<char>>,
    pub legend: bool,
    pub palette: Option<Seq<Seq<char>>>,
    pub point_size: Option<Seq<char>>,
    pub line_width: Option<Seq<char>>,
    pub fill_opacity: Option<Seq<char>>,
    pub stack: bool,
    pub interpolate: Option<Interpolate>,
    pub show_grid: bool,
    pub orientation: Option<Orientation>,
    pub bins: Option<usize>,
    pub inner_radius: Option<Seq<char>>,
    pub x_scale: Option<ScaleModel>,
    pub y_scale: Option<ScaleModel>,
    pub transpose: bool,
}

impl View for Config {
    type V = ConfigModel;

    open spec fn view(&self) -> ConfigModel {
        ConfigModel {
            title: views::opt_view(self.title),
            x_title: views::opt_view(self.x_title),
            y_title: views::opt_view(self.y_title),
            legend: self.legend,
            palette: views::opt_views(self.palette),
            point_size: views::opt_view(self.point_size),
            line_width: views::opt_view(self.line_width),
            fill_opacity: views::opt_view(self.fill_opacity),
            stack: self.stack,
            interpolate: self.interpolate,
            show_grid: self.show_grid,
            orientation: self.orientation,
            bins: self.bins,
            inner_radius: views::opt_view(self.inner_radius),
            x_scale: views::opt_view(self.x_scale),
            y_scale: views::opt_view(self.y_scale),
            transpose: self.transpose,
        }
    }
}

/// The configuration of a spec that sets none: no titles, legend on, no palette override, all
/// styling knobs unset, no stacking, gridlines shown, not transposed.
pub open spec fn default_config() -> ConfigModel {
    ConfigModel {
        title: None,
        x_title: None,
        y_title: None,
        legend: true,
        palette: None,
        point_size: None,
        line_width: None,
        fill_opacity: None,
        stack: false,
        interpolate: None,
        show_grid: true,
        orientation: None,
        bins: None,
        inner_radius: None,
        x_scale: None,
        y_scale: None,
        transpose: false,
    }
}

impl Default for Config {
    /// No titles, legend on, no palette override, all styling knobs unset (backend
    /// defaults), no stacking, linear interpolation, gridlines shown.
    fn default() -> (r: Self)
        ensures
            r@ == default_config(),
    {
        Config {
            title: None,
            x_title: None,
            y_title: None,
            legend: true,
            palette: None,
            point_size: None,
            line_width: None,
            fill_opacity: None,
            stack: false,
            interpolate: None,
            show_grid: true,
            orientation: None,
            bins: None,
            inner_radius: None,
            x_scale: None,
            y_scale: None,
            transpose: false,
        }
    }
}

/// Copy an optional number.
pub fn copy_number(n: &Option<Number>) -> (r: Option<Number>)
    ensures
        r == *n,
{
    match n {
        Some(v) => Some(v.clone()),
        None => None,
    }
}

/// Copy an optional scale.
pub fn copy_scale(scale: &Option<Scale>) -> (r: Option<Scale>)
    ensures
        r == *scale,
{
    match scale {
        Some(s) => Some(s.clone()),
        None => None,
    }
}

/// Copy an optional list of strings.
pub fn copy_list(list: &Option<Vec<String>>) -> (r: Option<Vec<String>>)
    ensures
        views::opt_views(r) == views::opt_views(*list),
{
    match list {
        Some(v) => Some(text::copy_strings(v)),
        None => None,
    }
}

impl Clone for Config {
    fn clone(&self) -> (r: Self)
        ensures
            r@ == self@,
    {
        Config {
            title: text::copy_opt(&self.title),
            x_title: text::copy_opt(&self.x_title),
            y_title: text::copy_opt(&self.y_title),
            legend: self.legend,
            palette: copy_list(&self.palette),
            point_size: copy_number(&self.point_size),
            line_width: copy_number(&self.line_width),
            fill_opacity: copy_number(&self.fill_opacity),
            stack: self.stack,
            interpolate: self.interpolate,
            show_grid: self.show_grid,
            orientation: self.orientation,
            bins: self.bins,
            inner_radius: copy_number(&self.inner_radius),
            x_scale: copy_scale(&self.x_scale),
            y_scale: copy_scale(&self.y_scale),
            transpose: self.transpose,
        }
    }
}

// --- The specification ------------------------------------------------------------

/// A full chart specification: a mark, encoding channels, optional data id, and
/// config. Forward-compatible via the `extra` capture.
#[derive(Debug, PartialEq, Eq)]
pub struct ChartSpec {
    pub mark: Mark,
    pub x: Option<FieldDef>,
    pub y: Option<YEncoding>,
    pub color: Option<FieldDef>,
    /// Size channel: a quantitative field scaling per-point radius (bubble) for `Point`.
    pub size: Option<FieldDef>,
    /// Angular channel: the per-slice magnitude summed per category for the `Arc` mark.
    pub theta: Option<FieldDef>,
    /// Data identifier (e.g. "sales.csv"). `None` => the data table is supplied
    /// directly (the inline CSV body of a chart block).
    pub data: Option<String>,
    /// The columns a `Table` shows, in order; every column when absent.
    pub columns: Option<Vec<String>>,
    pub config: Config,
    /// Fields the model does not (yet) understand, each with its value as YAML text.
    pub extra: Vec<(String, String)>,
}

/// What a [`ChartSpec`] says.
#[verifier::ext_equal]
pub struct SpecModel {
    pub mark: Mark,
    pub x: Option<FieldModel>,
    pub y: Option<YModel>,
    pub color: Option<FieldModel>,
    pub size: Option<FieldModel>,
    pub theta: Option<FieldModel>,
    pub data: Option<Seq<char>>,
    pub columns: Option<Seq<Seq<char>>>,
    pub config: ConfigModel,
    pub extra: Seq<(Seq<char>, Seq<char>)>,
}

/// The texts of a list of key/value pairs.
pub open spec fn pair_views(pairs: Seq<(String, String)>) -> Seq<(Seq<char>, Seq<char>)> {
    pairs.map_values(|p: (String, String)| (p.0@, p.1@))
}

impl View for ChartSpec {
    type V = SpecModel;

    open spec fn view(&self) -> SpecModel {
        SpecModel {
            mark: self.mark,
            x: views::opt_view(self.x),
            y: views::opt_view(self.y),
            color: views::opt_view(self.color),
            size: views::opt_view(self.size),
            theta: views::opt_view(self.theta),
            data: views::opt_view(self.data),
            columns: views::opt_views(self.columns),
            config: self.config@,
            extra: pair_views(self.extra@),
        }
    }
}

fn copy_pairs(pairs: &Vec<(String, String)>) -> (r: Vec<(String, String)>)
    ensures
        r@ == pairs@,
{
    let mut out: Vec<(String, String)> = Vec::new();
    let mut i: usize = 0;
    while i < pairs.len()
        invariant
            i <= pairs.len(),
            out@ == pairs@.take(i as int),
        decreases pairs.len() - i,
    {
        proof {
            views::lemma_take_push(pairs@, i as int);
        }
        out.push((pairs[i].0.clone(), pairs[i].1.clone()));
        i = i + 1;
    }
    proof {
        views::lemma_take_all(pairs@);
    }
    out
}

impl Clone for ChartSpec {
    fn clone(&self) -> (r: Self)
        ensures
            r@ == self@,
    {
        ChartSpec {
            mark: self.mark,
            x: copy_def(&self.x),
            y: match &self.y {
                Some(y) => Some(y.clone()),
                None => None,
            },
            color: copy_def(&self.color),
            size: copy_def(&self.size),
            theta: copy_def(&self.theta),
            data: text::copy_opt(&self.data),
            columns: copy_list(&self.columns),
            config: self.config.clone(),
            extra: copy_pairs(&self.extra),
        }
    }
}

/// The parts of an optional binding.
fn parts_of(def: &Option<FieldDef>) -> (r: Option<(&str, Option<DataType>)>)
    ensures
        parts_view(r) == bound(views::opt_view(*def)),
{
    match def {
        Some(d) => Some(d.parts()),
        None => None,
    }
}

/// The texts of an optional binding's parts.
pub open spec fn parts_view(parts: Option<(&str, Option<DataType>)>) -> Option<
    (Seq<char>, Option<DataType>),
> {
    match parts {
        Some(p) => Some((p.0@, p.1)),
        None => None,
    }
}

/// The texts of a list of bindings' parts.
pub open spec fn all_parts_view(parts: Seq<(&str, Option<DataType>)>) -> Seq<
    (Seq<char>, Option<DataType>),
> {
    parts.map_values(|p: (&str, Option<DataType>)| (p.0@, p.1))
}

impl ChartSpec {
    /// A spec with the given mark, no channel bound, and the default configuration.
    pub fn new(mark: Mark) -> (r: ChartSpec)
        ensures
            r@ == empty_spec(mark),
    {
        let r = ChartSpec {
            mark,
            x: None,
            y: None,
            color: None,
            size: None,
            theta: None,
            data: None,
            columns: None,
            config: Config::default(),
            extra: Vec::new(),
        };
        assert(r@.extra =~= seq![]);
        r
    }

    /// The x channel's field name and optional declared type, if an x is bound.
    pub fn x_field(&self) -> (r: Option<(&str, Option<DataType>)>)
        ensures
            parts_view(r) == bound(self@.x),
    {
        parts_of(&self.x)
    }

    /// The y channel's fields: empty, one, or many depending on the encoding.
    pub fn y_fields(&self) -> (r: Vec<(&str, Option<DataType>)>)
        ensures
            all_parts_view(r@) == y_bound(self@.y),
    {
        let mut out: Vec<(&str, Option<DataType>)> = Vec::new();
        match &self.y {
            None => {},
            Some(YEncoding::One(def)) => {
                out.push(def.parts());
            },
            Some(YEncoding::Many(defs)) => {
                let mut i: usize = 0;
                while i < defs.len()
                    invariant
                        i <= defs.len(),
                        out.len() == i,
                        forall|k: int|
                            0 <= k < i ==> ((#[trigger] out@[k]).0@, out@[k].1)
                                == defs@[k]@.parts(),
                    decreases defs.len() - i,
                {
                    out.push(defs[i].parts());
                    i = i + 1;
                }
            },
        }
        assert(all_parts_view(out@) =~= y_bound(self@.y));
        out
    }

    /// The color channel's field name and optional declared type, if bound.
    pub fn color_field(&self) -> (r: Option<(&str, Option<DataType>)>)
        ensures
            parts_view(r) == bound(self@.color),
    {
        parts_of(&self.color)
    }

    /// The size channel's field name and optional declared type, if bound (bubble radius).
    pub fn size_field(&self) -> (r: Option<(&str, Option<DataType>)>)
        ensures
            parts_view(r) == bound(self@.size),
    {
        parts_of(&self.size)
    }

    /// The theta channel's field name and optional declared type, if bound (`Arc` magnitude).
    pub fn theta_field(&self) -> (r: Option<(&str, Option<DataType>)>)
        ensures
            parts_view(r) == bound(self@.theta),
    {
        parts_of(&self.theta)
    }
}

/// A spec that binds no channel and sets no option.
pub open spec fn empty_spec(mark: Mark) -> SpecModel {
    SpecModel {
        mark,
        x: None,
        y: None,
        color: None,
        size: None,
        theta: None,
        data: None,
        columns: None,
        config: default_config(),
        extra: seq![],
    }
}

// --- Laws -------------------------------------------------------------------------

/// The short form of a binding says what the full form without a type does, and the full form
/// says the field and the type it is given.
pub proof fn law_both_forms_of_a_binding_agree(name: Seq<char>, ty: Option<DataType>)
    ensures
        FieldModel::Shorthand(name).parts() == FieldModel::Full(name, None).parts(),
        FieldModel::Full(name, ty).parts() == (name, ty),
        bound(Some(FieldModel::Full(name, ty))) == Some((name, ty)),
        bound(None) is None,
{
}

/// One y field is a list of one, and a list of y fields keeps its order.
pub proof fn law_y_fields_are_in_order(defs: Seq<FieldModel>, k: int)
    requires
        0 <= k < defs.len(),
    ensures
        y_bound(Some(YModel::One(defs[k]))) == y_bound(Some(YModel::Many(seq![defs[k]]))),
        y_bound(Some(YModel::Many(defs))).len() == defs.len(),
        y_bound(Some(YModel::Many(defs)))[k] == defs[k].parts(),
        y_bound(None).len() == 0,
{
    assert(y_bound(Some(YModel::One(defs[k]))) =~= y_bound(Some(YModel::Many(seq![defs[k]]))));
}

/// Without options, a chart has its legend and its grid and nothing else: no title, no override, no
/// stacking, no scale, and no transposition.
pub proof fn law_legend_and_grid_are_on_by_default()
    ensures
        ({
            let c = default_config();
            &&& c.legend && c.show_grid
            &&& !c.stack && !c.transpose
            &&& c.title is None && c.x_title is None && c.y_title is None && c.palette is None
            &&& c.point_size is None && c.line_width is None && c.fill_opacity is None
            &&& c.interpolate is None && c.orientation is None && c.bins is None
            &&& c.inner_radius is None && c.x_scale is None && c.y_scale is None
        }),
{
}

/// A scale maps more the further it goes from the logarithm: what has a logarithm has a square
/// root, and everything is linear; zero has a square root and no logarithm, and what is below
/// zero or no number has neither.
pub proof fn law_scales_map_what_they_are_defined_for(sign: Sign)
    ensures
        ScaleKind::Linear.maps(sign),
        ScaleKind::Log.maps(sign) <==> sign == Sign::Positive,
        ScaleKind::Sqrt.maps(sign) <==> sign != Sign::Negative && sign != Sign::Unordered,
{
}

} // verus!
