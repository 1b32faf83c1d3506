//! `BuilderState`: the headless model behind the chart builder and preview.
//!
//! It owns the `ChartSpec` being edited, the resolved `Table` (for column lists and
//! inferred types), the `Theme`, the canvas `Size`, and a one-slot render cache keyed
//! on `identity::content_hash` so a static chart re-renders only when an input actually
//! changes. Every panel action is a transition method that mutates the spec, so a panel-built
//! spec is identical to a hand-authored one. Export wraps the spec's YAML in a chart fence;
//! open-in-editor keeps the original block's inline CSV body and provenance so save can
//! re-attach the data verbatim into the exact byte range.
//!
//! A host serializes: where a method writes a block it takes the YAML of the spec, and where
//! one reads a block it takes what the YAML deserialized to.

use crate::arithmetic::Computed;
use crate::arithmetic::ComputedModel;
use crate::arithmetic::Terms;
use crate::backend::Backend;
use crate::backend::RenderOutput;
use crate::backend::Size;
use crate::block;
use crate::block::ParsedModel;
use crate::data;
use crate::data::ColumnModel;
use crate::data::Table;
use crate::diag;
use crate::dsl;
use crate::dsl::ChartSpec;
use crate::dsl::ConfigModel;
use crate::dsl::DataType;
use crate::dsl::FieldDef;
use crate::dsl::FieldModel;
use crate::dsl::FieldSpec;
use crate::dsl::Interpolate;
use crate::dsl::Mark;
use crate::dsl::Orientation;
use crate::dsl::Scale;
use crate::dsl::ScaleKind;
use crate::dsl::ScaleModel;
use crate::dsl::SpecModel;
use crate::dsl::YEncoding;
use crate::dsl::YModel;
use crate::identity;
use crate::identity::Inputs;
use crate::numeral::Number;
use crate::resolve;
use crate::row_laws;
use crate::text;
use crate::theme;
use crate::theme::Color;
use crate::theme::Theme;
use crate::theme::ThemeModel;
use crate::typing;
use crate::views;
use std::collections::hash_map::DefaultHasher;
use std::ops::Range;
use vstd::prelude::*;
use vstd::std_specs::hash::DefaultHasherAdditionalSpecFns;

verus! {

/// How a chart's multiple series are encoded: wide (one column per series, a `y`
/// list, no color) or long (one value column split by a `color` category column).
/// Both lower to the same series in the resolver.
#[derive(Clone, Copy, Debug, PartialEq, Eq, Structural)]
pub enum SeriesMode {
    /// `y: [a, b, ...]` — one series per named column.
    Wide,
    /// `y: value` + `color: metric` — one series per distinct value of `metric`.
    Long,
}

/// Which single-field channel a type declaration targets. `y` is excluded because
/// it may hold many fields; per-y types use the full object form directly.
#[derive(Clone, Copy, Debug, PartialEq, Eq, Structural)]
pub enum Channel {
    X,
    Color,
}

/// Which cartesian axis a scale edit targets. Radial marks have no axes, so the panel
/// only surfaces these for cartesian marks (`caps.options.scales`).
#[derive(Clone, Copy, Debug, PartialEq, Eq, Structural)]
pub enum Axis {
    X,
    Y,
}

/// Where an opened chart block came from, so `save_block` can splice the
/// regenerated text back into exactly the right place. The byte range
/// is the fence's inner range as reported by the host's fence detector.
#[derive(Debug, PartialEq, Eq)]
pub struct Provenance {
    /// The host's identifier for the note the block lives in.
    pub note_id: String,
    /// The byte range of the block body the save splices into.
    pub byte_range: Range<usize>,
}

/// What a [`Provenance`] says.
#[verifier::ext_equal]
pub struct ProvenanceModel {
    pub note_id: Seq<char>,
    pub start: usize,
    pub end: usize,
}

impl View for Provenance {
    type V = ProvenanceModel;

    open spec fn view(&self) -> ProvenanceModel {
        ProvenanceModel {
            note_id: self.note_id@,
            start: self.byte_range.start,
            end: self.byte_range.end,
        }
    }
}

impl Clone for Provenance {
    fn clone(&self) -> (r: Self)
        ensures
            r@ == self@,
    {
        Provenance {
            note_id: self.note_id.clone(),
            byte_range: Range { start: self.byte_range.start, end: self.byte_range.end },
        }
    }
}

/// The editable builder state: spec + data + theme + size, plus a render cache and
/// optional open-in-editor provenance.
pub struct BuilderState {
    spec: ChartSpec,
    table: Table,
    theme: Theme,
    size: Size,
    /// The verbatim inline CSV body of an opened block, re-attached on save. `None`
    /// for a fresh builder or a block that references external data.
    csv_body: Option<String>,
    /// Where an opened block came from; `None` for a fresh, never-saved builder.
    provenance: Option<Provenance>,
    /// One-slot cache: the content hash of the inputs that produced the output.
    cache: Option<(u64, RenderOutput)>,
}

/// What a [`BuilderState`] holds.
#[verifier::ext_equal]
pub struct BuilderModel {
    pub spec: SpecModel,
    pub table: Seq<ColumnModel>,
    pub theme: ThemeModel,
    pub size: Size,
    pub csv_body: Option<Seq<char>>,
    pub provenance: Option<ProvenanceModel>,
    pub cache: Option<(u64, Seq<char>)>,
}

impl View for BuilderState {
    type V = BuilderModel;

    closed spec fn view(&self) -> BuilderModel {
        BuilderModel {
            spec: self.spec@,
            table: self.table@,
            theme: self.theme@,
            size: self.size,
            csv_body: views::opt_view(self.csv_body),
            provenance: views::opt_view(self.provenance),
            cache: match self.cache {
                Some(c) => Some((c.0, c.1@)),
                None => None,
            },
        }
    }
}

// --- Edits of a spec --------------------------------------------------------------

/// A binding to a column by name.
pub open spec fn shorthand(column: Option<Seq<char>>) -> Option<FieldModel> {
    match column {
        Some(c) => Some(FieldModel::Shorthand(c)),
        None => None,
    }
}

/// The text of an optional borrowed string.
pub open spec fn opt_str(s: Option<&str>) -> Option<Seq<char>> {
    match s {
        Some(t) => Some(t@),
        None => None,
    }
}

/// The names of the y fields.
pub open spec fn y_names(y: Option<YModel>) -> Seq<Seq<char>> {
    dsl::y_bound(y).map_values(|p: (Seq<char>, Option<DataType>)| p.0)
}

/// The bindings of the y channel, with the types they declare: none, one, or many.
pub open spec fn y_defs(y: Option<YModel>) -> Seq<FieldModel> {
    match y {
        None => seq![],
        Some(YModel::One(def)) => seq![def],
        Some(YModel::Many(defs)) => defs,
    }
}

/// A list of y fields, in the terse form for a single one and the list form otherwise.
pub open spec fn y_encoding(defs: Seq<FieldModel>) -> YModel {
    if defs.len() == 1 {
        YModel::One(defs[0])
    } else {
        YModel::Many(defs)
    }
}

/// The y channel with a field added behind the others, unless one of that name is there already.
pub open spec fn y_with(y: Option<YModel>, column: Seq<char>) -> Option<YModel> {
    if y_names(y).contains(column) {
        y
    } else {
        Some(y_encoding(y_defs(y).push(FieldModel::Shorthand(column))))
    }
}

/// Those of the bindings that are not to the given column.
pub open spec fn defs_without(defs: Seq<FieldModel>, column: Seq<char>) -> Seq<FieldModel>
    decreases defs.len(),
{
    if defs.len() == 0 {
        seq![]
    } else {
        let earlier = defs_without(defs.drop_last(), column);
        if defs.last().parts().0 == column {
            earlier
        } else {
            earlier.push(defs.last())
        }
    }
}

/// The y channel with a field removed.
pub open spec fn y_without(y: Option<YModel>, column: Seq<char>) -> Option<YModel> {
    let defs = defs_without(y_defs(y), column);
    if defs.len() == 0 {
        None
    } else {
        Some(y_encoding(defs))
    }
}

/// The columns a table shows: those listed, or all of them.
pub open spec fn shown(spec: SpecModel, table: Seq<ColumnModel>) -> Seq<Seq<char>> {
    match spec.columns {
        Some(columns) => columns,
        None => data::names(table),
    }
}

/// A list of columns with one taken out, at its first place, or else added at the end.
pub open spec fn toggled(columns: Seq<Seq<char>>, column: Seq<char>) -> Seq<Seq<char>> {
    match text::index_of(columns, column) {
        Some(i) => columns.remove(i),
        None => columns.push(column),
    }
}

/// A list with the elements at two places exchanged.
pub open spec fn swapped(columns: Seq<Seq<char>>, i: int, j: int) -> Seq<Seq<char>> {
    columns.update(i, columns[j]).update(j, columns[i])
}

/// The place next to `index`, toward the front or the back.
pub open spec fn neighbor(index: int, up: bool) -> int {
    if up {
        index - 1
    } else {
        index + 1
    }
}

/// The spec with the column at `index` moved by one place, where there is such a place.
pub open spec fn moved(spec: SpecModel, table: Seq<ColumnModel>, index: int, up: bool) -> SpecModel {
    let columns = shown(spec, table);
    let j = neighbor(index, up);
    if 0 <= index < columns.len() && 0 <= j < columns.len() {
        SpecModel { columns: Some(swapped(columns, index, j)), ..spec }
    } else {
        spec
    }
}

/// The spec in the wide or the long encoding.
pub open spec fn in_mode(spec: SpecModel, mode: SeriesMode, split: Option<Seq<char>>) -> SpecModel {
    match mode {
        SeriesMode::Wide => SpecModel { color: None, ..spec },
        SeriesMode::Long => SpecModel {
            y: if y_defs(spec.y).len() > 0 {
                Some(YModel::One(y_defs(spec.y)[0]))
            } else {
                spec.y
            },
            color: match split {
                Some(column) => Some(FieldModel::Shorthand(column)),
                None => spec.color,
            },
            ..spec
        },
    }
}

/// A binding in its full form, with the given type.
pub open spec fn with_type(def: Option<FieldModel>, ty: Option<DataType>) -> Option<FieldModel> {
    match def {
        Some(d) => Some(FieldModel::Full(d.parts().0, ty)),
        None => None,
    }
}

/// The configured scale of an axis.
pub open spec fn scale_of(config: ConfigModel, axis: Axis) -> Option<ScaleModel> {
    match axis {
        Axis::X => config.x_scale,
        Axis::Y => config.y_scale,
    }
}

/// The configuration with the scale of an axis set.
pub open spec fn with_scale(config: ConfigModel, axis: Axis, scale: ScaleModel) -> ConfigModel {
    match axis {
        Axis::X => ConfigModel { x_scale: Some(scale), ..config },
        Axis::Y => ConfigModel { y_scale: Some(scale), ..config },
    }
}

/// The palette with the color at `index` set: the entries that are there, then as many more as
/// are needed, each the color that its series has now.
pub open spec fn recolored(
    palette: Option<Seq<Seq<char>>>,
    theme: ThemeModel,
    index: int,
    color: Color,
) -> Seq<Seq<char>> {
    let present = match palette {
        Some(p) => p,
        None => seq![],
    };
    Seq::new(
        if present.len() > index + 1 {
            present.len()
        } else {
            (index + 1) as nat
        },
        |k: int|
            if k == index {
                theme::hex_text(color)
            } else if k < present.len() {
                present[k]
            } else {
                theme::hex_text(theme::color_of(palette, theme, k))
            },
    )
}

/// The state with its spec replaced.
pub open spec fn with_spec(state: BuilderModel, spec: SpecModel) -> BuilderModel {
    BuilderModel { spec, ..state }
}

/// The state with its spec's configuration replaced.
pub open spec fn with_config(state: BuilderModel, config: ConfigModel) -> BuilderModel {
    BuilderModel { spec: SpecModel { config, ..state.spec }, ..state }
}

/// Whether an edit keeps what it has no business with: the fields of the spec that the model does
/// not understand, its data reference, the table, and what saving the chart re-attaches.
pub open spec fn edit_keeps(before: BuilderModel, after: BuilderModel) -> bool {
    &&& after.spec.extra == before.spec.extra
    &&& after.spec.data == before.spec.data
    &&& after.table == before.table
    &&& after.size == before.size
    &&& after.csv_body == before.csv_body
    &&& after.provenance == before.provenance
}

/// The hash of the inputs of a state's chart.
pub open spec fn state_hash(state: BuilderModel) -> u64 {
    identity::inputs_hash(state.spec, state.table, state.theme, state.size)
}

/// A fresh state around its inputs.
pub open spec fn fresh(
    spec: SpecModel,
    table: Seq<ColumnModel>,
    theme: ThemeModel,
    size: Size,
    csv_body: Option<Seq<char>>,
    provenance: Option<ProvenanceModel>,
) -> BuilderModel {
    BuilderModel { spec, table, theme, size, csv_body, provenance, cache: None }
}

/// A text without the newlines at its end.
pub open spec fn without_newlines(s: Seq<char>) -> Seq<char>
    decreases s.len(),
{
    if s.len() > 0 && s.last() == '\n' {
        without_newlines(s.drop_last())
    } else {
        s
    }
}

/// A text with exactly one newline at its end.
pub open spec fn newline_ended(s: Seq<char>) -> Seq<char> {
    without_newlines(s).push('\n')
}

/// A text verbatim, with its last line ended where it is not.
pub open spec fn line_ended(s: Seq<char>) -> Seq<char> {
    if s.len() > 0 && s.last() == '\n' {
        s
    } else {
        s.push('\n')
    }
}

/// The text of a chart fence around a block.
pub open spec fn fenced(inner: Seq<char>) -> Seq<char> {
    "```chart\n"@ + inner + "```"@
}

/// The body of a self-contained block: the config, a separator line, and the data verbatim, up
/// to the end of its last line.
pub open spec fn inline_body(yaml: Seq<char>, csv: Seq<char>) -> Seq<char> {
    newline_ended(yaml) + "---\n"@ + line_ended(csv)
}

/// The body of a saved block: the config and, where there is inline data, a separator line and
/// the data verbatim.
pub open spec fn saved_body(yaml: Seq<char>, csv: Option<Seq<char>>) -> Seq<char> {
    match csv {
        Some(c) => newline_ended(yaml) + "---\n"@ + c,
        None => newline_ended(yaml),
    }
}

/// The data of a self-contained block: the CSV body that was opened, or the table as CSV.
pub open spec fn inline_csv(state: BuilderModel) -> Seq<char> {
    match state.csv_body {
        Some(csv) => csv,
        None => data::csv_written(seq![data::names(state.table)] + data::all_rows(state.table)),
    }
}

/// Whether the body of a self-contained block parses back: to the spec that the YAML
/// deserializes to and, where the data was written from the table, to the table with its short
/// columns filled up. The YAML may hold no separator line of its own, and the table must be one
/// that CSV can hold.
pub open spec fn reads_back_inline(state: BuilderModel, yaml: Seq<char>) -> bool {
    let body = inline_body(yaml, inline_csv(state));
    block::separator(newline_ended(yaml), 0) is None ==> {
        &&& block::halves(body) == (
            newline_ended(yaml),
            Some(line_ended(inline_csv(state))),
        )
        &&& (state.csv_body is None && data::reads_back(
            seq![data::names(state.table)] + data::all_rows(state.table),
        )) ==> block::parsed(body, Ok(state.spec)) == Ok::<ParsedModel, Seq<diag::DiagModel>>(
            ParsedModel {
                spec: state.spec,
                table: Some(data::squared(state.table)),
                csv_body: Some(inline_csv(state)),
            },
        )
    }
}

/// What opening a block gives: the state, or the message of what is wrong with the block.
pub open spec fn opened(
    body: Seq<char>,
    config: Result<SpecModel, Seq<char>>,
    theme: ThemeModel,
    size: Size,
    provenance: ProvenanceModel,
) -> Result<BuilderModel, Seq<char>> {
    match block::parsed(body, config) {
        Err(diags) => Err(diag::joined(diags, "; "@)),
        Ok(parsed) => match parsed.table {
            None => Err(
                "chart block has no inline data (expected a `---` line followed by CSV)"@,
            ),
            Some(table) => Ok(
                fresh(parsed.spec, table, theme, size, parsed.csv_body, Some(provenance)),
            ),
        },
    }
}

/// The contents of an opened state, or of the message.
pub open spec fn state_view(r: Result<BuilderState, String>) -> Result<BuilderModel, Seq<char>> {
    match r {
        Ok(state) => Ok(state@),
        Err(message) => Err(message@),
    }
}

/// The names of the series a spec draws of a table; none where it draws nothing.
pub open spec fn names_of_series(
    spec: SpecModel,
    table: Seq<ColumnModel>,
    computed: ComputedModel,
) -> Seq<Seq<char>> {
    match resolve::resolved(spec, table, computed) {
        Ok(chart) => chart.series.map_values(|s: crate::backend::SeriesModel| s.name),
        Err(_) => seq![],
    }
}

/// The SVG of an optional output.
pub open spec fn opt_output(output: Option<&RenderOutput>) -> Option<Seq<char>> {
    match output {
        Some(out) => Some(out@),
        None => None,
    }
}

/// The output that the cache holds for a state's inputs, if it does.
pub open spec fn cached(state: BuilderModel) -> Option<Seq<char>> {
    match state.cache {
        Some(c) => if c.0 == state_hash(state) {
            Some(c.1)
        } else {
            None
        },
        None => None,
    }
}

/// What a render does. With the inputs' output in the cache it is returned, and nothing changes.
/// Otherwise the chart that the spec draws of the table, given what was computed from its terms,
/// is handed to the backend, with the state's theme and size; what the backend paints is returned
/// and kept in the cache under the inputs' hash. Nothing is returned or changed when there is no
/// chart or the backend fails.
pub open spec fn rendered<B: Backend>(
    backend: B,
    computed: ComputedModel,
    before: BuilderModel,
    after: BuilderModel,
    output: Option<Seq<char>>,
) -> bool {
    let hash = state_hash(before);
    if let Some(svg) = cached(before) {
        after == before && output == Some(svg)
    } else {
        match resolve::resolved(before.spec, before.table, computed) {
            Err(_) => after == before && output is None,
            Ok(drawn) => painted(backend, drawn, before.theme, before.size, output) && after == (
            match output {
                Some(svg) => BuilderModel { cache: Some((hash, svg)), ..before },
                None => before,
            }),
        }
    }
}

/// Whether a backend, given the chart, the theme and the size, can have painted the output.
pub open spec fn painted<B: Backend>(
    backend: B,
    drawn: crate::backend::ChartModel,
    theme: ThemeModel,
    size: Size,
    output: Option<Seq<char>>,
) -> bool {
    exists|
        chart: crate::backend::ResolvedChart,
        colors: Theme,
        result: Result<RenderOutput, crate::backend::RenderError>,
    |
        {
            &&& chart@ == drawn
            &&& colors@ == theme
            &&& #[trigger] call_ensures(B::render, (&backend, &chart, &colors, size), result)
            &&& output == (match result {
                Ok(out) => Some(out@),
                Err(_) => None,
            })
        }
}

/// The characters of the separator line.
proof fn lemma_separator_text()
    ensures
        "---\n"@ == seq!['-', '-', '-', '\n'],
{
    reveal_strlit("---\n");
    assert("---\n"@ =~= seq!['-', '-', '-', '\n']);
}

/// A chart fence around a block.
fn fence(inner: &str) -> (r: String)
    ensures
        r@ == fenced(inner@),
{
    text::framed("```chart\n", inner, "```")
}

/// Encode a list of y fields as the terse `One` form for a single field or the
/// `Many` list form for multiple, matching how a human would hand-author it.
fn encode_y(fields: Vec<FieldDef>) -> (r: YEncoding)
    ensures
        r@ == y_encoding(views::views(fields@)),
{
    if fields.len() == 1 {
        assert(views::views(fields@)[0] == fields@[0]@);
        YEncoding::One(fields[0].clone())
    } else {
        YEncoding::Many(fields)
    }
}

/// A binding to a column by name.
fn bind(column: Option<&str>) -> (r: Option<FieldDef>)
    ensures
        views::opt_view(r) == shorthand(opt_str(column)),
{
    match column {
        Some(c) => Some(FieldDef::Shorthand(c.to_owned())),
        None => None,
    }
}

/// Ensure a string ends with exactly one trailing newline, so a fence's closing
/// backticks sit on their own line regardless of the serializer's output.
fn ensure_trailing_newline(s: &str) -> (r: String)
    ensures
        r@ == newline_ended(s@),
{
    let mut n: usize = s.unicode_len();
    proof {
        views::lemma_take_all(s@);
    }
    while n > 0 && s.get_char(n - 1) == '\n'
        invariant
            n <= s@.len(),
            without_newlines(s@.take(n as int)) == without_newlines(s@),
        decreases n,
    {
        proof {
            views::lemma_take_push(s@, n - 1);
        }
        n = n - 1;
    }
    let mut out = s.substring_char(0, n).to_owned();
    assert(s@.subrange(0, n as int) =~= s@.take(n as int));
    out.push('\n');
    out
}

/// Ensure the last line of a string is ended, leaving the rest of it verbatim.
fn ensure_ended_line(s: &str) -> (r: String)
    ensures
        r@ == line_ended(s@),
{
    let n = s.unicode_len();
    let mut out = s.to_owned();
    if n == 0 || s.get_char(n - 1) != '\n' {
        out.push('\n');
    }
    out
}

impl BuilderState {
    /// Construct a builder around an existing spec, table, theme, and size. The
    /// render cache starts empty; no CSV body or provenance is attached.
    #[must_use]
    pub fn new(spec: ChartSpec, table: Table, theme: Theme, size: Size) -> (r: BuilderState)
        ensures
            r@ == fresh(spec@, table@, theme@, size, None, None),
    {
        BuilderState {
            spec,
            table,
            theme,
            size,
            csv_body: None,
            provenance: None,
            cache: None,
        }
    }

    /// Open a chart block's config in the builder, seeded from its deserialized YAML and
    /// the host-resolved `table`. The original `csv_body` (the block's inline CSV,
    /// if any) and `prov` are retained so `save_block` re-attaches the data verbatim
    /// into the original byte range. Returns the parse error message if
    /// the YAML is not a valid `ChartSpec`.
    pub fn from_block(
        config: Result<ChartSpec, String>,
        table: Table,
        csv_body: Option<String>,
        prov: Provenance,
        theme: Theme,
        size: Size,
    ) -> (r: Result<BuilderState, String>)
        ensures
            state_view(r) == (match block::config_view(config) {
                Ok(spec) => Ok(
                    fresh(
                        spec,
                        table@,
                        theme@,
                        size,
                        views::opt_view(csv_body),
                        Some(prov@),
                    ),
                ),
                Err(message) => Err(message),
            }),
    {
        match config {
            Ok(spec) => Ok(
                BuilderState {
                    spec,
                    table,
                    theme,
                    size,
                    csv_body,
                    provenance: Some(prov),
                    cache: None,
                },
            ),
            Err(message) => Err(message),
        }
    }

    /// Open a self-contained chart block — the YAML config, a `---` line, then a raw
    /// CSV body — splitting and parsing it in one step via
    /// [`block::parse_block`]. This is the read half of the
    /// round trip [`save_block`](Self::save_block) writes: the inline CSV becomes the
    /// builder's table and is retained verbatim for re-attachment on save. Returns an
    /// error message if the config or CSV is malformed, or if the block carries no
    /// `---` data section (use [`from_block`](Self::from_block) with a host-resolved
    /// table for an external-`data:` block).
    pub fn from_block_body(
        body: &str,
        config: Result<ChartSpec, String>,
        prov: Provenance,
        theme: Theme,
        size: Size,
    ) -> (r: Result<BuilderState, String>)
        ensures
            state_view(r) == opened(body@, block::config_view(config), theme@, size, prov@),
    {
        match block::parse_block(body, config) {
            Err(diags) => Err(diag::join_messages(&diags, "; ")),
            Ok(parsed) => match parsed.table {
                None => Err(
                    "chart block has no inline data (expected a `---` line followed by CSV)".to_owned(),
                ),
                Some(table) => Ok(
                    BuilderState {
                        spec: parsed.spec,
                        table,
                        theme,
                        size,
                        csv_body: parsed.csv_body,
                        provenance: Some(prov),
                        cache: None,
                    },
                ),
            },
        }
    }

    /// The current spec being edited.
    #[must_use]
    pub fn spec(&self) -> (r: &ChartSpec)
        ensures
            r@ == self@.spec,
    {
        &self.spec
    }

    /// The resolved data table backing the column pickers.
    #[must_use]
    pub fn table(&self) -> (r: &Table)
        ensures
            r@ == self@.table,
    {
        &self.table
    }

    /// The canvas size charts render at.
    #[must_use]
    pub fn size(&self) -> (r: Size)
        ensures
            r == self@.size,
    {
        self.size
    }

    /// The host theme applied to renders.
    #[must_use]
    pub fn theme(&self) -> (r: &Theme)
        ensures
            r@ == self@.theme,
    {
        &self.theme
    }

    /// The table's column names, in order, for populating the field pickers.
    pub fn columns(&self) -> (r: Vec<String>)
        ensures
            views::views(r@) == data::names(self@.table),
    {
        column_names(&self.table)
    }

    /// The inferred data type of a named column, or `None` if no such column. Drives
    /// the per-field type pickers' defaults.
    #[must_use]
    pub fn inferred_type(&self, column: &str) -> (r: Option<DataType>)
        ensures
            r == (match data::find_column(self@.table, column@) {
                Some(c) => Some(typing::inferred(c.cells)),
                None => None,
            }),
    {
        match self.table.column(column) {
            Some(c) => Some(typing::infer_type(c.cells.as_slice())),
            None => None,
        }
    }

    // --- Transitions (each mutates the spec; the next render recomputes) -------

    /// Set the geometric mark.
    pub fn set_mark(&mut self, mark: Mark)
        ensures
            final(self)@ == with_spec(old(self)@, SpecModel { mark, ..old(self)@.spec }),
            edit_keeps(old(self)@, final(self)@),
    {
        self.spec.mark = mark;
    }

    /// Bind (or clear) the x channel to a column by name.
    pub fn set_x(&mut self, column: Option<&str>)
        ensures
            final(self)@ == with_spec(
                old(self)@,
                SpecModel { x: shorthand(opt_str(column)), ..old(self)@.spec },
            ),
            edit_keeps(old(self)@, final(self)@),
    {
        self.spec.x = bind(column);
    }

    /// Add a y field if not already present (wide multi-series). A `None` y becomes
    /// a single field; an existing one promotes to a `Many` list. The fields that are
    /// there keep their order and their declared types.
    pub fn add_y(&mut self, column: &str)
        ensures
            final(self)@ == with_spec(
                old(self)@,
                SpecModel { y: y_with(old(self)@.spec.y, column@), ..old(self)@.spec },
            ),
            edit_keeps(old(self)@, final(self)@),
    {
        broadcast use crate::views::lemma_views_push;

        let names = self.field_names();
        proof {
            text::lemma_index_of(views::views(names@), column@);
        }
        match text::position(&names, column) {
            Some(_) => {},
            None => {
                let mut fields = self.field_defs();
                fields.push(FieldDef::Shorthand(column.to_owned()));
                self.spec.y = Some(encode_y(fields));
            },
        }
    }

    /// Remove a y field by name; collapses back to a single field or `None`. The fields
    /// that stay keep their order and their declared types.
    pub fn remove_y(&mut self, column: &str)
        ensures
            final(self)@ == with_spec(
                old(self)@,
                SpecModel { y: y_without(old(self)@.spec.y, column@), ..old(self)@.spec },
            ),
            edit_keeps(old(self)@, final(self)@),
    {
        broadcast use crate::views::lemma_views_push;

        let fields = self.field_defs();
        let ghost all = views::views(fields@);
        let mut kept: Vec<FieldDef> = Vec::new();
        assert(views::views(kept@) =~= defs_without(all.take(0), column@));
        let mut i: usize = 0;
        while i < fields.len()
            invariant
                i <= fields.len(),
                all == views::views(fields@),
                views::views(kept@) == defs_without(all.take(i as int), column@),
            decreases fields.len() - i,
        {
            proof {
                views::lemma_take_push(all, i as int);
            }
            assert(all[i as int] == fields@[i as int]@);
            if !text::same_text(fields[i].parts().0, column) {
                kept.push(fields[i].clone());
            }
            i = i + 1;
        }
        proof {
            views::lemma_take_all(all);
        }
        assert(views::views(kept@).len() == kept.len());
        self.spec.y = if kept.len() == 0 {
            None
        } else {
            Some(encode_y(kept))
        };
    }

    /// Bind (or clear) the color channel to a column by name.
    pub fn set_color(&mut self, column: Option<&str>)
        ensures
            final(self)@ == with_spec(
                old(self)@,
                SpecModel { color: shorthand(opt_str(column)), ..old(self)@.spec },
            ),
            edit_keeps(old(self)@, final(self)@),
    {
        self.spec.color = bind(column);
    }

    /// Bind (or clear) the size channel to a column by name (bubble radius for `Point`).
    pub fn set_size(&mut self, column: Option<&str>)
        ensures
            final(self)@ == with_spec(
                old(self)@,
                SpecModel { size: shorthand(opt_str(column)), ..old(self)@.spec },
            ),
            edit_keeps(old(self)@, final(self)@),
    {
        self.spec.size = bind(column);
    }

    /// Bind (or clear) the theta channel to a column by name (slice magnitude for `Arc`).
    pub fn set_theta(&mut self, column: Option<&str>)
        ensures
            final(self)@ == with_spec(
                old(self)@,
                SpecModel { theta: shorthand(opt_str(column)), ..old(self)@.spec },
            ),
            edit_keeps(old(self)@, final(self)@),
    {
        self.spec.theta = bind(column);
    }

    // --- Table mark (column selection/order + transpose) ----------------------

    /// The columns the `Table` mark currently shows, in display order: the explicit
    /// `spec.columns` list if set, otherwise every data column in natural order.
    #[must_use]
    pub fn shown_columns(&self) -> (r: Vec<String>)
        ensures
            views::views(r@) == shown(self@.spec, self@.table),
    {
        match &self.spec.columns {
            Some(columns) => text::copy_strings(columns),
            None => column_names(&self.table),
        }
    }

    /// Whether `column` is in the table's current shown set.
    #[must_use]
    pub fn is_column_shown(&self, column: &str) -> (r: bool)
        ensures
            r == shown(self@.spec, self@.table).contains(column@),
    {
        let columns = self.shown_columns();
        proof {
            text::lemma_index_of(views::views(columns@), column@);
        }
        text::position(&columns, column).is_some()
    }

    /// Include or exclude `column` from the table, materializing the explicit `columns` list on
    /// first edit (so removing from the implicit "all" set keeps the others). A re-added column
    /// is appended at the end; reorder it with [`move_column`](Self::move_column).
    pub fn toggle_column(&mut self, column: &str)
        ensures
            final(self)@ == with_spec(
                old(self)@,
                SpecModel {
                    columns: Some(
                        toggled(shown(old(self)@.spec, old(self)@.table), column@),
                    ),
                    ..old(self)@.spec
                },
            ),
            edit_keeps(old(self)@, final(self)@),
    {
        broadcast use crate::views::lemma_views_push;

        let mut columns = self.shown_columns();
        let ghost before = columns@;
        let ghost all = views::views(columns@);
        proof {
            text::lemma_index_of(all, column@);
        }
        match text::position(&columns, column) {
            Some(i) => {
                columns.remove(i);
                assert(views::views(columns@) =~= all.remove(i as int));
            },
            None => {
                columns.push(column.to_owned());
            },
        }
        self.spec.columns = Some(columns);
    }

    /// Move the shown column at `index` one slot toward the front (`up`) or back, materializing
    /// the explicit list. A no-op at the ends or for an out-of-range index.
    pub fn move_column(&mut self, index: usize, up: bool)
        ensures
            final(self)@ == with_spec(
                old(self)@,
                moved(old(self)@.spec, old(self)@.table, index as int, up),
            ),
            edit_keeps(old(self)@, final(self)@),
    {
        let mut columns = self.shown_columns();
        let ghost all = views::views(columns@);
        assert(all.len() == columns.len());
        let n = columns.len();
        if index >= n || (up && index == 0) || (!up && index == n - 1) {
            return;
        }
        let j: usize = if up {
            index - 1
        } else {
            index + 1
        };
        let first = columns[index].clone();
        let second = columns[j].clone();
        columns[index] = second;
        columns[j] = first;
        assert(views::views(columns@) =~= swapped(all, index as int, j as int));
        self.spec.columns = Some(columns);
    }

    /// Transpose the table (fields down the left, records across) or restore natural layout.
    pub fn set_transpose(&mut self, transpose: bool)
        ensures
            final(self)@ == with_config(
                old(self)@,
                ConfigModel { transpose, ..old(self)@.spec.config },
            ),
            edit_keeps(old(self)@, final(self)@),
    {
        self.spec.config.transpose = transpose;
    }

    /// Switch between wide and long multi-series encodings. Wide drops
    /// `color` and keeps the `y` list; long collapses `y` to its first field, as it is
    /// declared, and moves the chosen split column into `color`. `long_split` is ignored in wide
    /// mode and supplies the color column in long mode (defaulting to the existing
    /// color binding when `None`).
    pub fn set_series_mode(&mut self, mode: SeriesMode, long_split: Option<&str>)
        ensures
            final(self)@ == with_spec(
                old(self)@,
                in_mode(old(self)@.spec, mode, opt_str(long_split)),
            ),
            edit_keeps(old(self)@, final(self)@),
    {
        match mode {
            SeriesMode::Wide => {
                self.spec.color = None;
            },
            SeriesMode::Long => {
                let fields = self.field_defs();
                assert(views::views(fields@).len() == fields.len());
                if fields.len() > 0 {
                    assert(views::views(fields@)[0] == fields@[0]@);
                    self.spec.y = Some(YEncoding::One(fields[0].clone()));
                }
                if let Some(split) = long_split {
                    self.spec.color = Some(FieldDef::Shorthand(split.to_owned()));
                }
            },
        }
    }

    /// Declare (or clear) the data type of a channel's field, promoting a shorthand
    /// binding to the full object form so the type can be carried.
    pub fn set_field_type(&mut self, channel: Channel, ty: Option<DataType>)
        ensures
            final(self)@ == with_spec(
                old(self)@,
                match channel {
                    Channel::X => SpecModel {
                        x: with_type(old(self)@.spec.x, ty),
                        ..old(self)@.spec
                    },
                    Channel::Color => SpecModel {
                        color: with_type(old(self)@.spec.color, ty),
                        ..old(self)@.spec
                    },
                },
            ),
            edit_keeps(old(self)@, final(self)@),
    {
        match channel {
            Channel::X => {
                self.spec.x = declare(&self.spec.x, ty);
            },
            Channel::Color => {
                self.spec.color = declare(&self.spec.color, ty);
            },
        }
    }

    /// Set (or clear) the chart title in the config.
    pub fn set_title(&mut self, title: Option<&str>)
        ensures
            final(self)@ == with_config(
                old(self)@,
                ConfigModel { title: opt_str(title), ..old(self)@.spec.config },
            ),
            edit_keeps(old(self)@, final(self)@),
    {
        self.spec.config.title = text::own_opt(title);
    }

    /// Toggle the legend on or off.
    pub fn toggle_legend(&mut self)
        ensures
            final(self)@ == with_config(
                old(self)@,
                ConfigModel {
                    legend: !old(self)@.spec.config.legend,
                    ..old(self)@.spec.config
                },
            ),
            edit_keeps(old(self)@, final(self)@),
    {
        self.spec.config.legend = !self.spec.config.legend;
    }

    /// Set (or clear) the x-axis title in the config.
    pub fn set_x_title(&mut self, title: Option<&str>)
        ensures
            final(self)@ == with_config(
                old(self)@,
                ConfigModel { x_title: opt_str(title), ..old(self)@.spec.config },
            ),
            edit_keeps(old(self)@, final(self)@),
    {
        self.spec.config.x_title = text::own_opt(title);
    }

    /// Set (or clear) the y-axis title in the config.
    pub fn set_y_title(&mut self, title: Option<&str>)
        ensures
            final(self)@ == with_config(
                old(self)@,
                ConfigModel { y_title: opt_str(title), ..old(self)@.spec.config },
            ),
            edit_keeps(old(self)@, final(self)@),
    {
        self.spec.config.y_title = text::own_opt(title);
    }

    /// Set (or clear) the point/scatter radius in pixels.
    pub fn set_point_size(&mut self, size: Option<Number>)
        ensures
            final(self)@ == with_config(
                old(self)@,
                ConfigModel { point_size: views::opt_view(size), ..old(self)@.spec.config },
            ),
            edit_keeps(old(self)@, final(self)@),
    {
        self.spec.config.point_size = size;
    }

    /// Set (or clear) the line/area stroke width in pixels.
    pub fn set_line_width(&mut self, width: Option<Number>)
        ensures
            final(self)@ == with_config(
                old(self)@,
                ConfigModel { line_width: views::opt_view(width), ..old(self)@.spec.config },
            ),
            edit_keeps(old(self)@, final(self)@),
    {
        self.spec.config.line_width = width;
    }

    /// Set (or clear) the area/bar fill opacity, between zero and one.
    pub fn set_fill_opacity(&mut self, opacity: Option<Number>)
        ensures
            final(self)@ == with_config(
                old(self)@,
                ConfigModel { fill_opacity: views::opt_view(opacity), ..old(self)@.spec.config },
            ),
            edit_keeps(old(self)@, final(self)@),
    {
        self.spec.config.fill_opacity = opacity;
    }

    /// Stack or unstack bar/area series on a per-x cumulative baseline.
    pub fn set_stack(&mut self, stack: bool)
        ensures
            final(self)@ == with_config(
                old(self)@,
                ConfigModel { stack, ..old(self)@.spec.config },
            ),
            edit_keeps(old(self)@, final(self)@),
    {
        self.spec.config.stack = stack;
    }

    /// Set (or clear) the line interpolation; `None` is the linear default.
    pub fn set_interpolate(&mut self, interpolate: Option<Interpolate>)
        ensures
            final(self)@ == with_config(
                old(self)@,
                ConfigModel { interpolate, ..old(self)@.spec.config },
            ),
            edit_keeps(old(self)@, final(self)@),
    {
        self.spec.config.interpolate = interpolate;
    }

    /// Show or hide the interior mesh gridlines.
    pub fn set_show_grid(&mut self, show: bool)
        ensures
            final(self)@ == with_config(
                old(self)@,
                ConfigModel { show_grid: show, ..old(self)@.spec.config },
            ),
            edit_keeps(old(self)@, final(self)@),
    {
        self.spec.config.show_grid = show;
    }

    /// Set (or clear) the bar/area orientation; `None` restores the vertical default.
    pub fn set_orientation(&mut self, orientation: Option<Orientation>)
        ensures
            final(self)@ == with_config(
                old(self)@,
                ConfigModel { orientation, ..old(self)@.spec.config },
            ),
            edit_keeps(old(self)@, final(self)@),
    {
        self.spec.config.orientation = orientation;
    }

    /// Set (or clear) the histogram bucket count; `None` lets the resolver default apply.
    pub fn set_bins(&mut self, bins: Option<usize>)
        ensures
            final(self)@ == with_config(old(self)@, ConfigModel { bins, ..old(self)@.spec.config }),
            edit_keeps(old(self)@, final(self)@),
    {
        self.spec.config.bins = bins;
    }

    /// Set (or clear) the donut hole radius as a fraction of the outer one (`Arc`); `None` = pie.
    pub fn set_inner_radius(&mut self, radius: Option<Number>)
        ensures
            final(self)@ == with_config(
                old(self)@,
                ConfigModel { inner_radius: views::opt_view(radius), ..old(self)@.spec.config },
            ),
            edit_keeps(old(self)@, final(self)@),
    {
        self.spec.config.inner_radius = radius;
    }

    /// Set (or clear) the whole x-axis scale; `None` restores the linear identity.
    pub fn set_x_scale(&mut self, scale: Option<Scale>)
        ensures
            final(self)@ == with_config(
                old(self)@,
                ConfigModel { x_scale: views::opt_view(scale), ..old(self)@.spec.config },
            ),
            edit_keeps(old(self)@, final(self)@),
    {
        self.spec.config.x_scale = scale;
    }

    /// Set (or clear) the whole y-axis scale; `None` restores the linear identity.
    pub fn set_y_scale(&mut self, scale: Option<Scale>)
        ensures
            final(self)@ == with_config(
                old(self)@,
                ConfigModel { y_scale: views::opt_view(scale), ..old(self)@.spec.config },
            ),
            edit_keeps(old(self)@, final(self)@),
    {
        self.spec.config.y_scale = scale;
    }

    /// Set the transform kind of one cartesian axis, preserving its domain/zero. Materializes
    /// a default `Scale` first so the panel can change kind without touching the other fields.
    pub fn set_scale_kind(&mut self, axis: Axis, kind: ScaleKind)
        ensures
            final(self)@ == with_config(
                old(self)@,
                with_scale(
                    old(self)@.spec.config,
                    axis,
                    ScaleModel {
                        kind,
                        ..resolve::scale_or_linear(scale_of(old(self)@.spec.config, axis))
                    },
                ),
            ),
            edit_keeps(old(self)@, final(self)@),
    {
        let mut scale = self.scale_or_default(axis);
        scale.kind = kind;
        self.write_scale(axis, scale);
    }

    /// Set (or clear) one cartesian axis's explicit `(min, max)` domain; `None` = auto.
    pub fn set_scale_domain(&mut self, axis: Axis, domain: Option<(Number, Number)>)
        ensures
            final(self)@ == with_config(
                old(self)@,
                with_scale(
                    old(self)@.spec.config,
                    axis,
                    ScaleModel {
                        domain: match domain {
                            Some(d) => Some((d.0@, d.1@)),
                            None => None,
                        },
                        ..resolve::scale_or_linear(scale_of(old(self)@.spec.config, axis))
                    },
                ),
            ),
            edit_keeps(old(self)@, final(self)@),
    {
        let mut scale = self.scale_or_default(axis);
        scale.domain = domain;
        self.write_scale(axis, scale);
    }

    /// Set whether one cartesian axis's auto domain includes zero.
    pub fn set_scale_zero(&mut self, axis: Axis, zero: bool)
        ensures
            final(self)@ == with_config(
                old(self)@,
                with_scale(
                    old(self)@.spec.config,
                    axis,
                    ScaleModel {
                        zero,
                        ..resolve::scale_or_linear(scale_of(old(self)@.spec.config, axis))
                    },
                ),
            ),
            edit_keeps(old(self)@, final(self)@),
    {
        let mut scale = self.scale_or_default(axis);
        scale.zero = zero;
        self.write_scale(axis, scale);
    }

    /// The current scale for `axis`, or the linear default when none is set, so a partial
    /// edit (just the kind, say) starts from a complete value.
    fn scale_or_default(&self, axis: Axis) -> (r: Scale)
        ensures
            r@ == resolve::scale_or_linear(scale_of(self@.spec.config, axis)),
    {
        match axis {
            Axis::X => dsl::scale_or_default(&self.spec.config.x_scale),
            Axis::Y => dsl::scale_or_default(&self.spec.config.y_scale),
        }
    }

    /// Write a fully-formed scale back to the chosen axis slot.
    fn write_scale(&mut self, axis: Axis, scale: Scale)
        ensures
            final(self)@ == with_config(
                old(self)@,
                with_scale(old(self)@.spec.config, axis, scale@),
            ),
            edit_keeps(old(self)@, final(self)@),
    {
        match axis {
            Axis::X => {
                self.spec.config.x_scale = Some(scale);
            },
            Axis::Y => {
                self.spec.config.y_scale = Some(scale);
            },
        }
    }

    // --- Per-series color override -------------------------------------------

    /// Override the color of series `index` in `config.palette`, padding earlier
    /// entries from the current effective colors so positions before `index` keep
    /// the color they render with today. Writing the palette overrides the theme
    /// for those series; the rest still fall back to the theme.
    pub fn set_series_color(&mut self, index: usize, color: Color)
        requires
            index < usize::MAX,
        ensures
            final(self)@ == with_config(
                old(self)@,
                ConfigModel {
                    palette: Some(
                        recolored(
                            old(self)@.spec.config.palette,
                            old(self)@.theme,
                            index as int,
                            color,
                        ),
                    ),
                    ..old(self)@.spec.config
                },
            ),
            edit_keeps(old(self)@, final(self)@),
    {
        let ghost before = self@.spec.config.palette;
        let ghost themed = self@.theme;
        let ghost expected = recolored(before, themed, index as int, color);
        let mut palette: Vec<String> = match &self.spec.config.palette {
            Some(p) => text::copy_strings(p),
            None => Vec::new(),
        };
        let ghost present = match before {
            Some(p) => p,
            None => seq![],
        };
        assert(views::views(palette@) =~= present);
        while palette.len() <= index
            invariant
                index < usize::MAX,
                before == self@.spec.config.palette,
                themed == self@.theme,
                present == (match before {
                    Some(p) => p,
                    None => seq![],
                }),
                palette.len() >= present.len(),
                palette.len() <= index + 1 || palette.len() == present.len(),
                forall|k: int|
                    0 <= k < palette.len() ==> (#[trigger] palette@[k])@ == (if k < present.len() {
                        present[k]
                    } else {
                        theme::hex_text(theme::color_of(before, themed, k))
                    }),
            decreases index + 1 - palette.len(),
        {
            let pos = palette.len();
            palette.push(theme::hex(self.effective_color(pos)));
        }
        palette[index] = theme::hex(color);
        assert(views::views(palette@) =~= expected);
        self.spec.config.palette = Some(palette);
    }

    /// Drop any per-series palette override, restoring the theme's palette.
    pub fn clear_palette(&mut self)
        ensures
            final(self)@ == with_config(
                old(self)@,
                ConfigModel { palette: None, ..old(self)@.spec.config },
            ),
            edit_keeps(old(self)@, final(self)@),
    {
        self.spec.config.palette = None;
    }

    /// The color series `index` currently renders with, for seeding a color picker:
    /// the palette override entry if present and parseable, else the theme color.
    #[must_use]
    pub fn effective_series_color(&self, index: usize) -> (r: Color)
        ensures
            r == theme::color_of(self@.spec.config.palette, self@.theme, index as int),
    {
        self.effective_color(index)
    }

    /// The color series `pos` currently renders with: the existing palette override
    /// entry (if parseable) else the theme's palette indexed `pos % len`. The backend
    /// resolves series colors the same way, so padding is faithful.
    fn effective_color(&self, pos: usize) -> (r: Color)
        ensures
            r == theme::color_of(self@.spec.config.palette, self@.theme, pos as int),
    {
        theme::series_color(&self.spec.config.palette, &self.theme, pos)
    }

    // --- Global theme ---------------------------------------------------------

    /// Replace the global theme applied to renders (light/dark + palette).
    pub fn set_theme(&mut self, theme: Theme)
        ensures
            final(self)@ == (BuilderModel { theme: theme@, ..old(self)@ }),
            edit_keeps(old(self)@, final(self)@),
    {
        self.theme = theme;
    }

    // --- Series introspection -------------------------------------------------

    /// Resolve the spec against the table and return the series display names in
    /// render order: the y field names for wide encodings, the distinct color
    /// values for long ones. Returns an empty vec when the chart cannot resolve
    /// (e.g. no bound channels), so the panel can show one color picker per series.
    /// `computed` is what was computed from the chart's [`terms`](Self::terms).
    #[must_use]
    pub fn series_names(&self, computed: &Computed) -> (r: Vec<String>)
        ensures
            views::views(r@) == names_of_series(self@.spec, self@.table, computed@),
    {
        let mut out: Vec<String> = Vec::new();
        match resolve::resolve(&self.spec, &self.table, computed) {
            Ok(chart) => {
                let ghost all = chart@.series;
                let mut i: usize = 0;
                while i < chart.series.len()
                    invariant
                        i <= chart.series.len(),
                        all == views::views(chart.series@),
                        out.len() == i,
                        forall|k: int| 0 <= k < i ==> (#[trigger] out@[k])@ == all[k].name,
                    decreases chart.series.len() - i,
                {
                    out.push(chart.series[i].name.clone());
                    i = i + 1;
                }
            },
            Err(_) => {},
        }
        assert(views::views(out@) =~= names_of_series(self@.spec, self@.table, computed@));
        out
    }

    /// The numbers that the chart needs arithmetic on, for [`render`](Self::render) and
    /// [`series_names`](Self::series_names) to draw from.
    #[must_use]
    pub fn terms(&self) -> (r: Terms)
        ensures
            r@ == resolve::owed(self@.spec, self@.table),
    {
        resolve::terms(&self.spec, &self.table)
    }

    // --- Render cache ---------------------------------------------------------

    /// Render the chart through `backend`, recomputing only when the content hash of
    /// the inputs (spec + table + theme + size) changes. Returns `None`
    /// when the chart has no drawable data or the backend errors. The cached
    /// `RenderOutput` is returned on a hash hit without touching the backend. `computed` is
    /// what was computed from the chart's [`terms`](Self::terms).
    pub fn render<B: Backend>(&mut self, backend: &B, computed: &Computed) -> (r: Option<
        &RenderOutput,
    >)
        ensures
            rendered(*backend, computed@, old(self)@, final(self)@, opt_output(r)),
    {
        let hash = identity::content_hash(&self.spec, &self.table, &self.theme, self.size);
        let hit = match &self.cache {
            Some(c) => c.0 == hash,
            None => false,
        };
        if !hit {
            match resolve::resolve(&self.spec, &self.table, computed) {
                Err(_) => {
                    return None;
                },
                Ok(chart) => match backend.render(&chart, &self.theme, self.size) {
                    Err(_) => {
                        return None;
                    },
                    Ok(output) => {
                        self.cache = Some((hash, output));
                    },
                },
            }
        }
        match &self.cache {
            Some(c) => Some(&c.1),
            None => None,
        }
    }

    // --- Export / save-back ---------------------------------------------------

    /// Write the spec as a chart block for "Copy", given its YAML. Defaults to a
    /// renderable block: if the spec already references external data (`data:`),
    /// emit that reference (config only); otherwise emit a **self-contained**
    /// block (config + `---` + the data as CSV) so a builder seeded from a raw
    /// table — e.g. a `.csv` opened in a tab — still produces a block that
    /// renders anywhere. The host picks an explicit mode with
    /// [`to_block_inline`](Self::to_block_inline) /
    /// [`to_block_reference`](Self::to_block_reference).
    #[must_use]
    pub fn to_block(&self, yaml: &str) -> (r: String)
        ensures
            r@ == (if self@.spec.data is Some {
                fenced(newline_ended(yaml@))
            } else {
                fenced(inline_body(yaml@, inline_csv(self@)))
            }),
            self@.spec.data is None ==> reads_back_inline(self@, yaml@),
    {
        if self.spec.data.is_some() {
            fence(ensure_trailing_newline(yaml).as_str())
        } else {
            self.to_block_inline(yaml)
        }
    }

    /// Write a **self-contained** chart block, given the spec's YAML: the config, a `---` line,
    /// then the data as CSV. The verbatim `csv_body` is re-emitted when present (an
    /// opened inline block), else the table is serialized via [`Table::to_csv`]. Renders with
    /// no external file dependency. What the block holds parses back to the spec and the data.
    #[must_use]
    pub fn to_block_inline(&self, yaml: &str) -> (r: String)
        ensures
            r@ == fenced(inline_body(yaml@, inline_csv(self@))),
            reads_back_inline(self@, yaml@),
    {
        let csv = match &self.csv_body {
            Some(body) => body.clone(),
            None => self.table.to_csv(),
        };
        assert(csv@ == inline_csv(self@));
        proof {
            let config = newline_ended(yaml@);
            let ended = line_ended(csv@);
            lemma_separator_text();
            assert(inline_body(yaml@, csv@) =~= block::assembled(config, ended));
            if block::separator(config, 0) is None {
                block::law_splitting_inverts_assembling(config, ended);
            }
        }
        let mut inner = ensure_trailing_newline(yaml);
        inner.append("---\n");
        inner.append(ensure_ended_line(csv.as_str()).as_str());
        fence(inner.as_str())
    }

    /// The spec with `data: <data_path>` set (the host supplies the vault-relative path), to be
    /// serialized for [`to_block_reference`](Self::to_block_reference). Does not mutate the
    /// live spec — the `data:` binding is applied to a copy.
    #[must_use]
    pub fn reference_spec(&self, data_path: &str) -> (r: ChartSpec)
        ensures
            r@ == (SpecModel { data: Some(data_path@), ..self@.spec }),
    {
        let mut spec = self.spec.clone();
        spec.data = Some(data_path.to_owned());
        spec
    }

    /// Write a chart block that **references external data**, given the YAML of the
    /// [`reference_spec`](Self::reference_spec): the config, no inline CSV. Keeps the note
    /// small and re-renders live when the file changes, at the cost of depending on the file
    /// staying put.
    #[must_use]
    pub fn to_block_reference(&self, yaml: &str) -> (r: String)
        ensures
            r@ == fenced(newline_ended(yaml@)),
    {
        fence(ensure_trailing_newline(yaml).as_str())
    }

    /// Produce the regenerated block body plus the byte range to splice it into for
    /// an open-in-editor save, given the spec's YAML. Only the config is re-serialized; the
    /// original inline CSV body is re-attached verbatim after a `---` separator.
    /// Returns `None` if the builder has no provenance (it was not opened from a
    /// block, so there is nothing to save back).
    #[must_use]
    pub fn save_block(&self, yaml: &str) -> (r: Option<(String, Range<usize>)>)
        ensures
            match (r, self@.provenance) {
                (Some(saved), Some(prov)) => {
                    &&& saved.0@ == saved_body(yaml@, self@.csv_body)
                    &&& saved.1.start == prov.start
                    &&& saved.1.end == prov.end
                },
                (None, None) => true,
                _ => false,
            },
    {
        match &self.provenance {
            None => None,
            Some(prov) => {
                let mut body = ensure_trailing_newline(yaml);
                if let Some(csv) = &self.csv_body {
                    body.append("---\n");
                    body.append(csv.as_str());
                }
                Some(
                    (body, Range { start: prov.byte_range.start, end: prov.byte_range.end }),
                )
            },
        }
    }

    /// The y channel's bindings (empty, one, or many).
    fn field_defs(&self) -> (r: Vec<FieldDef>)
        ensures
            views::views(r@) == y_defs(self@.spec.y),
    {
        let r = match &self.spec.y {
            None => Vec::new(),
            Some(YEncoding::One(def)) => vec![def.clone()],
            Some(YEncoding::Many(defs)) => dsl::copy_defs(defs),
        };
        assert(views::views(r@) =~= y_defs(self@.spec.y));
        r
    }

    /// The y channel's field names as owned strings (empty, one, or many).
    fn field_names(&self) -> (r: Vec<String>)
        ensures
            views::views(r@) == y_names(self@.spec.y),
    {
        let fields = self.spec.y_fields();
        let ghost parts = dsl::all_parts_view(fields@);
        let mut out: Vec<String> = Vec::new();
        let mut i: usize = 0;
        while i < fields.len()
            invariant
                i <= fields.len(),
                parts == dsl::all_parts_view(fields@),
                out.len() == i,
                forall|k: int| 0 <= k < i ==> (#[trigger] out@[k])@ == parts[k].0,
            decreases fields.len() - i,
        {
            assert(parts[i as int].0 == fields@[i as int].0@);
            out.push(fields[i].0.to_owned());
            i = i + 1;
        }
        assert(views::views(out@) =~= y_names(self@.spec.y));
        out
    }
}

/// The column names of a table, in order.
fn column_names(table: &Table) -> (r: Vec<String>)
    ensures
        views::views(r@) == data::names(table@),
{
    let mut out: Vec<String> = Vec::new();
    let mut i: usize = 0;
    while i < table.columns.len()
        invariant
            i <= table.columns.len(),
            out.len() == i,
            forall|k: int| 0 <= k < i ==> (#[trigger] out@[k])@ == table@[k].name,
        decreases table.columns.len() - i,
    {
        out.push(table.columns[i].name.clone());
        i = i + 1;
    }
    assert(views::views(out@) =~= data::names(table@));
    out
}

/// A binding in its full form, with the given type.
fn declare(def: &Option<FieldDef>, ty: Option<DataType>) -> (r: Option<FieldDef>)
    ensures
        views::opt_view(r) == with_type(views::opt_view(*def), ty),
{
    match def {
        Some(d) => Some(FieldDef::Full(FieldSpec { field: d.parts().0.to_owned(), ty })),
        None => None,
    }
}

// --- Laws -------------------------------------------------------------------------

/// A saved block splits into the config and the inline data that was opened, verbatim: saving
/// re-serializes the config and leaves the data alone.
pub proof fn law_saving_keeps_the_data(yaml: Seq<char>, csv: Seq<char>)
    requires
        block::separator(newline_ended(yaml), 0) is None,
    ensures
        block::halves(saved_body(yaml, Some(csv))) == (newline_ended(yaml), Some(csv)),
{
    lemma_separator_text();
    let config = newline_ended(yaml);
    assert(saved_body(yaml, Some(csv)) =~= block::assembled(config, csv));
    block::law_splitting_inverts_assembling(config, csv);
}

/// What every edit keeps, any number of edits in a row keeps.
pub proof fn law_edits_chain(first: BuilderModel, second: BuilderModel, third: BuilderModel)
    requires
        edit_keeps(first, second),
        edit_keeps(second, third),
    ensures
        edit_keeps(first, third),
{
}

/// However an opened block is edited, saving it writes the data it was opened with.
pub proof fn law_edited_blocks_keep_their_data(
    opened: BuilderModel,
    edited: BuilderModel,
    yaml: Seq<char>,
    csv: Seq<char>,
)
    requires
        edit_keeps(opened, edited),
        opened.csv_body == Some(csv),
        block::separator(newline_ended(yaml), 0) is None,
    ensures
        block::halves(saved_body(yaml, edited.csv_body)) == (newline_ended(yaml), Some(csv)),
{
    law_saving_keeps_the_data(yaml, csv);
}

/// A spec goes through the builder unchanged, with the fields it does not understand: what a
/// fresh state holds is what was put in.
pub proof fn law_spec_survives_the_builder(
    spec: SpecModel,
    table: Seq<ColumnModel>,
    theme: ThemeModel,
    size: Size,
    csv_body: Option<Seq<char>>,
    provenance: Option<ProvenanceModel>,
)
    ensures
        fresh(spec, table, theme, size, csv_body, provenance).spec == spec,
        fresh(spec, table, theme, size, csv_body, provenance).table == table,
{
}

/// Opening a block with inline data, and opening what saving it wrote, give the same state, where
/// the config serializes to a YAML that deserializes to it again.
pub proof fn law_open_save_open(
    body: Seq<char>,
    spec: SpecModel,
    yaml: Seq<char>,
    theme: ThemeModel,
    size: Size,
    provenance: ProvenanceModel,
)
    requires
        block::separator(newline_ended(yaml), 0) is None,
        opened(body, Ok(spec), theme, size, provenance) is Ok,
    ensures
        ({
            let state = opened(body, Ok(spec), theme, size, provenance)->Ok_0;
            &&& state.csv_body is Some
            &&& opened(
                saved_body(yaml, state.csv_body),
                Ok(spec),
                theme,
                size,
                provenance,
            ) == Ok::<BuilderModel, Seq<char>>(state)
        }),
{
    let state = opened(body, Ok(spec), theme, size, provenance)->Ok_0;
    law_saving_keeps_the_data(yaml, state.csv_body->0);
}

/// A serialized config ends with exactly one newline, however many it came with.
pub proof fn law_configs_end_with_one_newline(yaml: Seq<char>)
    ensures
        newline_ended(yaml).last() == '\n',
        newline_ended(yaml).len() > 1 ==> newline_ended(yaml)[newline_ended(yaml).len() - 2]
            != '\n',
        newline_ended(newline_ended(yaml)) == newline_ended(yaml),
{
    let bare = without_newlines(yaml);
    lemma_bare_text(yaml);
    assert(bare.push('\n').drop_last() =~= bare);
    assert(without_newlines(bare.push('\n')) == without_newlines(bare));
    assert(without_newlines(bare) == bare);
}

/// What is left without the newlines at the end does not end with one.
proof fn lemma_bare_text(s: Seq<char>)
    ensures
        without_newlines(s).len() > 0 ==> without_newlines(s).last() != '\n',
    decreases s.len(),
{
    if s.len() > 0 && s.last() == '\n' {
        lemma_bare_text(s.drop_last());
    }
}

/// The bindings of a y channel made of a list of bindings are that list, and its names are theirs.
proof fn lemma_defs_of_encoding(defs: Seq<FieldModel>)
    ensures
        y_defs(Some(y_encoding(defs))) == defs,
        y_names(Some(y_encoding(defs))) == defs.map_values(|d: FieldModel| d.parts().0),
{
    assert(y_defs(Some(y_encoding(defs))) =~= defs);
    assert(y_names(Some(y_encoding(defs))) =~= defs.map_values(|d: FieldModel| d.parts().0));
}

/// The names of a y channel are those of its bindings.
proof fn lemma_names_of_defs(y: Option<YModel>)
    ensures
        y_names(y) == y_defs(y).map_values(|d: FieldModel| d.parts().0),
{
    assert(y_names(y) =~= y_defs(y).map_values(|d: FieldModel| d.parts().0));
}

/// A column that no binding names is not taken out.
proof fn lemma_without_absent(defs: Seq<FieldModel>, column: Seq<char>)
    requires
        forall|i: int| 0 <= i < defs.len() ==> (#[trigger] defs[i]).parts().0 != column,
    ensures
        defs_without(defs, column) == defs,
    decreases defs.len(),
{
    if defs.len() > 0 {
        let front = defs.drop_last();
        assert forall|i: int| 0 <= i < front.len() implies (#[trigger] front[i]).parts().0
            != column by {
            assert(defs[i] == front[i]);
        }
        lemma_without_absent(front, column);
        assert(defs.last() == defs[defs.len() - 1]);
        assert(front.push(defs.last()) =~= defs);
    } else {
        assert(defs_without(defs, column) =~= defs);
    }
}

/// Adding a y field puts it behind the others, and removing it again leaves the others, each with
/// the type it declares.
pub proof fn law_removing_undoes_adding(y: Option<YModel>, column: Seq<char>)
    requires
        !y_names(y).contains(column),
    ensures
        y_defs(y_with(y, column)) == y_defs(y).push(FieldModel::Shorthand(column)),
        dsl::y_bound(y_with(y, column)) == dsl::y_bound(y).push((column, None)),
        y_names(y_with(y, column)) == y_names(y).push(column),
        y_defs(y_without(y_with(y, column), column)) == y_defs(y),
{
    let defs = y_defs(y);
    let added = defs.push(FieldModel::Shorthand(column));
    lemma_names_of_defs(y);
    lemma_defs_of_encoding(added);
    assert(dsl::y_bound(y_with(y, column)) =~= dsl::y_bound(y).push((column, None)));
    assert(y_names(y_with(y, column)) =~= y_names(y).push(column));
    assert forall|i: int| 0 <= i < defs.len() implies (#[trigger] defs[i]).parts().0 != column by {
        assert(y_names(y)[i] == defs[i].parts().0);
    }
    lemma_without_absent(defs, column);
    assert(added.drop_last() =~= defs);
    assert(defs_without(added, column) == defs);
    if defs.len() > 0 {
        lemma_defs_of_encoding(defs);
    } else {
        assert(y_defs(None) =~= defs);
    }
}

/// Adding a y field a second time changes nothing.
pub proof fn law_adding_is_idempotent(y: Option<YModel>, column: Seq<char>)
    ensures
        y_with(y_with(y, column), column) == y_with(y, column),
{
    if !y_names(y).contains(column) {
        law_removing_undoes_adding(y, column);
        assert(y_names(y).push(column)[y_names(y).len() as int] == column);
    }
}

/// Removing a y field removes every binding to its column, and keeps every other one as it is
/// declared.
pub proof fn law_removing_keeps_the_other_fields(
    y: Option<YModel>,
    column: Seq<char>,
    def: FieldModel,
)
    ensures
        y_defs(y_without(y, column)).contains(def) <==> y_defs(y).contains(def) && def.parts().0
            != column,
        y_defs(y_without(y, column)).len() <= y_defs(y).len(),
{
    let kept = defs_without(y_defs(y), column);
    lemma_kept_defs(y_defs(y), column, def);
    if kept.len() > 0 {
        lemma_defs_of_encoding(kept);
    } else {
        assert(y_defs(None) =~= kept);
    }
}

proof fn lemma_kept_defs(defs: Seq<FieldModel>, column: Seq<char>, def: FieldModel)
    ensures
        defs_without(defs, column).contains(def) <==> defs.contains(def) && def.parts().0 != column,
        defs_without(defs, column).len() <= defs.len(),
    decreases defs.len(),
{
    if defs.len() > 0 {
        let front = defs.drop_last();
        let last = defs.last();
        let earlier = defs_without(front, column);
        lemma_kept_defs(front, column, def);
        assert(defs =~= front.push(last));
        assert(front.push(last).contains(def) <==> front.contains(def) || def == last) by {
            broadcast use vstd::seq_lib::group_seq_properties;

        }
        assert(earlier.push(last).contains(def) <==> earlier.contains(def) || def == last) by {
            broadcast use vstd::seq_lib::group_seq_properties;

        }
    }
}

/// The long mode keeps the first y field as it is declared, and the wide mode keeps them all.
pub proof fn law_modes_keep_the_first_field(
    spec: SpecModel,
    mode: SeriesMode,
    split: Option<Seq<char>>,
)
    ensures
        y_defs(in_mode(spec, mode, split).y) == (if mode is Long && y_defs(spec.y).len() > 0 {
            seq![y_defs(spec.y)[0]]
        } else {
            y_defs(spec.y)
        }),
{
}

/// Toggling a column takes it out or puts it in, and touches no other: afterwards the list holds
/// it exactly when it did not before, if it holds no name twice.
pub proof fn law_toggling_flips_membership(columns: Seq<Seq<char>>, column: Seq<char>, other: Seq<
    char,
>)
    requires
        columns.no_duplicates(),
    ensures
        toggled(columns, column).no_duplicates(),
        toggled(columns, column).contains(column) == !columns.contains(column),
        other != column ==> toggled(columns, column).contains(other) == columns.contains(other),
{
    text::lemma_index_of(columns, column);
    let after = toggled(columns, column);
    match text::index_of(columns, column) {
        Some(i) => {
            assert forall|k: int| 0 <= k < after.len() implies #[trigger] after[k] == columns[if k
                < i {
                k
            } else {
                k + 1
            }] by {}
            assert(columns.contains(column));
            if columns.contains(other) && other != column {
                let k = choose|k: int| 0 <= k < columns.len() && columns[k] == other;
                assert(after[if k < i {
                    k
                } else {
                    k - 1
                }] == other);
            }
        },
        None => {
            assert(after[columns.len() as int] == column);
            assert forall|k: int| 0 <= k < columns.len() implies #[trigger] after[k]
                == columns[k] by {}
            if columns.contains(other) {
                let k = choose|k: int| 0 <= k < columns.len() && columns[k] == other;
                assert(after[k] == other);
            }
        },
    }
}

/// Moving a column down and the same column up again restores the list.
pub proof fn law_moving_up_undoes_moving_down(
    spec: SpecModel,
    table: Seq<ColumnModel>,
    index: int,
)
    requires
        0 <= index < shown(spec, table).len() - 1,
    ensures
        shown(moved(moved(spec, table, index, false), table, index + 1, true), table) == shown(
            spec,
            table,
        ),
{
    let columns = shown(spec, table);
    let down = swapped(columns, index, index + 1);
    assert(shown(moved(spec, table, index, false), table) == down);
    assert(swapped(down, index + 1, index) =~= columns);
}

/// After a series color is set, the series renders with it, made opaque, and every other series
/// renders with the color it had: those before it made opaque, those behind it as they were.
pub proof fn law_setting_a_color_keeps_the_others(
    palette: Option<Seq<Seq<char>>>,
    theme: ThemeModel,
    index: int,
    color: Color,
    k: int,
)
    requires
        0 <= index,
        0 <= k,
    ensures
        ({
            let after = theme::color_of(
                Some(recolored(palette, theme, index, color)),
                theme,
                k,
            );
            let before = theme::color_of(palette, theme, k);
            if k == index {
                after == theme::opaque_rgb(color.r, color.g, color.b)
            } else if k < index {
                after.r == before.r && after.g == before.g && after.b == before.b
            } else {
                after == before
            }
        }),
{
    let new = recolored(palette, theme, index, color);
    theme::law_hex_round_trip(color);
    theme::law_hex_round_trip(theme::color_of(palette, theme, k));
    match palette {
        Some(p) => {
            if k < p.len() && k != index {
                assert(new[k] == p[k]);
            }
        },
        None => {},
    }
}

/// A render right after a successful one, with nothing changed in between, returns the same
/// output and changes nothing: the cache holds it under the inputs' hash.
pub proof fn law_rendering_twice_paints_once<B: Backend>(
    backend: B,
    other: B,
    computed: ComputedModel,
    again: ComputedModel,
    first: BuilderModel,
    second: BuilderModel,
    third: BuilderModel,
    svg: Seq<char>,
    output: Option<Seq<char>>,
)
    requires
        rendered(backend, computed, first, second, Some(svg)),
        rendered(other, again, second, third, output),
    ensures
        output == Some(svg),
        third == second,
{
}

/// A render changes nothing but the cache.
pub proof fn law_rendering_keeps_the_inputs<B: Backend>(
    backend: B,
    computed: ComputedModel,
    before: BuilderModel,
    after: BuilderModel,
    output: Option<Seq<char>>,
)
    requires
        rendered(backend, computed, before, after, output),
    ensures
        after == (BuilderModel { cache: after.cache, ..before }),
{
}

/// Two states that differ in their spec, table, theme or size have hashes of different bytes: only
/// the hash function itself can make the cache of one serve the other.
pub proof fn law_the_cache_is_keyed_on_every_input(a: BuilderModel, b: BuilderModel)
    requires
        a.spec != b.spec || a.table != b.table || a.theme != b.theme || a.size != b.size,
    ensures
        exists|x: Seq<Seq<u8>>, y: Seq<Seq<u8>>|
            x != y && state_hash(a) == #[trigger] DefaultHasher::spec_finish(x) && state_hash(b)
                == #[trigger] DefaultHasher::spec_finish(y),
{
    identity::law_different_inputs_are_hashed_apart(
        Inputs { spec: a.spec, table: a.table, theme: a.theme, size: a.size },
        Inputs { spec: b.spec, table: b.table, theme: b.theme, size: b.size },
    );
}

/// What a render returns stands in the cache under the hash of the inputs it was rendered from, and
/// is served from there only while the inputs have that hash.
pub proof fn law_renders_are_cached_under_their_inputs<B: Backend>(
    backend: B,
    computed: ComputedModel,
    before: BuilderModel,
    after: BuilderModel,
    svg: Seq<char>,
)
    requires
        rendered(backend, computed, before, after, Some(svg)),
    ensures
        after.cache == Some((state_hash(after), svg)),
        state_hash(after) == state_hash(before),
        cached(after) == Some(svg),
        cached(before) matches Some(old) ==> before.cache == Some((state_hash(before), old)),
{
}

/// A render whose inputs are not those of the cache paints: the backend is handed the chart that
/// the spec draws of the table, the state's own theme and its own size, and what it paints is
/// returned.
pub proof fn law_changed_inputs_are_painted<B: Backend>(
    backend: B,
    computed: ComputedModel,
    before: BuilderModel,
    after: BuilderModel,
    output: Option<Seq<char>>,
)
    requires
        rendered(backend, computed, before, after, output),
        before.cache matches Some(c) ==> c.0 != state_hash(before),
    ensures
        match resolve::resolved(before.spec, before.table, computed) {
            Err(_) => output is None && after == before,
            Ok(drawn) => exists|
                chart: crate::backend::ResolvedChart,
                colors: Theme,
                result: Result<RenderOutput, crate::backend::RenderError>,
            |
                {
                    &&& chart@ == drawn
                    &&& colors@ == before.theme
                    &&& #[trigger] call_ensures(
                        B::render,
                        (&backend, &chart, &colors, before.size),
                        result,
                    )
                    &&& result matches Ok(out) ==> output == Some(out@)
                    &&& result is Err ==> output is None && after == before
                },
        },
{
    match resolve::resolved(before.spec, before.table, computed) {
        Ok(drawn) => {
            let (chart, colors, result) = choose|
                chart: crate::backend::ResolvedChart,
                colors: Theme,
                result: Result<RenderOutput, crate::backend::RenderError>,
            |
                {
                    &&& chart@ == drawn
                    &&& colors@ == before.theme
                    &&& #[trigger] call_ensures(
                        B::render,
                        (&backend, &chart, &colors, before.size),
                        result,
                    )
                    &&& output == (match result {
                        Ok(out) => Some(out@),
                        Err(_) => None,
                    })
                };
        },
        Err(_) => {},
    }
}

/// Moving a column exchanges it with the one next to it, toward the front or the back, and leaves
/// the others and the rest of the spec; there is nothing to do past either end.
pub proof fn law_moving_exchanges_neighbors(
    spec: SpecModel,
    table: Seq<ColumnModel>,
    index: int,
    up: bool,
    k: int,
)
    requires
        0 <= k < shown(spec, table).len(),
    ensures
        ({
            let columns = shown(spec, table);
            let after = moved(spec, table, index, up);
            let other = if up {
                index - 1
            } else {
                index + 1
            };
            if 0 <= index < columns.len() && 0 <= other < columns.len() {
                &&& after == (SpecModel { columns: after.columns, ..spec })
                &&& after.columns matches Some(now) && now.len() == columns.len() && now[k] == (
                if k == index {
                    columns[other]
                } else if k == other {
                    columns[index]
                } else {
                    columns[k]
                })
            } else {
                after == spec
            }
        }),
{
}

/// A column that is not shown is put at the end; one that is shown is taken out at its first place,
/// and the others keep their order.
pub proof fn law_toggling_keeps_the_order(columns: Seq<Seq<char>>, column: Seq<char>) -> (at: int)
    ensures
        !columns.contains(column) ==> toggled(columns, column) == columns.push(column),
        columns.contains(column) ==> {
            &&& 0 <= at < columns.len()
            &&& columns[at] == column
            &&& !columns.take(at).contains(column)
            &&& toggled(columns, column) == columns.take(at) + columns.skip(at + 1)
        },
{
    text::lemma_index_of(columns, column);
    match text::index_of(columns, column) {
        Some(i) => {
            assert(columns.remove(i) =~= columns.take(i) + columns.skip(i + 1));
            i
        },
        None => 0,
    }
}

/// Whether each binding is to another column.
pub open spec fn other_bindings(defs: Seq<FieldModel>, column: Seq<char>) -> spec_fn(int) -> bool {
    |i: int|
        match defs[i] {
            FieldModel::Shorthand(name) => name != column,
            FieldModel::Full(name, _) => name != column,
        }
}

/// Removing a y field keeps exactly the bindings to other columns, in their order.
pub proof fn law_removing_keeps_the_order(y: Option<YModel>, column: Seq<char>) -> (kept: Seq<int>)
    ensures
        row_laws::picks(kept, y_defs(y).len() as int, other_bindings(y_defs(y), column)),
        y_defs(y_without(y, column)).len() == kept.len(),
        forall|k: int|
            0 <= k < kept.len() ==> #[trigger] y_defs(y_without(y, column))[k]
                == y_defs(y)[kept[k]],
{
    let defs = y_defs(y);
    let kept = lemma_defs_without_order(defs, column, defs.len() as int);
    views::lemma_take_all(defs);
    let left = defs_without(defs, column);
    if left.len() > 0 {
        lemma_defs_of_encoding(left);
    } else {
        assert(y_defs(None) =~= left);
    }
    kept
}

proof fn lemma_defs_without_order(defs: Seq<FieldModel>, column: Seq<char>, n: int) -> (kept: Seq<
    int,
>)
    requires
        0 <= n <= defs.len(),
    ensures
        row_laws::picks(kept, n, other_bindings(defs, column)),
        defs_without(defs.take(n), column).len() == kept.len(),
        forall|k: int|
            0 <= k < kept.len() ==> #[trigger] defs_without(defs.take(n), column)[k]
                == defs[kept[k]],
    decreases n,
{
    let test = other_bindings(defs, column);
    if n > 0 {
        let kept = lemma_defs_without_order(defs, column, n - 1);
        views::lemma_take_push(defs, n - 1);
        row_laws::lemma_picks_next(kept, n - 1, test);
        if test(n - 1) {
            kept.push(n - 1)
        } else {
            kept
        }
    } else {
        row_laws::lemma_picks_none(n, test);
        seq![]
    }
}

/// The wide mode drops the color and keeps the y fields; the long mode keeps the first y field and
/// splits by the column that is chosen, or else by the color there was. Nothing else changes.
pub proof fn law_modes_set_the_color(spec: SpecModel, mode: SeriesMode, split: Option<Seq<char>>)
    ensures
        ({
            let after = in_mode(spec, mode, split);
            &&& after == (SpecModel { y: after.y, color: after.color, ..spec })
            &&& mode is Wide ==> after.color is None && after.y == spec.y
            &&& mode is Long ==> match split {
                Some(column) => row_laws::name_of(after.color) == column && after.color is Some,
                None => after.color == spec.color,
            }
        }),
{
}

/// Declaring a type keeps the field that a channel is bound to and gives it the type; a channel
/// that is not bound stays so.
pub proof fn law_declaring_a_type_keeps_the_field(def: Option<FieldModel>, ty: Option<DataType>)
    ensures
        def is None ==> with_type(def, ty) is None,
        def is Some ==> with_type(def, ty) == Some(FieldModel::Full(row_laws::name_of(def), ty)),
{
}

/// Setting the scale of an axis sets that scale, and touches neither the other axis nor anything
/// else of the configuration.
pub proof fn law_scales_are_set_axis_by_axis(config: ConfigModel, axis: Axis, scale: ScaleModel)
    ensures
        axis is X ==> with_scale(config, axis, scale) == (ConfigModel {
            x_scale: Some(scale),
            ..config
        }) && scale_of(config, axis) == config.x_scale,
        axis is Y ==> with_scale(config, axis, scale) == (ConfigModel {
            y_scale: Some(scale),
            ..config
        }) && scale_of(config, axis) == config.y_scale,
{
}

/// The names of a chart's series are theirs, in order; a chart that does not resolve has none.
pub proof fn law_series_are_named_in_order(
    spec: SpecModel,
    table: Seq<ColumnModel>,
    computed: ComputedModel,
    k: int,
)
    ensures
        match resolve::resolved(spec, table, computed) {
            Ok(chart) => names_of_series(spec, table, computed).len() == chart.series.len() && (0
                <= k < chart.series.len() ==> names_of_series(spec, table, computed)[k]
                == chart.series[k].name),
            Err(_) => names_of_series(spec, table, computed).len() == 0,
        },
{
}

/// A config is written as it is, but for the newlines at its end, of which one is left; data is
/// written as it is, with its last line ended.
pub proof fn law_texts_are_ended_and_nothing_else(yaml: Seq<char>, csv: Seq<char>) -> (cut: Seq<
    char,
>)
    ensures
        yaml + seq!['\n'] == newline_ended(yaml).drop_last() + cut + seq!['\n'],
        forall|i: int| 0 <= i < cut.len() ==> #[trigger] cut[i] == '\n',
        newline_ended(yaml).len() > 0 && newline_ended(yaml).last() == '\n',
        csv.len() > 0 && csv.last() == '\n' ==> line_ended(csv) == csv,
        csv.len() == 0 || csv.last() != '\n' ==> line_ended(csv) == csv + seq!['\n'],
{
    let cut = lemma_newlines_cut(yaml);
    let bare = without_newlines(yaml);
    assert(newline_ended(yaml).drop_last() =~= bare);
    assert(line_ended(csv) =~= csv || line_ended(csv) =~= csv + seq!['\n']);
    assert(csv.push('\n') =~= csv + seq!['\n']);
    cut
}

proof fn lemma_newlines_cut(s: Seq<char>) -> (cut: Seq<char>)
    ensures
        s == without_newlines(s) + cut,
        forall|i: int| 0 <= i < cut.len() ==> #[trigger] cut[i] == '\n',
    decreases s.len(),
{
    if s.len() > 0 && s.last() == '\n' {
        let rest = lemma_newlines_cut(s.drop_last());
        assert(s =~= s.drop_last().push('\n'));
        assert(s =~= without_newlines(s.drop_last()) + rest.push('\n'));
        rest.push('\n')
    } else {
        assert(s =~= without_newlines(s) + Seq::<char>::empty());
        seq![]
    }
}

/// Opening a block puts its spec, its table and its data into the builder, verbatim, with nothing
/// cached yet, and keeps where the block came from.
pub proof fn law_opened_blocks_are_held_verbatim(
    config: Seq<char>,
    csv: Seq<char>,
    spec: SpecModel,
    table: Seq<ColumnModel>,
    theme: ThemeModel,
    size: Size,
    provenance: ProvenanceModel,
)
    requires
        block::whole_lines(config),
        block::separator(config, 0) is None,
        data::csv_table(vstd::utf8::encode_utf8(csv)) == Ok::<Seq<ColumnModel>, Seq<char>>(table),
    ensures
        opened(block::assembled(config, csv), Ok(spec), theme, size, provenance) == Ok::<
            BuilderModel,
            Seq<char>,
        >(
            BuilderModel {
                spec,
                table,
                theme,
                size,
                csv_body: Some(csv),
                provenance: Some(provenance),
                cache: None,
            },
        ),
        opened(config, Ok(spec), theme, size, provenance) is Err,
{
    block::law_parsed_blocks_hold_both_halves(config, csv, spec, table);
}

/// A fence opens with its own line, closes with three backticks, and holds the block between them,
/// untouched.
pub proof fn law_fences_hold_their_block(inner: Seq<char>)
    ensures
        ({
            let s = fenced(inner);
            let n = inner.len() as int;
            &&& s.len() == n + 12
            &&& s.take(9) == "```chart\n"@
            &&& s.subrange(9, 9 + n) == inner
            &&& s[n + 9] == '`' && s[n + 10] == '`' && s[n + 11] == '`'
        }),
{
    reveal_strlit("```chart\n");
    reveal_strlit("```");
    let s = fenced(inner);
    assert(s.take(9) =~= "```chart\n"@);
    assert(s.subrange(9, 9 + inner.len() as int) =~= inner);
}

/// A saved block without inline data is its config alone, which splits into no data.
pub proof fn law_saving_without_data_writes_the_config(yaml: Seq<char>)
    requires
        block::separator(newline_ended(yaml), 0) is None,
    ensures
        block::halves(saved_body(yaml, None)) == (newline_ended(yaml), None::<Seq<char>>),
{
}

/// A single y field is written tersely, and only a single one: the first to be added, and the one
/// that is left.
pub proof fn law_single_y_fields_are_terse(y: Option<YModel>, column: Seq<char>)
    ensures
        y_defs(y).len() == 0 && !y_names(y).contains(column) ==> y_with(y, column) == Some(
            YModel::One(FieldModel::Shorthand(column)),
        ),
        y_defs(y).len() > 0 && !y_names(y).contains(column) ==> y_with(y, column) == Some(
            YModel::Many(y_defs(y).push(FieldModel::Shorthand(column))),
        ),
        y_names(y).contains(column) ==> y_with(y, column) == y,
        match y_without(y, column) {
            Some(YModel::One(_)) => true,
            Some(YModel::Many(defs)) => defs.len() > 1,
            None => forall|i: int|
                0 <= i < y_defs(y).len() ==> !#[trigger] other_bindings(y_defs(y), column)(i),
        },
{
    assert(y_defs(y).push(FieldModel::Shorthand(column))[y_defs(y).len() as int]
        == FieldModel::Shorthand(column));
    let kept = law_removing_keeps_the_order(y, column);
    if y_without(y, column) is None {
        assert(kept.len() == 0);
        assert forall|i: int| 0 <= i < y_defs(y).len() implies !#[trigger] other_bindings(
            y_defs(y),
            column,
        )(i) by {
            if other_bindings(y_defs(y), column)(i) {
                assert(kept.contains(i));
            }
        }
    }
}

/// The data of a self-contained block is what was opened, verbatim, or else the table written as
/// CSV: its column names first, and then its rows, each cell in its row and column.
pub proof fn law_inline_data_is_the_table(state: BuilderModel, i: int, j: int)
    ensures
        state.csv_body matches Some(csv) ==> inline_csv(state) == csv,
        state.csv_body is None ==> exists|records: Seq<Seq<Seq<char>>>|
            {
                &&& inline_csv(state) == #[trigger] data::csv_written(records)
                &&& records.len() == data::rows(state.table) + 1
                &&& 0 <= j < state.table.len() ==> {
                    &&& records[0].len() == state.table.len()
                    &&& records[0][j] == state.table[j].name
                    &&& 0 <= i < state.table[j].cells.len() ==> records[i + 1][j]
                        == state.table[j].cells[i]
                }
            },
{
    if state.csv_body is None {
        let records = seq![data::names(state.table)] + data::all_rows(state.table);
        if 0 <= j < state.table.len() && 0 <= i < state.table[j].cells.len() {
            data::law_rows_hold_every_cell(state.table, i, j);
            assert(records[i + 1] == data::all_rows(state.table)[i]);
        }
        assert(inline_csv(state) == data::csv_written(records));
    }
}

/// What an edit keeps: the fields that are not understood, the data reference, the table, the size,
/// the inline data and where the block came from.
pub proof fn law_edits_keep_what_is_not_theirs(before: BuilderModel, after: BuilderModel)
    requires
        edit_keeps(before, after),
    ensures
        after == (BuilderModel {
            spec: after.spec,
            theme: after.theme,
            cache: after.cache,
            ..before
        }),
        after.spec == (SpecModel {
            extra: before.spec.extra,
            data: before.spec.data,
            ..after.spec
        }),
{
}

} // verus!
