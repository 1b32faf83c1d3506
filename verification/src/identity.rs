//! Input-keyed content hashing for cache invalidation.
//!
//! The hash covers the chart's *inputs* — spec, table, theme, and size — not the rendered
//! bytes. A host keys its rendered-output cache on this value: any input change yields a new
//! hash and a re-render. What is hashed is a byte code that no two different inputs share, so
//! only the hash function itself can make two inputs collide. NOTE: this uses std's
//! `DefaultHasher`, which is session-scoped, not cross-process stable — fine for an in-process
//! per-frame cache key, not for persistence across runs.

use crate::backend::Size;
use crate::coding;
use crate::coding::Coded;
use crate::data::Column;
use crate::data::ColumnModel;
use crate::data::Table;
use crate::dsl;
use crate::dsl::ChartSpec;
use crate::dsl::Config;
use crate::dsl::ConfigModel;
use crate::dsl::DataType;
use crate::dsl::FieldDef;
use crate::dsl::FieldModel;
use crate::dsl::Interpolate;
use crate::dsl::Mark;
use crate::dsl::Orientation;
use crate::dsl::Scale;
use crate::dsl::ScaleKind;
use crate::dsl::ScaleModel;
use crate::dsl::SpecModel;
use crate::dsl::YEncoding;
use crate::dsl::YModel;
use crate::numeral::Number;
use crate::text;
use crate::theme::Color;
use crate::theme::Theme;
use crate::theme::ThemeModel;
use crate::views;
use std::collections::hash_map::DefaultHasher;
use std::hash::Hasher;
use vstd::prelude::*;
use vstd::std_specs::hash::DefaultHasherAdditionalSpecFns;

verus! {

// --- Codes of the inputs ----------------------------------------------------------

impl Coded for usize {
    open spec fn code(self) -> Seq<u8> {
        (self as u64).code()
    }

    proof fn prefix_free(a: Self, b: Self, r: Seq<u8>, s: Seq<u8>) {
        u64::prefix_free(a as u64, b as u64, r, s);
    }
}

impl Coded for Mark {
    open spec fn code(self) -> Seq<u8> {
        (match self {
            Mark::Bar => 0u8,
            Mark::Line => 1u8,
            Mark::Point => 2u8,
            Mark::Area => 3u8,
            Mark::Histogram => 4u8,
            Mark::Arc => 5u8,
            Mark::Table => 6u8,
        }).code()
    }

    proof fn prefix_free(a: Self, b: Self, r: Seq<u8>, s: Seq<u8>) {
        u8::prefix_free(a.code()[0], b.code()[0], r, s);
    }
}

impl Coded for DataType {
    open spec fn code(self) -> Seq<u8> {
        (match self {
            DataType::Quantitative => 0u8,
            DataType::Temporal => 1u8,
            DataType::Ordinal => 2u8,
            DataType::Nominal => 3u8,
        }).code()
    }

    proof fn prefix_free(a: Self, b: Self, r: Seq<u8>, s: Seq<u8>) {
        u8::prefix_free(a.code()[0], b.code()[0], r, s);
    }
}

impl Coded for Interpolate {
    open spec fn code(self) -> Seq<u8> {
        (self is Step).code()
    }

    proof fn prefix_free(a: Self, b: Self, r: Seq<u8>, s: Seq<u8>) {
        bool::prefix_free(a is Step, b is Step, r, s);
    }
}

impl Coded for Orientation {
    open spec fn code(self) -> Seq<u8> {
        (self is Horizontal).code()
    }

    proof fn prefix_free(a: Self, b: Self, r: Seq<u8>, s: Seq<u8>) {
        bool::prefix_free(a is Horizontal, b is Horizontal, r, s);
    }
}

impl Coded for ScaleKind {
    open spec fn code(self) -> Seq<u8> {
        (match self {
            ScaleKind::Linear => 0u8,
            ScaleKind::Log => 1u8,
            ScaleKind::Sqrt => 2u8,
        }).code()
    }

    proof fn prefix_free(a: Self, b: Self, r: Seq<u8>, s: Seq<u8>) {
        u8::prefix_free(a.code()[0], b.code()[0], r, s);
    }
}

impl Coded for ScaleModel {
    open spec fn code(self) -> Seq<u8> {
        (self.kind, self.domain, self.zero).code()
    }

    proof fn prefix_free(a: Self, b: Self, r: Seq<u8>, s: Seq<u8>) {
        Coded::prefix_free((a.kind, a.domain, a.zero), (b.kind, b.domain, b.zero), r, s);
    }
}

impl Coded for FieldModel {
    open spec fn code(self) -> Seq<u8> {
        match self {
            FieldModel::Shorthand(name) => (false, name).code(),
            FieldModel::Full(name, ty) => (true, (name, ty)).code(),
        }
    }

    proof fn prefix_free(a: Self, b: Self, r: Seq<u8>, s: Seq<u8>) {
        match (a, b) {
            (FieldModel::Shorthand(x), FieldModel::Shorthand(y)) => {
                Coded::prefix_free((false, x), (false, y), r, s);
            },
            (FieldModel::Full(x, p), FieldModel::Full(y, q)) => {
                Coded::prefix_free((true, (x, p)), (true, (y, q)), r, s);
            },
            (FieldModel::Shorthand(x), FieldModel::Full(y, q)) => {
                lemma_tags_differ(false, true, x.code(), (y, q).code(), r, s);
            },
            (FieldModel::Full(x, p), FieldModel::Shorthand(y)) => {
                lemma_tags_differ(true, false, (x, p).code(), y.code(), r, s);
            },
        }
    }
}

/// Codes that start with different tags differ.
proof fn lemma_tags_differ(p: bool, q: bool, a: Seq<u8>, b: Seq<u8>, r: Seq<u8>, s: Seq<u8>)
    requires
        p != q,
    ensures
        (p.code() + a) + r != (q.code() + b) + s,
{
    assert(((p.code() + a) + r)[0] == p.code()[0]);
    assert(((q.code() + b) + s)[0] == q.code()[0]);
}

impl Coded for YModel {
    open spec fn code(self) -> Seq<u8> {
        match self {
            YModel::One(def) => (false, def).code(),
            YModel::Many(defs) => (true, defs).code(),
        }
    }

    proof fn prefix_free(a: Self, b: Self, r: Seq<u8>, s: Seq<u8>) {
        match (a, b) {
            (YModel::One(x), YModel::One(y)) => {
                Coded::prefix_free((false, x), (false, y), r, s);
            },
            (YModel::Many(x), YModel::Many(y)) => {
                Coded::prefix_free((true, x), (true, y), r, s);
            },
            (YModel::One(x), YModel::Many(y)) => {
                lemma_tags_differ(false, true, x.code(), y.code(), r, s);
            },
            (YModel::Many(x), YModel::One(y)) => {
                lemma_tags_differ(true, false, x.code(), y.code(), r, s);
            },
        }
    }
}

impl Coded for ConfigModel {
    open spec fn code(self) -> Seq<u8> {
        (
            (self.title, self.x_title, self.y_title, self.palette),
            (self.point_size, self.line_width, self.fill_opacity, self.inner_radius),
            (self.legend, self.stack, self.show_grid, self.transpose),
            ((self.interpolate, self.orientation, self.bins), (self.x_scale, self.y_scale)),
        ).code()
    }

    proof fn prefix_free(a: Self, b: Self, r: Seq<u8>, s: Seq<u8>) {
        Coded::prefix_free(
            (
                (a.title, a.x_title, a.y_title, a.palette),
                (a.point_size, a.line_width, a.fill_opacity, a.inner_radius),
                (a.legend, a.stack, a.show_grid, a.transpose),
                ((a.interpolate, a.orientation, a.bins), (a.x_scale, a.y_scale)),
            ),
            (
                (b.title, b.x_title, b.y_title, b.palette),
                (b.point_size, b.line_width, b.fill_opacity, b.inner_radius),
                (b.legend, b.stack, b.show_grid, b.transpose),
                ((b.interpolate, b.orientation, b.bins), (b.x_scale, b.y_scale)),
            ),
            r,
            s,
        );
    }
}

impl Coded for SpecModel {
    open spec fn code(self) -> Seq<u8> {
        (
            (self.mark, self.x, self.y, self.color),
            (self.size, self.theta, self.data, self.columns),
            (self.config, self.extra),
        ).code()
    }

    proof fn prefix_free(a: Self, b: Self, r: Seq<u8>, s: Seq<u8>) {
        Coded::prefix_free(
            (
                (a.mark, a.x, a.y, a.color),
                (a.size, a.theta, a.data, a.columns),
                (a.config, a.extra),
            ),
            (
                (b.mark, b.x, b.y, b.color),
                (b.size, b.theta, b.data, b.columns),
                (b.config, b.extra),
            ),
            r,
            s,
        );
    }
}

impl Coded for ColumnModel {
    open spec fn code(self) -> Seq<u8> {
        (self.name, self.cells).code()
    }

    proof fn prefix_free(a: Self, b: Self, r: Seq<u8>, s: Seq<u8>) {
        Coded::prefix_free((a.name, a.cells), (b.name, b.cells), r, s);
    }
}

impl Coded for Color {
    open spec fn code(self) -> Seq<u8> {
        (self.r, self.g, self.b, self.a).code()
    }

    proof fn prefix_free(a: Self, b: Self, r: Seq<u8>, s: Seq<u8>) {
        Coded::prefix_free((a.r, a.g, a.b, a.a), (b.r, b.g, b.b, b.a), r, s);
    }
}

impl Coded for ThemeModel {
    open spec fn code(self) -> Seq<u8> {
        (self.background, self.foreground, self.gridline, self.series).code()
    }

    proof fn prefix_free(a: Self, b: Self, r: Seq<u8>, s: Seq<u8>) {
        Coded::prefix_free(
            (a.background, a.foreground, a.gridline, a.series),
            (b.background, b.foreground, b.gridline, b.series),
            r,
            s,
        );
    }
}

impl Coded for Size {
    open spec fn code(self) -> Seq<u8> {
        (self.width, self.height).code()
    }

    proof fn prefix_free(a: Self, b: Self, r: Seq<u8>, s: Seq<u8>) {
        Coded::prefix_free((a.width, a.height), (b.width, b.height), r, s);
    }
}

/// The code of all four inputs of a render.
pub open spec fn inputs_code(
    spec: SpecModel,
    table: Seq<ColumnModel>,
    theme: ThemeModel,
    size: Size,
) -> Seq<u8> {
    (spec, table, theme, size).code()
}

/// Any change to any input changes the code that is hashed: two sets of inputs with one code are
/// the same.
pub proof fn law_every_input_counts(
    spec1: SpecModel,
    table1: Seq<ColumnModel>,
    theme1: ThemeModel,
    size1: Size,
    spec2: SpecModel,
    table2: Seq<ColumnModel>,
    theme2: ThemeModel,
    size2: Size,
)
    requires
        inputs_code(spec1, table1, theme1, size1) == inputs_code(spec2, table2, theme2, size2),
    ensures
        spec1 == spec2,
        table1 == table2,
        theme1 == theme2,
        size1 == size2,
{
    coding::law_code_is_injective(
        (spec1, table1, theme1, size1),
        (spec2, table2, theme2, size2),
    );
}

/// The hash of the inputs: that of their code.
pub open spec fn inputs_hash(
    spec: SpecModel,
    table: Seq<ColumnModel>,
    theme: ThemeModel,
    size: Size,
) -> u64 {
    DefaultHasher::spec_finish(seq![inputs_code(spec, table, theme, size)])
}

/// Everything a chart is drawn from: the spec, the table, the theme and the size.
#[verifier::ext_equal]
pub struct Inputs {
    pub spec: SpecModel,
    pub table: Seq<ColumnModel>,
    pub theme: ThemeModel,
    pub size: Size,
}

/// Whether no two different inputs are written alike.
pub open spec fn tells_apart(written: spec_fn(Inputs) -> Seq<Seq<u8>>) -> bool {
    forall|i: Inputs, j: Inputs| #[trigger] written(i) == #[trigger] written(j) ==> i == j
}

/// Whether the hash of inputs is that of how they are written.
pub open spec fn is_hashed(written: spec_fn(Inputs) -> Seq<Seq<u8>>) -> bool {
    forall|i: Inputs|
        inputs_hash(i.spec, i.table, i.theme, i.size) == DefaultHasher::spec_finish(
            #[trigger] written(i),
        )
}

/// Any change to any input, down to one cell or one color of the palette, changes what is handed
/// to the hash function: there is a way to write inputs down as bytes, in which no two different
/// inputs are written alike, and the hash of inputs is the hash of how they are written.
pub proof fn law_hash_covers_every_input()
    ensures
        exists|written: spec_fn(Inputs) -> Seq<Seq<u8>>|
            tells_apart(written) && #[trigger] is_hashed(written),
{
    let written = |i: Inputs| seq![inputs_code(i.spec, i.table, i.theme, i.size)];
    assert forall|i: Inputs, j: Inputs| #[trigger] written(i) == #[trigger] written(j) implies i
        == j by {
        assert(written(i)[0] == written(j)[0]);
        law_every_input_counts(i.spec, i.table, i.theme, i.size, j.spec, j.table, j.theme, j.size);
    }
    assert(is_hashed(written));
}

/// Two different sets of inputs are hashed as different bytes, so that only the hash function
/// itself can give them one hash.
pub proof fn law_different_inputs_are_hashed_apart(i: Inputs, j: Inputs)
    requires
        i != j,
    ensures
        exists|a: Seq<Seq<u8>>, b: Seq<Seq<u8>>|
            a != b && inputs_hash(i.spec, i.table, i.theme, i.size)
                == #[trigger] DefaultHasher::spec_finish(a) && inputs_hash(
                j.spec,
                j.table,
                j.theme,
                j.size,
            ) == #[trigger] DefaultHasher::spec_finish(b),
{
    let a = seq![inputs_code(i.spec, i.table, i.theme, i.size)];
    let b = seq![inputs_code(j.spec, j.table, j.theme, j.size)];
    if a == b {
        assert(a[0] == b[0]);
        law_every_input_counts(i.spec, i.table, i.theme, i.size, j.spec, j.table, j.theme, j.size);
    }
    assert(inputs_hash(i.spec, i.table, i.theme, i.size) == DefaultHasher::spec_finish(a));
    assert(inputs_hash(j.spec, j.table, j.theme, j.size) == DefaultHasher::spec_finish(b));
}

/// Compute a content hash over the four render inputs. Equal inputs (within a
/// process) yield equal hashes; any change to any input changes what is hashed.
pub fn content_hash(spec: &ChartSpec, table: &Table, theme: &Theme, size: Size) -> (r: u64)
    ensures
        r == inputs_hash(spec@, table@, theme@, size),
{
    let mut bytes: Vec<u8> = Vec::new();
    push_spec(&mut bytes, spec);
    assert(bytes@ =~= spec@.code());
    push_table(&mut bytes, table);
    push_theme(&mut bytes, theme);
    push_u32(&mut bytes, size.width);
    push_u32(&mut bytes, size.height);
    proof {
        coding::lemma_assoc(
            spec@.code() + table@.code() + theme@.code(),
            size.width.code(),
            size.height.code(),
        );
    }
    let mut hasher = DefaultHasher::new();
    hasher.write(bytes.as_slice());
    assert(hasher@ =~= seq![bytes@]);
    hasher.finish()
}

// --- Writing codes ----------------------------------------------------------------

fn push_byte(out: &mut Vec<u8>, b: u8)
    ensures
        final(out)@ == old(out)@ + b.code(),
{
    out.push(b);
    assert(out@ =~= old(out)@ + b.code());
}

fn push_flag(out: &mut Vec<u8>, b: bool)
    ensures
        final(out)@ == old(out)@ + b.code(),
{
    out.push(
        if b {
            1
        } else {
            0
        },
    );
    assert(out@ =~= old(out)@ + b.code());
}

fn push_u32(out: &mut Vec<u8>, n: u32)
    ensures
        final(out)@ == old(out)@ + n.code(),
{
    out.push((n % 256) as u8);
    out.push(((n / 256) % 256) as u8);
    out.push(((n / 65_536) % 256) as u8);
    out.push((n / 16_777_216) as u8);
    assert(out@ =~= old(out)@ + n.code());
}

fn push_u64(out: &mut Vec<u8>, n: u64)
    ensures
        final(out)@ == old(out)@ + n.code(),
{
    let low: u32 = (n % 0x1_0000_0000) as u32;
    let high: u32 = (n / 0x1_0000_0000) as u32;
    push_u32(out, low);
    push_u32(out, high);
    proof {
        coding::lemma_assoc(old(out)@, low.code(), high.code());
    }
}

/// The code of a list from position `i` on: a one, the element's code, and the rest.
proof fn lemma_list_rest<T: Coded>(items: Seq<T>, i: int, written: Seq<u8>, base: Seq<u8>)
    requires
        0 <= i < items.len(),
        written + coding::list_code(items.skip(i)) == base + coding::list_code(items),
    ensures
        ((written + 1u8.code()) + items[i].code()) + coding::list_code(items.skip(i + 1)) == base
            + coding::list_code(items),
{
    let rest = items.skip(i);
    assert(rest.first() == items[i]);
    assert(rest.drop_first() =~= items.skip(i + 1));
    let tail = coding::list_code(items.skip(i + 1));
    coding::lemma_assoc(written, 1u8.code(), items[i].code());
    coding::lemma_assoc(written, 1u8.code() + items[i].code(), tail);
}

proof fn lemma_list_start<T: Coded>(items: Seq<T>)
    ensures
        items.skip(0) == items,
{
    assert(items.skip(0) =~= items);
}

proof fn lemma_list_end<T: Coded>(items: Seq<T>)
    ensures
        coding::list_code(items.skip(items.len() as int)) == 0u8.code(),
{
}

fn push_text(out: &mut Vec<u8>, s: &str)
    ensures
        final(out)@ == old(out)@ + s@.code(),
{
    let chars = text::chars_of(s);
    let ghost base = out@;
    let mut i: usize = 0;
    proof {
        lemma_list_start(chars@);
    }
    while i < chars.len()
        invariant
            i <= chars.len(),
            out@ + coding::list_code(chars@.skip(i as int)) == base + coding::list_code(chars@),
        decreases chars.len() - i,
    {
        proof {
            lemma_list_rest(chars@, i as int, out@, base);
        }
        push_byte(out, 1);
        push_u32(out, chars[i] as u32);
        i = i + 1;
    }
    proof {
        lemma_list_end(chars@);
    }
    push_byte(out, 0);
}

fn push_opt_text(out: &mut Vec<u8>, s: &Option<String>)
    ensures
        final(out)@ == old(out)@ + views::opt_view(*s).code(),
{
    match s {
        Some(t) => {
            push_byte(out, 1);
            push_text(out, t.as_str());
            proof {
                coding::lemma_assoc(old(out)@, 1u8.code(), t@.code());
            }
        },
        None => {
            push_byte(out, 0);
        },
    }
}

fn push_opt_number(out: &mut Vec<u8>, n: &Option<Number>)
    ensures
        final(out)@ == old(out)@ + views::opt_view(*n).code(),
{
    match n {
        Some(t) => {
            push_byte(out, 1);
            push_text(out, t.as_str());
            proof {
                coding::lemma_assoc(old(out)@, 1u8.code(), t@.code());
            }
        },
        None => {
            push_byte(out, 0);
        },
    }
}

fn push_texts(out: &mut Vec<u8>, list: &Vec<String>)
    ensures
        final(out)@ == old(out)@ + views::views(list@).code(),
{
    let ghost base = out@;
    let ghost all = views::views(list@);
    let mut i: usize = 0;
    proof {
        lemma_list_start(all);
    }
    while i < list.len()
        invariant
            i <= list.len(),
            all == views::views(list@),
            out@ + coding::list_code(all.skip(i as int)) == base + coding::list_code(all),
        decreases list.len() - i,
    {
        proof {
            lemma_list_rest(all, i as int, out@, base);
        }
        push_byte(out, 1);
        push_text(out, list[i].as_str());
        i = i + 1;
    }
    proof {
        lemma_list_end(all);
    }
    push_byte(out, 0);
}

fn push_opt_texts(out: &mut Vec<u8>, list: &Option<Vec<String>>)
    ensures
        final(out)@ == old(out)@ + views::opt_views(*list).code(),
{
    match list {
        Some(v) => {
            push_byte(out, 1);
            push_texts(out, v);
            proof {
                coding::lemma_assoc(old(out)@, 1u8.code(), views::views(v@).code());
            }
        },
        None => {
            push_byte(out, 0);
        },
    }
}

fn push_type(out: &mut Vec<u8>, ty: &Option<DataType>)
    ensures
        final(out)@ == old(out)@ + ty.code(),
{
    match ty {
        Some(t) => {
            push_byte(out, 1);
            let tag: u8 = match t {
                DataType::Quantitative => 0,
                DataType::Temporal => 1,
                DataType::Ordinal => 2,
                DataType::Nominal => 3,
            };
            push_byte(out, tag);
            proof {
                coding::lemma_assoc(old(out)@, 1u8.code(), t.code());
            }
        },
        None => {
            push_byte(out, 0);
        },
    }
}

fn push_field(out: &mut Vec<u8>, def: &FieldDef)
    ensures
        final(out)@ == old(out)@ + def@.code(),
{
    match def {
        FieldDef::Shorthand(name) => {
            push_flag(out, false);
            push_text(out, name.as_str());
            proof {
                coding::lemma_assoc(old(out)@, false.code(), name@.code());
            }
        },
        FieldDef::Full(spec) => {
            push_flag(out, true);
            push_text(out, spec.field.as_str());
            push_type(out, &spec.ty);
            proof {
                coding::lemma_assoc(
                    old(out)@ + true.code(),
                    spec.field@.code(),
                    spec.ty.code(),
                );
                coding::lemma_assoc(old(out)@, true.code(), (spec.field@, spec.ty).code());
            }
        },
    }
}

fn push_opt_field(out: &mut Vec<u8>, def: &Option<FieldDef>)
    ensures
        final(out)@ == old(out)@ + views::opt_view(*def).code(),
{
    match def {
        Some(d) => {
            push_byte(out, 1);
            push_field(out, d);
            proof {
                coding::lemma_assoc(old(out)@, 1u8.code(), d@.code());
            }
        },
        None => {
            push_byte(out, 0);
        },
    }
}

fn push_fields(out: &mut Vec<u8>, list: &Vec<FieldDef>)
    ensures
        final(out)@ == old(out)@ + views::views(list@).code(),
{
    let ghost base = out@;
    let ghost all = views::views(list@);
    let mut i: usize = 0;
    proof {
        lemma_list_start(all);
    }
    while i < list.len()
        invariant
            i <= list.len(),
            all == views::views(list@),
            out@ + coding::list_code(all.skip(i as int)) == base + coding::list_code(all),
        decreases list.len() - i,
    {
        proof {
            lemma_list_rest(all, i as int, out@, base);
        }
        push_byte(out, 1);
        push_field(out, &list[i]);
        i = i + 1;
    }
    proof {
        lemma_list_end(all);
    }
    push_byte(out, 0);
}

fn push_y(out: &mut Vec<u8>, y: &Option<YEncoding>)
    ensures
        final(out)@ == old(out)@ + views::opt_view(*y).code(),
{
    match y {
        Some(YEncoding::One(def)) => {
            push_byte(out, 1);
            push_flag(out, false);
            push_field(out, def);
            proof {
                coding::lemma_assoc(old(out)@ + 1u8.code(), false.code(), def@.code());
                coding::lemma_assoc(old(out)@, 1u8.code(), (false, def@).code());
            }
        },
        Some(YEncoding::Many(defs)) => {
            push_byte(out, 1);
            push_flag(out, true);
            push_fields(out, defs);
            proof {
                let all = views::views(defs@);
                coding::lemma_assoc(old(out)@ + 1u8.code(), true.code(), all.code());
                coding::lemma_assoc(old(out)@, 1u8.code(), (true, all).code());
            }
        },
        None => {
            push_byte(out, 0);
        },
    }
}

fn push_pairs(out: &mut Vec<u8>, list: &Vec<(String, String)>)
    ensures
        final(out)@ == old(out)@ + dsl::pair_views(list@).code(),
{
    let ghost base = out@;
    let ghost all = dsl::pair_views(list@);
    let mut i: usize = 0;
    proof {
        lemma_list_start(all);
    }
    while i < list.len()
        invariant
            i <= list.len(),
            all == dsl::pair_views(list@),
            out@ + coding::list_code(all.skip(i as int)) == base + coding::list_code(all),
        decreases list.len() - i,
    {
        let ghost before = out@;
        proof {
            lemma_list_rest(all, i as int, out@, base);
            assert(all[i as int] == (list@[i as int].0@, list@[i as int].1@));
        }
        push_byte(out, 1);
        push_text(out, list[i].0.as_str());
        push_text(out, list[i].1.as_str());
        proof {
            coding::lemma_assoc(
                before + 1u8.code(),
                list@[i as int].0@.code(),
                list@[i as int].1@.code(),
            );
        }
        i = i + 1;
    }
    proof {
        lemma_list_end(all);
    }
    push_byte(out, 0);
}

fn push_scale(out: &mut Vec<u8>, scale: &Option<Scale>)
    ensures
        final(out)@ == old(out)@ + views::opt_view(*scale).code(),
{
    match scale {
        Some(sc) => {
            let ghost m = sc@;
            push_byte(out, 1);
            let ghost base = out@;
            let tag: u8 = match sc.kind {
                ScaleKind::Linear => 0,
                ScaleKind::Log => 1,
                ScaleKind::Sqrt => 2,
            };
            push_byte(out, tag);
            let ghost before = out@;
            match &sc.domain {
                Some(d) => {
                    push_byte(out, 1);
                    push_text(out, d.0.as_str());
                    push_text(out, d.1.as_str());
                    proof {
                        coding::lemma_assoc(before + 1u8.code(), d.0@.code(), d.1@.code());
                        coding::lemma_assoc(before, 1u8.code(), (d.0@, d.1@).code());
                    }
                },
                None => {
                    push_byte(out, 0);
                },
            }
            assert(out@ == before + m.domain.code());
            push_flag(out, sc.zero);
            proof {
                coding::lemma_assoc(base, m.kind.code(), m.domain.code());
                coding::lemma_assoc(base, m.kind.code() + m.domain.code(), m.zero.code());
                coding::lemma_assoc(old(out)@, 1u8.code(), m.code());
            }
        },
        None => {
            push_byte(out, 0);
        },
    }
}

/// Four codes written one after the other are the code of the four values.
proof fn lemma_four(base: Seq<u8>, a: Seq<u8>, b: Seq<u8>, c: Seq<u8>, d: Seq<u8>)
    ensures
        (((base + a) + b) + c) + d == base + (a + b + c + d),
{
    coding::lemma_assoc(base, a, b);
    coding::lemma_assoc(base, a + b, c);
    coding::lemma_assoc(base, a + b + c, d);
}

fn push_config(out: &mut Vec<u8>, c: &Config)
    ensures
        final(out)@ == old(out)@ + c@.code(),
{
    let ghost m = c@;
    let ghost base = out@;
    push_opt_text(out, &c.title);
    push_opt_text(out, &c.x_title);
    push_opt_text(out, &c.y_title);
    push_opt_texts(out, &c.palette);
    let ghost first = (m.title, m.x_title, m.y_title, m.palette).code();
    proof {
        lemma_four(
            base,
            m.title.code(),
            m.x_title.code(),
            m.y_title.code(),
            m.palette.code(),
        );
    }
    assert(out@ == base + first);
    push_opt_number(out, &c.point_size);
    push_opt_number(out, &c.line_width);
    push_opt_number(out, &c.fill_opacity);
    push_opt_number(out, &c.inner_radius);
    let ghost second = (m.point_size, m.line_width, m.fill_opacity, m.inner_radius).code();
    proof {
        lemma_four(
            base + first,
            m.point_size.code(),
            m.line_width.code(),
            m.fill_opacity.code(),
            m.inner_radius.code(),
        );
    }
    assert(out@ == (base + first) + second);
    push_flag(out, c.legend);
    push_flag(out, c.stack);
    push_flag(out, c.show_grid);
    push_flag(out, c.transpose);
    let ghost third = (m.legend, m.stack, m.show_grid, m.transpose).code();
    proof {
        lemma_four(
            (base + first) + second,
            m.legend.code(),
            m.stack.code(),
            m.show_grid.code(),
            m.transpose.code(),
        );
    }
    assert(out@ == ((base + first) + second) + third);
    let ghost before = out@;
    push_choices(out, c);
    let ghost choices = (m.interpolate, m.orientation, m.bins).code();
    push_scale(out, &c.x_scale);
    push_scale(out, &c.y_scale);
    let ghost scales = (m.x_scale, m.y_scale).code();
    proof {
        coding::lemma_assoc(before + choices, m.x_scale.code(), m.y_scale.code());
        coding::lemma_assoc(before, choices, scales);
        lemma_four(base, first, second, third, choices + scales);
    }
}

/// The code of the interpolation, the orientation and the bucket count.
fn push_choices(out: &mut Vec<u8>, c: &Config)
    ensures
        final(out)@ == old(out)@ + (c@.interpolate, c@.orientation, c@.bins).code(),
{
    let ghost base = out@;
    match c.interpolate {
        Some(i) => {
            push_byte(out, 1);
            let step = matches!(i, Interpolate::Step);
            push_flag(out, step);
            proof {
                coding::lemma_assoc(base, 1u8.code(), step.code());
            }
        },
        None => {
            push_byte(out, 0);
        },
    }
    assert(out@ == base + c@.interpolate.code());
    let ghost before = out@;
    match c.orientation {
        Some(o) => {
            push_byte(out, 1);
            let horizontal = matches!(o, Orientation::Horizontal);
            push_flag(out, horizontal);
            proof {
                coding::lemma_assoc(before, 1u8.code(), horizontal.code());
            }
        },
        None => {
            push_byte(out, 0);
        },
    }
    assert(out@ == before + c@.orientation.code());
    let ghost before = out@;
    match c.bins {
        Some(n) => {
            push_byte(out, 1);
            push_u64(out, n as u64);
            proof {
                coding::lemma_assoc(before, 1u8.code(), n.code());
            }
        },
        None => {
            push_byte(out, 0);
        },
    }
    assert(out@ == before + c@.bins.code());
    proof {
        coding::lemma_assoc(base, c@.interpolate.code(), c@.orientation.code());
        coding::lemma_assoc(
            base,
            c@.interpolate.code() + c@.orientation.code(),
            c@.bins.code(),
        );
    }
}

/// Write the code of a spec, so every channel, config option, and captured `extra` field
/// contributes.
fn push_spec(out: &mut Vec<u8>, spec: &ChartSpec)
    ensures
        final(out)@ == old(out)@ + spec@.code(),
{
    let ghost m = spec@;
    let ghost base = out@;
    let tag: u8 = match spec.mark {
        Mark::Bar => 0,
        Mark::Line => 1,
        Mark::Point => 2,
        Mark::Area => 3,
        Mark::Histogram => 4,
        Mark::Arc => 5,
        Mark::Table => 6,
    };
    push_byte(out, tag);
    push_opt_field(out, &spec.x);
    push_y(out, &spec.y);
    push_opt_field(out, &spec.color);
    let ghost first = (m.mark, m.x, m.y, m.color).code();
    proof {
        lemma_four(base, m.mark.code(), m.x.code(), m.y.code(), m.color.code());
    }
    assert(out@ == base + first);
    push_opt_field(out, &spec.size);
    push_opt_field(out, &spec.theta);
    push_opt_text(out, &spec.data);
    push_opt_texts(out, &spec.columns);
    let ghost second = (m.size, m.theta, m.data, m.columns).code();
    proof {
        lemma_four(base + first, m.size.code(), m.theta.code(), m.data.code(), m.columns.code());
    }
    assert(out@ == (base + first) + second);
    let ghost before = out@;
    push_config(out, &spec.config);
    push_pairs(out, &spec.extra);
    proof {
        coding::lemma_assoc(before, m.config.code(), m.extra.code());
        coding::lemma_assoc(base, first, second);
        coding::lemma_assoc(base, first + second, (m.config, m.extra).code());
    }
}

fn push_column(out: &mut Vec<u8>, column: &Column)
    ensures
        final(out)@ == old(out)@ + column@.code(),
{
    push_text(out, column.name.as_str());
    push_texts(out, &column.cells);
    proof {
        coding::lemma_assoc(old(out)@, column@.name.code(), column@.cells.code());
    }
}

/// Write the code of every column name and cell.
fn push_table(out: &mut Vec<u8>, table: &Table)
    ensures
        final(out)@ == old(out)@ + table@.code(),
{
    let ghost base = out@;
    let ghost all = table@;
    let mut i: usize = 0;
    proof {
        lemma_list_start(all);
    }
    while i < table.columns.len()
        invariant
            i <= table.columns.len(),
            all == views::views(table.columns@),
            out@ + coding::list_code(all.skip(i as int)) == base + coding::list_code(all),
        decreases table.columns.len() - i,
    {
        proof {
            lemma_list_rest(all, i as int, out@, base);
        }
        push_byte(out, 1);
        push_column(out, &table.columns[i]);
        i = i + 1;
    }
    proof {
        lemma_list_end(all);
    }
    push_byte(out, 0);
}

fn push_color(out: &mut Vec<u8>, c: Color)
    ensures
        final(out)@ == old(out)@ + c.code(),
{
    push_byte(out, c.r);
    push_byte(out, c.g);
    push_byte(out, c.b);
    push_byte(out, c.a);
    proof {
        lemma_four(old(out)@, c.r.code(), c.g.code(), c.b.code(), c.a.code());
    }
}

/// Write the code of the theme's structural colors and series palette.
fn push_theme(out: &mut Vec<u8>, theme: &Theme)
    ensures
        final(out)@ == old(out)@ + theme@.code(),
{
    push_color(out, theme.background);
    push_color(out, theme.foreground);
    push_color(out, theme.gridline);
    push_colors(out, &theme.series);
    proof {
        lemma_four(
            old(out)@,
            theme@.background.code(),
            theme@.foreground.code(),
            theme@.gridline.code(),
            theme@.series.code(),
        );
    }
}

fn push_colors(out: &mut Vec<u8>, list: &Vec<Color>)
    ensures
        final(out)@ == old(out)@ + list@.code(),
{
    let ghost base = out@;
    let mut i: usize = 0;
    proof {
        lemma_list_start(list@);
    }
    while i < list.len()
        invariant
            i <= list.len(),
            out@ + coding::list_code(list@.skip(i as int)) == base + coding::list_code(list@),
        decreases list.len() - i,
    {
        proof {
            lemma_list_rest(list@, i as int, out@, base);
        }
        push_byte(out, 1);
        push_color(out, list[i]);
        i = i + 1;
    }
    proof {
        lemma_list_end(list@);
    }
    push_byte(out, 0);
}

} // verus!
