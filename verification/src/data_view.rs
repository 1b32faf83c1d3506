//! The read-only "Data" pane's contents: the source table as the engine parses it.
//!
//! One column per data column with its *inferred* type (the same `infer_type` the resolver
//! uses), and each cell read through the shared `coerce`, so dates appear as dates and
//! unparseable/empty cells as missing.

use crate::data;
use crate::data::ColumnModel;
use crate::data::Table;
use crate::dsl::DataType;
use crate::backend;
use crate::typing;
use crate::typing::Value;
use crate::typing::ValueModel;
use crate::views;
use vstd::prelude::*;

verus! {

/// The inferred types of a table's columns.
pub open spec fn types_of(table: Seq<ColumnModel>) -> Seq<DataType> {
    table.map_values(|c: ColumnModel| typing::inferred(c.cells))
}

/// The cells of a table row by row, each as a value of its column's type. A column that is too
/// short has a missing value there.
pub open spec fn parsed_rows(table: Seq<ColumnModel>) -> Seq<Seq<ValueModel>> {
    Seq::new(
        data::rows(table),
        |r: int|
            Seq::new(
                table.len(),
                |c: int| typing::coerced(data::cell_at(table[c].cells, r), types_of(table)[c]),
            ),
    )
}

/// Infer each column's type.
pub fn column_types(table: &Table) -> (r: Vec<DataType>)
    ensures
        r@ == types_of(table@),
{
    let mut out: Vec<DataType> = Vec::new();
    let mut i: usize = 0;
    while i < table.columns.len()
        invariant
            i <= table.columns.len(),
            out@ == types_of(table@).take(i as int),
        decreases table.columns.len() - i,
    {
        proof {
            views::lemma_take_push(types_of(table@), i as int);
        }
        out.push(typing::infer_type(table.columns[i].cells.as_slice()));
        i = i + 1;
    }
    proof {
        views::lemma_take_all(types_of(table@));
    }
    out
}

/// The table's cells, row by row, as typed values.
pub fn data_rows(table: &Table) -> (r: Vec<Vec<Value>>)
    ensures
        backend::value_rows(r@) == parsed_rows(table@),
{
    let types = column_types(table);
    let n = table.row_count();
    let mut out: Vec<Vec<Value>> = Vec::new();
    let mut r: usize = 0;
    while r < n
        invariant
            r <= n,
            n == data::rows(table@),
            types@ == types_of(table@),
            out.len() == r,
            forall|k: int|
                0 <= k < r ==> views::views((#[trigger] out@[k])@) == parsed_rows(table@)[k],
        decreases n - r,
    {
        let mut line: Vec<Value> = Vec::new();
        let mut c: usize = 0;
        while c < table.columns.len()
            invariant
                c <= table.columns.len(),
                types@ == types_of(table@),
                line.len() == c,
                forall|k: int|
                    0 <= k < c ==> (#[trigger] line@[k])@ == typing::coerced(
                        data::cell_at(table@[k].cells, r as int),
                        types@[k],
                    ),
            decreases table.columns.len() - c,
        {
            let raw = data::str_or_empty(&table.columns[c].cells, r);
            line.push(typing::coerce(raw, types[c]));
            c = c + 1;
        }
        assert(views::views(line@) =~= parsed_rows(table@)[r as int]);
        out.push(line);
        r = r + 1;
    }
    assert(backend::value_rows(out@) =~= parsed_rows(table@));
    out
}

/// The short human label for an inferred data type, shown under each column header.
pub fn type_label(ty: DataType) -> (r: &'static str)
    ensures
        r@ == (match ty {
            DataType::Quantitative => "quantitative"@,
            DataType::Temporal => "temporal"@,
            DataType::Ordinal => "ordinal"@,
            DataType::Nominal => "nominal"@,
        }),
{
    match ty {
        DataType::Quantitative => "quantitative",
        DataType::Temporal => "temporal",
        DataType::Ordinal => "ordinal",
        DataType::Nominal => "nominal",
    }
}

} // verus!
