//! The raw tabular data a host's resolver yields: a header plus string cells.
//!
//! Typing happens later in `typing`; this layer stores columns of unparsed text exactly as
//! read. The crate never reads files itself: `from_csv` parses bytes a host already loaded,
//! e.g. an inline chart-block body.

use crate::text;
use crate::views;
use vstd::prelude::*;
use vstd::utf8;

verus! {

/// A single named column: its header name and one raw cell per row.
#[derive(Debug, PartialEq, Eq)]
pub struct Column {
    pub name: String,
    pub cells: Vec<String>,
}

/// A table is an ordered list of named columns of raw string cells.
#[derive(Debug, PartialEq, Eq)]
pub struct Table {
    pub columns: Vec<Column>,
}

/// Why bytes are not CSV: the reader's message.
#[derive(Debug, PartialEq, Eq)]
pub struct CsvError {
    pub message: String,
}

/// What a [`Column`] holds.
#[verifier::ext_equal]
pub struct ColumnModel {
    pub name: Seq<char>,
    pub cells: Seq<Seq<char>>,
}

impl View for Column {
    type V = ColumnModel;

    open spec fn view(&self) -> ColumnModel {
        ColumnModel { name: self.name@, cells: views::views(self.cells@) }
    }
}

impl View for Table {
    type V = Seq<ColumnModel>;

    open spec fn view(&self) -> Seq<ColumnModel> {
        views::views(self.columns@)
    }
}

impl View for CsvError {
    type V = Seq<char>;

    open spec fn view(&self) -> Seq<char> {
        self.message@
    }
}

impl Clone for Column {
    fn clone(&self) -> (r: Self)
        ensures
            r@ == self@,
    {
        Column { name: self.name.clone(), cells: text::copy_strings(&self.cells) }
    }
}

impl Clone for Table {
    fn clone(&self) -> (r: Self)
        ensures
            r@ == self@,
    {
        let mut columns: Vec<Column> = Vec::new();
        let mut i: usize = 0;
        while i < self.columns.len()
            invariant
                i <= self.columns.len(),
                columns.len() == i,
                forall|k: int| 0 <= k < i ==> (#[trigger] columns@[k])@ == self.columns@[k]@,
            decreases self.columns.len() - i,
        {
            columns.push(self.columns[i].clone());
            i = i + 1;
        }
        let r = Table { columns };
        assert(r@ =~= self@);
        r
    }
}

impl Default for Table {
    /// A table without columns.
    fn default() -> (r: Self)
        ensures
            r@ == Seq::<ColumnModel>::empty(),
    {
        let r = Table { columns: Vec::new() };
        assert(r@ =~= Seq::<ColumnModel>::empty());
        r
    }
}

/// The column names of a table, in order.
pub open spec fn names(table: Seq<ColumnModel>) -> Seq<Seq<char>> {
    table.map_values(|c: ColumnModel| c.name)
}

/// The first column of the given name, if there is one.
pub open spec fn find_column(table: Seq<ColumnModel>, name: Seq<char>) -> Option<ColumnModel> {
    match text::index_of(names(table), name) {
        Some(i) => Some(table[i]),
        None => None,
    }
}

/// The length of the longest column.
pub open spec fn rows(table: Seq<ColumnModel>) -> nat
    decreases table.len(),
{
    if table.len() == 0 {
        0
    } else {
        let front = rows(table.drop_last());
        if front >= table.last().cells.len() {
            front
        } else {
            table.last().cells.len()
        }
    }
}

/// The text at an index of a list, or the empty text past its end.
pub open spec fn cell_at(cells: Seq<Seq<char>>, i: int) -> Seq<char> {
    if 0 <= i < cells.len() {
        cells[i]
    } else {
        seq![]
    }
}

/// Row `i` of a table: one cell per column, empty where a column is too short.
pub open spec fn row(table: Seq<ColumnModel>, i: int) -> Seq<Seq<char>> {
    Seq::new(table.len(), |j: int| cell_at(table[j].cells, i))
}

/// All the rows of a table.
pub open spec fn all_rows(table: Seq<ColumnModel>) -> Seq<Seq<Seq<char>>> {
    Seq::new(rows(table), |i: int| row(table, i))
}

/// The table with a given header and rows. A row contributes one cell per column: an empty one
/// where it is too short. What a row holds past the last column is left out.
pub open spec fn tabulated(header: Seq<Seq<char>>, records: Seq<Seq<Seq<char>>>) -> Seq<
    ColumnModel,
> {
    Seq::new(
        header.len(),
        |j: int|
            ColumnModel {
                name: header[j],
                cells: Seq::new(records.len(), |i: int| cell_at(records[i], j)),
            },
    )
}

/// The table with its short columns filled up with empty cells.
pub open spec fn squared(table: Seq<ColumnModel>) -> Seq<ColumnModel> {
    tabulated(names(table), all_rows(table))
}

/// Whether every column of a table is as long as the longest.
pub open spec fn is_square(table: Seq<ColumnModel>) -> bool {
    forall|j: int| 0 <= j < table.len() ==> (#[trigger] table[j]).cells.len() == rows(table)
}

/// A table whose columns are all of one length is filled up already.
pub proof fn law_square_table_is_squared(table: Seq<ColumnModel>)
    requires
        is_square(table),
    ensures
        squared(table) == table,
{
    let filled = squared(table);
    assert forall|j: int| 0 <= j < table.len() implies filled[j] == table[j] by {
        assert(filled[j].cells =~= table[j].cells) by {
            assert forall|i: int| 0 <= i < table[j].cells.len() implies filled[j].cells[i]
                == table[j].cells[i] by {
                assert(all_rows(table)[i][j] == cell_at(table[j].cells, i));
            }
        }
        assert(filled[j].name == table[j].name);
    }
    assert(filled =~= table);
}

/// A column is found by its exact name: the first of that name, and none only where no column has
/// the name.
pub proof fn law_columns_are_found_by_name(table: Seq<ColumnModel>, name: Seq<char>) -> (at: int)
    ensures
        match find_column(table, name) {
            Some(column) => {
                &&& 0 <= at < table.len()
                &&& table[at] == column
                &&& column.name == name
                &&& forall|j: int| 0 <= j < at ==> (#[trigger] table[j]).name != name
            },
            None => forall|j: int| 0 <= j < table.len() ==> (#[trigger] table[j]).name != name,
        },
{
    text::lemma_index_of(names(table), name);
    assert(forall|j: int| 0 <= j < table.len() ==> names(table)[j] == (#[trigger] table[j]).name);
    match text::index_of(names(table), name) {
        Some(i) => i,
        None => 0,
    }
}

/// A table has as many rows as its longest column: no column has more, and one has as many.
pub proof fn law_rows_are_those_of_the_longest_column(table: Seq<ColumnModel>)
    ensures
        forall|j: int| 0 <= j < table.len() ==> (#[trigger] table[j]).cells.len() <= rows(table),
        table.len() == 0 ==> rows(table) == 0,
        table.len() > 0 ==> exists|j: int|
            0 <= j < table.len() && (#[trigger] table[j]).cells.len() == rows(table),
    decreases table.len(),
{
    if table.len() > 0 {
        let front = table.drop_last();
        law_rows_are_those_of_the_longest_column(front);
        let last = table.len() - 1;
        assert(table[last] == table.last());
        assert forall|j: int| 0 <= j < table.len() implies (#[trigger] table[j]).cells.len()
            <= rows(table) by {
            if j < last {
                assert(front[j] == table[j]);
            }
        }
        if rows(front) >= table.last().cells.len() && front.len() > 0 {
            let j = choose|j: int|
                0 <= j < front.len() && (#[trigger] front[j]).cells.len() == rows(front);
            assert(table[j] == front[j]);
        } else {
            assert(table[last].cells.len() == rows(table));
        }
    }
}

/// A table made of a header and records has a column for each name in the header, in order, with
/// one cell for each record: the record's field at the column's place, or nothing where the record
/// is too short.
pub proof fn law_records_fill_the_columns(
    header: Seq<Seq<char>>,
    records: Seq<Seq<Seq<char>>>,
    i: int,
    j: int,
)
    requires
        0 <= i < records.len(),
        0 <= j < header.len(),
    ensures
        tabulated(header, records).len() == header.len(),
        tabulated(header, records)[j].name == header[j],
        tabulated(header, records)[j].cells.len() == records.len(),
        j < records[i].len() ==> tabulated(header, records)[j].cells[i] == records[i][j],
        j >= records[i].len() ==> tabulated(header, records)[j].cells[i].len() == 0,
{
}

/// The rows of a table, written behind its header and read again, are the table, with the short
/// columns filled up: each column keeps its name and its cells.
pub proof fn law_rows_hold_every_cell(table: Seq<ColumnModel>, i: int, j: int)
    requires
        0 <= j < table.len(),
        0 <= i < table[j].cells.len(),
    ensures
        i < all_rows(table).len(),
        all_rows(table)[i].len() == table.len(),
        all_rows(table)[i][j] == table[j].cells[i],
        squared(table)[j].name == table[j].name,
        squared(table)[j].cells[i] == table[j].cells[i],
{
    law_rows_are_those_of_the_longest_column(table);
    assert(table[j].cells.len() <= rows(table));
}

// --- Reading and writing CSV ------------------------------------------------------

/// What the `csv` crate's reader makes of bytes, taking the first record as the header and
/// accepting records of any length: the header and the records after it, or the message of
/// the first error.
pub uninterp spec fn csv_read(bytes: Seq<u8>) -> Result<
    (Seq<Seq<char>>, Seq<Seq<Seq<char>>>),
    Seq<char>,
>;

/// What the `csv` crate's writer makes of records.
pub uninterp spec fn csv_written(records: Seq<Seq<Seq<char>>>) -> Seq<char>;

/// The texts of a list of lists.
pub open spec fn record_views(records: Seq<Vec<String>>) -> Seq<Seq<Seq<char>>> {
    records.map_values(|r: Vec<String>| views::views(r@))
}

/// The contents of what the CSV reader returned.
pub open spec fn read_view(read: Result<(Vec<String>, Vec<Vec<String>>), String>) -> Result<
    (Seq<Seq<char>>, Seq<Seq<Seq<char>>>),
    Seq<char>,
> {
    match read {
        Ok(parts) => Ok((views::views(parts.0@), record_views(parts.1@))),
        Err(message) => Err(message@),
    }
}

/// Whether records are written so that they read back: there is a first one, all are as long as
/// it, it has a field, and its first field does not start with the byte order mark, which the
/// reader skips at the start of its input.
pub open spec fn reads_back(records: Seq<Seq<Seq<char>>>) -> bool {
    &&& records.len() > 0
    &&& records[0].len() > 0
    &&& forall|i: int| 0 <= i < records.len() ==> (#[trigger] records[i]).len() == records[0].len()
    &&& records[0][0].len() > 0 ==> records[0][0][0] != '\u{feff}'
}

/// Whether reading gave the records, the first of them as the header.
pub open spec fn gives_back(
    read: Result<(Seq<Seq<char>>, Seq<Seq<Seq<char>>>), Seq<char>>,
    records: Seq<Seq<Seq<char>>>,
) -> bool {
    match read {
        Ok(parts) => parts.0 == records[0] && parts.1 == records.skip(1),
        Err(_) => false,
    }
}

/// Reads bytes with `csv::Reader`, made by a `csv::ReaderBuilder` with headers on and flexible
/// record lengths: `headers` and then `records`. The result depends on the bytes alone.
#[verifier::external_body]
fn read_csv(bytes: &[u8]) -> (r: Result<(Vec<String>, Vec<Vec<String>>), String>)
    ensures
        read_view(r) == csv_read(bytes@),
{
    let mut reader = csv::ReaderBuilder::new().has_headers(true).flexible(true).from_reader(bytes);
    let header = reader.headers().map_err(|e| e.to_string())?;
    let header = header.iter().map(str::to_string).collect();
    let records: Result<Vec<csv::StringRecord>, csv::Error> = reader.records().collect();
    let records = records.map_err(|e| e.to_string())?;
    Ok((header, records.iter().map(|r| r.iter().map(str::to_string).collect()).collect()))
}

/// Writes records with `csv::Writer::write_record` into memory, which cannot fail when they are
/// of one length. Every record ends with a newline, and every field is quoted where it has to
/// be, so reading the text gives the records back, under the conditions of `reads_back`.
#[verifier::external_body]
fn write_csv(records: &Vec<Vec<String>>) -> (r: String)
    requires
        forall|i: int, j: int|
            0 <= i < records.len() && 0 <= j < records.len() ==> (#[trigger] records@[i]).len() == (
            #[trigger] records@[j]).len(),
    ensures
        r@ == csv_written(record_views(records@)),
        records.len() > 0 ==> r@.len() > 0 && r@.last() == '\n',
        reads_back(record_views(records@)) ==> gives_back(
            csv_read(utf8::encode_utf8(r@)),
            record_views(records@),
        ),
{
    let mut writer = csv::Writer::from_writer(Vec::new());
    for record in records {
        writer.write_record(record).unwrap_or_default();
    }
    String::from_utf8(writer.into_inner().unwrap_or_default()).unwrap_or_default()
}

/// The table a CSV text holds, or the message of the error in it.
pub open spec fn csv_table(bytes: Seq<u8>) -> Result<Seq<ColumnModel>, Seq<char>> {
    match csv_read(bytes) {
        Ok(parts) => Ok(tabulated(parts.0, parts.1)),
        Err(message) => Err(message),
    }
}

/// The contents of a table, or the message of an error.
pub open spec fn table_view(r: Result<Table, CsvError>) -> Result<Seq<ColumnModel>, Seq<char>> {
    match r {
        Ok(table) => Ok(table@),
        Err(error) => Err(error@),
    }
}

/// A copy of the string at an index, or the empty string past the end.
pub fn get_or_empty(cells: &Vec<String>, i: usize) -> (r: String)
    ensures
        r@ == cell_at(views::views(cells@), i as int),
{
    if i < cells.len() {
        cells[i].clone()
    } else {
        let r = String::new();
        assert(r@ =~= seq![]);
        r
    }
}

/// The text at an index, or the empty text past the end.
pub fn str_or_empty(cells: &Vec<String>, i: usize) -> (r: &str)
    ensures
        r@ == cell_at(views::views(cells@), i as int),
{
    if i < cells.len() {
        cells[i].as_str()
    } else {
        proof {
            reveal_strlit("");
            assert(""@ =~= seq![]);
        }
        ""
    }
}

impl Table {
    /// Parse a CSV byte slice into a `Table`. The first record is the header;
    /// each subsequent record contributes one cell per column. Missing trailing
    /// fields in a short row are stored as empty strings.
    pub fn from_csv(bytes: &[u8]) -> (r: Result<Table, CsvError>)
        ensures
            table_view(r) == csv_table(bytes@),
    {
        match read_csv(bytes) {
            Ok((header, records)) => Ok(Table::from_records(header, records)),
            Err(message) => Err(CsvError { message }),
        }
    }

    /// Build a table from a header and its records. Missing trailing fields in a short record
    /// are stored as empty strings; fields past the last column are left out.
    pub fn from_records(header: Vec<String>, records: Vec<Vec<String>>) -> (r: Table)
        ensures
            r@ == tabulated(views::views(header@), record_views(records@)),
    {
        let mut columns: Vec<Column> = Vec::new();
        let mut j: usize = 0;
        while j < header.len()
            invariant
                j <= header.len(),
                columns.len() == j,
                forall|k: int|
                    0 <= k < j ==> (#[trigger] columns@[k])@ == tabulated(
                        views::views(header@),
                        record_views(records@),
                    )[k],
            decreases header.len() - j,
        {
            let mut cells: Vec<String> = Vec::new();
            let mut i: usize = 0;
            while i < records.len()
                invariant
                    i <= records.len(),
                    cells.len() == i,
                    forall|k: int|
                        0 <= k < i ==> (#[trigger] cells@[k])@ == cell_at(
                            record_views(records@)[k],
                            j as int,
                        ),
                decreases records.len() - i,
            {
                cells.push(get_or_empty(&records[i], j));
                i = i + 1;
            }
            let column = Column { name: header[j].clone(), cells };
            assert(column@ =~= tabulated(views::views(header@), record_views(records@))[j as int]);
            columns.push(column);
            j = j + 1;
        }
        let r = Table { columns };
        assert(r@ =~= tabulated(views::views(header@), record_views(records@)));
        r
    }

    /// Write the table as CSV: a header record and one record per row, a missing cell as an
    /// empty field. Reading the text back gives the table with its short columns filled up.
    pub fn to_csv(&self) -> (r: String)
        ensures
            r@ == csv_written(seq![names(self@)] + all_rows(self@)),
            r@.len() > 0 && r@.last() == '\n',
            reads_back(seq![names(self@)] + all_rows(self@)) ==> csv_table(utf8::encode_utf8(r@))
                == Ok::<Seq<ColumnModel>, Seq<char>>(squared(self@)),
    {
        let ghost expected = seq![names(self@)] + all_rows(self@);
        let n = self.row_count();
        let mut header: Vec<String> = Vec::new();
        let mut j: usize = 0;
        while j < self.columns.len()
            invariant
                j <= self.columns.len(),
                header.len() == j,
                forall|k: int| 0 <= k < j ==> (#[trigger] header@[k])@ == self@[k].name,
            decreases self.columns.len() - j,
        {
            header.push(self.columns[j].name.clone());
            j = j + 1;
        }
        assert(views::views(header@) =~= names(self@));
        let mut records: Vec<Vec<String>> = Vec::new();
        records.push(header);
        let mut i: usize = 0;
        while i < n
            invariant
                i <= n,
                n == rows(self@),
                expected == seq![names(self@)] + all_rows(self@),
                records.len() == i + 1,
                forall|k: int|
                    0 <= k < records.len() ==> (#[trigger] records@[k]).len() == self@.len(),
                forall|k: int|
                    0 <= k < records.len() ==> views::views((#[trigger] records@[k])@)
                        == expected[k],
            decreases n - i,
        {
            let mut cells: Vec<String> = Vec::new();
            let mut j: usize = 0;
            while j < self.columns.len()
                invariant
                    j <= self.columns.len(),
                    cells.len() == j,
                    forall|k: int| 0 <= k < j ==> (#[trigger] cells@[k])@ == row(self@, i as int)[k],
                decreases self.columns.len() - j,
            {
                cells.push(get_or_empty(&self.columns[j].cells, i));
                j = j + 1;
            }
            assert(views::views(cells@) =~= row(self@, i as int));
            assert(expected[i + 1] == row(self@, i as int));
            records.push(cells);
            i = i + 1;
        }
        assert(record_views(records@) =~= expected);
        assert(expected.skip(1) =~= all_rows(self@));
        write_csv(&records)
    }

    /// Look up a column by exact name, if present: the first of that name.
    pub fn column(&self, name: &str) -> (r: Option<&Column>)
        ensures
            match r {
                Some(c) => find_column(self@, name@) == Some(c@),
                None => find_column(self@, name@) is None,
            },
    {
        let ghost all = names(self@);
        let mut i: usize = 0;
        while i < self.columns.len()
            invariant
                i <= self.columns.len(),
                all == names(self@),
                forall|j: int| 0 <= j < i ==> all[j] != name@,
            decreases self.columns.len() - i,
        {
            assert(all[i as int] == self.columns@[i as int].name@);
            if text::same_text(self.columns[i].name.as_str(), name) {
                proof {
                    text::lemma_index_of_first(all, name@, i as int);
                }
                return Some(&self.columns[i]);
            }
            i = i + 1;
        }
        proof {
            text::lemma_index_of(all, name@);
        }
        None
    }

    /// The number of data rows (the length of the longest column).
    pub fn row_count(&self) -> (r: usize)
        ensures
            r == rows(self@),
    {
        let mut longest: usize = 0;
        let mut i: usize = 0;
        while i < self.columns.len()
            invariant
                i <= self.columns.len(),
                longest == rows(self@.take(i as int)),
            decreases self.columns.len() - i,
        {
            proof {
                views::lemma_take_push(self@, i as int);
            }
            let n = self.columns[i].cells.len();
            if n > longest {
                longest = n;
            }
            i = i + 1;
        }
        proof {
            views::lemma_take_all(self@);
        }
        longest
    }
}

/// A table is described by what it holds: each column by its own name, and each cell as it stands
/// in its column.
pub proof fn law_tables_are_described_by_what_they_hold(table: Table, i: int, j: int)
    ensures
        table@.len() == table.columns.len(),
        0 <= j < table.columns.len() ==> {
            let c = table.columns@[j];
            &&& table@[j].name == c.name@
            &&& table@[j].cells.len() == c.cells.len()
            &&& 0 <= i < c.cells.len() ==> table@[j].cells[i] == c.cells@[i]@
        },
{
}

} // verus!
