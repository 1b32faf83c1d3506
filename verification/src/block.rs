//! Splitting a chart block into its YAML config and optional inline CSV body.
//!
//! A chart block may carry its data *inline*: the YAML config, then a line that is exactly
//! `---`, then a raw CSV body. This keeps a chart fully self-contained in one fenced block —
//! the common case when an author types or pastes a small table rather than referencing an
//! external `data:` file.
//!
//! The host splits the fence's inner text with [`split_block`], deserializes the config, and
//! gets from [`parse_block`] the `ChartSpec` plus, when present, the `Table` parsed from the
//! inline CSV. This is the read half of the round trip whose write half is
//! `BuilderState::save_block`, which emits this exact shape (config, a `---` line, then the
//! CSV body re-attached verbatim).

use crate::data;
use crate::data::ColumnModel;
use crate::data::Table;
use crate::diag;
use crate::diag::DiagModel;
use crate::diag::Diagnostic;
use crate::dsl::ChartSpec;
use crate::dsl::SpecModel;
use crate::text;
use crate::views;
use vstd::prelude::*;
use vstd::utf8;

verus! {

/// A chart block parsed into its spec and, when the block carried a `---` data
/// section, the table read from the inline CSV.
#[derive(Debug, PartialEq, Eq)]
pub struct ParsedBlock {
    /// The chart spec deserialized from the YAML above the separator.
    pub spec: ChartSpec,
    /// The table parsed from the inline CSV body, or `None` when the block has no
    /// `---` section (the host resolves `spec.data` through its own resolver instead).
    pub table: Option<Table>,
    /// The verbatim CSV body, retained so an edit-and-save can re-attach the bytes
    /// unchanged (the input to `BuilderState::from_block`); `None` with no `---` section.
    pub csv_body: Option<String>,
}

/// What a [`ParsedBlock`] holds.
#[verifier::ext_equal]
pub struct ParsedModel {
    pub spec: SpecModel,
    pub table: Option<Seq<ColumnModel>>,
    pub csv_body: Option<Seq<char>>,
}

impl View for ParsedBlock {
    type V = ParsedModel;

    open spec fn view(&self) -> ParsedModel {
        ParsedModel {
            spec: self.spec@,
            table: views::opt_view(self.table),
            csv_body: views::opt_view(self.csv_body),
        }
    }
}

/// The end of the line that starts at `from`: just after its newline, or the end of the text.
pub open spec fn line_end(s: Seq<char>, from: int) -> int {
    match text::find(s.skip(from), '\n') {
        Some(i) => from + i + 1,
        None => s.len() as int,
    }
}

/// Whether a line is the separator: `---`, with any white space around it.
pub open spec fn is_separator(line: Seq<char>) -> bool {
    text::trimmed(line) == seq!['-', '-', '-']
}

/// The bounds of the first separator line, of the lines from `from` on.
pub open spec fn separator(s: Seq<char>, from: int) -> Option<(int, int)>
    decreases s.len() - from,
{
    if from < 0 || from >= s.len() {
        None
    } else {
        let end = line_end(s, from);
        if is_separator(s.subrange(from, end)) {
            Some((from, end))
        } else if from < end <= s.len() {
            separator(s, end)
        } else {
            None
        }
    }
}

/// The text above the first separator line, and the text below it if there is such a line.
pub open spec fn halves(s: Seq<char>) -> (Seq<char>, Option<Seq<char>>) {
    match separator(s, 0) {
        Some(at) => (s.take(at.0), Some(s.skip(at.1))),
        None => (s, None),
    }
}

/// A line ends behind its start and within the text.
pub proof fn lemma_line_end(s: Seq<char>, from: int)
    requires
        0 <= from < s.len(),
    ensures
        from < line_end(s, from) <= s.len(),
{
    text::lemma_find(s.skip(from), '\n');
}

/// A separator line lies within the text.
pub proof fn lemma_separator(s: Seq<char>, from: int)
    requires
        0 <= from <= s.len(),
    ensures
        separator(s, from) matches Some(at) ==> from <= at.0 < at.1 <= s.len() && at.1 == line_end(
            s,
            at.0,
        ) && is_separator(s.subrange(at.0, at.1)),
    decreases s.len() - from,
{
    if from < s.len() {
        lemma_line_end(s, from);
        lemma_separator(s, line_end(s, from));
    }
}

/// Split a block body on the first line that is exactly `---` (ignoring surrounding
/// whitespace) into the YAML config above and the raw CSV body below. Returns
/// `(config, None)` when there is no separator line, so a block that references
/// external data is unaffected. The CSV slice begins immediately after the
/// separator line's newline, so it is the body byte-for-byte.
#[must_use]
pub fn split_block(body: &str) -> (r: (&str, Option<&str>))
    ensures
        r.0@ == halves(body@).0,
        match r.1 {
            Some(csv) => halves(body@).1 == Some(csv@),
            None => halves(body@).1 is None,
        },
{
    let chars = text::chars_of(body);
    let n = chars.len();
    let mut from: usize = 0;
    while from < n
        invariant
            chars@ == body@,
            n == chars.len(),
            from <= n,
            separator(body@, from as int) == separator(body@, 0),
        decreases n - from,
    {
        let newline = text::seek(&chars, '\n', from, n);
        assert(body@.skip(from as int) =~= chars@.subrange(from as int, n as int));
        let end = if newline < n {
            newline + 1
        } else {
            n
        };
        assert(end == line_end(body@, from as int));
        let line = text::string_of(&chars, from, end);
        if is_separator_line(line.as_str()) {
            let config = body.substring_char(0, from);
            let csv = body.substring_char(end, n);
            assert(config@ =~= body@.take(from as int));
            assert(csv@ =~= body@.skip(end as int));
            return (config, Some(csv));
        }
        from = end;
    }
    (body, None)
}

/// Whether a line is the separator.
fn is_separator_line(line: &str) -> (r: bool)
    ensures
        r == is_separator(line@),
{
    let chars = text::chars_of(line);
    let (from, to) = text::trim_bounds(&chars);
    let ghost left = chars@.subrange(from as int, to as int);
    assert(seq!['-', '-', '-'].len() == 3);
    if to - from != 3 {
        return false;
    }
    let r = chars[from] == '-' && chars[from + 1] == '-' && chars[from + 2] == '-';
    assert(left[0] == chars@[from as int] && left[1] == chars@[from + 1] && left[2] == chars@[from
        + 2]);
    assert(r ==> left =~= seq!['-', '-', '-']);
    r
}

/// What a block parses to, given what its config deserializes to.
pub open spec fn parsed(body: Seq<char>, config: Result<SpecModel, Seq<char>>) -> Result<
    ParsedModel,
    Seq<DiagModel>,
> {
    match config {
        Err(message) => Err(seq![diag::error("chart config: "@ + message)]),
        Ok(spec) => match halves(body).1 {
            None => Ok(ParsedModel { spec, table: None, csv_body: None }),
            Some(csv) => match data::csv_table(utf8::encode_utf8(csv)) {
                Err(message) => Err(seq![diag::error("inline csv: "@ + message)]),
                Ok(table) => Ok(
                    ParsedModel { spec, table: Some(table), csv_body: Some(csv) },
                ),
            },
        },
    }
}

/// The contents of a deserialized config.
pub open spec fn config_view(config: Result<ChartSpec, String>) -> Result<SpecModel, Seq<char>> {
    match config {
        Ok(spec) => Ok(spec@),
        Err(message) => Err(message@),
    }
}

/// The contents of what [`parse_block`] returns.
pub open spec fn parsed_view(r: Result<ParsedBlock, Vec<Diagnostic>>) -> Result<
    ParsedModel,
    Seq<DiagModel>,
> {
    match r {
        Ok(block) => Ok(block@),
        Err(diags) => Err(views::views(diags@)),
    }
}

/// A list of one error.
fn one_error(prefix: &str, message: &str) -> (r: Vec<Diagnostic>)
    ensures
        views::views(r@) == seq![diag::error(prefix@ + message@)],
{
    let mut full = prefix.to_owned();
    full.append(message);
    let r = vec![Diagnostic::error(full.as_str())];
    assert(views::views(r@) =~= seq![diag::error(prefix@ + message@)]);
    r
}

/// Parse a chart block body into its spec and inline table: the YAML above the first `---` line
/// was deserialized to `config`; the CSV below it becomes the [`Table`]. A block with no `---`
/// parses to a spec with `table: None` (its `data:` identifier is the host's to resolve).
/// Errors are returned as [`Diagnostic`]s — the same currency as
/// [`crate::resolve::resolve`] — so a host can surface a malformed config or unparseable CSV
/// the same way it surfaces resolve errors.
pub fn parse_block(body: &str, config: Result<ChartSpec, String>) -> (r: Result<
    ParsedBlock,
    Vec<Diagnostic>,
>)
    ensures
        parsed_view(r) == parsed(body@, config_view(config)),
{
    let spec = match config {
        Ok(spec) => spec,
        Err(message) => return Err(one_error("chart config: ", message.as_str())),
    };
    match split_block(body).1 {
        None => Ok(ParsedBlock { spec, table: None, csv_body: None }),
        Some(csv) => match Table::from_csv(csv.as_bytes()) {
            Ok(table) => Ok(
                ParsedBlock { spec, table: Some(table), csv_body: Some(csv.to_owned()) },
            ),
            Err(error) => Err(one_error("inline csv: ", error.message.as_str())),
        },
    }
}

// --- Laws -------------------------------------------------------------------------

/// A block with config `config` and inline data `csv`.
pub open spec fn assembled(config: Seq<char>, csv: Seq<char>) -> Seq<char> {
    config + seq!['-', '-', '-', '\n'] + csv
}

/// Whether a text is made of whole lines.
pub open spec fn whole_lines(s: Seq<char>) -> bool {
    s.len() == 0 || s.last() == '\n'
}

/// Putting a block's halves together with the separator line between them gives the block back:
/// splitting loses nothing, and the data below the separator is kept verbatim.
pub proof fn law_splitting_loses_nothing(s: Seq<char>)
    ensures
        match halves(s).1 {
            Some(csv) => exists|line: Seq<char>|
                #[trigger] is_separator(line) && halves(s).0 + line + csv == s,
            None => halves(s).0 == s,
        },
{
    lemma_separator(s, 0);
    match separator(s, 0) {
        Some(at) => {
            let line = s.subrange(at.0, at.1);
            assert(is_separator(line));
            assert(s.take(at.0) + line + s.skip(at.1) =~= s);
        },
        None => {},
    }
}

/// Lines of a text are lines of a longer one.
proof fn lemma_line_in_longer(s: Seq<char>, more: Seq<char>, from: int)
    requires
        0 <= from < s.len(),
        s.last() == '\n',
    ensures
        line_end(s + more, from) == line_end(s, from),
        (s + more).subrange(from, line_end(s, from)) == s.subrange(from, line_end(s, from)),
{
    let whole = s + more;
    let tail = s.skip(from);
    let whole_tail = whole.skip(from);
    text::lemma_find(tail, '\n');
    text::lemma_find(whole_tail, '\n');
    assert(tail[tail.len() - 1] == '\n');
    assert(forall|k: int| 0 <= k < tail.len() ==> #[trigger] tail[k] == whole_tail[k]);
    match (text::find(tail, '\n'), text::find(whole_tail, '\n')) {
        (Some(i), Some(k)) => {
            if i < k {
                assert(whole_tail[i] == tail[i]);
            }
            if k < i {
                assert(whole_tail[k] == tail[k]);
            }
        },
        (Some(i), None) => {
            assert(whole_tail[i] == tail[i]);
        },
        _ => {},
    }
    assert(whole.subrange(from, line_end(s, from)) =~= s.subrange(from, line_end(s, from)));
}

/// Without a separator line in front, the search goes on behind whole lines.
proof fn lemma_search_passes(s: Seq<char>, more: Seq<char>, from: int)
    requires
        0 <= from <= s.len(),
        whole_lines(s),
        separator(s, from) is None,
    ensures
        separator(s + more, from) == separator(s + more, s.len() as int),
    decreases s.len() - from,
{
    if from < s.len() {
        lemma_line_end(s, from);
        lemma_line_in_longer(s, more, from);
        lemma_search_passes(s, more, line_end(s, from));
    }
}

/// The separator line of an assembled block is found.
proof fn lemma_separator_found(config: Seq<char>, csv: Seq<char>)
    ensures
        separator(assembled(config, csv), config.len() as int) == Some(
            (config.len() as int, config.len() as int + 4),
        ),
{
    let whole = assembled(config, csv);
    let n = config.len() as int;
    let tail = whole.skip(n);
    text::lemma_find(tail, '\n');
    assert(tail[0] == '-' && tail[1] == '-' && tail[2] == '-' && tail[3] == '\n');
    assert(line_end(whole, n) == n + 4);
    let line = whole.subrange(n, n + 4);
    assert(line =~= seq!['-', '-', '-', '\n']);
    assert(line.drop_last() =~= seq!['-', '-', '-']);
    assert(text::trim_front(line) == line);
    assert(text::trim_back(line.drop_last()) == line.drop_last());
    assert(text::is_space('\n'));
    assert(is_separator(line));
}

/// Splitting a block that was put together gives back its config and its data, verbatim, for
/// every config of whole lines that holds no separator line of its own.
pub proof fn law_splitting_inverts_assembling(config: Seq<char>, csv: Seq<char>)
    requires
        whole_lines(config),
        separator(config, 0) is None,
    ensures
        halves(assembled(config, csv)) == (config, Some(csv)),
{
    let more = seq!['-', '-', '-', '\n'] + csv;
    assert(assembled(config, csv) =~= config + more);
    lemma_search_passes(config, more, 0);
    lemma_separator_found(config, csv);
    assert(assembled(config, csv).take(config.len() as int) =~= config);
    assert(assembled(config, csv).skip(config.len() as int + 4) =~= csv);
}

/// Only the first separator line splits: there is none in the config above it.
pub proof fn law_config_has_no_separator(s: Seq<char>)
    ensures
        separator(halves(s).0, 0) is None,
        halves(s).1 is Some ==> whole_lines(halves(s).0),
{
    lemma_separator(s, 0);
    match separator(s, 0) {
        Some(at) => {
            lemma_no_earlier_separator(s, 0, at);
        },
        None => {},
    }
}

proof fn lemma_no_earlier_separator(s: Seq<char>, from: int, at: (int, int))
    requires
        0 <= from <= at.0 <= s.len(),
        separator(s, from) == Some(at),
        from > 0 ==> s[from - 1] == '\n',
    ensures
        separator(s.take(at.0), from) is None,
        at.0 > 0 ==> s[at.0 - 1] == '\n',
        whole_lines(s.take(at.0)),
    decreases at.0 - from,
{
    let front = s.take(at.0);
    if from < at.0 {
        lemma_line_end(s, from);
        let end = line_end(s, from);
        lemma_separator(s, end);
        text::lemma_find(s.skip(from), '\n');
        assert(separator(s, end) == Some(at));
        assert(end <= at.0);
        assert(s.skip(from)[end - 1 - from] == s[end - 1]);
        assert(s[end - 1] == '\n') by {
            if text::find(s.skip(from), '\n') is None {
                assert(end == s.len());
            }
        }
        lemma_no_earlier_separator(s, end, at);
        let rest = s.skip(at.0);
        assert(front + rest =~= s);
        lemma_line_in_longer(front, rest, from);
    }
}

/// A block whose config and data read holds the spec of its config and the table of the CSV below
/// its separator line, with that CSV kept verbatim; a block without a separator line has neither.
pub proof fn law_parsed_blocks_hold_both_halves(
    config: Seq<char>,
    csv: Seq<char>,
    spec: SpecModel,
    table: Seq<ColumnModel>,
)
    requires
        whole_lines(config),
        separator(config, 0) is None,
    ensures
        data::csv_table(utf8::encode_utf8(csv)) == Ok::<Seq<ColumnModel>, Seq<char>>(table)
            ==> parsed(assembled(config, csv), Ok(spec)) == Ok::<ParsedModel, Seq<DiagModel>>(
            ParsedModel { spec, table: Some(table), csv_body: Some(csv) },
        ),
        data::csv_table(utf8::encode_utf8(csv)) is Err ==> parsed(
            assembled(config, csv),
            Ok(spec),
        ) is Err,
        parsed(config, Ok(spec)) == Ok::<ParsedModel, Seq<DiagModel>>(
            ParsedModel { spec, table: None, csv_body: None },
        ),
{
    law_splitting_inverts_assembling(config, csv);
}

/// A separator line is three dashes between white space: the first of them splits the block, and
/// the data starts right behind its newline.
pub proof fn law_separator_lines_are_three_dashes(line: Seq<char>, front: Seq<char>, back: Seq<char>)
    requires
        forall|i: int| 0 <= i < front.len() ==> text::is_space(#[trigger] front[i]),
        forall|i: int| 0 <= i < back.len() ==> text::is_space(#[trigger] back[i]),
        line == front + seq!['-', '-', '-'] + back,
    ensures
        is_separator(line),
{
    let (a, b) = text::law_trimming_takes_white_space_off_the_ends(line);
    let t = text::trimmed(line);
    assert(line == a + t + b);
    let n = front.len() as int;
    assert(line[n] == '-' && line[n + 1] == '-' && line[n + 2] == '-');
    assert(!text::is_space('-'));
    assert(a.len() <= n) by {
        if a.len() > n {
            assert(a[n] == line[n]);
        }
    }
    assert(a.len() + t.len() >= n + 3) by {
        if a.len() + t.len() <= n + 2 {
            let k = n + 2 - (a.len() + t.len());
            assert(b[k] == line[n + 2]);
        }
    }
    assert(a.len() >= n) by {
        if a.len() < n {
            assert(t[0] == line[a.len() as int]);
            assert(line[a.len() as int] == front[a.len() as int]);
        }
    }
    assert(a.len() + t.len() <= n + 3) by {
        if a.len() + t.len() > n + 3 {
            let last = a.len() + t.len() - 1;
            assert(t[t.len() - 1] == line[last]);
            assert(line[last] == back[last - n - 3]);
        }
    }
    assert(t =~= seq!['-', '-', '-']) by {
        assert(t[0] == line[n] && t[1] == line[n + 1] && t[2] == line[n + 2]);
    }
}

} // verus!
