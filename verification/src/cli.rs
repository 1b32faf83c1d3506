//! The command line's logic: its arguments, the chart they ask for, and the messages it prints.
//!
//! The program around it reads the files, deserializes the spec, paints and writes.

use crate::arithmetic::Computed;
use crate::backend::ChartModel;
use crate::backend::RenderError;
use crate::backend::RenderOutput;
use crate::backend::ResolvedChart;
use crate::block;
use crate::data;
use crate::data::Table;
use crate::diag::DiagModel;
use crate::diag::Diagnostic;
use crate::diag::Severity;
use crate::dsl::ChartSpec;
use crate::dsl::SpecModel;
use crate::resolve;
use crate::text;
use crate::views;
use vstd::prelude::*;

verus! {

/// The width every chart is painted at.
pub const CANVAS_WIDTH: u32 = 800;

/// The height every chart is painted at.
pub const CANVAS_HEIGHT: u32 = 500;

/// Parsed command line: the input(s) plus an optional output path. A chart block
/// (config + `---` + inline CSV) is given as a single file; an external-data chart
/// is a spec file plus a separate CSV file.
#[derive(Debug, PartialEq, Eq)]
pub enum Args {
    /// One self-contained block file carrying both config and inline CSV.
    Block { block_path: String, out_path: Option<String> },
    /// A spec file and a separate CSV data file.
    Pair { spec_path: String, data_path: String, out_path: Option<String> },
}

/// What [`Args`] say.
#[verifier::ext_equal]
pub enum ArgsModel {
    Block { block_path: Seq<char>, out_path: Option<Seq<char>> },
    Pair { spec_path: Seq<char>, data_path: Seq<char>, out_path: Option<Seq<char>> },
}

impl View for Args {
    type V = ArgsModel;

    open spec fn view(&self) -> ArgsModel {
        match self {
            Args::Block { block_path, out_path } => ArgsModel::Block {
                block_path: block_path@,
                out_path: views::opt_view(*out_path),
            },
            Args::Pair { spec_path, data_path, out_path } => ArgsModel::Pair {
                spec_path: spec_path@,
                data_path: data_path@,
                out_path: views::opt_view(*out_path),
            },
        }
    }
}

/// The usage lines.
pub open spec fn usage_text() -> Seq<char> {
    "usage: hiker-charts <block.chart> [-o <out.svg>]\n   or: hiker-charts <spec.yaml> <data.csv> [-o <out.svg>]"@
}

/// The usage lines shown on argument errors and `--help`.
pub fn usage() -> (r: String)
    ensures
        r@ == usage_text(),
{
    "usage: hiker-charts <block.chart> [-o <out.svg>]\n   or: hiker-charts <spec.yaml> <data.csv> [-o <out.svg>]".to_owned()
}

/// Arguments sorted out: the paths, and the last output path that was given.
#[verifier::ext_equal]
pub struct Sorted {
    pub paths: Seq<Seq<char>>,
    pub out_path: Option<Seq<char>>,
}

/// The arguments from `i` on sorted out behind what came before, or the message of the first that
/// is wrong. A request for help is answered with the usage lines.
pub open spec fn sorted(argv: Seq<Seq<char>>, i: int, before: Sorted) -> Result<Sorted, Seq<char>>
    decreases argv.len() - i,
{
    if i < 0 || i >= argv.len() {
        Ok(before)
    } else if argv[i] == "-o"@ || argv[i] == "--output"@ {
        if i + 1 < argv.len() {
            sorted(argv, i + 2, Sorted { out_path: Some(argv[i + 1]), ..before })
        } else {
            Err("`-o` needs an output path"@)
        }
    } else if argv[i] == "-h"@ || argv[i] == "--help"@ {
        Err(usage_text())
    } else if argv[i].len() > 0 && argv[i][0] == '-' {
        Err("unknown flag `"@ + argv[i] + "`\n"@ + usage_text())
    } else {
        sorted(argv, i + 1, Sorted { paths: before.paths.push(argv[i]), ..before })
    }
}

/// What a command line asks for, or the message of what is wrong with it.
pub open spec fn parsed_args(argv: Seq<Seq<char>>) -> Result<ArgsModel, Seq<char>> {
    match sorted(argv, 0, Sorted { paths: seq![], out_path: None }) {
        Err(message) => Err(message),
        Ok(args) => if args.paths.len() == 1 {
            Ok(ArgsModel::Block { block_path: args.paths[0], out_path: args.out_path })
        } else if args.paths.len() == 2 {
            Ok(
                ArgsModel::Pair {
                    spec_path: args.paths[0],
                    data_path: args.paths[1],
                    out_path: args.out_path,
                },
            )
        } else {
            Err("expected a block file, or a spec and a data path\n"@ + usage_text())
        },
    }
}

/// The contents of parsed arguments, or of the message.
pub open spec fn args_view(r: Result<Args, String>) -> Result<ArgsModel, Seq<char>> {
    match r {
        Ok(args) => Ok(args@),
        Err(message) => Err(message@),
    }
}

/// Parse `<block.chart>` or `<spec.yaml> <data.csv>`, plus an optional `-o <out.svg>`,
/// from the argument list. One positional is a self-contained block with
/// inline CSV; two are a spec and a separate data file.
pub fn parse_args(argv: Vec<String>) -> (r: Result<Args, String>)
    ensures
        args_view(r) == parsed_args(views::views(argv@)),
{
    broadcast use crate::views::lemma_views_push;

    let ghost all = views::views(argv@);
    let ghost start = Sorted { paths: seq![], out_path: None };
    let mut paths: Vec<String> = Vec::new();
    let mut out_path: Option<String> = None;
    assert(views::views(paths@) =~= seq![]);
    let mut i: usize = 0;
    while i < argv.len()
        invariant
            i <= argv.len(),
            all == views::views(argv@),
            start == (Sorted { paths: seq![], out_path: None }),
            sorted(all, 0, start) == sorted(
                all,
                i as int,
                Sorted { paths: views::views(paths@), out_path: views::opt_view(out_path) },
            ),
        decreases argv.len() - i,
    {
        let arg = argv[i].as_str();
        assert(all[i as int] == arg@);
        let ghost now = Sorted {
            paths: views::views(paths@),
            out_path: views::opt_view(out_path),
        };
        if text::same_text(arg, "-o") || text::same_text(arg, "--output") {
            if i + 1 < argv.len() {
                assert(all[i + 1] == argv@[i + 1]@);
                out_path = Some(argv[i + 1].clone());
                assert(sorted(all, i as int, now) == sorted(
                    all,
                    i + 2,
                    Sorted { out_path: views::opt_view(out_path), ..now },
                ));
                i = i + 2;
            } else {
                return Err("`-o` needs an output path".to_owned());
            }
        } else if text::same_text(arg, "-h") || text::same_text(arg, "--help") {
            return Err(usage());
        } else if arg.unicode_len() > 0 && arg.get_char(0) == '-' {
            let mut message = text::framed("unknown flag `", arg, "`\n");
            message.append(usage().as_str());
            return Err(message);
        } else {
            paths.push(arg.to_owned());
            assert(views::views(paths@) == now.paths.push(arg@));
            assert(!(arg@.len() > 0 && arg@[0] == '-'));
            assert(sorted(all, i as int, now) == sorted(
                all,
                i + 1,
                Sorted { paths: views::views(paths@), ..now },
            ));
            i = i + 1;
        }
    }
    assert(views::views(paths@).len() == paths.len());
    if paths.len() == 1 {
        assert(views::views(paths@)[0] == paths@[0]@);
        Ok(Args::Block { block_path: paths[0].clone(), out_path })
    } else if paths.len() == 2 {
        assert(views::views(paths@)[0] == paths@[0]@);
        assert(views::views(paths@)[1] == paths@[1]@);
        Ok(Args::Pair { spec_path: paths[0].clone(), data_path: paths[1].clone(), out_path })
    } else {
        let mut message = "expected a block file, or a spec and a data path\n".to_owned();
        message.append(usage().as_str());
        Err(message)
    }
}

/// The lines of diagnostics, each with its severity.
pub open spec fn diagnostics_text(diags: Seq<DiagModel>) -> Seq<char>
    decreases diags.len(),
{
    if diags.len() == 0 {
        "could not resolve chart:"@
    } else {
        diagnostics_text(diags.drop_last()) + "\n  "@ + (match diags.last().severity {
            Severity::Error => "error"@,
            Severity::Warning => "warning"@,
        }) + ": "@ + diags.last().message
    }
}

/// Render resolve diagnostics into one readable, multi-line error message.
pub fn format_diagnostics(diags: &Vec<Diagnostic>) -> (r: String)
    ensures
        r@ == diagnostics_text(views::views(diags@)),
{
    let ghost all = views::views(diags@);
    let mut out = "could not resolve chart:".to_owned();
    assert(all.take(0).len() == 0);
    let mut i: usize = 0;
    while i < diags.len()
        invariant
            i <= diags.len(),
            all == views::views(diags@),
            out@ == diagnostics_text(all.take(i as int)),
        decreases diags.len() - i,
    {
        proof {
            views::lemma_take_push(all, i as int);
        }
        out.append("\n  ");
        out.append(
            match diags[i].severity {
                Severity::Error => "error",
                Severity::Warning => "warning",
            },
        );
        out.append(": ");
        out.append(diags[i].message.as_str());
        i = i + 1;
    }
    proof {
        views::lemma_take_all(all);
    }
    out
}

/// The spec and the table of an input, or the message of what is wrong with it.
pub open spec fn inputs_view(r: Result<(ChartSpec, Table), String>) -> Result<
    (SpecModel, Seq<data::ColumnModel>),
    Seq<char>,
> {
    match r {
        Ok(p) => Ok((p.0@, p.1@)),
        Err(message) => Err(message@),
    }
}

/// The chart of an input, or the message of what is wrong with it.
pub open spec fn chart_view(r: Result<ResolvedChart, String>) -> Result<ChartModel, Seq<char>> {
    match r {
        Ok(chart) => Ok(chart@),
        Err(message) => Err(message@),
    }
}

/// What a self-contained chart block (config + `---` + inline CSV) holds, given what its
/// config deserialized to. The block must carry its data inline; a block with no `---` section
/// has no data to plot from the command line (it would reference an external `data:` file a
/// host resolves).
pub fn block_inputs(body: &str, config: Result<ChartSpec, String>) -> (r: Result<
    (ChartSpec, Table),
    String,
>)
    ensures
        inputs_view(r) == (match block::parsed(body@, block::config_view(config)) {
            Err(diags) => Err(diagnostics_text(diags)),
            Ok(parsed) => match parsed.table {
                None => Err(
                    "block has no inline data (expected a `---` line followed by CSV)"@,
                ),
                Some(table) => Ok((parsed.spec, table)),
            },
        }),
{
    match block::parse_block(body, config) {
        Err(diags) => Err(format_diagnostics(&diags)),
        Ok(parsed) => match parsed.table {
            None => Err(
                "block has no inline data (expected a `---` line followed by CSV)".to_owned(),
            ),
            Some(table) => Ok((parsed.spec, table)),
        },
    }
}

/// What a spec and CSV bytes hold, given what the spec deserialized to, mapping every failure
/// to a readable message.
pub fn pair_inputs(config: Result<ChartSpec, String>, csv: &[u8]) -> (r: Result<
    (ChartSpec, Table),
    String,
>)
    ensures
        inputs_view(r) == (match block::config_view(config) {
            Err(message) => Err("parsing spec: "@ + message),
            Ok(spec) => match data::csv_table(csv@) {
                Err(message) => Err("parsing data: "@ + message),
                Ok(table) => Ok((spec, table)),
            },
        }),
{
    match config {
        Err(message) => {
            let mut out = "parsing spec: ".to_owned();
            out.append(message.as_str());
            Err(out)
        },
        Ok(spec) => match Table::from_csv(csv) {
            Err(error) => {
                let mut out = "parsing data: ".to_owned();
                out.append(error.message.as_str());
                Err(out)
            },
            Ok(table) => Ok((spec, table)),
        },
    }
}

/// The chart of a spec and a table, given what was computed from its terms, or the diagnostics
/// as a message.
pub fn input_chart(spec: &ChartSpec, table: &Table, computed: &Computed) -> (r: Result<
    ResolvedChart,
    String,
>)
    ensures
        chart_view(r) == (match resolve::resolved(spec@, table@, computed@) {
            Ok(chart) => Ok(chart),
            Err(diags) => Err(diagnostics_text(diags)),
        }),
{
    match resolve::resolve(spec, table, computed) {
        Ok(chart) => Ok(chart),
        Err(diags) => Err(format_diagnostics(&diags)),
    }
}

/// What was painted, or the message of why it was not.
pub fn painted_svg(painted: Result<RenderOutput, RenderError>) -> (r: Result<String, String>)
    ensures
        match (r, painted) {
            (Ok(svg), Ok(output)) => svg@ == output@,
            (Err(message), Err(error)) => message@ == "rendering chart: "@ + error.spec_message(),
            _ => false,
        },
{
    match painted {
        Ok(output) => Ok(output.svg),
        Err(error) => {
            let mut out = "rendering chart: ".to_owned();
            out.append(error.message().as_str());
            Err(out)
        },
    }
}

// --- Laws -------------------------------------------------------------------------

/// Whether arguments are all paths: none starts with a dash.
pub open spec fn are_paths(argv: Seq<Seq<char>>) -> bool {
    forall|i: int|
        0 <= i < argv.len() ==> !((#[trigger] argv[i]).len() > 0 && argv[i][0] == '-')
}

/// Whether an argument announces the output path.
pub open spec fn is_output_flag(arg: Seq<char>) -> bool {
    arg == "-o"@ || arg == "--output"@
}

/// The flags start with a dash and are all different.
proof fn lemma_flags()
    ensures
        "-o"@.len() > 0 && "-o"@[0] == '-',
        "--output"@.len() > 0 && "--output"@[0] == '-',
        "-h"@.len() > 0 && "-h"@[0] == '-',
        "--help"@.len() > 0 && "--help"@[0] == '-',
        "-h"@ != "-o"@ && "-h"@ != "--output"@,
        "--help"@ != "-o"@ && "--help"@ != "--output"@,
{
    reveal_strlit("-o");
    reveal_strlit("--output");
    reveal_strlit("-h");
    reveal_strlit("--help");
    assert("-h"@[1] != "-o"@[1]);
    assert("--help"@.len() != "--output"@.len());
}

/// Paths are taken in order.
proof fn lemma_paths_are_taken(a: Seq<Seq<char>>, rest: Seq<Seq<char>>, i: int, before: Sorted)
    requires
        are_paths(a),
        0 <= i <= a.len(),
    ensures
        sorted(a + rest, i, before) == sorted(
            a + rest,
            a.len() as int,
            Sorted { paths: before.paths + a.skip(i), ..before },
        ),
    decreases a.len() - i,
{
    let argv = a + rest;
    lemma_flags();
    if i < a.len() {
        assert(argv[i] == a[i]);
        let next = Sorted { paths: before.paths.push(a[i]), ..before };
        lemma_paths_are_taken(a, rest, i + 1, next);
        assert(next.paths + a.skip(i + 1) =~= before.paths + a.skip(i));
    } else {
        assert(before.paths + a.skip(i) =~= before.paths);
    }
}

/// Paths behind what was sorted out already.
proof fn lemma_paths_at_the_end(front: Seq<Seq<char>>, b: Seq<Seq<char>>, i: int, before: Sorted)
    requires
        are_paths(b),
        0 <= i <= b.len(),
    ensures
        sorted(front + b, front.len() + i, before) == Ok::<Sorted, Seq<char>>(
            Sorted { paths: before.paths + b.skip(i), ..before },
        ),
    decreases b.len() - i,
{
    let argv = front + b;
    lemma_flags();
    if i < b.len() {
        assert(argv[front.len() + i] == b[i]);
        let next = Sorted { paths: before.paths.push(b[i]), ..before };
        lemma_paths_at_the_end(front, b, i + 1, next);
        assert(next.paths + b.skip(i + 1) =~= before.paths + b.skip(i));
    } else {
        assert(before.paths + b.skip(i) =~= before.paths);
    }
}

/// What paths ask for, with an output path or without: one path is a block, two are a spec and its
/// data, in that order, and any other number is refused.
pub open spec fn asked_by_paths(paths: Seq<Seq<char>>, out_path: Option<Seq<char>>) -> Result<
    ArgsModel,
    Seq<char>,
> {
    if paths.len() == 1 {
        Ok(ArgsModel::Block { block_path: paths[0], out_path })
    } else if paths.len() == 2 {
        Ok(ArgsModel::Pair { spec_path: paths[0], data_path: paths[1], out_path })
    } else {
        Err("expected a block file, or a spec and a data path\n"@ + usage_text())
    }
}

/// Paths alone ask for a chart without an output path.
pub proof fn law_paths_alone(paths: Seq<Seq<char>>)
    requires
        are_paths(paths),
    ensures
        parsed_args(paths) == asked_by_paths(paths, None),
{
    let none = Seq::<Seq<char>>::empty();
    let start = Sorted { paths: seq![], out_path: None };
    assert(none + paths =~= paths);
    lemma_paths_at_the_end(none, paths, 0, start);
    assert(start.paths + paths.skip(0) =~= paths);
}

/// The output path may be announced anywhere among the paths, and changes nothing else of what they
/// ask for.
pub proof fn law_output_may_stand_anywhere(
    a: Seq<Seq<char>>,
    flag: Seq<char>,
    out: Seq<char>,
    b: Seq<Seq<char>>,
)
    requires
        are_paths(a),
        are_paths(b),
        is_output_flag(flag),
    ensures
        parsed_args(a + seq![flag, out] + b) == asked_by_paths(a + b, Some(out)),
{
    let argv = a + seq![flag, out] + b;
    let start = Sorted { paths: seq![], out_path: None };
    let rest = seq![flag, out] + b;
    assert(argv =~= a + rest);
    lemma_paths_are_taken(a, rest, 0, start);
    assert(start.paths + a.skip(0) =~= a);
    let n = a.len() as int;
    assert(argv[n] == flag && argv[n + 1] == out);
    let front = a + seq![flag, out];
    let now = Sorted { paths: a, out_path: Some(out) };
    assert(sorted(argv, n, Sorted { paths: a, out_path: None }) == sorted(argv, n + 2, now));
    lemma_paths_at_the_end(front, b, 0, now);
    assert(a + b.skip(0) =~= a + b);
}

/// Of two output paths the last one counts.
pub proof fn law_the_last_output_counts(
    paths: Seq<Seq<char>>,
    flag: Seq<char>,
    out: Seq<char>,
    again: Seq<char>,
    last: Seq<char>,
)
    requires
        are_paths(paths),
        is_output_flag(flag),
        is_output_flag(again),
    ensures
        parsed_args(seq![flag, out, again, last] + paths) == asked_by_paths(paths, Some(last)),
{
    let front = seq![flag, out, again, last];
    let argv = front + paths;
    let start = Sorted { paths: seq![], out_path: None };
    assert(argv[0] == flag && argv[1] == out && argv[2] == again && argv[3] == last);
    let once = Sorted { paths: seq![], out_path: Some(out) };
    let twice = Sorted { paths: seq![], out_path: Some(last) };
    assert(sorted(argv, 0, start) == sorted(argv, 2, once));
    assert(sorted(argv, 2, once) == sorted(argv, 4, twice));
    lemma_paths_at_the_end(front, paths, 0, twice);
    assert(twice.paths + paths.skip(0) =~= paths);
}

/// Behind any paths, a request for help is answered with the usage lines, an output flag at the end
/// misses its path, and any other flag is unknown.
pub proof fn law_flags_are_refused(a: Seq<Seq<char>>, flag: Seq<char>, b: Seq<Seq<char>>)
    requires
        are_paths(a),
        flag.len() > 0 && flag[0] == '-',
    ensures
        flag == "-h"@ || flag == "--help"@ ==> parsed_args(a + seq![flag] + b) == Err::<
            ArgsModel,
            Seq<char>,
        >(usage_text()),
        is_output_flag(flag) && b.len() == 0 ==> parsed_args(a + seq![flag] + b) == Err::<
            ArgsModel,
            Seq<char>,
        >("`-o` needs an output path"@),
        flag != "-h"@ && flag != "--help"@ && !is_output_flag(flag) ==> parsed_args(
            a + seq![flag] + b,
        ) == Err::<ArgsModel, Seq<char>>("unknown flag `"@ + flag + "`\n"@ + usage_text()),
{
    let argv = a + seq![flag] + b;
    let start = Sorted { paths: seq![], out_path: None };
    lemma_flags();
    assert(argv =~= a + (seq![flag] + b));
    lemma_paths_are_taken(a, seq![flag] + b, 0, start);
    assert(argv[a.len() as int] == flag);
}

/// Each diagnostic is one more line of the message, with its severity in front.
pub proof fn law_diagnostics_are_listed_line_by_line(diags: Seq<DiagModel>, more: DiagModel)
    ensures
        diagnostics_text(seq![]) == "could not resolve chart:"@,
        more.severity is Error ==> diagnostics_text(diags.push(more)) == diagnostics_text(diags)
            + "\n  "@ + "error"@ + ": "@ + more.message,
        more.severity is Warning ==> diagnostics_text(diags.push(more)) == diagnostics_text(diags)
            + "\n  "@ + "warning"@ + ": "@ + more.message,
{
    assert(diags.push(more).drop_last() =~= diags);
}

} // verus!
