# hiker-charts

A charting component for native Rust UIs. A chart is a compact text: a mark, channels that bind
data columns, and presentation options. Together with a CSV table it resolves to a
renderer-neutral chart that a backend paints.

The library under `src/` is verified with Verus: the spec model, typing and dates, the resolver,
the chart block format, the content hash, the builder's state and edits, and the decisions a
backend makes before it draws. Contracts are stated over mathematical views of the data; what
holds across functions stands in public proof functions whose names start with `law_`.

Numbers are carried as they were written. Arithmetic on them (axis transforms, sums, buckets,
positions) belongs to the program: the library hands out the numbers a chart needs arithmetic on
(`terms`), takes the results (`Computed`), and decides what follows (`resolve`).

| Module | What it holds |
| --- | --- |
| `dsl`, `registry`, `theme`, `host`, `diag` | the spec and its surroundings |
| `numeral`, `calendar`, `typing`, `display`, `text` | cells as numbers, dates and labels |
| `data`, `data_view` | tables and CSV |
| `resolve`, `arithmetic`, `backend`, `laws` | from a spec and a table to a chart |
| `block`, `deps`, `coding`, `identity` | chart blocks, dependencies, the content hash |
| `model`, `panel`, `preview` | the builder |
| `draw`, `cli` | choices made while drawing and on the command line |

`app/` is the program around it: YAML with serde, painting with plotters, the egui builder, and
the command line.

    hiker-charts <block.chart> [-o <out.svg>]
    hiker-charts <spec.yaml> <data.csv> [-o <out.svg>]
    hiker-charts --demo [<examples-dir>]
