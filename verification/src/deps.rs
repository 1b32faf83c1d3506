//! Data-dependency extraction so a host can watch the sources a spec needs.
//!
//! The component never watches or polls anything itself; it only reports the set of opaque
//! data identifiers a spec references, so the host can watch those and request a re-render on
//! change. A spec names at most one source (`spec.data`); inline-bodied blocks reference none.

use crate::dsl::ChartSpec;
use crate::dsl::SpecModel;
use crate::views;
use vstd::prelude::*;

verus! {

/// The identifiers a spec names: its data's, unless that is absent or empty.
pub open spec fn dependencies(spec: SpecModel) -> Seq<Seq<char>> {
    match spec.data {
        Some(id) => if id.len() > 0 {
            seq![id]
        } else {
            seq![]
        },
        None => seq![],
    }
}

/// The data identifiers a spec depends on: `spec.data` lifted into a `Vec` (empty when the data
/// is supplied inline). Identifiers are opaque — never interpreted, resolved, or rewritten
/// here.
pub fn data_dependencies(spec: &ChartSpec) -> (r: Vec<String>)
    ensures
        views::views(r@) == dependencies(spec@),
{
    let mut out: Vec<String> = Vec::new();
    match &spec.data {
        Some(id) => {
            if id.as_str().unicode_len() > 0 {
                out.push(id.clone());
            }
        },
        None => {},
    }
    assert(views::views(out@) =~= dependencies(spec@));
    out
}

/// A spec depends on the source that it names, as it names it, and on nothing else; an empty name
/// names nothing.
pub proof fn law_specs_depend_on_the_source_they_name(spec: SpecModel)
    ensures
        spec.data is None ==> dependencies(spec).len() == 0,
        spec.data matches Some(id) ==> id.len() == 0 ==> dependencies(spec).len() == 0,
        spec.data matches Some(id) ==> id.len() > 0 ==> dependencies(spec).len() == 1
            && dependencies(spec)[0] == id,
{
}

} // verus!
