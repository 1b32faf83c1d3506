//! Diagnostics surfaced to the host: parse errors, unknown fields, dropped rows.
//!
//! A `Diagnostic` is a severity plus a human-readable message. The resolver and
//! typing layers emit these instead of failing silently, so a host can show authors
//! exactly what was malformed or dropped.

use crate::views;
use vstd::prelude::*;

verus! {

/// How serious a diagnostic is. `Error` means the chart could not be built;
/// `Warning` means it was built but something was skipped (e.g. dropped rows).
#[derive(Clone, Copy, Debug, PartialEq, Eq, Structural)]
pub enum Severity {
    Error,
    Warning,
}

/// A single reported issue: a severity and a message describing what happened.
#[derive(Debug, PartialEq, Eq)]
pub struct Diagnostic {
    pub severity: Severity,
    pub message: String,
}

/// What a [`Diagnostic`] says.
#[verifier::ext_equal]
pub struct DiagModel {
    pub severity: Severity,
    pub message: Seq<char>,
}

impl View for Diagnostic {
    type V = DiagModel;

    open spec fn view(&self) -> DiagModel {
        DiagModel { severity: self.severity, message: self.message@ }
    }
}

impl Clone for Diagnostic {
    fn clone(&self) -> (r: Self)
        ensures
            r == *self,
    {
        Diagnostic { severity: self.severity, message: self.message.clone() }
    }
}

/// An error with the given message.
pub open spec fn error(message: Seq<char>) -> DiagModel {
    DiagModel { severity: Severity::Error, message }
}

/// A warning with the given message.
pub open spec fn warning(message: Seq<char>) -> DiagModel {
    DiagModel { severity: Severity::Warning, message }
}

impl Diagnostic {
    /// Construct an error-severity diagnostic from a message.
    pub fn error(message: &str) -> (r: Diagnostic)
        ensures
            r@ == error(message@),
    {
        Diagnostic { severity: Severity::Error, message: message.to_owned() }
    }

    /// Construct a warning-severity diagnostic from a message.
    pub fn warning(message: &str) -> (r: Diagnostic)
        ensures
            r@ == warning(message@),
    {
        Diagnostic { severity: Severity::Warning, message: message.to_owned() }
    }
}

/// Append one diagnostic.
pub fn report(diags: &mut Vec<Diagnostic>, diag: Diagnostic)
    ensures
        views::views(final(diags)@) == views::views(old(diags)@).push(diag@),
{
    broadcast use crate::views::lemma_views_push;

    diags.push(diag);
}

/// The messages of a list of diagnostics, joined.
pub open spec fn joined(diags: Seq<DiagModel>, separator: Seq<char>) -> Seq<char>
    decreases diags.len(),
{
    if diags.len() == 0 {
        seq![]
    } else if diags.len() == 1 {
        diags[0].message
    } else {
        joined(diags.drop_last(), separator) + separator + diags.last().message
    }
}

/// Join the messages of a list of diagnostics.
pub fn join_messages(diags: &Vec<Diagnostic>, separator: &str) -> (r: String)
    ensures
        r@ == joined(views::views(diags@), separator@),
{
    let ghost all = views::views(diags@);
    let mut out = String::new();
    assert(out@ =~= joined(all.take(0), separator@));
    let mut i: usize = 0;
    while i < diags.len()
        invariant
            i <= diags.len(),
            all == views::views(diags@),
            out@ == joined(all.take(i as int), separator@),
        decreases diags.len() - i,
    {
        proof {
            views::lemma_take_push(all, i as int);
        }
        if i > 0 {
            out.append(separator);
        }
        out.append(diags[i].message.as_str());
        assert(i == 0 ==> out@ =~= all[0].message);
        i = i + 1;
    }
    proof {
        views::lemma_take_all(all);
    }
    out
}

/// Joining one more diagnostic puts the separator and its message behind the others; one alone is
/// its message.
pub proof fn law_joining_appends_each_message(diags: Seq<DiagModel>, more: DiagModel, separator: Seq<
    char,
>)
    ensures
        joined(seq![more], separator) == more.message,
        diags.len() > 0 ==> joined(diags.push(more), separator) == joined(diags, separator)
            + separator + more.message,
{
    assert(diags.push(more).drop_last() =~= diags);
}

} // verus!
