//! A charting engine: chart specifications, tabular data, and the resolver between them.
//!
//! Houses the `ChartSpec` grammar-of-graphics model, raw tabular data, type inference and
//! self-contained coercion, the renderer-neutral `ResolvedChart` plus the `Backend` trait it is
//! painted through, content hashing, data-dependency extraction, and the host interfaces (data
//! resolver, theme). It never draws, and computes with no floating-point number: numbers are
//! carried as the numerals they were written as.

use vstd::prelude::*;

pub mod arithmetic;
pub mod backend;
pub mod block;
pub mod calendar;
pub mod cli;
pub mod coding;
pub mod data;
pub mod data_view;
pub mod deps;
pub mod diag;
pub mod display;
pub mod draw;
pub mod dsl;
pub mod host;
pub mod identity;
pub mod laws;
pub mod mark_laws;
pub mod model;
pub mod numeral;
pub mod panel;
pub mod preview;
pub mod registry;
pub mod resolve;
pub mod row_laws;
pub mod text;
pub mod theme;
pub mod typing;
pub mod views;

verus! {

} // verus!
