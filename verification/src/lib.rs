//! Build plans as rows, not as markdown files copied between worktrees: the parsing,
//! rendering and decision logic of the planner, with its contracts.
use vstd::prelude::*;

pub mod api;
pub mod board;
pub mod drift;
pub mod embed;
pub mod error;
pub mod git;
pub mod handoff;
pub mod import;
pub mod ingest;
pub mod json;
pub mod listing;
pub mod md;
pub mod model;
pub mod out;
pub mod parse;
pub mod render;
pub mod report;
pub mod resolve;
pub mod rows;
pub mod rules;
pub mod search;
pub mod store;
pub mod util;
pub mod text;
pub mod update;

verus! {
} // verus!
