//! An in-memory study-progress tracker together with the small text and JSON
//! utilities that accompany it: a fixed catalog of tutorial chapters with
//! completion bookkeeping, timestamped session notes, aggregate statistics,
//! plain-text statistics (characters, words, lines), find-and-replace over
//! text, and JSON reformatting.

pub mod basics;
pub mod jsonfmt;
pub mod replace;
pub mod reports;
pub mod textstats;
pub mod textutil;
pub mod tracker;
pub mod wordfreq;

use vstd::prelude::*;

verus! {

/// Number of chapters in the fixed catalog.
pub open spec fn catalog_size() -> int {
    23
}

} // verus!
