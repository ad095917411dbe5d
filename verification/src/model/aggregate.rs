//! The chapters of a title, counted by volume.

use std::collections::HashMap;
use vstd::prelude::*;

verus! {

/// The volumes of a title, by number.
#[derive(Debug)]
pub struct AggregateResponse {
    pub volumes: HashMap<String, VolumeAggregate>,
}

/// One volume: its number, how many chapters it has, and the chapters by
/// number.
#[derive(Debug)]
pub struct VolumeAggregate {
    pub volume: String,
    pub count: u32,
    pub chapters: HashMap<String, ChapterAggregate>,
}

/// One chapter of a volume: its id and its number.
#[derive(Debug)]
pub struct ChapterAggregate {
    pub id: String,
    pub chapter: String,
}

} // verus!
