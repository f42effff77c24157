use vstd::prelude::*;

verus! {

/// The answer to a free-form question about a video.
#[derive(Debug, Clone, PartialEq)]
pub struct AskAnswer {
    pub answer: String,
}

/// A structured summary of a video.
#[derive(Debug, Clone, PartialEq)]
pub struct Summary {
    pub overview: String,
    pub key_points: Vec<String>,
    pub topics: Vec<String>,
}

/// One chapter of a video, its bounds in seconds from the start.
#[derive(Debug, Clone, PartialEq)]
pub struct Chapter {
    pub start_seconds: u32,
    pub end_seconds: u32,
    pub title: String,
    pub summary: String,
}

} // verus!
