use vstd::prelude::*;

verus! {

/// The arguments of a tool that takes a video.
#[derive(Debug, Clone)]
pub struct VideoArg {
    /// A public YouTube video URL
    pub url: String,
}

/// The arguments of the tool that answers a question about a video.
#[derive(Debug, Clone)]
pub struct AskArg {
    /// A public YouTube video URL
    pub url: String,
    /// The question to ask about the video
    pub question: String,
}

} // verus!
