use vstd::prelude::*;

verus! {

/// A configuration fault. None of them is recoverable: the program reports
/// it and stops.
#[derive(Debug)]
pub enum ConfigError {
    /// The intent was selected, but the face table has no path for it.
    MissingFace(String),
    /// The intent was selected, has no audio, and the timing table has no
    /// limit for it.
    MissingTiming(String),
    /// A path or a time limit stands above every `[intent]` header; the
    /// index is that of the line.
    EntryWithoutIntent(usize),
    /// A time limit is not a decimal number that fits in 64 bits; the index
    /// is that of the line.
    BadTiming(usize),
}

} // verus!
