use vstd::prelude::*;

verus! {

/// Fatal error kinds of the library.
#[derive(Clone, Copy, Debug, PartialEq, Eq, Structural)]
pub enum EngineError {
    /// Invalid frame geometry or block size.
    Configuration,
    /// The byte source failed for another reason than reaching its end.
    Io,
}

} // verus!
