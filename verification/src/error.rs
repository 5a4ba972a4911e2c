use vstd::prelude::*;

verus! {

/// Why a template could not be split.
#[derive(Clone, Copy, Debug, PartialEq, Eq, Structural)]
pub enum ScanError {
    /// The marker whose content starts at `start` is never closed.
    UnterminatedMarker { start: usize },
    /// The marker whose content starts at `start` holds a string, a character
    /// literal, a raw string or a block comment that is never closed.
    UnterminatedLiteral { start: usize },
    /// The regex engine refused the pattern of the modifier tag.
    InvalidPattern,
}

} // verus!
