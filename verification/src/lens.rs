//! Probability Lens: run the normal chat path while recording the probability
//! distribution and entropy at each visible generated token.
//!
//! The lens passes lifecycle, warning, error and reasoning frames through as
//! they come, and holds back the ordinary content and terminal frames: it
//! replaces them with one structured payload followed by the original
//! terminal metadata.

use vstd::prelude::*;

verus! {

/// The frames the lens tells apart.
#[derive(Debug, Clone, Copy, PartialEq, Eq)]
pub enum EventKind {
    /// A piece of visible content.
    ContentDelta,
    /// The terminal frame with the finish reason.
    Finish,
    /// Token usage.
    Usage,
    /// Lifecycle, warnings, errors and reasoning.
    Other,
}

/// Whether the lens forwards a frame of this kind as it comes.
pub fn lens_forwards(kind: EventKind) -> (r: bool)
    ensures
        r == (kind == EventKind::Other),
{
    match kind {
        EventKind::ContentDelta | EventKind::Finish | EventKind::Usage => false,
        EventKind::Other => true,
    }
}

} // verus!
