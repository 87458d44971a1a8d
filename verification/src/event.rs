//! What the engine reports to its embedder.

use vstd::prelude::*;

verus! {

/// An event handed to the caller-supplied event sink.
#[derive(Debug, Clone)]
pub enum Event {
    /// A transaction completed and assembled this message.
    EmailReceived(crate::Email),
}

} // verus!
