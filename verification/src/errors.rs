//! The error values that channel operations can return.

use vstd::prelude::*;

verus! {

/// Errors potentially returned from channel operations.
#[derive(Debug, PartialEq, Eq)]
pub enum SeccErrors<T> {
    /// The channel has no free slot; the enclosed value is the message whose
    /// send was refused, so that the caller keeps ownership of it.
    Full(T),
    /// Nothing is currently receivable.  This is also returned when messages
    /// are pending but a skip cursor hides all of them.
    Empty,
}

} // verus!
