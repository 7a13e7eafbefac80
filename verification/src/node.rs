//! The node storage cell of the channel's two linked lists.

use vstd::prelude::*;

use crate::NIL_NODE;

verus! {

/// A single node in the channel's buffer.  A node either sits in the queue
/// holding a message in `cell`, or sits in the pool with an empty `cell`.
/// `next` is the index of the successor node, or [`NIL_NODE`] at a list tail.
pub struct SeccNode<T> {
    /// The message slot: `Some` while the node holds a queued message.
    pub cell: Option<T>,
    /// Index of the next node in whichever list this node is on.
    pub next: usize,
}

impl<T> SeccNode<T> {
    /// Creates a new node whose next index is the nil sentinel.
    pub fn new() -> (r: SeccNode<T>)
        ensures
            r.cell is None,
            r.next == NIL_NODE,
    {
        SeccNode { cell: None, next: NIL_NODE }
    }

    /// Creates a new node whose next index is the given one.
    pub fn with_next(next: usize) -> (r: SeccNode<T>)
        ensures
            r.cell is None,
            r.next == next,
    {
        SeccNode { cell: None, next }
    }
}

} // verus!
