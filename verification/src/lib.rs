//! A skip-enabled bounded channel: a FIFO message-passing primitive whose
//! receiving side may skip past a prefix of the stored messages and later
//! restore them for receipt in their original order.
//!
//! The heart of the crate is [`SeccCore`]: a fixed node storage threaded by
//! two singly-linked lists, a queue of live messages and a pool of free
//! slots, with a skip cursor and statistics counters.  Its operations carry
//! full contracts over a mathematical model of the channel (the message
//! sequence, the cursor position, and the send/receive logs), and the
//! [`laws`] module states and proves the properties that hold of every legal
//! state and every run.  The [`SeccSender`] and [`SeccReceiver`] endpoints
//! share one core behind a reader/writer lock whose invariant is the core's
//! well-formedness, so the channel stays legal under any interleaving of
//! producers and consumers.

mod channel;
mod endpoints;
mod errors;
pub mod laws;
mod node;

pub use channel::SeccCore;
pub use endpoints::SeccCoreOps;
pub use endpoints::SeccReceiver;
pub use endpoints::SeccSender;
pub use endpoints::create;
pub use endpoints::create_with_arcs;
pub use endpoints::paired;
pub use errors::SeccErrors;
pub use node::SeccNode;

use vstd::prelude::*;

verus! {

/// Sentinel index meaning "no successor"; it lies outside every legal node index.
pub const NIL_NODE: usize = 65536;

} // verus!
