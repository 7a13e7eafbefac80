//! The two user-facing endpoints of a channel.  They share one [`SeccCore`]
//! behind a reader/writer lock whose invariant is the core's well-formedness,
//! so every operation leaves the channel in a legal state whatever the
//! interleaving of senders and receivers.

use std::sync::Arc;

use vstd::prelude::*;
use vstd::rwlock::{RwLock, RwLockPredicate};

use crate::channel::SeccCore;
use crate::errors::SeccErrors;

verus! {

/// The lock invariant of a channel: the stored core is well formed and keeps
/// the capacity fixed at creation.
pub struct ChannelPred {
    pub cap: int,
}

impl<T> RwLockPredicate<SeccCore<T>> for ChannelPred {
    open spec fn inv(self, v: SeccCore<T>) -> bool {
        v.wf() && v.capacity == self.cap
    }
}

/// Sender side of the channel.  Cloning the shared handle (see
/// [`create_with_arcs`]) gives any number of producers.
pub struct SeccSender<T: Send + Sync> {
    core: Arc<RwLock<SeccCore<T>, ChannelPred>>,
}

/// Receiver side of the channel.  Cloning the shared handle (see
/// [`create_with_arcs`]) gives any number of consumers.
pub struct SeccReceiver<T: Send + Sync> {
    core: Arc<RwLock<SeccCore<T>, ChannelPred>>,
}

/// Operations common to both endpoints: the capacity and the statistics
/// counters.  The counters are advisory: each read takes the lock by itself,
/// so no consistency across two reads may be assumed.
pub trait SeccCoreOps<T> {
    /// The capacity the endpoint's channel was created with.
    spec fn spec_capacity(&self) -> int;

    /// Returns the capacity of the channel.
    fn capacity(&self) -> (r: usize)
        ensures
            r == self.spec_capacity(),
    ;

    /// Count of the times receivers waited for messages.
    fn awaited_messages(&self) -> usize;

    /// Count of the times senders waited for capacity.
    fn awaited_capacity(&self) -> usize;

    /// Number of messages currently in the channel, skipped ones included.
    fn pending(&self) -> usize;

    /// Number of messages currently receivable: `pending` minus the messages
    /// hidden behind the skip cursor.
    fn receivable(&self) -> usize;

    /// Total number of messages ever sent to the channel.
    fn sent(&self) -> usize;

    /// Total number of messages ever received from the channel.
    fn received(&self) -> usize;
}

impl<T: Send + Sync> SeccSender<T> {
    /// Sends a message to the channel, transferring its ownership; on a full
    /// channel the message comes back inside `Full`.  Which of the two
    /// happens depends on the shared state at the moment the lock is held;
    /// the exact contract stands on [`SeccCore::send`].
    pub fn send(&self, message: T) -> (r: Result<(), SeccErrors<T>>)
        ensures
            r is Ok || r == Err::<(), SeccErrors<T>>(SeccErrors::Full(message)),
    {
        let (mut core, handle) = self.core.acquire_write();
        let r = core.send(message);
        handle.release_write(core);
        r
    }

    /// Notes that a sender waited for capacity; the blocking senders built on
    /// top of this channel call it whenever they go to sleep.
    pub fn record_capacity_wait(&self) {
        let (mut core, handle) = self.core.acquire_write();
        core.record_capacity_wait();
        handle.release_write(core);
    }
}

impl<T: Send + Sync> SeccReceiver<T> {
    /// Receives the next readable message: the oldest one, or the one under
    /// the skip cursor when a cursor is set.  Returns `Empty` when nothing is
    /// readable, which can happen with messages still pending if the cursor
    /// hides all of them.  The exact contract stands on [`SeccCore::receive`].
    pub fn receive(&self) -> (r: Result<T, SeccErrors<T>>)
        ensures
            r is Ok || r == Err::<T, SeccErrors<T>>(SeccErrors::Empty),
    {
        let (mut core, handle) = self.core.acquire_write();
        let r = core.receive();
        handle.release_write(core);
        r
    }

    /// Receives and discards the next readable message.
    pub fn pop(&self) -> (r: Result<(), SeccErrors<T>>)
        ensures
            r is Ok || r == Err::<(), SeccErrors<T>>(SeccErrors::Empty),
    {
        match self.receive() {
            Ok(_) => Ok(()),
            Err(e) => Err(e),
        }
    }

    /// Skips the next readable message: it stays in the channel at its place
    /// but is hidden from receive and peek until [`Self::reset_skip`].
    pub fn skip(&self) -> (r: Result<(), SeccErrors<T>>)
        ensures
            r is Ok || r == Err::<(), SeccErrors<T>>(SeccErrors::Empty),
    {
        let (mut core, handle) = self.core.acquire_write();
        let r = core.skip();
        handle.release_write(core);
        r
    }

    /// Clears the skip cursor, making every pending message receivable again
    /// in its original order.  A no-op when no cursor is set.
    pub fn reset_skip(&self) -> (r: Result<(), SeccErrors<T>>)
        ensures
            r == Ok::<(), SeccErrors<T>>(()),
    {
        let (mut core, handle) = self.core.acquire_write();
        let r = core.reset_skip();
        handle.release_write(core);
        r
    }

    /// Notes that a receiver waited for a message; the blocking receivers
    /// built on top of this channel call it whenever they go to sleep.
    pub fn record_message_wait(&self) {
        let (mut core, handle) = self.core.acquire_write();
        core.record_message_wait();
        handle.release_write(core);
    }
}

impl<T: Send + Sync + Clone> SeccReceiver<T> {
    /// Returns a copy of the next receivable message without removing it.
    pub fn peek(&self) -> (r: Result<T, SeccErrors<T>>)
        ensures
            r is Ok || r == Err::<T, SeccErrors<T>>(SeccErrors::Empty),
    {
        let handle = self.core.acquire_read();
        let r = match handle.borrow().peek() {
            Ok(m) => Ok(m.clone()),
            Err(_) => Err(SeccErrors::Empty),
        };
        handle.release_read();
        r
    }
}

impl<T: Send + Sync> SeccCoreOps<T> for SeccSender<T> {
    closed spec fn spec_capacity(&self) -> int {
        (*self.core).pred().cap
    }

    fn capacity(&self) -> usize {
        let handle = self.core.acquire_read();
        let v = handle.borrow().capacity;
        handle.release_read();
        v
    }

    fn awaited_messages(&self) -> usize {
        let handle = self.core.acquire_read();
        let v = handle.borrow().awaited_messages;
        handle.release_read();
        v
    }

    fn awaited_capacity(&self) -> usize {
        let handle = self.core.acquire_read();
        let v = handle.borrow().awaited_capacity;
        handle.release_read();
        v
    }

    fn pending(&self) -> usize {
        let handle = self.core.acquire_read();
        let v = handle.borrow().pending;
        handle.release_read();
        v
    }

    fn receivable(&self) -> usize {
        let handle = self.core.acquire_read();
        let v = handle.borrow().receivable;
        handle.release_read();
        v
    }

    fn sent(&self) -> usize {
        let handle = self.core.acquire_read();
        let v = handle.borrow().sent;
        handle.release_read();
        v
    }

    fn received(&self) -> usize {
        let handle = self.core.acquire_read();
        let v = handle.borrow().received;
        handle.release_read();
        v
    }
}

impl<T: Send + Sync> SeccCoreOps<T> for SeccReceiver<T> {
    closed spec fn spec_capacity(&self) -> int {
        (*self.core).pred().cap
    }

    fn capacity(&self) -> usize {
        let handle = self.core.acquire_read();
        let v = handle.borrow().capacity;
        handle.release_read();
        v
    }

    fn awaited_messages(&self) -> usize {
        let handle = self.core.acquire_read();
        let v = handle.borrow().awaited_messages;
        handle.release_read();
        v
    }

    fn awaited_capacity(&self) -> usize {
        let handle = self.core.acquire_read();
        let v = handle.borrow().awaited_capacity;
        handle.release_read();
        v
    }

    fn pending(&self) -> usize {
        let handle = self.core.acquire_read();
        let v = handle.borrow().pending;
        handle.release_read();
        v
    }

    fn receivable(&self) -> usize {
        let handle = self.core.acquire_read();
        let v = handle.borrow().receivable;
        handle.release_read();
        v
    }

    fn sent(&self) -> usize {
        let handle = self.core.acquire_read();
        let v = handle.borrow().sent;
        handle.release_read();
        v
    }

    fn received(&self) -> usize {
        let handle = self.core.acquire_read();
        let v = handle.borrow().received;
        handle.release_read();
        v
    }
}

/// True when the two endpoints were created as a pair and operate on the
/// same channel state.
pub closed spec fn paired<T: Send + Sync>(s: SeccSender<T>, r: SeccReceiver<T>) -> bool {
    s.core == r.core
}

/// Creates the sender and receiver sides of a channel of the given capacity
/// and returns them as a tuple.
pub fn create<T: Send + Sync>(capacity: u16) -> (r: (SeccSender<T>, SeccReceiver<T>))
    requires
        1 <= capacity <= 65534,
    ensures
        r.0.spec_capacity() == capacity,
        r.1.spec_capacity() == capacity,
        paired(r.0, r.1),
{
    let core = SeccCore::new(capacity);
    let lock = RwLock::<SeccCore<T>, ChannelPred>::new(
        core,
        Ghost(ChannelPred { cap: capacity as int }),
    );
    let arc = Arc::new(lock);
    let arc2 = arc.clone();
    (SeccSender { core: arc }, SeccReceiver { core: arc2 })
}

/// Creates the two endpoints each wrapped in a shared-ownership handle, for
/// cloning across any number of producer and consumer threads.
pub fn create_with_arcs<T: Send + Sync>(capacity: u16) -> (r: (
    Arc<SeccSender<T>>,
    Arc<SeccReceiver<T>>,
))
    requires
        1 <= capacity <= 65534,
    ensures
        r.0.spec_capacity() == capacity,
        r.1.spec_capacity() == capacity,
        paired(*r.0, *r.1),
{
    let (sender, receiver) = create(capacity);
    (Arc::new(sender), Arc::new(receiver))
}

} // verus!
