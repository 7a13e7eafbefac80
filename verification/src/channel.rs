//! The channel core: the node storage, the queue/pool dual linked list, the
//! skip cursor, and the counters, together with the mathematical model that
//! the contracts speak of.
//!
//! Two singly-linked lists partition one fixed node storage: the *queue* holds
//! the pending messages (its tail node is an empty placeholder), the *pool*
//! holds the free slots (all of its nodes are empty).  A send moves the pool
//! head behind the queue tail; a receive moves the read node to the pool tail.
//! The ghost fields `queue_idx` and `pool_idx` list the node indices of the
//! two lists in order, and `cursor_pos` is the queue position of the skip
//! cursor (0 when no cursor is set).

use vstd::prelude::*;

use crate::NIL_NODE;
use crate::errors::SeccErrors;
use crate::node::SeccNode;

verus! {

/// The core state of a channel.  All operations on it are sequential; the
/// endpoint types share one `SeccCore` behind a reader/writer lock.
pub struct SeccCore<T> {
    /// Number of messages the channel can hold.
    pub capacity: usize,
    /// The node storage, of length `capacity + 2`; nodes never move.
    pub nodes: Vec<SeccNode<T>>,
    /// Index of the first queue node: the oldest message, or the queue
    /// placeholder when the channel is empty.
    pub queue_head: usize,
    /// Index of the last queue node, always an empty placeholder.
    pub queue_tail: usize,
    /// Index of the first pool node; if its `next` is nil the channel is full.
    pub pool_head: usize,
    /// Index of the last pool node.
    pub pool_tail: usize,
    /// Nil, or the index of the queue node the next receive reads.
    pub cursor: usize,
    /// Nil, or the index of the queue node immediately before `cursor`.
    pub skipped: usize,
    /// Number of messages currently in the queue.
    pub pending: usize,
    /// Number of messages receivable: `pending` minus the skipped prefix.
    pub receivable: usize,
    /// Total number of messages ever sent (saturating at `usize::MAX`).
    pub sent: usize,
    /// Total number of messages ever received (saturating at `usize::MAX`).
    pub received: usize,
    /// How many times a receiver waited for a message (saturating).
    pub awaited_messages: usize,
    /// How many times a sender waited for capacity (saturating).
    pub awaited_capacity: usize,
    /// Ghost: the queue's node indices in list order.
    pub queue_idx: Ghost<Seq<int>>,
    /// Ghost: the pool's node indices in list order.
    pub pool_idx: Ghost<Seq<int>>,
    /// Ghost: the queue position of `cursor`, 0 when no cursor is set.
    pub cursor_pos: Ghost<int>,
    /// Ghost: every message ever accepted by a send, in send order.
    pub sent_log: Ghost<Seq<T>>,
    /// Ghost: every message ever handed out by a receive, in receive order.
    pub recv_log: Ghost<Seq<T>>,
}

impl<T> SeccCore<T> {
    /// The indices of `idx` name nodes of `nodes` linked in list order,
    /// ending with a nil successor.
    pub open spec fn chain_linked(nodes: Seq<SeccNode<T>>, idx: Seq<int>) -> bool {
        &&& forall|i: int| 0 <= i < idx.len() ==> 0 <= #[trigger] idx[i] < nodes.len()
        &&& forall|i: int|
            0 <= i < idx.len() - 1 ==> nodes[#[trigger] idx[i]].next == idx[i + 1]
        &&& idx.len() > 0 ==> nodes[idx.last()].next == NIL_NODE
    }

    /// No index occurs twice in `idx`.
    pub open spec fn chain_distinct(idx: Seq<int>) -> bool {
        forall|i: int, j: int| 0 <= i < j < idx.len() ==> idx[i] != idx[j]
    }

    /// The well-formedness invariant: both lists are linked and disjoint, they
    /// cover the whole storage, cells are filled exactly on the message part
    /// of the queue, the cursor sits on the queue with its predecessor, and
    /// the counters agree with the model.
    pub open spec fn wf(self) -> bool {
        let q = self.queue_idx@;
        let p = self.pool_idx@;
        let n = self.nodes@;
        &&& 1 <= self.capacity <= 65534
        &&& n.len() == self.capacity + 2
        &&& q.len() >= 1
        &&& p.len() >= 1
        &&& q.len() + p.len() == n.len()
        &&& Self::chain_linked(n, q)
        &&& Self::chain_linked(n, p)
        &&& Self::chain_distinct(q)
        &&& Self::chain_distinct(p)
        &&& forall|i: int, j: int|
            0 <= i < q.len() && 0 <= j < p.len() ==> #[trigger] q[i] != #[trigger] p[j]
        &&& self.queue_head == q[0]
        &&& self.queue_tail == q.last()
        &&& self.pool_head == p[0]
        &&& self.pool_tail == p.last()
        &&& forall|i: int| 0 <= i < q.len() - 1 ==> n[#[trigger] q[i]].cell is Some
        &&& n[q.last()].cell is None
        &&& forall|i: int| 0 <= i < p.len() ==> n[#[trigger] p[i]].cell is None
        &&& 0 <= self.cursor_pos@ <= q.len() - 1
        &&& self.cursor == NIL_NODE ==> self.skipped == NIL_NODE && self.cursor_pos@ == 0
        &&& self.cursor != NIL_NODE ==> {
            &&& 1 <= self.cursor_pos@
            &&& q[self.cursor_pos@] == self.cursor
            &&& q[self.cursor_pos@ - 1] == self.skipped
        }
        &&& self.pending == q.len() - 1
        &&& self.receivable == q.len() - 1 - self.cursor_pos@
        &&& self.recv_log@.len() + q.len() - 1 == self.sent_log@.len()
        &&& self.sent_log@.len() <= usize::MAX ==> self.sent == self.sent_log@.len()
        &&& self.recv_log@.len() <= usize::MAX ==> self.received == self.recv_log@.len()
        &&& self.sent_log@.to_multiset() == self.recv_log@.to_multiset().add(
            self.msgs().to_multiset(),
        )
    }

    /// The messages currently in the channel, oldest first.
    pub open spec fn msgs(self) -> Seq<T> {
        Seq::new(
            (self.queue_idx@.len() - 1) as nat,
            |i: int| self.nodes@[self.queue_idx@[i]].cell->0,
        )
    }

    /// How many messages at the front of the queue the skip cursor hides.
    /// The next receive or peek reads `self.msgs()[self.skip_count()]`.
    pub open spec fn skip_count(self) -> int {
        self.cursor_pos@
    }

    /// A send succeeds exactly when the channel is not full.
    pub open spec fn is_full(self) -> bool {
        self.msgs().len() == self.capacity
    }

    /// Creates the core of a channel with the given capacity: `capacity + 2`
    /// nodes, a one-node queue, and the rest chained up as the pool.
    pub fn new(capacity: u16) -> (r: SeccCore<T>)
        requires
            1 <= capacity <= 65534,
        ensures
            r.wf(),
            r.capacity == capacity,
            r.msgs() == Seq::<T>::empty(),
            r.skip_count() == 0,
            r.sent_log@ == Seq::<T>::empty(),
            r.recv_log@ == Seq::<T>::empty(),
            r.pending == 0,
            r.receivable == 0,
            r.sent == 0,
            r.received == 0,
            r.awaited_messages == 0,
            r.awaited_capacity == 0,
            r.cursor == NIL_NODE,
            r.skipped == NIL_NODE,
    {
        let cap = capacity as usize;
        let mut nodes: Vec<SeccNode<T>> = Vec::new();
        // Node 0 is the queue placeholder, node 1 the pool tail.
        nodes.push(SeccNode::new());
        nodes.push(SeccNode::new());
        let mut pool_head: usize = 1;
        let mut i: usize = 0;
        while i < cap
            invariant
                i <= cap,
                cap <= 65534,
                nodes.len() == i + 2,
                pool_head == i + 1,
                forall|j: int| 0 <= j < nodes.len() ==> nodes@[j].cell is None,
                nodes@[0].next == NIL_NODE,
                nodes@[1].next == NIL_NODE,
                forall|j: int| 2 <= j < nodes.len() ==> #[trigger] nodes@[j].next == j - 1,
            decreases cap - i,
        {
            nodes.push(SeccNode::with_next(pool_head));
            pool_head = nodes.len() - 1;
            i = i + 1;
        }
        let r = SeccCore {
            capacity: cap,
            nodes,
            queue_head: 0,
            queue_tail: 0,
            pool_head,
            pool_tail: 1,
            cursor: NIL_NODE,
            skipped: NIL_NODE,
            pending: 0,
            receivable: 0,
            sent: 0,
            received: 0,
            awaited_messages: 0,
            awaited_capacity: 0,
            queue_idx: Ghost(Seq::new(1nat, |j: int| 0int)),
            pool_idx: Ghost(Seq::new((cap + 1) as nat, |j: int| cap + 1 - j)),
            cursor_pos: Ghost(0int),
            sent_log: Ghost(Seq::empty()),
            recv_log: Ghost(Seq::empty()),
        };
        proof {
            assert(r.msgs() =~= Seq::<T>::empty());
            broadcast use vstd::seq_lib::group_to_multiset_ensures;

            assert(r.sent_log@.to_multiset() =~= r.recv_log@.to_multiset().add(
                r.msgs().to_multiset(),
            ));
        }
        r
    }

    /// Sends a message: on success the message is appended at the back of the
    /// queue; on a full channel the message comes back inside `Full`.
    pub fn send(&mut self, message: T) -> (r: Result<(), SeccErrors<T>>)
        requires
            old(self).wf(),
        ensures
            final(self).wf(),
            final(self).capacity == old(self).capacity,
            final(self).awaited_messages == old(self).awaited_messages,
            final(self).awaited_capacity == old(self).awaited_capacity,
            final(self).cursor == old(self).cursor,
            final(self).skipped == old(self).skipped,
            final(self).recv_log@ == old(self).recv_log@,
            final(self).skip_count() == old(self).skip_count(),
            old(self).is_full() ==> {
                &&& r == Err::<(), SeccErrors<T>>(SeccErrors::Full(message))
                &&& *final(self) == *old(self)
            },
            !old(self).is_full() ==> {
                &&& r == Ok::<(), SeccErrors<T>>(())
                &&& final(self).msgs() == old(self).msgs().push(message)
                &&& final(self).sent_log@ == old(self).sent_log@.push(message)
            },
    {
        let ghost q = self.queue_idx@;
        let ghost p = self.pool_idx@;
        let next_pool_head = self.nodes[self.pool_head].next;
        if next_pool_head == NIL_NODE {
            proof {
                assert(p.len() >= 2 ==> self.nodes@[p[0]].next == p[1] && p[1] < NIL_NODE);
                assert(p.len() == 1);
            }
            Err(SeccErrors::Full(message))
        } else {
            proof {
                assert(p.len() >= 2) by {
                    assert(p.len() == 1 ==> self.nodes@[p[0]].next == NIL_NODE);
                }
                assert(next_pool_head == p[1]);
            }
            let ghost old_self = *self;
            let old_queue_tail = self.queue_tail;
            let old_pool_head = self.pool_head;
            self.nodes[old_queue_tail].cell = Some(message);
            self.queue_tail = old_pool_head;
            self.pool_head = next_pool_head;
            if self.sent < usize::MAX {
                self.sent = self.sent + 1;
            }
            self.receivable = self.receivable + 1;
            self.pending = self.pending + 1;
            self.nodes[old_pool_head].next = NIL_NODE;
            self.nodes[old_queue_tail].next = old_pool_head;
            proof {
                self.queue_idx@ = q.push(old_pool_head as int);
                self.pool_idx@ = p.drop_first();
                self.sent_log@ = old_self.sent_log@.push(message);
                self.lemma_send_wf(old_self, message);
            }
            Ok(())
        }
    }

    /// Re-establishes the invariant and the model equations after the state
    /// updates that `send` performs on a non-full channel.
    proof fn lemma_send_wf(self, pre: SeccCore<T>, message: T)
        requires
            pre.wf(),
            pre.pool_idx@.len() >= 2,
            self.queue_idx@ == pre.queue_idx@.push(pre.pool_idx@[0]),
            self.pool_idx@ == pre.pool_idx@.drop_first(),
            self.sent_log@ == pre.sent_log@.push(message),
            self.recv_log@ == pre.recv_log@,
            self.cursor_pos@ == pre.cursor_pos@,
            self.nodes@.len() == pre.nodes@.len(),
            self.nodes@[pre.queue_idx@.last()].cell == Some(message),
            self.nodes@[pre.queue_idx@.last()].next == pre.pool_idx@[0],
            self.nodes@[pre.pool_idx@[0]].cell == pre.nodes@[pre.pool_idx@[0]].cell,
            self.nodes@[pre.pool_idx@[0]].next == NIL_NODE,
            forall|k: int|
                0 <= k < pre.nodes@.len() && k != pre.queue_idx@.last() && k != pre.pool_idx@[0]
                    ==> self.nodes@[k] == pre.nodes@[k],
            self.capacity == pre.capacity,
            self.queue_head == pre.queue_head,
            self.queue_tail == pre.pool_idx@[0],
            self.pool_head == pre.pool_idx@[1],
            self.pool_tail == pre.pool_tail,
            self.cursor == pre.cursor,
            self.skipped == pre.skipped,
            self.pending == pre.pending + 1,
            self.receivable == pre.receivable + 1,
            self.sent == if pre.sent < usize::MAX {
                (pre.sent + 1) as usize
            } else {
                pre.sent
            },
            self.received == pre.received,
            self.awaited_messages == pre.awaited_messages,
            self.awaited_capacity == pre.awaited_capacity,
        ensures
            self.wf(),
            self.msgs() == pre.msgs().push(message),
    {
        let q = pre.queue_idx@;
        let p = pre.pool_idx@;
        let qt = q.last();
        let ph = p[0];
        assert(qt != ph);
        assert(self.msgs() =~= pre.msgs().push(message)) by {
            assert forall|i: int| 0 <= i < q.len() implies self.msgs()[i] == pre.msgs().push(
                message,
            )[i] by {
                if i < q.len() - 1 {
                    assert(q[i] != qt);
                    assert(q[i] != ph);
                }
            }
        }
        broadcast use vstd::seq_lib::group_to_multiset_ensures;

        assert(self.sent_log@.to_multiset() =~= self.recv_log@.to_multiset().add(
            self.msgs().to_multiset(),
        ));
    }

    /// Receives the next readable message: the one at the queue head, or the
    /// one under the skip cursor when a cursor is set.  Returns `Empty` when
    /// nothing is readable, which can happen with messages still pending if
    /// the cursor hides all of them.
    pub fn receive(&mut self) -> (r: Result<T, SeccErrors<T>>)
        requires
            old(self).wf(),
        ensures
            final(self).wf(),
            final(self).capacity == old(self).capacity,
            final(self).awaited_messages == old(self).awaited_messages,
            final(self).awaited_capacity == old(self).awaited_capacity,
            final(self).sent_log@ == old(self).sent_log@,
            final(self).skip_count() == old(self).skip_count(),
            old(self).skip_count() == old(self).msgs().len() ==> {
                &&& r == Err::<T, SeccErrors<T>>(SeccErrors::Empty)
                &&& *final(self) == *old(self)
            },
            old(self).skip_count() < old(self).msgs().len() ==> {
                &&& r == Ok::<T, SeccErrors<T>>(old(self).msgs()[old(self).skip_count()])
                &&& final(self).msgs() == old(self).msgs().remove(old(self).skip_count())
                &&& final(self).recv_log@ == old(self).recv_log@.push(
                    old(self).msgs()[old(self).skip_count()],
                )
            },
    {
        let ghost q = self.queue_idx@;
        let ghost pos = self.cursor_pos@;
        let read_idx = if self.cursor == NIL_NODE {
            self.queue_head
        } else {
            self.cursor
        };
        proof {
            assert(read_idx == q[pos]);
        }
        let next_read = self.nodes[read_idx].next;
        if next_read == NIL_NODE {
            proof {
                assert(pos < q.len() - 1 ==> self.nodes@[q[pos]].next == q[pos + 1] && q[pos + 1]
                    < NIL_NODE);
                assert(pos == q.len() - 1);
            }
            Err(SeccErrors::Empty)
        } else {
            proof {
                assert(pos < q.len() - 1) by {
                    assert(pos == q.len() - 1 ==> self.nodes@[q[pos]].next == NIL_NODE);
                }
                assert(next_read == q[pos + 1]);
            }
            let ghost old_self = *self;
            let message_opt = self.nodes[read_idx].cell.take();
            let message = message_opt.unwrap();
            let old_pool_tail = self.pool_tail;
            self.nodes[read_idx].next = NIL_NODE;
            if self.cursor == NIL_NODE {
                self.pool_tail = self.queue_head;
                self.queue_head = next_read;
            } else {
                let skipped_idx = self.skipped;
                self.nodes[skipped_idx].next = next_read;
                self.pool_tail = self.cursor;
                self.cursor = next_read;
            }
            if self.received < usize::MAX {
                self.received = self.received + 1;
            }
            self.receivable = self.receivable - 1;
            self.pending = self.pending - 1;
            self.nodes[old_pool_tail].next = read_idx;
            proof {
                self.queue_idx@ = q.remove(pos);
                self.pool_idx@ = old_self.pool_idx@.push(q[pos]);
                self.recv_log@ = old_self.recv_log@.push(message);
                self.lemma_receive_wf(old_self, message);
            }
            Ok(message)
        }
    }

    /// Re-establishes the invariant and the model equations after the state
    /// updates that `receive` performs on a readable channel.
    #[verifier::rlimit(50)]
    proof fn lemma_receive_wf(self, pre: SeccCore<T>, message: T)
        requires
            pre.wf(),
            pre.cursor_pos@ < pre.queue_idx@.len() - 1,
            self.queue_idx@ == pre.queue_idx@.remove(pre.cursor_pos@),
            self.pool_idx@ == pre.pool_idx@.push(pre.queue_idx@[pre.cursor_pos@]),
            self.recv_log@ == pre.recv_log@.push(message),
            self.sent_log@ == pre.sent_log@,
            self.cursor_pos@ == pre.cursor_pos@,
            message == pre.nodes@[pre.queue_idx@[pre.cursor_pos@]].cell->0,
            self.nodes@.len() == pre.nodes@.len(),
            self.nodes@[pre.queue_idx@[pre.cursor_pos@]].cell is None,
            self.nodes@[pre.queue_idx@[pre.cursor_pos@]].next == NIL_NODE,
            self.nodes@[pre.pool_idx@.last()].cell == pre.nodes@[pre.pool_idx@.last()].cell,
            self.nodes@[pre.pool_idx@.last()].next == pre.queue_idx@[pre.cursor_pos@],
            pre.cursor != NIL_NODE ==> {
                &&& self.nodes@[pre.queue_idx@[pre.cursor_pos@ - 1]].cell == pre.nodes@[pre.queue_idx@[pre.cursor_pos@
                    - 1]].cell
                &&& self.nodes@[pre.queue_idx@[pre.cursor_pos@ - 1]].next == pre.queue_idx@[pre.cursor_pos@
                    + 1]
            },
            forall|k: int|
                0 <= k < pre.nodes@.len() && k != pre.queue_idx@[pre.cursor_pos@] && k
                    != pre.pool_idx@.last() && !(pre.cursor != NIL_NODE && k
                    == pre.queue_idx@[pre.cursor_pos@ - 1]) ==> self.nodes@[k] == pre.nodes@[k],
            self.capacity == pre.capacity,
            self.queue_tail == pre.queue_tail,
            self.pool_head == pre.pool_head,
            pre.cursor == NIL_NODE ==> {
                &&& self.queue_head == pre.queue_idx@[1]
                &&& self.pool_tail == pre.queue_idx@[0]
                &&& self.cursor == NIL_NODE
                &&& self.skipped == NIL_NODE
            },
            pre.cursor != NIL_NODE ==> {
                &&& self.queue_head == pre.queue_head
                &&& self.pool_tail == pre.queue_idx@[pre.cursor_pos@]
                &&& self.cursor == pre.queue_idx@[pre.cursor_pos@ + 1]
                &&& self.skipped == pre.skipped
            },
            self.pending == pre.pending - 1,
            self.receivable == pre.receivable - 1,
            self.received == if pre.received < usize::MAX {
                (pre.received + 1) as usize
            } else {
                pre.received
            },
            self.sent == pre.sent,
            self.awaited_messages == pre.awaited_messages,
            self.awaited_capacity == pre.awaited_capacity,
        ensures
            self.wf(),
            self.msgs() == pre.msgs().remove(pre.cursor_pos@),
            message == pre.msgs()[pre.cursor_pos@],
    {
        let q = pre.queue_idx@;
        let p = pre.pool_idx@;
        let pos = pre.cursor_pos@;
        let rd = q[pos];
        let pt = p.last();
        assert(rd != pt);
        assert(self.msgs() =~= pre.msgs().remove(pos)) by {
            assert forall|i: int| 0 <= i < self.msgs().len() implies self.msgs()[i]
                == pre.msgs().remove(pos)[i] by {
                if i < pos {
                    assert(q[i] != rd);
                    assert(q[i] != pt);
                } else {
                    assert(q[i + 1] != rd);
                    assert(q[i + 1] != pt);
                    assert(pre.cursor != NIL_NODE ==> q[i + 1] != q[pos - 1]);
                }
            }
        }
        broadcast use vstd::seq_lib::group_to_multiset_ensures;

        assert(pre.msgs()[pos] == message);
        assert(pre.msgs().contains(message));
        assert(pre.msgs().to_multiset().count(message) > 0);
        assert(self.sent_log@.to_multiset() =~= self.recv_log@.to_multiset().add(
            self.msgs().to_multiset(),
        ));
    }

    /// Peeks at the next readable message without removing it.
    pub fn peek(&self) -> (r: Result<&T, SeccErrors<T>>)
        requires
            self.wf(),
        ensures
            self.skip_count() == self.msgs().len() ==> r == Err::<&T, SeccErrors<T>>(
                SeccErrors::Empty,
            ),
            self.skip_count() < self.msgs().len() ==> {
                &&& r is Ok
                &&& *r->Ok_0 == self.msgs()[self.skip_count()]
            },
    {
        let ghost q = self.queue_idx@;
        let ghost pos = self.cursor_pos@;
        let read_idx = if self.cursor == NIL_NODE {
            self.queue_head
        } else {
            self.cursor
        };
        proof {
            assert(read_idx == q[pos]);
        }
        let next_read = self.nodes[read_idx].next;
        if next_read == NIL_NODE {
            proof {
                assert(pos < q.len() - 1 ==> self.nodes@[q[pos]].next == q[pos + 1] && q[pos + 1]
                    < NIL_NODE);
                assert(pos == q.len() - 1);
            }
            Err(SeccErrors::Empty)
        } else {
            proof {
                assert(pos < q.len() - 1) by {
                    assert(pos == q.len() - 1 ==> self.nodes@[q[pos]].next == NIL_NODE);
                }
            }
            let message = self.nodes[read_idx].cell.as_ref().unwrap();
            Ok(message)
        }
    }

    /// Advances the skip cursor past the next readable message, hiding it
    /// from receive and peek until the cursor is reset.
    pub fn skip(&mut self) -> (r: Result<(), SeccErrors<T>>)
        requires
            old(self).wf(),
        ensures
            final(self).wf(),
            final(self).capacity == old(self).capacity,
            final(self).msgs() == old(self).msgs(),
            final(self).sent_log@ == old(self).sent_log@,
            final(self).recv_log@ == old(self).recv_log@,
            final(self).sent == old(self).sent,
            final(self).received == old(self).received,
            final(self).pending == old(self).pending,
            final(self).awaited_messages == old(self).awaited_messages,
            final(self).awaited_capacity == old(self).awaited_capacity,
            old(self).skip_count() == old(self).msgs().len() ==> {
                &&& r == Err::<(), SeccErrors<T>>(SeccErrors::Empty)
                &&& *final(self) == *old(self)
            },
            old(self).skip_count() < old(self).msgs().len() ==> {
                &&& r == Ok::<(), SeccErrors<T>>(())
                &&& final(self).skip_count() == old(self).skip_count() + 1
                &&& final(self).cursor != NIL_NODE
            },
    {
        let ghost q = self.queue_idx@;
        let ghost pos = self.cursor_pos@;
        let read_idx = if self.cursor == NIL_NODE {
            self.queue_head
        } else {
            self.cursor
        };
        proof {
            assert(read_idx == q[pos]);
        }
        let next_read = self.nodes[read_idx].next;
        if next_read == NIL_NODE {
            proof {
                assert(pos < q.len() - 1 ==> self.nodes@[q[pos]].next == q[pos + 1] && q[pos + 1]
                    < NIL_NODE);
                assert(pos == q.len() - 1);
            }
            Err(SeccErrors::Empty)
        } else {
            proof {
                assert(pos < q.len() - 1) by {
                    assert(pos == q.len() - 1 ==> self.nodes@[q[pos]].next == NIL_NODE);
                }
                assert(next_read == q[pos + 1]);
                assert(q[pos + 1] < NIL_NODE);
            }
            if self.cursor == NIL_NODE {
                self.skipped = self.queue_head;
                self.cursor = next_read;
            } else {
                self.skipped = self.cursor;
                self.cursor = next_read;
            }
            self.receivable = self.receivable - 1;
            proof {
                self.cursor_pos@ = pos + 1;
                assert(self.msgs() =~= old(self).msgs());
            }
            Ok(())
        }
    }

    /// Clears the skip cursor: every pending message becomes receivable again,
    /// in its original order.  A no-op when no cursor is set.
    pub fn reset_skip(&mut self) -> (r: Result<(), SeccErrors<T>>)
        requires
            old(self).wf(),
        ensures
            final(self).wf(),
            final(self).capacity == old(self).capacity,
            final(self).msgs() == old(self).msgs(),
            final(self).sent_log@ == old(self).sent_log@,
            final(self).recv_log@ == old(self).recv_log@,
            final(self).sent == old(self).sent,
            final(self).received == old(self).received,
            final(self).pending == old(self).pending,
            final(self).awaited_messages == old(self).awaited_messages,
            final(self).awaited_capacity == old(self).awaited_capacity,
            r == Ok::<(), SeccErrors<T>>(()),
            final(self).skip_count() == 0,
            final(self).cursor == NIL_NODE,
            final(self).skipped == NIL_NODE,
            final(self).receivable == final(self).pending,
            old(self).skip_count() == 0 ==> *final(self) == *old(self),
    {
        if self.cursor != NIL_NODE {
            let ghost q = self.queue_idx@;
            let ghost cpos = self.cursor_pos@;
            let mut count: usize = 1;
            let mut next_ptr = self.nodes[self.queue_head].next;
            proof {
                assert(next_ptr == q[1]);
            }
            while next_ptr != self.cursor
                invariant
                    self.wf(),
                    self.cursor != NIL_NODE,
                    q == self.queue_idx@,
                    cpos == self.cursor_pos@,
                    1 <= count <= cpos,
                    next_ptr == q[count as int],
                decreases cpos - count,
            {
                proof {
                    assert(count < cpos) by {
                        assert(q[count as int] != q[cpos]);
                    }
                    assert(self.nodes@[q[count as int]].next == q[count as int + 1]);
                }
                count = count + 1;
                next_ptr = self.nodes[next_ptr].next;
            }
            proof {
                assert(count == cpos) by {
                    if count < cpos {
                        assert(q[count as int] != q[cpos]);
                    }
                }
            }
            self.receivable = self.receivable + count;
            self.cursor = NIL_NODE;
            self.skipped = NIL_NODE;
            proof {
                self.cursor_pos@ = 0;
                assert(self.msgs() =~= old(self).msgs());
            }
        }
        Ok(())
    }

    /// Notes one wait of a sender for capacity (saturating at `usize::MAX`).
    pub fn record_capacity_wait(&mut self)
        requires
            old(self).wf(),
        ensures
            final(self).wf(),
            *final(self) == (SeccCore {
                awaited_capacity: final(self).awaited_capacity,
                ..*old(self)
            }),
            final(self).awaited_capacity == (if old(self).awaited_capacity < usize::MAX {
                old(self).awaited_capacity + 1
            } else {
                old(self).awaited_capacity as int
            }),
    {
        if self.awaited_capacity < usize::MAX {
            self.awaited_capacity = self.awaited_capacity + 1;
        }
    }

    /// Notes one wait of a receiver for a message (saturating at `usize::MAX`).
    pub fn record_message_wait(&mut self)
        requires
            old(self).wf(),
        ensures
            final(self).wf(),
            *final(self) == (SeccCore {
                awaited_messages: final(self).awaited_messages,
                ..*old(self)
            }),
            final(self).awaited_messages == (if old(self).awaited_messages < usize::MAX {
                old(self).awaited_messages + 1
            } else {
                old(self).awaited_messages as int
            }),
    {
        if self.awaited_messages < usize::MAX {
            self.awaited_messages = self.awaited_messages + 1;
        }
    }
}

} // verus!
