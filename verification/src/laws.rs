//! The channel's laws: properties that hold of every legal state or of every
//! run of operations, stated over the model (`msgs`, `skip_count`, the send
//! and receive logs) that the operations' contracts use.

use vstd::prelude::*;

use crate::channel::SeccCore;

verus! {

/// In every legal state the counters agree with the model: `pending` is the
/// number of messages sent but not yet received, `receivable` never exceeds
/// `pending`, the queue and the pool together hold exactly `capacity + 2`
/// nodes, and no node sits on both lists.
pub proof fn law_state_invariant<T>(c: SeccCore<T>)
    requires
        c.wf(),
    ensures
        c.pending == c.sent_log@.len() - c.recv_log@.len(),
        c.sent_log@.len() <= usize::MAX ==> c.pending == c.sent - c.received,
        c.receivable <= c.pending,
        c.queue_idx@.len() + c.pool_idx@.len() == c.capacity + 2,
        forall|i: int, j: int|
            0 <= i < c.queue_idx@.len() && 0 <= j < c.pool_idx@.len()
                ==> #[trigger] c.queue_idx@[i] != #[trigger] c.pool_idx@[j],
{
}

/// After any sequence of operations, the multiset of every message ever
/// accepted by a send equals the receives' multiset together with the
/// multiset of the messages still in the queue: nothing is lost, nothing is
/// duplicated, nothing is invented.
pub proof fn law_conservation<T>(c: SeccCore<T>)
    requires
        c.wf(),
    ensures
        c.sent_log@.to_multiset() == c.recv_log@.to_multiset().add(c.msgs().to_multiset()),
{
}

/// Round trip: after a successful send of `x` on an empty channel with no
/// cursor, the next receive is owed and returns exactly `x`.  The state `c1`
/// is constrained by what `send`'s contract ensures of it.
pub proof fn law_send_receive_round_trip<T>(c0: SeccCore<T>, c1: SeccCore<T>, x: T)
    requires
        c0.wf(),
        c0.msgs().len() == 0,
        c0.skip_count() == 0,
        c1.wf(),
        c1.msgs() == c0.msgs().push(x),
        c1.skip_count() == c0.skip_count(),
    ensures
        c1.skip_count() < c1.msgs().len(),
        c1.msgs()[c1.skip_count()] == x,
{
}

/// One step of an unskipped receive, as `receive`'s contract describes it
/// when no cursor is set: the oldest message comes out and the rest keep
/// their order.
pub open spec fn receives_front<T>(pre: SeccCore<T>, post: SeccCore<T>, out: T) -> bool {
    &&& pre.skip_count() == 0
    &&& post.skip_count() == 0
    &&& pre.msgs().len() > 0
    &&& out == pre.msgs()[0]
    &&& post.msgs() == pre.msgs().remove(0)
}

/// FIFO when no skip: from a state whose queue holds `x1 … xn` with no
/// cursor, successive receives yield `x1 … xn` in order.  `states` are the
/// channel states along the run and `outs` the received messages, each step
/// constrained by what `receive`'s contract ensures of it.
pub proof fn law_fifo<T>(states: Seq<SeccCore<T>>, outs: Seq<T>)
    requires
        states.len() == outs.len() + 1,
        forall|i: int| #![trigger outs[i]]
            0 <= i < outs.len() ==> receives_front(states[i], states[i + 1], outs[i]),
    ensures
        outs.len() <= states[0].msgs().len(),
        outs =~= states[0].msgs().take(outs.len() as int),
    decreases outs.len(),
{
    if outs.len() > 0 {
        assert(outs[0] == states[0].msgs()[0]);
        let tail_states = states.drop_first();
        let tail_outs = outs.drop_first();
        assert forall|i: int| #![trigger tail_outs[i]]
            0 <= i < tail_outs.len() implies receives_front(
            tail_states[i],
            tail_states[i + 1],
            tail_outs[i],
        ) by {
            assert(tail_outs[i] == outs[i + 1]);
            assert(tail_states[i] == states[i + 1]);
            assert(tail_states[i + 1] == states[i + 2]);
            assert(receives_front(states[i + 1], states[i + 1 + 1], outs[i + 1]));
        }
        law_fifo(tail_states, tail_outs);
        states[0].msgs().remove_ensures(0);
        assert(tail_states[0].msgs().len() == states[0].msgs().len() - 1);
        assert(outs.len() <= states[0].msgs().len());
        assert(tail_outs =~= tail_states[0].msgs().take(outs.len() - 1));
        assert forall|i: int| 0 <= i < outs.len() implies outs[i] == states[0].msgs().take(
            outs.len() as int,
        )[i] by {
            if i > 0 {
                assert(tail_outs[i - 1] == tail_states[0].msgs().take(outs.len() - 1)[i - 1]);
                assert(tail_states[0].msgs() == states[0].msgs().remove(0));
                assert(1 <= i < states[0].msgs().len());
                assert(states[0].msgs().remove(0)[i - 1] == states[0].msgs()[i]);
            }
        }
    }
}

/// Skip/reset round trip: send `x1 … xn`, skip `k` times (`k <= n`), reset
/// the cursor; then the channel again exposes `x1 … xn` in order, all of them
/// receivable, and successive receives yield exactly `x1 … xn`.  The
/// intermediate states are constrained by what the contracts of `skip` and
/// `reset_skip` ensure, and the receives by `receive`'s contract.
pub proof fn law_skip_reset_round_trip<T>(
    s: Seq<T>,
    k: int,
    c0: SeccCore<T>,
    c1: SeccCore<T>,
    c2: SeccCore<T>,
    states: Seq<SeccCore<T>>,
    outs: Seq<T>,
)
    requires
        c0.wf(),
        c0.msgs() == s,
        c0.skip_count() == 0,
        0 <= k <= s.len(),
        // after k skips: the messages are untouched, only the cursor moved
        c1.wf(),
        c1.msgs() == c0.msgs(),
        c1.skip_count() == k,
        // after reset_skip: cursor cleared, everything receivable again
        c2.wf(),
        c2.msgs() == c1.msgs(),
        c2.skip_count() == 0,
        c2.receivable == c2.pending,
        // the subsequent receives
        states.len() == outs.len() + 1,
        states[0] == c2,
        outs.len() == s.len(),
        forall|i: int|
            0 <= i < outs.len() ==> #[trigger] receives_front(states[i], states[i + 1], outs[i]),
    ensures
        c2.msgs() == s,
        c2.receivable == s.len(),
        outs =~= s,
{
    law_fifo(states, outs);
    assert(outs =~= s.take(s.len() as int));
    assert(s.take(s.len() as int) =~= s);
}

/// The capacity is hard: a legal state never holds more than `capacity`
/// messages, and a state holding `capacity` messages is full, on which
/// `send`'s contract returns `Full`.  So a `(capacity + 1)`-th successful
/// send without a receive is impossible.
pub proof fn law_capacity_hard<T>(c: SeccCore<T>)
    requires
        c.wf(),
        c.msgs().len() >= c.capacity,
    ensures
        c.is_full(),
        c.msgs().len() == c.capacity,
{
}

/// Idempotence of `reset_skip` on a channel with no cursor: by its contract a
/// reset of a cursorless channel changes nothing, so calling it twice equals
/// calling it once.
pub proof fn law_reset_skip_idempotent<T>(c0: SeccCore<T>, c1: SeccCore<T>, c2: SeccCore<T>)
    requires
        c0.wf(),
        c0.skip_count() == 0,
        c0.skip_count() == 0 ==> c1 == c0,
        c1.skip_count() == 0 ==> c2 == c1,
    ensures
        c1 == c0,
        c2 == c1,
{
}

} // verus!
