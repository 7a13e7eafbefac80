//! Single-threaded send/receive behaviour, checked down to the node links of
//! the queue and pool lists through the core's public state.

use secc::NIL_NODE;
use secc::SeccCore;
use secc::SeccCoreOps;
use secc::SeccErrors;
use secc::create;

#[derive(Debug, Eq, PartialEq)]
enum Items {
    A,
    B,
    C,
    D,
    E,
    F,
}

/// Asserts that the given node has the expected next index.
fn assert_node_next(core: &SeccCore<Items>, node: usize, next: usize) {
    assert_eq!(core.nodes[node].next, next);
}

/// Asserts that the given node's next index is the nil sentinel.
fn assert_node_next_nil(core: &SeccCore<Items>, node: usize) {
    assert_eq!(core.nodes[node].next, NIL_NODE);
}

/// Asserts the six list pointers of the channel.
fn assert_pointer_nodes(
    core: &SeccCore<Items>,
    queue_head: usize,
    queue_tail: usize,
    pool_head: usize,
    pool_tail: usize,
    skipped: usize,
    cursor: usize,
) {
    assert_eq!(queue_head, core.queue_head, " <== queue_head mismatch\n");
    assert_eq!(queue_tail, core.queue_tail, "<== queue_tail mismatch\n");
    assert_eq!(pool_head, core.pool_head, "<== pool_head mismatch\n");
    assert_eq!(pool_tail, core.pool_tail, " <== pool_tail mismatch\n");
    assert_eq!(skipped, core.skipped, " <== skipped mismatch\n");
    assert_eq!(cursor, core.cursor, " <== cursor mismatch\n");
}

/// Asserts the four statistics counters of the channel.
fn assert_counters(core: &SeccCore<Items>, pending: usize, receivable: usize, sent: usize, received: usize) {
    assert_eq!(pending, core.pending);
    assert_eq!(receivable, core.receivable);
    assert_eq!(sent, core.sent);
    assert_eq!(received, core.received);
}

#[test]
fn test_send_and_receive() {
    // This test checks the basic functionality of sending and receiving messages from the
    // channel in a single thread. This is used to verify basic functionality.
    let mut core: SeccCore<Items> = SeccCore::new(5);

    assert_eq!(7, core.nodes.len());
    assert_eq!(5, core.capacity);

    // Check the initial structure.
    assert_counters(&core, 0, 0, 0, 0);
    assert_node_next_nil(&core, 0);
    assert_node_next(&core, 6, 5);
    assert_node_next(&core, 5, 4);
    assert_node_next(&core, 4, 3);
    assert_node_next(&core, 3, 2);
    assert_node_next(&core, 2, 1);
    assert_node_next_nil(&core, 1);
    assert_pointer_nodes(&core, 0, 0, 6, 1, NIL_NODE, NIL_NODE);

    // Check that sending a message to the channel removes pool head and appends to queue
    // tail and changes nothing else in the node structure.
    assert_eq!(Ok(()), core.send(Items::A));
    assert_counters(&core, 1, 1, 1, 0);
    assert_node_next(&core, 0, 6);
    assert_node_next_nil(&core, 6);
    assert_node_next(&core, 5, 4);
    assert_node_next(&core, 4, 3);
    assert_node_next(&core, 3, 2);
    assert_node_next(&core, 2, 1);
    assert_node_next_nil(&core, 1);
    assert_pointer_nodes(&core, 0, 6, 5, 1, NIL_NODE, NIL_NODE);

    assert_eq!(Ok(()), core.send(Items::B));
    assert_counters(&core, 2, 2, 2, 0);
    assert_node_next(&core, 0, 6);
    assert_node_next(&core, 6, 5);
    assert_node_next_nil(&core, 5);
    assert_node_next(&core, 4, 3);
    assert_node_next(&core, 3, 2);
    assert_node_next(&core, 2, 1);
    assert_node_next_nil(&core, 1);
    assert_pointer_nodes(&core, 0, 5, 4, 1, NIL_NODE, NIL_NODE);

    assert_eq!(Ok(()), core.send(Items::C));
    assert_counters(&core, 3, 3, 3, 0);
    assert_node_next(&core, 0, 6);
    assert_node_next(&core, 6, 5);
    assert_node_next(&core, 5, 4);
    assert_node_next_nil(&core, 4);
    assert_node_next(&core, 3, 2);
    assert_node_next(&core, 2, 1);
    assert_node_next_nil(&core, 1);
    assert_pointer_nodes(&core, 0, 4, 3, 1, NIL_NODE, NIL_NODE);

    assert_eq!(Ok(()), core.send(Items::D));
    assert_counters(&core, 4, 4, 4, 0);
    assert_node_next(&core, 0, 6);
    assert_node_next(&core, 6, 5);
    assert_node_next(&core, 5, 4);
    assert_node_next(&core, 4, 3);
    assert_node_next_nil(&core, 3);
    assert_node_next(&core, 2, 1);
    assert_node_next_nil(&core, 1);
    assert_pointer_nodes(&core, 0, 3, 2, 1, NIL_NODE, NIL_NODE);

    assert_eq!(Ok(()), core.send(Items::E));
    assert_counters(&core, 5, 5, 5, 0);
    assert_node_next(&core, 0, 6);
    assert_node_next(&core, 6, 5);
    assert_node_next(&core, 5, 4);
    assert_node_next(&core, 4, 3);
    assert_node_next(&core, 3, 2);
    assert_node_next_nil(&core, 2);
    assert_node_next_nil(&core, 1);
    assert_pointer_nodes(&core, 0, 2, 1, 1, NIL_NODE, NIL_NODE);

    // Validate that we cannot fill the channel past its capacity.
    assert_eq!(Err(SeccErrors::Full(Items::F)), core.send(Items::F));
    assert_counters(&core, 5, 5, 5, 0);

    assert_eq!(Err(SeccErrors::Full(Items::F)), core.send(Items::F));
    assert_counters(&core, 5, 5, 5, 0);

    assert_eq!(Err(SeccErrors::Full(Items::F)), core.send(Items::F));
    assert_counters(&core, 5, 5, 5, 0);

    // Validate that receiving from the channel performs the proper pointer operations.
    assert_node_next(&core, 0, 6);
    assert_node_next(&core, 6, 5);
    assert_node_next(&core, 5, 4);
    assert_node_next(&core, 4, 3);
    assert_node_next(&core, 3, 2);
    assert_node_next_nil(&core, 2);
    assert_node_next_nil(&core, 1);
    assert_pointer_nodes(&core, 0, 2, 1, 1, NIL_NODE, NIL_NODE);

    assert_eq!(Ok(Items::A), core.receive());
    assert_counters(&core, 4, 4, 5, 1);
    assert_node_next(&core, 6, 5);
    assert_node_next(&core, 5, 4);
    assert_node_next(&core, 4, 3);
    assert_node_next(&core, 3, 2);
    assert_node_next_nil(&core, 2);
    assert_node_next(&core, 1, 0);
    assert_node_next_nil(&core, 0);
    assert_pointer_nodes(&core, 6, 2, 1, 0, NIL_NODE, NIL_NODE);

    assert_eq!(Ok(Items::B), core.receive());
    assert_counters(&core, 3, 3, 5, 2);
    assert_node_next(&core, 5, 4);
    assert_node_next(&core, 4, 3);
    assert_node_next(&core, 3, 2);
    assert_node_next_nil(&core, 2);
    assert_node_next(&core, 1, 0);
    assert_node_next(&core, 0, 6);
    assert_node_next_nil(&core, 6);
    assert_pointer_nodes(&core, 5, 2, 1, 6, NIL_NODE, NIL_NODE);

    assert_eq!(Ok(Items::C), core.receive());
    assert_counters(&core, 2, 2, 5, 3);
    assert_node_next(&core, 4, 3);
    assert_node_next(&core, 3, 2);
    assert_node_next_nil(&core, 2);
    assert_node_next(&core, 1, 0);
    assert_node_next(&core, 0, 6);
    assert_node_next(&core, 6, 5);
    assert_node_next_nil(&core, 5);
    assert_pointer_nodes(&core, 4, 2, 1, 5, NIL_NODE, NIL_NODE);

    assert_eq!(Ok(Items::D), core.receive());
    assert_counters(&core, 1, 1, 5, 4);
    assert_node_next(&core, 3, 2);
    assert_node_next_nil(&core, 2);
    assert_node_next(&core, 1, 0);
    assert_node_next(&core, 0, 6);
    assert_node_next(&core, 6, 5);
    assert_node_next(&core, 5, 4);
    assert_node_next_nil(&core, 4);
    assert_pointer_nodes(&core, 3, 2, 1, 4, NIL_NODE, NIL_NODE);

    assert_eq!(Ok(Items::E), core.receive());
    assert_counters(&core, 0, 0, 5, 5);
    assert_node_next_nil(&core, 2);
    assert_node_next(&core, 1, 0);
    assert_node_next(&core, 0, 6);
    assert_node_next(&core, 6, 5);
    assert_node_next(&core, 5, 4);
    assert_node_next(&core, 4, 3);
    assert_node_next_nil(&core, 3);
    assert_pointer_nodes(&core, 2, 2, 1, 3, NIL_NODE, NIL_NODE);

    // Validate that we cannot continue to receive from an empty channel and attempts
    // don't mangle the pointers.
    assert_eq!(Err(SeccErrors::Empty), core.receive());
    assert_counters(&core, 0, 0, 5, 5);
    assert_node_next_nil(&core, 2);
    assert_node_next(&core, 1, 0);
    assert_node_next(&core, 0, 6);
    assert_node_next(&core, 6, 5);
    assert_node_next(&core, 5, 4);
    assert_node_next(&core, 4, 3);
    assert_node_next_nil(&core, 3);
    assert_pointer_nodes(&core, 2, 2, 1, 3, NIL_NODE, NIL_NODE);

    assert_eq!(Err(SeccErrors::Empty), core.receive());
    assert_counters(&core, 0, 0, 5, 5);
    assert_node_next_nil(&core, 2);
    assert_node_next(&core, 1, 0);
    assert_node_next(&core, 0, 6);
    assert_node_next(&core, 6, 5);
    assert_node_next(&core, 5, 4);
    assert_node_next(&core, 4, 3);
    assert_node_next_nil(&core, 3);
    assert_pointer_nodes(&core, 2, 2, 1, 3, NIL_NODE, NIL_NODE);

    // Validate that after the channel is empty it can still be sent to and received from.
    assert_eq!(Ok(()), core.send(Items::F));
    assert_counters(&core, 1, 1, 6, 5);
    assert_node_next(&core, 2, 1);
    assert_node_next_nil(&core, 1);
    assert_node_next(&core, 0, 6);
    assert_node_next(&core, 6, 5);
    assert_node_next(&core, 5, 4);
    assert_node_next(&core, 4, 3);
    assert_node_next_nil(&core, 3);
    assert_pointer_nodes(&core, 2, 1, 0, 3, NIL_NODE, NIL_NODE);

    assert_eq!(Ok(Items::F), core.receive());
    assert_counters(&core, 0, 0, 6, 6);
    assert_node_next_nil(&core, 1);
    assert_node_next(&core, 0, 6);
    assert_node_next(&core, 6, 5);
    assert_node_next(&core, 5, 4);
    assert_node_next(&core, 4, 3);
    assert_node_next(&core, 3, 2);
    assert_node_next_nil(&core, 2);
    assert_pointer_nodes(&core, 1, 1, 0, 2, NIL_NODE, NIL_NODE);
}

#[test]
fn test_skipping() {
    // White-box check of the skip cursor: skipping walks the cursor down the
    // queue, a receive under the cursor excises the node from the middle of
    // the list, and a reset makes the skipped prefix receivable again.
    let mut core: SeccCore<Items> = SeccCore::new(5);

    assert_eq!(Ok(()), core.send(Items::A));
    assert_eq!(Ok(()), core.send(Items::B));
    assert_eq!(Ok(()), core.send(Items::C));
    assert_counters(&core, 3, 3, 3, 0);
    assert_pointer_nodes(&core, 0, 4, 3, 1, NIL_NODE, NIL_NODE);

    // Two skips put the cursor on the third message, its predecessor behind it.
    assert_eq!(Ok(()), core.skip());
    assert_counters(&core, 3, 2, 3, 0);
    assert_pointer_nodes(&core, 0, 4, 3, 1, 0, 6);
    assert_eq!(Ok(()), core.skip());
    assert_counters(&core, 3, 1, 3, 0);
    assert_pointer_nodes(&core, 0, 4, 3, 1, 6, 5);

    // Receiving under the cursor takes the node out of the middle: the
    // predecessor is re-linked around it and the node joins the pool tail.
    assert_eq!(Ok(Items::C), core.receive());
    assert_counters(&core, 2, 0, 3, 1);
    assert_node_next(&core, 0, 6);
    assert_node_next(&core, 6, 4);
    assert_node_next_nil(&core, 4);
    assert_node_next(&core, 1, 5);
    assert_node_next_nil(&core, 5);
    assert_pointer_nodes(&core, 0, 4, 3, 5, 6, 4);

    // With the cursor past the last message nothing is receivable even
    // though messages are pending.
    assert_eq!(Err(SeccErrors::Empty), core.receive());
    assert_counters(&core, 2, 0, 3, 1);

    // The reset walks the skipped prefix and re-exposes it in order.
    assert_eq!(Ok(()), core.reset_skip());
    assert_counters(&core, 2, 2, 3, 1);
    assert_pointer_nodes(&core, 0, 4, 3, 5, NIL_NODE, NIL_NODE);

    assert_eq!(Ok(Items::A), core.receive());
    assert_counters(&core, 1, 1, 3, 2);
    assert_pointer_nodes(&core, 6, 4, 3, 0, NIL_NODE, NIL_NODE);
    assert_eq!(Ok(Items::B), core.receive());
    assert_counters(&core, 0, 0, 3, 3);
    assert_pointer_nodes(&core, 4, 4, 3, 6, NIL_NODE, NIL_NODE);
    assert_eq!(Err(SeccErrors::Empty), core.receive());
}

#[test]
fn endpoints_send_and_receive() {
    let (sender, receiver) = create::<u32>(5);

    assert_eq!(5, sender.capacity());
    assert_eq!(5, receiver.capacity());
    assert_eq!(0, sender.pending());
    assert_eq!(0, sender.receivable());
    assert_eq!(0, sender.sent());
    assert_eq!(0, sender.received());

    assert_eq!(Ok(()), sender.send(11));
    assert_eq!(Ok(()), sender.send(12));
    assert_eq!(2, sender.pending());
    assert_eq!(2, receiver.receivable());
    assert_eq!(2, receiver.sent());
    assert_eq!(0, receiver.received());

    assert_eq!(Ok(11), receiver.receive());
    assert_eq!(Ok(12), receiver.receive());
    assert_eq!(Err(SeccErrors::Empty), receiver.receive());
    assert_eq!(0, receiver.pending());
    assert_eq!(0, receiver.receivable());
    assert_eq!(2, receiver.sent());
    assert_eq!(2, receiver.received());
}

#[test]
fn peek_returns_without_removing() {
    let (sender, receiver) = create::<u32>(5);
    assert_eq!(Err(SeccErrors::Empty), receiver.peek());
    assert_eq!(Ok(()), sender.send(42));
    assert_eq!(Ok(()), sender.send(43));
    assert_eq!(Ok(42), receiver.peek());
    assert_eq!(Ok(42), receiver.peek());
    assert_eq!(2, receiver.pending());
    assert_eq!(Ok(42), receiver.receive());
    assert_eq!(Ok(43), receiver.peek());
}

#[test]
fn pop_discards_next_message() {
    let (sender, receiver) = create::<u32>(3);
    assert_eq!(Err(SeccErrors::Empty), receiver.pop());
    assert_eq!(Ok(()), sender.send(1));
    assert_eq!(Ok(()), sender.send(2));
    assert_eq!(Ok(()), receiver.pop());
    assert_eq!(Ok(2), receiver.receive());
    assert_eq!(2, receiver.received());
}

#[test]
fn shared_handles_reach_one_channel() {
    let (sender, receiver) = secc::create_with_arcs::<u32>(4);
    let sender2 = sender.clone();
    let receiver2 = receiver.clone();
    assert_eq!(Ok(()), sender.send(7));
    assert_eq!(Ok(()), sender2.send(8));
    assert_eq!(2, receiver.pending());
    assert_eq!(Ok(7), receiver2.receive());
    assert_eq!(Ok(8), receiver.receive());
}
