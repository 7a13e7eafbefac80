//! Boundary behaviour: capacity one, empty-channel skips, and a cursor that
//! has run past every message.

use secc::NIL_NODE;
use secc::SeccCore;
use secc::SeccCoreOps;
use secc::SeccErrors;
use secc::create;

#[test]
fn capacity_one_alternation() {
    let (sender, receiver) = create::<u32>(1);
    assert_eq!(Ok(()), sender.send(1));
    assert_eq!(Err(SeccErrors::Full(2)), sender.send(2));
    assert_eq!(Ok(1), receiver.receive());
    assert_eq!(Ok(()), sender.send(2));
    assert_eq!(Err(SeccErrors::Full(3)), sender.send(3));
    assert_eq!(Ok(2), receiver.receive());
    assert_eq!(Err(SeccErrors::Empty), receiver.receive());
}

#[test]
fn skip_on_empty_channel_sets_no_cursor() {
    let mut core: SeccCore<u32> = SeccCore::new(5);
    assert_eq!(Err(SeccErrors::Empty), core.skip());
    assert_eq!(NIL_NODE, core.cursor);
    assert_eq!(NIL_NODE, core.skipped);
    assert_eq!(0, core.pending);
    assert_eq!(0, core.receivable);
}

#[test]
fn cursor_past_last_message_reports_empty() {
    let mut core: SeccCore<u32> = SeccCore::new(5);
    assert_eq!(Ok(()), core.send(9));
    assert_eq!(Ok(()), core.skip());
    // The cursor now stands past the only message.
    assert!(core.cursor != NIL_NODE);
    assert_eq!(Err(SeccErrors::Empty), core.receive());
    assert_eq!(1, core.pending);
    assert_eq!(0, core.receivable);
}

#[test]
fn empty_and_full_are_reported_exactly() {
    let (sender, receiver) = create::<u32>(2);
    assert_eq!(Err(SeccErrors::Empty), receiver.receive());
    assert_eq!(Err(SeccErrors::Empty), receiver.peek());
    assert_eq!(Err(SeccErrors::Empty), receiver.pop());
    assert_eq!(Err(SeccErrors::Empty), receiver.skip());
    assert_eq!(Ok(()), sender.send(1));
    assert_eq!(Ok(()), sender.send(2));
    assert_eq!(Err(SeccErrors::Full(3)), sender.send(3));
    assert_eq!(2, sender.pending());
}

#[test]
fn waits_are_recorded() {
    let (sender, receiver) = create::<u32>(1);
    assert_eq!(0, sender.awaited_capacity());
    assert_eq!(0, receiver.awaited_messages());
    sender.record_capacity_wait();
    sender.record_capacity_wait();
    receiver.record_message_wait();
    assert_eq!(2, receiver.awaited_capacity());
    assert_eq!(1, sender.awaited_messages());
}
