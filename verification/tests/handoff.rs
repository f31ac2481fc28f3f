use iocp_handoff::container_of::ContainerOf;
use iocp_handoff::handlers::AfdPoll;
use iocp_handoff::handlers::PipeRead;
use iocp_handoff::iocp::Arena;
use iocp_handoff::iocp::EventDispatch;
use iocp_handoff::iocp::EventHandler;
use iocp_handoff::iocp::EventState;
use iocp_handoff::iocp::OVERLAPPED;
use iocp_handoff::iocp::ANCHOR_STRIDE;
use iocp_handoff::iocp::ARENA_BASE;
use iocp_handoff::iocp::RECORD_OFFSET;
use iocp_handoff::iocp::RECORD_SIZE;

#[test]
fn offset_is_stable_and_consistent_with_layout() {
    let first = <EventState<AfdPoll> as ContainerOf<OVERLAPPED>>::member_offset();
    let second = <EventState<AfdPoll> as ContainerOf<OVERLAPPED>>::member_offset();
    assert_eq!(first, second);
    assert_eq!(first, RECORD_OFFSET);
    // The record's address range lies fully within the anchor's.
    assert!(RECORD_OFFSET + RECORD_SIZE <= ANCHOR_STRIDE);
    // The same offset holds for an anchor of another handler type.
    let other = <EventState<PipeRead> as ContainerOf<OVERLAPPED>>::member_offset();
    assert_eq!(other, RECORD_OFFSET);
}

#[test]
fn record_addresses_are_stable_and_distinct() {
    let mut arena: Arena<AfdPoll> = Arena::new();
    let d1 = EventState::dispatch(&mut arena, AfdPoll { bits: 1 });
    let d2 = EventState::dispatch(&mut arena, AfdPoll { bits: 2 });
    // First slot: base + offset; second slot: one stride further.
    assert_eq!(d1.overlapped(), ARENA_BASE + RECORD_OFFSET);
    assert_eq!(d2.overlapped(), ARENA_BASE + ANCHOR_STRIDE + RECORD_OFFSET);
    // The address getter is read-only and repeatable.
    assert_eq!(d1.overlapped(), d1.overlapped());
    d1.pending();
    d2.pending();
    let r1 = EventState::complete(&mut arena, ARENA_BASE + RECORD_OFFSET);
    let r2 = EventState::complete(&mut arena, ARENA_BASE + ANCHOR_STRIDE + RECORD_OFFSET);
    assert_eq!(r1, 1);
    assert_eq!(r2, 2);
}

#[test]
fn two_pending_handlers_complete_in_reverse_order() {
    let mut arena: Arena<PipeRead> = Arena::new();
    let d_foo = EventState::dispatch(&mut arena, PipeRead { text: String::from("foo") });
    let d_bar = EventState::dispatch(&mut arena, PipeRead { text: String::from("bar") });
    let addr_foo = d_foo.overlapped();
    let addr_bar = d_bar.overlapped();
    d_foo.pending();
    d_bar.pending();
    // Complete in reverse order of dispatch: each completion fires exactly
    // once with its own payload, unaffected by ordering.
    let out_bar = EventState::complete(&mut arena, addr_bar);
    assert_eq!(out_bar, "bar");
    let out_foo = EventState::complete(&mut arena, addr_foo);
    assert_eq!(out_foo, "foo");
}

#[test]
fn failed_dispatch_returns_handler_with_payload_unchanged() {
    let mut arena: Arena<AfdPoll> = Arena::new();
    let d = EventState::dispatch(&mut arena, AfdPoll { bits: 1234 });
    let handler = d.failed(&mut arena);
    // The payload is exactly what was captured at construction; the
    // completion logic has never executed.
    assert_eq!(handler.bits, 1234);
}

#[test]
fn failed_and_pending_interleave_on_one_arena() {
    let mut arena: Arena<AfdPoll> = Arena::new();
    let d1 = EventState::dispatch(&mut arena, AfdPoll { bits: 7 });
    let d2 = EventState::dispatch(&mut arena, AfdPoll { bits: 8 });
    let addr1 = d1.overlapped();
    d1.pending();
    let failed = d2.failed(&mut arena);
    assert_eq!(failed.bits, 8);
    // The failure of one dispatch does not disturb a disjoint pending one.
    let out = EventState::complete(&mut arena, addr1);
    assert_eq!(out, 7);
}

#[test]
fn arena_len_counts_every_dispatched_anchor() {
    let mut arena: Arena<PipeRead> = Arena::new();
    assert_eq!(arena.len(), 0);
    let d = EventState::dispatch(&mut arena, PipeRead { text: String::from("one") });
    assert_eq!(arena.len(), 1);
    let addr = d.overlapped();
    d.pending();
    // Recovery empties the anchor but the slot stays allocated.
    let _ = EventState::complete(&mut arena, addr);
    assert_eq!(arena.len(), 1);
}

#[test]
fn dispatch_sugar_behaves_like_the_anchor_entry_point() {
    let mut arena: Arena<PipeRead> = Arena::new();
    let d = PipeRead { text: String::from("sugar") }.dispatch(&mut arena);
    assert_eq!(d.overlapped(), ARENA_BASE + RECORD_OFFSET);
    let addr = d.overlapped();
    d.pending();
    let out = EventState::complete(&mut arena, addr);
    assert_eq!(out, "sugar");
}

#[test]
fn completion_logic_yields_the_captured_payload() {
    let poll = AfdPoll { bits: 5 };
    assert_eq!(poll.complete(), 5);
    let read = PipeRead { text: String::from("payload") };
    assert_eq!(read.complete(), "payload");
}

#[test]
fn empty_anchor_and_record_construction() {
    let state: EventState<AfdPoll> = EventState::new();
    let record: &OVERLAPPED = state.member();
    let _ = record;
    let fresh: EventState<PipeRead> = EventState::default();
    let _ = fresh.member();
    let _record = OVERLAPPED::new();
    let _default_record = OVERLAPPED::default();
}
