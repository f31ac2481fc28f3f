//! The completion anchor, the linear hand-off guard and the handler contract.
//!
//! An `EventState` (the anchor) physically contains the completion record and
//! optionally owns a handler while an operation is in flight. Armed anchors
//! live in an `Arena`, the stand-in for the memory that the completion-port
//! side sees: each slot has a stable anchor address, and only the embedded
//! record's bare address crosses the boundary. The address is later mapped
//! back to the anchor by offset recovery, the handler is taken out of the
//! ownership slot exactly once, and its completion logic is invoked.

use vstd::prelude::*;

use crate::container_of::ContainerOf;
use crate::container_of::recover_from_field_address;
use vstd::arithmetic::div_mod::lemma_fundamental_div_mod;
use vstd::arithmetic::div_mod::lemma_div_multiples_vanish;
use vstd::arithmetic::div_mod::lemma_mod_multiples_basic;

verus! {

/// Stand-in for the OS-defined fixed-layout completion record. Its contents
/// are never interpreted here; only its address and its offset within the
/// anchor matter.
pub struct OVERLAPPED {
    internal: i64,
    internal_high: i32,
}

impl OVERLAPPED {
    /// Whether every field of the record holds its initial zero value.
    pub closed spec fn is_zeroed(&self) -> bool {
        self.internal == 0 && self.internal_high == 0
    }

    /// A freshly zero-initialized completion record.
    pub fn new() -> (r: Self)
        ensures
            r.is_zeroed(),
    {
        OVERLAPPED { internal: 0, internal_high: 0 }
    }
}

impl Default for OVERLAPPED {
    fn default() -> (r: Self)
        ensures
            r.is_zeroed(),
    {
        OVERLAPPED::new()
    }
}

/// Model layout of the anchor type: the byte offset of the embedded record
/// within the anchor, the record's size, and the anchor's size and alignment.
pub const RECORD_OFFSET: usize = 16;

/// Size in bytes of the completion record within the model layout.
pub const RECORD_SIZE: usize = 16;

/// Size in bytes of one anchor, which is also the distance between the
/// anchor addresses of two adjacent arena slots.
pub const ANCHOR_STRIDE: usize = 64;

/// Alignment in bytes of the anchor type.
pub const ANCHOR_ALIGN: usize = 8;

/// Address of the first anchor slot of an arena.
pub const ARENA_BASE: usize = 4096;

/// Largest number of anchors an arena may hold; keeps every record address
/// representable in a machine word.
pub const ARENA_CAPACITY: usize = 65536;

/// The completion anchor: contains exactly one completion record at a stable,
/// type-determined byte offset, plus an ownership slot for a handler. The
/// slot is occupied exactly while an operation is in flight or has completed
/// but not yet been recovered.
pub struct EventState<T> {
    event_handler: Option<T>,
    overlapped: OVERLAPPED,
}

impl<T> EventState<T> {
    /// Whether the ownership slot is occupied: an operation is in flight or
    /// has completed but has not yet been recovered.
    pub closed spec fn is_armed(&self) -> bool {
        self.event_handler is Some
    }

    /// The handler currently held in the ownership slot.
    pub closed spec fn handler(&self) -> T
        recommends
            self.is_armed(),
    {
        self.event_handler->Some_0
    }

    /// The embedded completion record.
    pub closed spec fn record(&self) -> OVERLAPPED {
        self.overlapped
    }

    /// An empty anchor with a freshly zero-initialized completion record.
    pub fn new() -> (r: Self)
        ensures
            !r.is_armed(),
            r.record().is_zeroed(),
    {
        EventState { event_handler: None, overlapped: OVERLAPPED::new() }
    }

    /// Move a handler into the ownership slot. Re-arming an already armed
    /// anchor is a fatal contract violation, so the anchor must be empty.
    fn embed_event_handler(&mut self, event_handler: T)
        requires
            !old(self).is_armed(),
        ensures
            final(self).is_armed(),
            final(self).handler() == event_handler,
            final(self).record() == old(self).record(),
    {
        self.event_handler = Some(event_handler);
    }

    /// Take the handler out of the ownership slot, restoring the anchor to
    /// empty. Taking from an empty anchor is a fatal contract violation, so
    /// the anchor must be armed.
    fn extract_event_handler(&mut self) -> (r: T)
        requires
            old(self).is_armed(),
        ensures
            !final(self).is_armed(),
            r == old(self).handler(),
            final(self).record() == old(self).record(),
    {
        let taken: Option<T> = self.event_handler.take();
        taken.unwrap()
    }
}

impl<T> Default for EventState<T> {
    fn default() -> (r: Self)
        ensures
            !r.is_armed(),
            r.record().is_zeroed(),
    {
        EventState::new()
    }
}

impl<T> ContainerOf<OVERLAPPED> for EventState<T> {
    closed spec fn member_offset_spec() -> usize {
        RECORD_OFFSET
    }

    closed spec fn container_size_spec() -> usize {
        ANCHOR_STRIDE
    }

    closed spec fn member_size_spec() -> usize {
        RECORD_SIZE
    }

    closed spec fn container_align_spec() -> usize {
        ANCHOR_ALIGN
    }

    proof fn layout_wf() {
    }

    closed spec fn member_spec(&self) -> OVERLAPPED {
        self.overlapped
    }

    fn member(&self) -> (r: &OVERLAPPED) {
        &self.overlapped
    }

    fn member_offset() -> (r: usize) {
        RECORD_OFFSET
    }
}

/// Address of the anchor in arena slot `i`.
pub open spec fn anchor_address_spec(i: int) -> int {
    ARENA_BASE + i * ANCHOR_STRIDE
}

/// Address of the completion record embedded in the anchor of arena slot `i`;
/// the one value that crosses the boundary to the completion-port side.
pub open spec fn record_address_spec(i: int) -> int {
    anchor_address_spec(i) + RECORD_OFFSET
}

/// The arena slot whose record has the given address.
pub open spec fn slot_index_of(addr: int) -> int {
    (addr - ARENA_BASE - RECORD_OFFSET) / (ANCHOR_STRIDE as int)
}

/// Whether `addr` is the record address of one of the first `n` arena slots:
/// it lies at or past the first record, it is offset from it by a whole
/// number of strides, and the slot it names exists.
pub open spec fn valid_record_address(n: nat, addr: int) -> bool {
    &&& ARENA_BASE + RECORD_OFFSET <= addr
    &&& (addr - ARENA_BASE - RECORD_OFFSET) % (ANCHOR_STRIDE as int) == 0
    &&& slot_index_of(addr) < n
}

/// The record address of slot `i` is valid for any arena holding more than
/// `i` slots, and recovering a slot from that address finds `i` again: every
/// armed anchor stays reachable through its record address.
pub proof fn lemma_record_address_round_trip(i: int, n: nat)
    requires
        0 <= i < n,
    ensures
        valid_record_address(n, record_address_spec(i)),
        slot_index_of(record_address_spec(i)) == i,
{
    let stride: int = ANCHOR_STRIDE as int;
    assert(record_address_spec(i) - ARENA_BASE - RECORD_OFFSET == i * stride);
    lemma_mod_multiples_basic(i, stride);
    lemma_div_multiples_vanish(i, stride);
    assert((stride * i) / stride == i);
    assert(i * stride == stride * i) by (nonlinear_arith);
    assert(i * stride >= 0) by (nonlinear_arith)
        requires
            i >= 0,
            stride > 0,
    ;
}

/// What a valid record address gives: the slot it names, the fact that it is
/// exactly that slot's record address, and the underflow and alignment
/// conditions that offset recovery demands.
pub proof fn lemma_valid_address_facts(n: nat, addr: int)
    requires
        valid_record_address(n, addr),
    ensures
        0 <= slot_index_of(addr) < n,
        addr == record_address_spec(slot_index_of(addr)),
        addr > RECORD_OFFSET,
        (addr - RECORD_OFFSET) % (ANCHOR_ALIGN as int) == 0,
        (addr - RECORD_OFFSET - ARENA_BASE) / (ANCHOR_STRIDE as int) == slot_index_of(addr),
{
    let stride: int = ANCHOR_STRIDE as int;
    let d: int = addr - ARENA_BASE - RECORD_OFFSET;
    let q: int = d / stride;
    lemma_fundamental_div_mod(d, stride);
    assert(d == stride * q);
    assert(q >= 0) by (nonlinear_arith)
        requires
            d >= 0,
            stride > 0,
            d == stride * q,
    ;
    assert(addr - RECORD_OFFSET == ARENA_BASE + stride * q);
    assert(ARENA_BASE + stride * q == (ANCHOR_ALIGN as int) * (512 + 8 * q));
    lemma_mod_multiples_basic(512 + 8 * q, ANCHOR_ALIGN as int);
    assert(anchor_address_spec(q) == ARENA_BASE + q * stride);
    assert(q * stride == stride * q) by (nonlinear_arith);
}

/// The contract a concrete operation kind implements: completion consumes the
/// handler by ownership and performs the variant-specific finalization,
/// producing the completion outcome. This is the only place variant-specific
/// behavior executes.
pub trait EventHandler: Sized {
    /// What the variant-specific completion logic produces.
    type Completion;

    /// The outcome that completing this handler yields, determined entirely
    /// by the state the handler captured at construction.
    spec fn completion_spec(&self) -> Self::Completion;

    /// Consume the handler and run its completion logic exactly once.
    fn complete(self) -> (r: Self::Completion)
        ensures
            r == self.completion_spec(),
    ;
}

/// The memory in which armed anchors live while their operations are in
/// flight: a slot map keyed by the stable addresses that `anchor_address_spec`
/// assigns. Once an anchor is armed, its slot is never dropped by any other
/// path; it is reachable only through its record's address until recovery.
pub struct Arena<T> {
    slots: Vec<EventState<T>>,
}

impl<T> View for Arena<T> {
    type V = Seq<EventState<T>>;

    closed spec fn view(&self) -> Seq<EventState<T>> {
        self.slots@
    }
}

impl<T> Arena<T> {
    /// An arena with no anchors.
    pub fn new() -> (r: Self)
        ensures
            r@.len() == 0,
    {
        Arena { slots: Vec::new() }
    }

    /// How many anchors the arena has ever held.
    pub fn len(&self) -> (r: usize)
        ensures
            r == self@.len(),
    {
        self.slots.len()
    }
}

/// How one dispatch changes the arena: a new anchor is appended, armed with
/// the dispatched handler, and every existing anchor is untouched.
pub open spec fn dispatch_transition<T>(
    pre: Seq<EventState<T>>,
    post: Seq<EventState<T>>,
    event_handler: T,
) -> bool {
    &&& post.len() == pre.len() + 1
    &&& post[pre.len() as int].is_armed()
    &&& post[pre.len() as int].handler() == event_handler
    &&& forall|j: int| 0 <= j < pre.len() ==> post[j] == pre[j]
}

/// How one recovery (resolving as failed, or completing) changes the arena:
/// the anchor in slot `i` goes from armed to empty, keeping its record, and
/// every other anchor is untouched.
pub open spec fn recover_transition<T>(
    pre: Seq<EventState<T>>,
    post: Seq<EventState<T>>,
    i: int,
) -> bool {
    &&& 0 <= i < pre.len()
    &&& pre[i].is_armed()
    &&& post.len() == pre.len()
    &&& !post[i].is_armed()
    &&& post[i].record() == pre[i].record()
    &&& forall|j: int| 0 <= j < pre.len() && j != i ==> post[j] == pre[j]
}

impl<T: EventHandler> EventState<T> {
    /// Begin dispatch: embed the handler in a fresh anchor, install the
    /// anchor in the arena, and return the hand-off guard carrying the bare
    /// record address. The caller must then resolve the guard exactly once.
    pub fn dispatch(arena: &mut Arena<T>, event_handler: T) -> (d: Dispatch<T>)
        requires
            old(arena)@.len() < ARENA_CAPACITY,
        ensures
            dispatch_transition(old(arena)@, final(arena)@, event_handler),
            d.addr_spec() == record_address_spec(old(arena)@.len() as int),
            d.handler_spec() == event_handler,
            valid_record_address(final(arena)@.len() as nat, d.addr_spec() as int),
            slot_index_of(d.addr_spec() as int) == old(arena)@.len() as int,
    {
        let ghost dispatched: T = event_handler;
        let mut state: EventState<T> = EventState::new();
        state.embed_event_handler(event_handler);
        let index: usize = arena.slots.len();
        let overlapped: usize = ARENA_BASE + index * ANCHOR_STRIDE + RECORD_OFFSET;
        arena.slots.push(state);
        proof {
            lemma_record_address_round_trip(index as int, arena@.len() as nat);
        }
        Dispatch { overlapped, event_handler: Ghost(dispatched) }
    }

    /// Break the pairing of a guard's record address with its armed anchor:
    /// recover the anchor by offset arithmetic, take the handler out of the
    /// ownership slot and return it, leaving the anchor empty.
    fn undispatch(arena: &mut Arena<T>, overlapped: usize) -> (r: T)
        requires
            valid_record_address(old(arena)@.len() as nat, overlapped as int),
            old(arena)@[slot_index_of(overlapped as int)].is_armed(),
        ensures
            recover_transition(old(arena)@, final(arena)@, slot_index_of(overlapped as int)),
            r == old(arena)@[slot_index_of(overlapped as int)].handler(),
    {
        proof {
            lemma_valid_address_facts(old(arena)@.len() as nat, overlapped as int);
        }
        let anchor_addr: usize =
            recover_from_field_address::<EventState<T>, OVERLAPPED>(overlapped);
        let index: usize = (anchor_addr - ARENA_BASE) / ANCHOR_STRIDE;
        let slot: &mut EventState<T> = &mut arena.slots[index];
        slot.extract_event_handler()
    }

    /// The sole entry point the external completion consumer calls when the
    /// record at `overlapped` is reported complete: recover the handler from
    /// the bare address and invoke its completion logic, consuming it. The
    /// address must name an armed anchor; completing an anchor twice, or one
    /// already resolved as failed, is a fatal contract violation.
    pub fn complete(arena: &mut Arena<T>, overlapped: usize) -> (r: T::Completion)
        requires
            valid_record_address(old(arena)@.len() as nat, overlapped as int),
            old(arena)@[slot_index_of(overlapped as int)].is_armed(),
        ensures
            recover_transition(old(arena)@, final(arena)@, slot_index_of(overlapped as int)),
            r == old(arena)@[slot_index_of(overlapped as int)].handler().completion_spec(),
    {
        let event_handler: T = EventState::undispatch(arena, overlapped);
        event_handler.complete()
    }
}

/// The hand-off guard: a linear value constructed only by a successful
/// dispatch, carrying the bare record address and, as a compile-time tag, the
/// concrete handler type it was constructed from. Exactly one of `pending`
/// and `failed` consumes it; taking it by value makes a second resolution
/// unrepresentable.
pub struct Dispatch<T> {
    overlapped: usize,
    event_handler: Ghost<T>,
}

impl<T: EventHandler> Dispatch<T> {
    /// The bare record address the guard carries.
    pub closed spec fn addr_spec(&self) -> usize {
        self.overlapped
    }

    /// The handler that was embedded when this guard was constructed.
    pub closed spec fn handler_spec(&self) -> T {
        self.event_handler@
    }

    /// The record address to hand to the external asynchronous-operation
    /// call; read-only and callable any number of times.
    pub fn overlapped(&self) -> (r: usize)
        ensures
            r == self.addr_spec(),
    {
        self.overlapped
    }

    /// Resolve as pending: the operation started, so ownership of the armed
    /// anchor now belongs exclusively to the eventual completion. The guard
    /// is consumed and the address is relinquished; nothing derived from the
    /// anchor is retained, since the completion may already be racing on
    /// another execution context.
    pub fn pending(self) {
    }

    /// Resolve as failed: the operation never started, so recover the
    /// handler immediately and return ownership to the caller, with its
    /// state exactly as captured at construction and its completion logic
    /// never invoked. The guard must still be paired with its armed anchor.
    pub fn failed(self, arena: &mut Arena<T>) -> (r: T)
        requires
            valid_record_address(old(arena)@.len() as nat, self.addr_spec() as int),
            old(arena)@[slot_index_of(self.addr_spec() as int)].is_armed(),
            old(arena)@[slot_index_of(self.addr_spec() as int)].handler()
                == self.handler_spec(),
        ensures
            recover_transition(old(arena)@, final(arena)@, slot_index_of(self.addr_spec() as int)),
            r == self.handler_spec(),
    {
        EventState::undispatch(arena, self.overlapped)
    }
}

/// Convenience capability: any handler can begin dispatch directly, purely as
/// sugar over `EventState::dispatch`.
pub trait EventDispatch<T> where T: EventHandler {
    /// Embed this handler in a fresh anchor of the arena and return the
    /// hand-off guard for it.
    #[must_use]
    fn dispatch(self, arena: &mut Arena<T>) -> (d: Dispatch<T>)
        requires
            old(arena)@.len() < ARENA_CAPACITY,
        ensures
            final(arena)@.len() == old(arena)@.len() + 1,
            final(arena)@[old(arena)@.len() as int].is_armed(),
            forall|j: int| 0 <= j < old(arena)@.len() ==> final(arena)@[j] == old(arena)@[j],
            d.addr_spec() == record_address_spec(old(arena)@.len() as int),
            valid_record_address(final(arena)@.len() as nat, d.addr_spec() as int),
            slot_index_of(d.addr_spec() as int) == old(arena)@.len() as int,
    ;
}

impl<T: EventHandler> EventDispatch<T> for T {
    fn dispatch(self, arena: &mut Arena<T>) -> (d: Dispatch<T>) {
        EventState::<T>::dispatch(arena, self)
    }
}

/// Any single operation on an arena: a dispatch of some handler, a recovery
/// of some anchor (resolving as failed, or completing), or a step that
/// leaves the arena untouched (resolving as pending, or reading an address).
pub open spec fn arena_step<T>(pre: Seq<EventState<T>>, post: Seq<EventState<T>>) -> bool {
    ||| post == pre
    ||| (exists|event_handler: T| dispatch_transition(pre, post, event_handler))
    ||| (exists|i: int| recover_transition(pre, post, i))
}

/// A sequence of arena states in which each state follows from the previous
/// one by a single operation.
pub open spec fn arena_run<T>(tr: Seq<Seq<EventState<T>>>) -> bool {
    forall|k: int|
        0 <= k < tr.len() - 1 ==> #[trigger] arena_step(tr[k], tr[k + 1])
}

/// No operation shrinks the arena, and once an anchor's handler has been
/// recovered, no operation arms that anchor again.
pub proof fn lemma_empty_anchor_stays_empty<T>(
    pre: Seq<EventState<T>>,
    post: Seq<EventState<T>>,
    i: int,
)
    requires
        arena_step(pre, post),
        0 <= i < pre.len(),
        !pre[i].is_armed(),
    ensures
        pre.len() <= post.len(),
        !post[i].is_armed(),
{
    if post == pre {
    } else if exists|event_handler: T| dispatch_transition(pre, post, event_handler) {
        let event_handler: T = choose|event_handler: T|
            dispatch_transition(pre, post, event_handler);
        assert(post[i] == pre[i]);
    } else {
        let j: int = choose|j: int| recover_transition(pre, post, j);
        assert(j != i);
        assert(post[i] == pre[i]);
    }
}

/// An anchor that is still armed after an operation was not the one the
/// operation recovered, so it holds exactly the handler it held before.
pub proof fn lemma_armed_handler_preserved<T>(
    pre: Seq<EventState<T>>,
    post: Seq<EventState<T>>,
    i: int,
)
    requires
        arena_step(pre, post),
        0 <= i < pre.len(),
        post[i].is_armed(),
    ensures
        pre.len() <= post.len(),
        pre[i].is_armed(),
        post[i].handler() == pre[i].handler(),
{
    if post == pre {
    } else if exists|event_handler: T| dispatch_transition(pre, post, event_handler) {
        let event_handler: T = choose|event_handler: T|
            dispatch_transition(pre, post, event_handler);
        assert(post[i] == pre[i]);
    } else {
        let j: int = choose|j: int| recover_transition(pre, post, j);
        assert(j != i);
        assert(post[i] == pre[i]);
    }
}

/// No single operation shrinks the arena.
pub proof fn lemma_step_keeps_anchors<T>(pre: Seq<EventState<T>>, post: Seq<EventState<T>>)
    requires
        arena_step(pre, post),
    ensures
        pre.len() <= post.len(),
{
    if post == pre {
    } else if exists|event_handler: T| dispatch_transition(pre, post, event_handler) {
        let event_handler: T = choose|event_handler: T|
            dispatch_transition(pre, post, event_handler);
    } else {
        let j: int = choose|j: int| recover_transition(pre, post, j);
    }
}

/// No sequence of operations shrinks the arena: an anchor once installed has
/// a slot for as long as the arena lives.
pub proof fn lemma_run_keeps_anchors<T>(tr: Seq<Seq<EventState<T>>>, k1: int, k2: int)
    requires
        arena_run(tr),
        0 <= k1 <= k2 < tr.len(),
    ensures
        tr[k1].len() <= tr[k2].len(),
    decreases k2 - k1,
{
    if k2 > k1 {
        lemma_run_keeps_anchors(tr, k1, k2 - 1);
        assert(arena_step(tr[k2 - 1], tr[k2 - 1 + 1]));
        lemma_step_keeps_anchors(tr[k2 - 1], tr[k2]);
    }
}

/// While an anchor stays armed across any sequence of dispatch, resolve and
/// complete operations, the handler it holds — and so the payload its
/// completion will deliver — is exactly the one embedded when it was armed,
/// unaffected by operations on disjoint anchors and by their order.
pub proof fn lemma_armed_handler_intact<T>(
    tr: Seq<Seq<EventState<T>>>,
    i: int,
    k1: int,
    k2: int,
)
    requires
        arena_run(tr),
        0 <= k1 <= k2 < tr.len(),
        0 <= i < tr[k1].len(),
        tr[k2][i].is_armed(),
    ensures
        tr[k1][i].is_armed(),
        tr[k2][i].handler() == tr[k1][i].handler(),
    decreases k2 - k1,
{
    if k2 > k1 {
        lemma_run_keeps_anchors(tr, k1, k2 - 1);
        assert(arena_step(tr[k2 - 1], tr[k2 - 1 + 1]));
        if !tr[k2 - 1][i].is_armed() {
            lemma_empty_anchor_stays_empty(tr[k2 - 1], tr[k2], i);
        }
        lemma_armed_handler_preserved(tr[k2 - 1], tr[k2], i);
        lemma_armed_handler_intact(tr, i, k1, k2 - 1);
    }
}

/// Across any sequence of dispatch, resolve and complete operations, an
/// anchor whose handler has been recovered stays empty forever. A recovery
/// requires an armed anchor, so no handler is ever recovered — and hence no
/// handler's completion logic ever runs — more than once per arming.
pub proof fn lemma_completion_runs_at_most_once<T>(
    tr: Seq<Seq<EventState<T>>>,
    i: int,
    k1: int,
    k2: int,
)
    requires
        arena_run(tr),
        0 <= k1 <= k2 < tr.len(),
        0 <= i < tr[k1].len(),
        !tr[k1][i].is_armed(),
    ensures
        i < tr[k2].len(),
        !tr[k2][i].is_armed(),
    decreases k2 - k1,
{
    if k2 > k1 {
        lemma_completion_runs_at_most_once(tr, i, k1, k2 - 1);
        assert(arena_step(tr[k2 - 1], tr[k2 - 1 + 1]));
        assert(arena_step(tr[k2 - 1], tr[k2]));
        lemma_empty_anchor_stays_empty(tr[k2 - 1], tr[k2], i);
    }
}

/// No anchor is ever left armed with no recovery path reachable: every armed
/// anchor of the arena is named by a valid record address, and recovering
/// from that address finds exactly that anchor again.
pub proof fn lemma_armed_anchor_recoverable<T>(s: Seq<EventState<T>>, i: int)
    requires
        0 <= i < s.len(),
        s[i].is_armed(),
    ensures
        valid_record_address(s.len() as nat, record_address_spec(i)),
        slot_index_of(record_address_spec(i)) == i,
        recover_transition(s, s.update(i, empty_anchor(s[i])), i),
{
    lemma_record_address_round_trip(i, s.len() as nat);
}

/// The anchor as recovery leaves it: the ownership slot empty, the record
/// untouched.
pub closed spec fn empty_anchor<T>(state: EventState<T>) -> EventState<T> {
    EventState { event_handler: None, overlapped: state.overlapped }
}

} // verus!
