//! Core bus primitives.
use vstd::prelude::*;

verus! {

/// Canonical SNES address type.
pub type Address = u32;

/// Memory access direction for traces.
#[derive(Debug, Clone, Copy, PartialEq, Eq, Structural)]
pub enum AccessKind {
    /// Read access.
    Read,
    /// Write access.
    Write,
    /// Idle or wait cycle with no meaningful bus transfer.
    Wait,
}

/// A single bus event captured for correctness work.
#[derive(Debug, Clone, Copy, PartialEq, Eq, Structural)]
pub struct BusEvent {
    /// Absolute address.
    pub address: Address,
    /// Value observed on the bus.
    pub value: u8,
    /// Read or write.
    pub access: AccessKind,
    /// Master clock tick associated with the event.
    pub cycle: u64,
}

/// Minimal bus interface used by the CPU cores.
pub trait Bus {
    /// The part of the bus state that reads and writes leave alone (for the system bus, whether
    /// a cartridge is installed and the timing position); nothing, unless an implementation
    /// says otherwise.
    open spec fn kept(&self) -> Seq<int> {
        Seq::empty()
    }

    /// That reading `address` gives `value` and leaves `after` behind; anything, unless an
    /// implementation says more.
    open spec fn read_gives(&self, address: Address, value: u8, after: &Self) -> bool {
        true
    }

    /// Read one byte.
    fn read(&mut self, address: Address) -> (value: u8)
        ensures
            final(self).kept() == old(self).kept(),
            old(self).read_gives(address, value, final(self));

    /// That writing `value` to `address` leaves `after` behind; anything, unless an
    /// implementation says more.
    open spec fn write_gives(&self, address: Address, value: u8, after: &Self) -> bool {
        true
    }

    /// Write one byte.
    fn write(&mut self, address: Address, value: u8)
        ensures
            final(self).kept() == old(self).kept(),
            old(self).write_gives(address, value, final(self));
}

/// One traced event as a step of the bus from `before` to `after`: a read that gave the
/// event's value, a write of it, or an idle cycle that left the bus alone.
pub open spec fn event_step<B: Bus>(before: B, e: BusEvent, after: B) -> bool {
    match e.access {
        AccessKind::Read => before.read_gives(e.address, e.value, &after),
        AccessKind::Write => before.write_gives(e.address, e.value, &after),
        AccessKind::Wait => before == after,
    }
}

/// The bus went from `start` to `end` through the events of `events`, in order.
pub open spec fn bus_steps<B: Bus>(start: B, events: Seq<BusEvent>, end: B) -> bool {
    exists|states: Seq<B>| {
        &&& states.len() == events.len() + 1
        &&& states[0] == start
        &&& states.last() == end
        &&& forall|i: int| 0 <= i < events.len() ==> event_step(states[i], #[trigger] events[i], states[i + 1])
    }
}

/// Every run of bus steps that reached `b0` with the events `t0` goes on to reach `b1` with the
/// events `t1`.
pub open spec fn steps_continue<B: Bus>(b0: B, t0: Seq<BusEvent>, b1: B, t1: Seq<BusEvent>) -> bool {
    forall|s: B| #[trigger] bus_steps(s, t0, b0) ==> bus_steps(s, t1, b1)
}

/// A run of bus steps extends by one event.
pub proof fn lemma_steps_push<B: Bus>(s: B, t: Seq<BusEvent>, mid: B, e: BusEvent, end: B)
    requires
        bus_steps(s, t, mid),
        event_step(mid, e, end),
    ensures
        bus_steps(s, t.push(e), end),
{
    let states = choose|states: Seq<B>| {
        &&& states.len() == t.len() + 1
        &&& states[0] == s
        &&& states.last() == mid
        &&& forall|i: int| 0 <= i < t.len() ==> event_step(states[i], #[trigger] t[i], states[i + 1])
    };
    let u = t.push(e);
    let next = states.push(end);
    assert forall|i: int| 0 <= i < u.len() implies event_step(next[i], #[trigger] u[i], next[i + 1]) by {
        if i < t.len() {
            assert(u[i] == t[i]);
            assert(event_step(states[i], t[i], states[i + 1]));
        }
    }
    assert(next.len() == u.len() + 1 && next[0] == s && next.last() == end);
}

/// No events take the bus nowhere.
pub proof fn lemma_steps_empty<B: Bus>(b: B)
    ensures
        bus_steps(b, Seq::empty(), b),
{
    let states = seq![b];
    assert(states.len() == 1 && states[0] == b && states.last() == b);
}

/// The event recorded for a read of `value` at `address` as the `cycle`-th bus event.
pub open spec fn read_event(address: Address, value: u8, cycle: int) -> BusEvent {
    BusEvent { address, value, access: AccessKind::Read, cycle: cycle as u64 }
}

/// The event recorded for a write of `value` at `address` as the `cycle`-th bus event.
pub open spec fn write_event(address: Address, value: u8, cycle: int) -> BusEvent {
    BusEvent { address, value, access: AccessKind::Write, cycle: cycle as u64 }
}

} // verus!
