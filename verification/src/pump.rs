//! The byte pump between two streams, as a step function.

use vstd::prelude::*;

verus! {

/// One of the two streams that a byte pump joins.
#[derive(Clone, Copy, Debug, PartialEq, Eq, Structural)]
pub enum Side {
    A,
    B,
}

impl Side {
    /// The opposite stream.
    pub open spec fn opposite(self) -> Side {
        match self {
            Side::A => Side::B,
            Side::B => Side::A,
        }
    }

    /// The opposite stream.
    pub fn other(self) -> (r: Side)
        ensures
            r == self.opposite(),
    {
        match self {
            Side::A => Side::B,
            Side::B => Side::A,
        }
    }
}

/// What the outside world reports to a pump.
#[derive(Debug)]
pub enum PumpEvent {
    /// These bytes were read from `from`.
    Read { from: Side, bytes: Vec<u8> },
    /// The stream `from` has ended.
    Eof { from: Side },
    /// Copying out of `from` failed, on the read or on the write.
    Failed { from: Side },
}

/// What a pump asks the outside world to do next.
#[derive(Debug)]
pub enum PumpAction {
    /// Write these bytes to `to`, then read on.
    Forward { to: Side, bytes: Vec<u8> },
    /// Close both streams.
    Close,
    /// Nothing is left to do.
    Done,
}

/// The decisions of a byte pump between two streams: what is read from one
/// goes to the other, until either direction ends.
#[derive(Clone, Copy, Debug, PartialEq, Eq, Structural)]
pub struct Pump {
    /// Bytes passed from A to B, for the log; stops counting at `u64::MAX`.
    pub a_to_b: u64,
    /// Bytes passed from B to A, for the log; stops counting at `u64::MAX`.
    pub b_to_a: u64,
    /// Whether the pump still runs.
    pub open: bool,
}

/// `count`, cut off at `u64::MAX`.
pub open spec fn capped(count: nat) -> u64 {
    if count > u64::MAX {
        u64::MAX
    } else {
        count as u64
    }
}

impl Pump {
    /// The number of bytes passed on out of `from`.
    pub open spec fn count(self, from: Side) -> u64 {
        match from {
            Side::A => self.a_to_b,
            Side::B => self.b_to_a,
        }
    }

    /// This pump after `more` further bytes have been passed on out of `from`.
    pub open spec fn counting(self, from: Side, more: nat) -> Pump {
        match from {
            Side::A => Pump { a_to_b: capped((self.a_to_b + more) as nat), ..self },
            Side::B => Pump { b_to_a: capped((self.b_to_a + more) as nat), ..self },
        }
    }

    /// The pump after `event` and the request that goes with it. A running
    /// pump passes what was read to the opposite stream, unchanged, and
    /// stops at the first end or failure of either direction. A stopped pump
    /// passes nothing on.
    pub open spec fn next(self, event: PumpEvent) -> (Pump, PumpAction) {
        if !self.open {
            (self, PumpAction::Done)
        } else {
            match event {
                PumpEvent::Read { from, bytes } => (
                    self.counting(from, bytes@.len()),
                    PumpAction::Forward { to: from.opposite(), bytes },
                ),
                PumpEvent::Eof { .. } | PumpEvent::Failed { .. } => (
                    Pump { open: false, ..self },
                    PumpAction::Close,
                ),
            }
        }
    }

    /// A running pump that has passed nothing on yet.
    pub fn new() -> (r: Self)
        ensures
            r == (Pump { a_to_b: 0, b_to_a: 0, open: true }),
    {
        Pump { a_to_b: 0, b_to_a: 0, open: true }
    }

    /// Takes `event` in and answers with what to do next.
    pub fn step(&mut self, event: PumpEvent) -> (action: PumpAction)
        ensures
            (*final(self), action) == old(self).next(event),
    {
        if !self.open {
            return PumpAction::Done;
        }
        match event {
            PumpEvent::Read { from, bytes } => {
                let more: u64 = bytes.len() as u64;
                match from {
                    Side::A => {
                        self.a_to_b = self.a_to_b.saturating_add(more);
                    },
                    Side::B => {
                        self.b_to_a = self.b_to_a.saturating_add(more);
                    },
                }
                PumpAction::Forward { to: from.other(), bytes }
            },
            PumpEvent::Eof { .. } | PumpEvent::Failed { .. } => {
                self.open = false;
                PumpAction::Close
            },
        }
    }

    /// The number of bytes passed on out of `from`.
    pub fn bytes_from(&self, from: Side) -> (r: u64)
        ensures
            r == self.count(from),
    {
        match from {
            Side::A => self.a_to_b,
            Side::B => self.b_to_a,
        }
    }

    /// Whether the pump still runs.
    pub fn is_open(&self) -> (r: bool)
        ensures
            r == self.open,
    {
        self.open
    }
}

/// The pump that a fresh one has become through `events`.
pub open spec fn run(events: Seq<PumpEvent>) -> Pump
    decreases events.len(),
{
    if events.len() == 0 {
        Pump { a_to_b: 0, b_to_a: 0, open: true }
    } else {
        run(events.drop_last()).next(events.last()).0
    }
}

/// Whether one of `events` reports the end or the failure of a direction.
pub open spec fn ended(events: Seq<PumpEvent>) -> bool
    decreases events.len(),
{
    events.len() > 0 && (ended(events.drop_last()) || !(events.last() is Read))
}

/// The bytes that were read from `from` before the first end or failure, in
/// the order in which they were read.
pub open spec fn read_before_end(events: Seq<PumpEvent>, from: Side) -> Seq<u8>
    decreases events.len(),
{
    if events.len() == 0 {
        Seq::empty()
    } else {
        let earlier = read_before_end(events.drop_last(), from);
        match events.last() {
            PumpEvent::Read { from: side, bytes } if side == from && !ended(events.drop_last()) => {
                earlier + bytes@
            },
            _ => earlier,
        }
    }
}

/// The bytes that the pump asked to write to `to` during `events`, in the
/// order in which it asked.
pub open spec fn written(events: Seq<PumpEvent>, to: Side) -> Seq<u8>
    decreases events.len(),
{
    if events.len() == 0 {
        Seq::empty()
    } else {
        let earlier = written(events.drop_last(), to);
        match run(events.drop_last()).next(events.last()).1 {
            PumpAction::Forward { to: side, bytes } if side == to => earlier + bytes@,
            _ => earlier,
        }
    }
}

/// A pump runs until the first end or failure is reported, and no longer.
pub proof fn lemma_open_until_end(events: Seq<PumpEvent>)
    ensures
        run(events).open == !ended(events),
    decreases events.len(),
{
    if events.len() > 0 {
        lemma_open_until_end(events.drop_last());
    }
}

/// In each direction the pump delivers the bytes in the order in which they
/// were read: what it writes to one stream is what was read from the other
/// before the first end or failure, byte for byte, and the count it keeps of
/// a direction is the number of those bytes.
pub proof fn lemma_bytes_pass_in_order(events: Seq<PumpEvent>, from: Side)
    ensures
        written(events, from.opposite()) == read_before_end(events, from),
        run(events).count(from) == capped(read_before_end(events, from).len()),
    decreases events.len(),
{
    if events.len() > 0 {
        lemma_bytes_pass_in_order(events.drop_last(), from);
        lemma_open_until_end(events.drop_last());
    }
}

} // verus!
