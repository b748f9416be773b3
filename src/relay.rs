//! One direction of a forwarded connection: bytes are read from a source
//! stream into a fixed buffer and written to a destination stream, partial
//! writes included, until the source ends or either side fails. Every way out
//! of the transfer passes through a directional shutdown.
//!
//! The driver asks `next_action`, performs that operation on the sockets, and
//! reports the outcome back (`on_read`, `on_write`, `on_shut_down`).

use vstd::prelude::*;

verus! {

/// Why a relay direction stopped transferring.
#[derive(Debug, Clone, Copy, PartialEq, Eq, Structural)]
pub enum EndCause {
    /// The source reported an orderly end of stream (a read of zero bytes).
    EndOfStream,
    /// A read from the source failed.
    ReadFault,
    /// A write to the destination failed.
    WriteFault,
}

/// Where a relay direction stands.
#[derive(Debug, Clone, Copy, PartialEq, Eq, Structural)]
pub enum Phase {
    /// Waiting to read the next chunk from the source.
    Reading,
    /// Part of the last chunk is still to be written to the destination.
    Writing,
    /// The transfer is over; the source's read half and the destination's
    /// write half are to be shut down.
    ShuttingDown(EndCause),
    /// Both halves have been shut down.
    Done(EndCause),
}

/// The operation the driver performs next.
#[derive(Debug, Clone, Copy, PartialEq, Eq, Structural)]
pub enum Action {
    /// Read from the source into `read_space`, then call `on_read`.
    Read,
    /// Write `pending` to the destination, then call `on_write`.
    Write,
    /// Shut down the source's read half and the destination's write half,
    /// then call `on_shut_down`. Failures of either shutdown change nothing.
    ShutDown,
    /// Nothing is left to do.
    Finish,
}

/// Abstract state of a relay direction.
pub struct RelayModel {
    /// Size of the buffer, the most one read can bring in.
    pub capacity: nat,
    /// Bytes read from the source and not yet written to the destination.
    pub pending: Seq<u8>,
    pub phase: Phase,
}

/// A reported outcome, as seen by the model. `None` is a failed call,
/// `Some(n)` a call that moved `n` bytes.
pub enum Event {
    /// A read finished; `space` is the buffer's content after it.
    Read(Seq<u8>, Option<usize>),
    Write(Option<usize>),
    ShutDown,
}

pub open spec fn action_of(phase: Phase) -> Action {
    match phase {
        Phase::Reading => Action::Read,
        Phase::Writing => Action::Write,
        Phase::ShuttingDown(_) => Action::ShutDown,
        Phase::Done(_) => Action::Finish,
    }
}

/// States that a relay direction can be in: something is pending exactly
/// while writing, and never more than one buffer.
pub open spec fn model_wf(m: RelayModel) -> bool {
    &&& m.capacity > 0
    &&& m.pending.len() <= m.capacity
    &&& (m.phase == Phase::Writing) == (m.pending.len() > 0)
}

pub open spec fn ending(m: RelayModel, cause: EndCause) -> RelayModel {
    RelayModel { capacity: m.capacity, pending: Seq::empty(), phase: Phase::ShuttingDown(cause) }
}

/// Effect of a read that left `space` in the buffer. Zero bytes is the end of
/// the stream; a failed read, or a count beyond the buffer, is a fault.
pub open spec fn after_read(m: RelayModel, space: Seq<u8>, outcome: Option<usize>) -> RelayModel {
    match outcome {
        None => ending(m, EndCause::ReadFault),
        Some(n) => if n == 0 {
            ending(m, EndCause::EndOfStream)
        } else if n > m.capacity || n > space.len() {
            ending(m, EndCause::ReadFault)
        } else {
            RelayModel { capacity: m.capacity, pending: space.take(n as int), phase: Phase::Writing }
        },
    }
}

/// Effect of a write. A partial write leaves the rest pending; a write that
/// took nothing is issued again; a failed write, or a count beyond what was
/// offered, is a fault.
pub open spec fn after_write(m: RelayModel, outcome: Option<usize>) -> RelayModel {
    match outcome {
        None => ending(m, EndCause::WriteFault),
        Some(k) => if k == 0 {
            m
        } else if k > m.pending.len() {
            ending(m, EndCause::WriteFault)
        } else if k == m.pending.len() {
            RelayModel { capacity: m.capacity, pending: Seq::empty(), phase: Phase::Reading }
        } else {
            RelayModel {
                capacity: m.capacity,
                pending: m.pending.skip(k as int),
                phase: Phase::Writing,
            }
        },
    }
}

pub open spec fn after_shut_down(m: RelayModel) -> RelayModel {
    match m.phase {
        Phase::ShuttingDown(c) => RelayModel {
            capacity: m.capacity,
            pending: Seq::empty(),
            phase: Phase::Done(c),
        },
        _ => m,
    }
}

/// One transition. An event that does not answer the current phase's action
/// changes nothing.
pub open spec fn step(m: RelayModel, e: Event) -> RelayModel {
    match e {
        Event::Read(space, outcome) => if m.phase == Phase::Reading {
            after_read(m, space, outcome)
        } else {
            m
        },
        Event::Write(outcome) => if m.phase == Phase::Writing {
            after_write(m, outcome)
        } else {
            m
        },
        Event::ShutDown => if m.phase is ShuttingDown {
            after_shut_down(m)
        } else {
            m
        },
    }
}

/// Bytes that an event brings in from the source.
pub open spec fn taken(m: RelayModel, e: Event) -> Seq<u8> {
    match e {
        Event::Read(space, outcome) => if m.phase == Phase::Reading && step(m, e).phase
            == Phase::Writing {
            space.take(outcome->0 as int)
        } else {
            Seq::empty()
        },
        _ => Seq::empty(),
    }
}

/// Bytes that an event hands to the destination.
pub open spec fn given(m: RelayModel, e: Event) -> Seq<u8> {
    match e {
        Event::Write(outcome) => if m.phase == Phase::Writing && outcome is Some
            && outcome->0 <= m.pending.len() {
            m.pending.take(outcome->0 as int)
        } else {
            Seq::empty()
        },
        _ => Seq::empty(),
    }
}

/// State after a sequence of events.
pub open spec fn run(m: RelayModel, es: Seq<Event>) -> RelayModel
    decreases es.len(),
{
    if es.len() == 0 {
        m
    } else {
        run(step(m, es[0]), es.drop_first())
    }
}

/// All bytes read from the source over a sequence of events, in order.
pub open spec fn run_taken(m: RelayModel, es: Seq<Event>) -> Seq<u8>
    decreases es.len(),
{
    if es.len() == 0 {
        Seq::empty()
    } else {
        taken(m, es[0]) + run_taken(step(m, es[0]), es.drop_first())
    }
}

/// All bytes written to the destination over a sequence of events, in order.
pub open spec fn run_given(m: RelayModel, es: Seq<Event>) -> Seq<u8>
    decreases es.len(),
{
    if es.len() == 0 {
        Seq::empty()
    } else {
        given(m, es[0]) + run_given(step(m, es[0]), es.drop_first())
    }
}

/// A fresh relay direction with a buffer of `capacity` bytes.
pub open spec fn initial(capacity: nat) -> RelayModel {
    RelayModel { capacity, pending: Seq::empty(), phase: Phase::Reading }
}

/// A schedule that moves `payload` through a relay with a buffer of
/// `capacity` bytes: each read fills as much of the buffer as is left of the
/// payload, each chunk is written whole, then the source ends.
pub open spec fn full_transfer(capacity: nat, payload: Seq<u8>) -> Seq<Event>
    decreases payload.len(),
{
    if payload.len() == 0 || capacity == 0 {
        seq![Event::Read(Seq::empty(), Some(0)), Event::ShutDown]
    } else {
        let n = if payload.len() < capacity { payload.len() } else { capacity };
        seq![Event::Read(payload.take(n as int), Some(n as usize)), Event::Write(Some(n as usize))]
            + full_transfer(capacity, payload.skip(n as int))
    }
}

/// The phase records a failed write to the destination.
pub open spec fn write_failed(p: Phase) -> bool {
    p == Phase::ShuttingDown(EndCause::WriteFault) || p == Phase::Done(EndCause::WriteFault)
}

/// Every transition keeps a relay direction in a state it can be in and takes
/// in no more than one buffer; unless it is a failed write, what it hands out
/// followed by what stays pending is what was pending followed by what it took
/// in. A failed write stays on record.
pub proof fn lemma_step_wf(m: RelayModel, e: Event)
    requires
        model_wf(m),
    ensures
        model_wf(step(m, e)),
        taken(m, e).len() <= m.capacity,
        !write_failed(step(m, e).phase) ==> given(m, e) + step(m, e).pending == m.pending
            + taken(m, e),
        write_failed(m.phase) ==> write_failed(step(m, e).phase),
{
    let lhs = given(m, e) + step(m, e).pending;
    let rhs = m.pending + taken(m, e);
    match e {
        Event::Read(space, outcome) => {
            if m.phase == Phase::Reading {
                assert(m.pending =~= Seq::<u8>::empty());
            }
            assert(lhs =~= rhs);
        },
        Event::Write(outcome) => {
            if m.phase == Phase::Writing && outcome is Some && outcome->0 <= m.pending.len() {
                let k = outcome->0 as int;
                assert(m.pending.take(k) + m.pending.skip(k) =~= m.pending);
                if k == m.pending.len() {
                    assert(m.pending.take(k) =~= m.pending);
                }
                if k == 0 {
                    assert(m.pending.take(k) =~= Seq::<u8>::empty());
                }
                assert(lhs =~= rhs);
            } else if !write_failed(step(m, e).phase) {
                assert(lhs =~= rhs);
            }
        },
        Event::ShutDown => {
            assert(lhs =~= rhs);
        },
    }
}

/// Bytes reach the destination exactly as they left the source: unless a
/// write to the destination failed, what was written followed by what is
/// still pending is what was read, in order and whatever the chunk and
/// partial-write sizes. Outside the writing phase nothing is pending, so once
/// the source has ended the destination has received exactly what the source
/// sent. No chunk is larger than the buffer.
pub proof fn lemma_relay_keeps_bytes(m: RelayModel, es: Seq<Event>)
    requires
        model_wf(m),
    ensures
        model_wf(run(m, es)),
        !write_failed(run(m, es).phase) ==> run_given(m, es) + run(m, es).pending == m.pending
            + run_taken(m, es),
        run(m, es).phase != Phase::Writing ==> run(m, es).pending.len() == 0,
        m.pending.len() == 0 && run(m, es).phase == Phase::Done(EndCause::EndOfStream)
            ==> run_given(m, es) == run_taken(m, es),
        write_failed(m.phase) ==> write_failed(run(m, es).phase),
    decreases es.len(),
{
    let fin = run(m, es).pending;
    if es.len() > 0 {
        let m1 = step(m, es[0]);
        lemma_step_wf(m, es[0]);
        lemma_relay_keeps_bytes(m1, es.drop_first());
        let g = given(m, es[0]);
        let t = taken(m, es[0]);
        let rg = run_given(m1, es.drop_first());
        let rt = run_taken(m1, es.drop_first());
        if !write_failed(run(m, es).phase) {
            assert(!write_failed(m1.phase));
            assert(g + rg + fin =~= g + (rg + fin));
            assert(g + (m1.pending + rt) =~= (g + m1.pending) + rt);
            assert(m.pending + t + rt =~= m.pending + (t + rt));
        }
    } else {
        assert(Seq::<u8>::empty() + m.pending =~= m.pending + Seq::<u8>::empty());
    }
    if m.pending.len() == 0 && run(m, es).phase == Phase::Done(EndCause::EndOfStream) {
        assert(run_given(m, es) + fin =~= run_given(m, es));
        assert(m.pending + run_taken(m, es) =~= run_taken(m, es));
    }
}

proof fn lemma_run_append(m: RelayModel, a: Seq<Event>, b: Seq<Event>)
    ensures
        run(m, a + b) == run(run(m, a), b),
        run_given(m, a + b) == run_given(m, a) + run_given(run(m, a), b),
        run_taken(m, a + b) == run_taken(m, a) + run_taken(run(m, a), b),
    decreases a.len(),
{
    if a.len() == 0 {
        assert(a + b =~= b);
        assert(run_given(run(m, a), b) =~= Seq::<u8>::empty() + run_given(run(m, a), b));
        assert(run_taken(run(m, a), b) =~= Seq::<u8>::empty() + run_taken(run(m, a), b));
    } else {
        let m1 = step(m, a[0]);
        assert((a + b)[0] == a[0]);
        assert((a + b).drop_first() =~= a.drop_first() + b);
        lemma_run_append(m1, a.drop_first(), b);
        let g = given(m, a[0]);
        let t = taken(m, a[0]);
        assert(g + (run_given(m1, a.drop_first()) + run_given(run(m, a), b)) =~= g
            + run_given(m1, a.drop_first()) + run_given(run(m, a), b));
        assert(t + (run_taken(m1, a.drop_first()) + run_taken(run(m, a), b)) =~= t
            + run_taken(m1, a.drop_first()) + run_taken(run(m, a), b));
    }
}

/// A payload of any length, larger than the buffer included, is delivered
/// whole: the schedule of buffer-sized chunks ends with the relay shut down
/// after an orderly end of stream, every byte of the payload read once and
/// written once, in order.
pub proof fn lemma_full_transfer_delivers(capacity: nat, payload: Seq<u8>)
    requires
        0 < capacity <= usize::MAX,
    ensures
        run(initial(capacity), full_transfer(capacity, payload)).phase == Phase::Done(
            EndCause::EndOfStream,
        ),
        run_taken(initial(capacity), full_transfer(capacity, payload)) == payload,
        run_given(initial(capacity), full_transfer(capacity, payload)) == payload,
    decreases payload.len(),
{
    let m0 = initial(capacity);
    let es = full_transfer(capacity, payload);
    reveal_with_fuel(run, 3);
    reveal_with_fuel(run_taken, 3);
    reveal_with_fuel(run_given, 3);
    if payload.len() == 0 {
        assert(es.drop_first()[0] == Event::ShutDown);
        assert(es.drop_first().drop_first() =~= Seq::<Event>::empty());
        assert(run_taken(m0, es) =~= payload);
        assert(run_given(m0, es) =~= payload);
    } else {
        let n = if payload.len() < capacity { payload.len() } else { capacity };
        let head = seq![Event::Read(payload.take(n as int), Some(n as usize)), Event::Write(Some(n as usize))];
        let rest = payload.skip(n as int);
        assert(es == head + full_transfer(capacity, rest));
        lemma_run_append(m0, head, full_transfer(capacity, rest));
        let m1 = step(m0, head[0]);
        assert(m1.pending =~= payload.take(n as int));
        assert(head.drop_first()[0] == head[1]);
        let m2 = step(m1, head[1]);
        assert(m2.pending =~= m0.pending);
        assert(m2 == m0);
        assert(head.drop_first().drop_first() =~= Seq::<Event>::empty());
        assert(run(m0, head) == m0);
        assert(run_taken(m0, head) =~= payload.take(n as int));
        assert(run_given(m0, head) =~= payload.take(n as int));
        lemma_full_transfer_delivers(capacity, rest);
        assert(payload.take(n as int) + rest =~= payload);
    }
}

/// When the source ends, the next operation shuts down the destination's
/// write half (so the destination sees the end of stream), and one step
/// later the direction is done.
pub proof fn lemma_end_of_stream_closes_destination(m: RelayModel, space: Seq<u8>)
    requires
        model_wf(m),
        m.phase == Phase::Reading,
    ensures
        step(m, Event::Read(space, Some(0))).phase == Phase::ShuttingDown(EndCause::EndOfStream),
        action_of(step(m, Event::Read(space, Some(0))).phase) == Action::ShutDown,
        step(step(m, Event::Read(space, Some(0))), Event::ShutDown).phase == Phase::Done(
            EndCause::EndOfStream,
        ),
{
}

/// Every way out of the transfer, end of stream or fault, leads to the
/// shutdown step: a direction is never done without passing through it.
pub proof fn lemma_done_only_after_shutdown(m: RelayModel, e: Event)
    ensures
        step(m, e).phase is Done ==> (m.phase is ShuttingDown || m.phase is Done),
        (m.phase == Phase::Reading || m.phase == Phase::Writing) ==> (step(m, e).phase
            == Phase::Reading || step(m, e).phase == Phase::Writing || step(
            m,
            e,
        ).phase is ShuttingDown),
{
}

/// The state of one relay direction: its buffer, which part of the buffer is
/// still to be written, and the connection it belongs to.
pub struct Relay {
    buf: Vec<u8>,
    capacity: usize,
    filled: usize,
    written: usize,
    phase: Phase,
    id: usize,
}

impl View for Relay {
    type V = RelayModel;

    closed spec fn view(&self) -> RelayModel {
        RelayModel {
            capacity: self.capacity as nat,
            pending: if self.phase == Phase::Writing {
                self.buf@.subrange(self.written as int, self.filled as int)
            } else {
                Seq::empty()
            },
            phase: self.phase,
        }
    }
}

impl Relay {
    pub closed spec fn wf(&self) -> bool {
        &&& self.capacity > 0
        &&& self.written <= self.filled <= self.capacity
        &&& if self.phase == Phase::Writing {
            self.written < self.filled && self.filled <= self.buf.len()
        } else {
            self.written == 0 && self.filled == 0
        }
    }

    /// The whole buffer, which a read fills from its start.
    pub closed spec fn space(&self) -> Seq<u8> {
        self.buf@
    }

    pub closed spec fn spec_id(&self) -> usize {
        self.id
    }

    /// A relay direction for connection `id` with a buffer of `buf_size` bytes.
    pub fn new(buf_size: usize, id: usize) -> (r: Relay)
        requires
            buf_size > 0,
        ensures
            r.wf(),
            r@ == initial(buf_size as nat),
            r.space().len() == buf_size,
            r.spec_id() == id,
    {
        let buf: Vec<u8> = vec![0u8; buf_size];
        let r = Relay { buf, capacity: buf_size, filled: 0, written: 0, phase: Phase::Reading, id };
        assert(r@.pending =~= Seq::<u8>::empty());
        r
    }

    /// The connection this direction belongs to.
    pub fn id(&self) -> (r: usize)
        ensures
            r == self.spec_id(),
    {
        self.id
    }

    pub fn phase(&self) -> (r: Phase)
        ensures
            r == self@.phase,
    {
        self.phase
    }

    /// The operation to perform next.
    pub fn next_action(&self) -> (r: Action)
        ensures
            r == action_of(self@.phase),
    {
        match self.phase {
            Phase::Reading => Action::Read,
            Phase::Writing => Action::Write,
            Phase::ShuttingDown(_) => Action::ShutDown,
            Phase::Done(_) => Action::Finish,
        }
    }

    /// The buffer to read into; a read of `n` bytes fills its first `n`.
    pub fn read_space(&mut self) -> (r: &mut [u8])
        requires
            old(self).wf(),
            old(self)@.phase == Phase::Reading,
        ensures
            r@ == old(self).space(),
            final(self).wf(),
            final(self)@ == old(self)@,
            final(self).space() == final(r)@,
            final(self).spec_id() == old(self).spec_id(),
    {
        self.buf.as_mut_slice()
    }

    /// The bytes to write next: what the last read brought in and earlier
    /// writes did not take.
    pub fn pending(&self) -> (r: &[u8])
        requires
            self.wf(),
        ensures
            r@ == self@.pending,
    {
        vstd::slice::slice_subrange(self.buf.as_slice(), self.written, self.filled)
    }

    /// Reports a read: `None` if it failed, else the number of bytes read.
    pub fn on_read(&mut self, outcome: Option<usize>)
        requires
            old(self).wf(),
            old(self)@.phase == Phase::Reading,
        ensures
            final(self).wf(),
            final(self)@ == step(old(self)@, Event::Read(old(self).space(), outcome)),
            final(self).space() == old(self).space(),
            final(self).spec_id() == old(self).spec_id(),
    {
        match outcome {
            None => {
                self.phase = Phase::ShuttingDown(EndCause::ReadFault);
            },
            Some(n) => {
                if n == 0 {
                    self.phase = Phase::ShuttingDown(EndCause::EndOfStream);
                } else if n > self.capacity || n > self.buf.len() {
                    self.phase = Phase::ShuttingDown(EndCause::ReadFault);
                } else {
                    self.filled = n;
                    self.written = 0;
                    self.phase = Phase::Writing;
                }
            },
        }
        proof {
            let m = step(old(self)@, Event::Read(old(self).space(), outcome));
            assert(self@.pending =~= m.pending);
        }
    }

    /// Reports a write of `pending`: `None` if it failed, else the number of
    /// bytes the destination took.
    pub fn on_write(&mut self, outcome: Option<usize>)
        requires
            old(self).wf(),
            old(self)@.phase == Phase::Writing,
        ensures
            final(self).wf(),
            final(self)@ == step(old(self)@, Event::Write(outcome)),
            final(self).space() == old(self).space(),
            final(self).spec_id() == old(self).spec_id(),
    {
        match outcome {
            None => {
                self.filled = 0;
                self.written = 0;
                self.phase = Phase::ShuttingDown(EndCause::WriteFault);
            },
            Some(k) => {
                let remaining = self.filled - self.written;
                if k == 0 {
                } else if k > remaining {
                    self.filled = 0;
                    self.written = 0;
                    self.phase = Phase::ShuttingDown(EndCause::WriteFault);
                } else if k == remaining {
                    self.filled = 0;
                    self.written = 0;
                    self.phase = Phase::Reading;
                } else {
                    self.written = self.written + k;
                }
            },
        }
        proof {
            let m = step(old(self)@, Event::Write(outcome));
            assert(self@.pending =~= m.pending);
        }
    }

    /// Reports that both halves were shut down (or that shutting them down
    /// failed, which is no different).
    pub fn on_shut_down(&mut self)
        requires
            old(self).wf(),
            old(self)@.phase is ShuttingDown,
        ensures
            final(self).wf(),
            final(self)@ == step(old(self)@, Event::ShutDown),
            final(self).space() == old(self).space(),
            final(self).spec_id() == old(self).spec_id(),
    {
        match self.phase {
            Phase::ShuttingDown(c) => {
                self.phase = Phase::Done(c);
            },
            _ => {},
        }
        proof {
            let m = step(old(self)@, Event::ShutDown);
            assert(self@.pending =~= m.pending);
        }
    }
}

} // verus!
