//! One lane: a worker that turns the packets waiting on its queue into
//! batches, one batch at a time.

use vstd::prelude::*;
use solana_sdk::transaction::VersionedTransaction;
use tokio::sync::mpsc::Receiver;
use crate::address::Destination;
use crate::packet::ForwardPacket;
use crate::packet::all_bound_for;
use crate::packet::concat_transactions;

verus! {

/// Packets that a lane's queue holds at most.
pub const QUEUE_CAPACITY: usize = 100_000;

/// Milliseconds that the sending of one whole batch may take.
pub const SEND_TIMEOUT_MS: u64 = 500;

/// `tokio::sync::mpsc::Receiver`: the receiving end of a bounded queue.
/// Nothing of what it holds is visible here: other tasks fill it.
#[verifier::external_type_specification]
#[verifier::external_body]
#[verifier::reject_recursive_types(T)]
pub struct ExReceiver<T>(Receiver<T>);

/// What a lane worker is doing.
#[derive(Clone, Copy, Debug, PartialEq, Eq, Structural)]
pub enum LanePhase {
    /// Waiting for a first packet.
    Receiving,
    /// Holding at least one packet and taking what else is waiting.
    Batching,
    /// A batch is out; nothing is taken until its sending has ended.
    Sending,
}

/// How the sending of a batch ended.
#[derive(Clone, Copy, Debug, PartialEq, Eq, Structural)]
pub enum SendOutcome {
    /// Every send of the batch was issued and awaited within the time limit.
    Completed,
    /// The time limit passed first.
    TimedOut,
}

/// A batch on its way out.
pub struct Batch {
    /// The transactions, in the order in which they arrived.
    pub transactions: Vec<VersionedTransaction>,
    /// Milliseconds that the sending of all of them together may take.
    pub timeout_ms: u64,
}

/// One thing that happens to a lane.
pub enum LaneStep {
    /// A packet was taken from the queue.
    Packet(ForwardPacket),
    /// The queue had nothing more to give.
    QueueEmpty,
    /// The sending of the batch that is out ended.
    SendDone(SendOutcome),
}

/// A lane worker as a value: where it sends, what it is doing, what it has
/// gathered for the next send, and how many transactions are out.
pub struct LaneState {
    pub destination: Destination,
    pub phase: LanePhase,
    pub batch: Seq<VersionedTransaction>,
    pub in_flight: nat,
}

impl LaneState {
    /// A worker for `destination` that waits for its first packet.
    pub open spec fn idle(destination: Destination) -> LaneState {
        LaneState { destination, phase: LanePhase::Receiving, batch: Seq::empty(), in_flight: 0 }
    }

    /// Whether `step` can happen in this state. A packet for another
    /// destination never can.
    pub open spec fn admits(self, step: LaneStep) -> bool {
        match step {
            LaneStep::Packet(packet) => self.phase != LanePhase::Sending
                && packet.tpu_address == self.destination,
            LaneStep::QueueEmpty => self.phase == LanePhase::Batching,
            LaneStep::SendDone(_) => self.phase == LanePhase::Sending,
        }
    }

    /// The state after `step`.
    pub open spec fn next(self, step: LaneStep) -> LaneState {
        match step {
            LaneStep::Packet(packet) => LaneState {
                phase: LanePhase::Batching,
                batch: self.batch + packet.transactions@,
                ..self
            },
            LaneStep::QueueEmpty => LaneState {
                phase: LanePhase::Sending,
                batch: Seq::empty(),
                in_flight: self.batch.len(),
                ..self
            },
            LaneStep::SendDone(_) => LaneState::idle(self.destination),
        }
    }

    /// The batch that `step` hands out for sending, if it hands one out.
    pub open spec fn issues(self, step: LaneStep) -> Option<Seq<VersionedTransaction>> {
        match step {
            LaneStep::QueueEmpty => Some(self.batch),
            _ => None,
        }
    }

    /// Transactions that `step` gives up on: those of a batch whose sending
    /// ran out of time.
    pub open spec fn drops(self, step: LaneStep) -> nat {
        match step {
            LaneStep::SendDone(SendOutcome::TimedOut) => self.in_flight,
            _ => 0,
        }
    }

    /// The state after all of `steps`, first to last.
    pub open spec fn run(self, steps: Seq<LaneStep>) -> LaneState
        decreases steps.len(),
    {
        if steps.len() == 0 {
            self
        } else {
            self.run(steps.drop_last()).next(steps.last())
        }
    }

    /// Whether each of `steps` can happen in the state that the steps before
    /// it lead to.
    pub open spec fn admits_all(self, steps: Seq<LaneStep>) -> bool
        decreases steps.len(),
    {
        steps.len() == 0 || (self.admits_all(steps.drop_last()) && self.run(
            steps.drop_last(),
        ).admits(steps.last()))
    }

    /// The transactions handed out for sending in the course of `steps`, batch
    /// after batch.
    pub open spec fn issued(self, steps: Seq<LaneStep>) -> Seq<VersionedTransaction>
        decreases steps.len(),
    {
        if steps.len() == 0 {
            Seq::empty()
        } else {
            self.issued(steps.drop_last()) + match self.run(steps.drop_last()).issues(
                steps.last(),
            ) {
                Some(batch) => batch,
                None => Seq::empty(),
            }
        }
    }

    /// A worker holds transactions only while it is batching.
    pub open spec fn wf(self) -> bool {
        self.phase != LanePhase::Batching ==> self.batch.len() == 0
    }

    /// The state after taking `packets` from the queue, first to last.
    pub open spec fn absorb_all(self, packets: Seq<ForwardPacket>) -> LaneState
        decreases packets.len(),
    {
        if packets.len() == 0 {
            self
        } else {
            self.absorb_all(packets.drop_last()).next(LaneStep::Packet(packets.last()))
        }
    }
}

/// The transactions of the packets among `steps`, in the order of the steps.
pub open spec fn arrived(steps: Seq<LaneStep>) -> Seq<VersionedTransaction>
    decreases steps.len(),
{
    if steps.len() == 0 {
        Seq::empty()
    } else {
        arrived(steps.drop_last()) + match steps.last() {
            LaneStep::Packet(packet) => packet.transactions@,
            _ => Seq::empty(),
        }
    }
}

/// Whether `after` is what `before` becomes by taking some packets from the
/// queue, `taken`, each bound for the worker's destination.
pub open spec fn drained(before: LaneState, taken: Seq<ForwardPacket>, after: LaneState) -> bool {
    &&& taken.len() <= QUEUE_CAPACITY
    &&& all_bound_for(taken, before.destination)
    &&& after == before.absorb_all(taken)
}

/// A lane worker.
pub struct LaneWorker {
    destination: Destination,
    phase: LanePhase,
    batch: Vec<VersionedTransaction>,
    in_flight: usize,
}

impl View for LaneWorker {
    type V = LaneState;

    closed spec fn view(&self) -> LaneState {
        LaneState {
            destination: self.destination,
            phase: self.phase,
            batch: self.batch@,
            in_flight: self.in_flight as nat,
        }
    }
}

/// Takes the next packet off `queue` if one is waiting there now. Whether one
/// is depends on what other tasks have sent, so nothing is promised of the
/// result. Calls `tokio::sync::mpsc::Receiver::try_recv`; an empty queue and
/// a closed one both give `None`.
#[verifier::external_body]
fn try_next(queue: &mut Receiver<ForwardPacket>) -> (packet: Option<ForwardPacket>) {
    queue.try_recv().ok()
}

impl LaneWorker {
    /// A worker for `destination`, waiting for its first packet.
    pub fn new(destination: Destination) -> (worker: Self)
        ensures
            worker@ == LaneState::idle(destination),
    {
        LaneWorker { destination, phase: LanePhase::Receiving, batch: Vec::new(), in_flight: 0 }
    }

    /// Whether `packet` is bound for this lane's destination.
    pub fn routes_here(&self, packet: &ForwardPacket) -> (ok: bool)
        ensures
            ok == (packet.tpu_address == self@.destination),
    {
        packet.tpu_address == self.destination
    }

    /// Takes `packet` into the batch being gathered, behind what is already
    /// there.
    pub fn absorb(&mut self, packet: ForwardPacket)
        requires
            old(self)@.admits(LaneStep::Packet(packet)),
        ensures
            final(self)@ == old(self)@.next(LaneStep::Packet(packet)),
    {
        let mut transactions = packet.transactions;
        self.batch.append(&mut transactions);
        self.phase = LanePhase::Batching;
    }

    /// Takes every packet that waits on `queue` into the batch, in the order
    /// the queue gives them, and stops when the queue has nothing more. A
    /// queue never holds more than `QUEUE_CAPACITY` packets, so no more than
    /// that many are taken: all that waited when the call began are among
    /// them.
    ///
    /// A packet bound for another destination is not taken into the batch: it
    /// is handed back, and draining stops there.
    pub fn drain(&mut self, queue: &mut Receiver<ForwardPacket>) -> (stray: Option<ForwardPacket>)
        requires
            old(self)@.phase != LanePhase::Sending,
        ensures
            exists|taken: Seq<ForwardPacket>| #[trigger] drained(old(self)@, taken, final(self)@),
            stray matches Some(packet) ==> packet.tpu_address != old(self)@.destination,
            old(self)@.batch.is_prefix_of(final(self)@.batch),
            old(self)@.phase == LanePhase::Batching ==> final(self)@.phase == LanePhase::Batching,
            final(self)@.phase != LanePhase::Sending,
            final(self)@.destination == old(self)@.destination,
            final(self)@.in_flight == old(self)@.in_flight,
    {
        let ghost mut taken: Seq<ForwardPacket> = Seq::empty();
        let mut budget: usize = QUEUE_CAPACITY;
        while budget > 0
            invariant
                taken.len() + budget == QUEUE_CAPACITY,
                all_bound_for(taken, old(self)@.destination),
                self@ == old(self)@.absorb_all(taken),
                self@.phase != LanePhase::Sending,
                self@.destination == old(self)@.destination,
                self@.in_flight == old(self)@.in_flight,
                old(self)@.batch.is_prefix_of(self@.batch),
                old(self)@.phase == LanePhase::Batching ==> self@.phase == LanePhase::Batching,
            decreases budget,
        {
            match try_next(queue) {
                None => {
                    assert(drained(old(self)@, taken, self@));
                    return None;
                },
                Some(packet) => {
                    if !self.routes_here(&packet) {
                        assert(drained(old(self)@, taken, self@));
                        return Some(packet);
                    }
                    proof {
                        let longer = taken.push(packet);
                        assert(longer.drop_last() == taken);
                        taken = longer;
                    }
                    self.absorb(packet);
                },
            }
            budget = budget - 1;
        }
        assert(drained(old(self)@, taken, self@));
        None
    }

    /// Ends batching: hands out the batch gathered so far, with the time that
    /// its sending may take, and waits for the sending to end. Until then the
    /// worker takes no packet.
    pub fn begin_sending(&mut self) -> (batch: Batch)
        requires
            old(self)@.admits(LaneStep::QueueEmpty),
        ensures
            old(self)@.issues(LaneStep::QueueEmpty) == Some(batch.transactions@),
            batch.timeout_ms == SEND_TIMEOUT_MS,
            final(self)@ == old(self)@.next(LaneStep::QueueEmpty),
    {
        let mut transactions = Vec::new();
        std::mem::swap(&mut transactions, &mut self.batch);
        self.in_flight = transactions.len();
        self.phase = LanePhase::Sending;
        Batch { transactions, timeout_ms: SEND_TIMEOUT_MS }
    }

    /// Records how the sending of the batch ended and goes back to waiting
    /// for a first packet, whatever the outcome. A batch that ran out of time
    /// is given up: nothing of it is kept or sent again. Returns how many
    /// transactions were given up.
    pub fn finish_sending(&mut self, outcome: SendOutcome) -> (dropped: usize)
        requires
            old(self)@.admits(LaneStep::SendDone(outcome)),
        ensures
            dropped == old(self)@.drops(LaneStep::SendDone(outcome)),
            final(self)@ == old(self)@.next(LaneStep::SendDone(outcome)),
    {
        let dropped: usize = match outcome {
            SendOutcome::TimedOut => self.in_flight,
            SendOutcome::Completed => 0,
        };
        self.batch.clear();
        self.in_flight = 0;
        self.phase = LanePhase::Receiving;
        dropped
    }

    /// The destination this lane sends to.
    pub fn destination(&self) -> (destination: Destination)
        ensures
            destination == self@.destination,
    {
        self.destination
    }

    /// What the worker is doing.
    pub fn phase(&self) -> (phase: LanePhase)
        ensures
            phase == self@.phase,
    {
        self.phase
    }

    /// Transactions gathered so far for the next send.
    pub fn gathered(&self) -> (n: usize)
        ensures
            n == self@.batch.len(),
    {
        self.batch.len()
    }
}

/// Taking packets appends their transactions, in order, to what the batch
/// already held, and changes nothing else but the phase.
pub proof fn lemma_absorb_all_appends(state: LaneState, packets: Seq<ForwardPacket>)
    ensures
        state.absorb_all(packets).batch == state.batch + concat_transactions(packets),
        state.absorb_all(packets).destination == state.destination,
        state.absorb_all(packets).in_flight == state.in_flight,
        packets.len() > 0 ==> state.absorb_all(packets).phase == LanePhase::Batching,
        packets.len() == 0 ==> state.absorb_all(packets) == state,
    decreases packets.len(),
{
    if packets.len() > 0 {
        lemma_absorb_all_appends(state, packets.drop_last());
    }
}

/// A worker that takes packets one after another, with no send in between,
/// hands out as its next batch the transactions of those packets joined in
/// the order the packets arrived.
pub proof fn lemma_batch_keeps_arrival_order(destination: Destination, packets: Seq<ForwardPacket>)
    requires
        packets.len() > 0,
        all_bound_for(packets, destination),
    ensures
        LaneState::idle(destination).absorb_all(packets).admits(LaneStep::QueueEmpty),
        LaneState::idle(destination).absorb_all(packets).issues(LaneStep::QueueEmpty) == Some(
            concat_transactions(packets),
        ),
{
    lemma_absorb_all_appends(LaneState::idle(destination), packets);
}

/// Where all of `steps` can happen, so can each shorter run of them.
pub proof fn lemma_admitted_prefix(start: LaneState, steps: Seq<LaneStep>, k: int)
    requires
        start.admits_all(steps),
        0 <= k < steps.len(),
    ensures
        start.admits_all(steps.take(k)),
        start.run(steps.take(k)).admits(steps[k]),
        start.run(steps.take(k + 1)) == start.run(steps.take(k)).next(steps[k]),
    decreases steps.len(),
{
    assert(steps.take(k + 1).drop_last() == steps.take(k));
    if k == steps.len() - 1 {
        assert(steps.take(k) == steps.drop_last());
    } else {
        lemma_admitted_prefix(start, steps.drop_last(), k);
        assert(steps.drop_last().take(k) == steps.take(k));
    }
}

/// Within one lane the batches go out one at a time: the step after one that
/// hands out a batch is the end of that batch's sending. So every
/// transaction of a batch has been issued, or given up, before the worker
/// takes the first packet of the next batch.
pub proof fn lemma_one_batch_at_a_time(start: LaneState, steps: Seq<LaneStep>, i: int)
    requires
        start.admits_all(steps),
        0 <= i,
        i + 1 < steps.len(),
        start.run(steps.take(i)).issues(steps[i]) is Some,
    ensures
        start.run(steps.take(i + 1)).phase == LanePhase::Sending,
        steps[i + 1] is SendDone,
        start.run(steps.take(i + 2)) == LaneState::idle(start.run(steps.take(i)).destination),
{
    lemma_admitted_prefix(start, steps, i);
    lemma_admitted_prefix(start, steps, i + 1);
}

/// A lane serves the destination it was made for, whatever happens to it.
pub proof fn lemma_lane_keeps_its_destination(start: LaneState, steps: Seq<LaneStep>)
    ensures
        start.run(steps).destination == start.destination,
    decreases steps.len(),
{
    if steps.len() > 0 {
        lemma_lane_keeps_its_destination(start, steps.drop_last());
    }
}

/// A lane hands out, batch after batch, exactly the transactions of the
/// packets it took, in the order in which it took them: what has been handed
/// out so far, followed by what is gathered for the next batch, is what has
/// arrived so far. No transaction is handed out twice, none is skipped, and
/// none overtakes another.
pub proof fn lemma_lane_issues_in_arrival_order(start: LaneState, steps: Seq<LaneStep>)
    requires
        start.wf(),
        start.batch.len() == 0,
        start.admits_all(steps),
    ensures
        start.run(steps).wf(),
        start.issued(steps) + start.run(steps).batch == arrived(steps),
    decreases steps.len(),
{
    if steps.len() > 0 {
        lemma_lane_issues_in_arrival_order(start, steps.drop_last());
        let before = start.run(steps.drop_last());
        assert(start.issued(steps) + start.run(steps).batch == (start.issued(steps.drop_last())
            + before.batch) + match steps.last() {
            LaneStep::Packet(packet) => packet.transactions@,
            _ => Seq::empty(),
        });
    }
}

/// A batch whose sending ran out of time is given up whole: the worker is
/// back where a fresh one starts, and the next batch holds the transactions
/// of the packets that arrive from then on and no others.
pub proof fn lemma_timed_out_batch_is_given_up(state: LaneState, packets: Seq<ForwardPacket>)
    requires
        state.phase == LanePhase::Sending,
    ensures
        state.admits(LaneStep::SendDone(SendOutcome::TimedOut)),
        state.drops(LaneStep::SendDone(SendOutcome::TimedOut)) == state.in_flight,
        state.next(LaneStep::SendDone(SendOutcome::TimedOut)) == LaneState::idle(state.destination),
        state.next(LaneStep::SendDone(SendOutcome::TimedOut)).absorb_all(packets).batch
            == concat_transactions(packets),
{
    lemma_absorb_all_appends(LaneState::idle(state.destination), packets);
}

} // verus!
