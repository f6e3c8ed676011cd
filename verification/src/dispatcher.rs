//! The dispatcher: one lane set per destination, created on first contact.
//!
//! The dispatcher handles one packet at a time. While a packet waits to get
//! onto a queue the dispatcher routes nothing else, whatever destination the
//! next packet is bound for.

use vstd::prelude::*;
use fan::tokio::mpsc::FanOut;
use tokio::sync::mpsc::Receiver;
use tokio::sync::mpsc::Sender;
use crate::address::Destination;
use crate::lane::LaneState;
use crate::lane::LaneWorker;
use crate::lane::QUEUE_CAPACITY;
use crate::packet::ForwardPacket;
use crate::transport::ConnectionState;
use crate::transport::Transport;
use crate::transport::TransportView;

verus! {

/// Lanes that serve one destination side by side.
pub const LANES_PER_DESTINATION: usize = 4;

/// `tokio::sync::mpsc::Sender`: the sending end of a bounded queue.
#[verifier::external_type_specification]
#[verifier::external_body]
#[verifier::reject_recursive_types(T)]
pub struct ExSender<T>(Sender<T>);

/// `fan::tokio::mpsc::FanOut`: one entry point in front of several queues.
/// What is sent through it goes to exactly one of them.
#[verifier::external_type_specification]
#[verifier::external_body]
#[verifier::reject_recursive_types(T)]
pub struct ExFanOut<T>(FanOut<T>);

/// The number of packets that `queue` was made to hold at most. It stays the
/// same for as long as the queue lives.
pub uninterp spec fn queue_limit(queue: Receiver<ForwardPacket>) -> nat;

/// Makes a bounded queue that holds up to `capacity` packets. Calls
/// `tokio::sync::mpsc::channel`, which refuses a capacity of zero and one
/// above an eighth of the largest `usize`; the receiving end reports the
/// capacity it was made with through `max_capacity`.
#[verifier::external_body]
fn packet_channel(capacity: usize) -> (ends: (Sender<ForwardPacket>, Receiver<ForwardPacket>))
    requires
        0 < capacity <= usize::MAX / 8,
    ensures
        queue_limit(ends.1) == capacity,
{
    tokio::sync::mpsc::channel(capacity)
}

/// Puts one entry point in front of `senders`. Calls
/// `fan::tokio::mpsc::FanOut::new`. Which queue a packet then lands on is the
/// entry point's business and depends on how full the queues are when the
/// packet is sent, so nothing is said of it here.
#[verifier::external_body]
fn fan_out(senders: Vec<Sender<ForwardPacket>>) -> (fanout: FanOut<ForwardPacket>) {
    FanOut::new(senders)
}

/// One lane as it is handed to the task that will run it: the worker, the
/// queue it takes its packets from, and the transport it alone sends on.
pub struct Lane {
    pub worker: LaneWorker,
    pub queue: Receiver<ForwardPacket>,
    pub transport: Transport,
}

/// Whether `lanes` are the lanes of a newly made lane set for `destination`:
/// the fixed number of them, each worker waiting for its first packet, each
/// queue of the fixed capacity, each transport not yet connected.
pub open spec fn fresh_lanes(lanes: Seq<Lane>, destination: Destination) -> bool {
    &&& lanes.len() == LANES_PER_DESTINATION
    &&& forall|i: int|
        0 <= i < lanes.len() ==> {
            &&& (#[trigger] lanes[i]).worker@ == LaneState::idle(destination)
            &&& queue_limit(lanes[i].queue) == QUEUE_CAPACITY
            &&& lanes[i].transport@ == (TransportView {
                destination,
                state: ConnectionState::Absent,
            })
        }
}

/// The lanes of one destination, seen from the dispatcher's side. As a value
/// it is the destination.
pub struct LaneSet {
    destination: Destination,
    fanout: FanOut<ForwardPacket>,
}

impl View for LaneSet {
    type V = Destination;

    closed spec fn view(&self) -> Destination {
        self.destination
    }
}

impl LaneSet {
    /// The entry point in front of the queues of these lanes.
    pub closed spec fn entry(&self) -> FanOut<ForwardPacket> {
        self.fanout
    }

    /// Makes the lane set of `destination`: its queues, the entry point in
    /// front of them, and the lanes, which the caller starts.
    pub fn open(destination: Destination) -> (opened: (LaneSet, Vec<Lane>))
        ensures
            opened.0@ == destination,
            fresh_lanes(opened.1@, destination),
    {
        let mut senders: Vec<Sender<ForwardPacket>> = Vec::new();
        let mut lanes: Vec<Lane> = Vec::new();
        let mut made: usize = 0;
        while made < LANES_PER_DESTINATION
            invariant
                made <= LANES_PER_DESTINATION,
                lanes@.len() == made,
                forall|i: int|
                    0 <= i < lanes@.len() ==> {
                        &&& (#[trigger] lanes@[i]).worker@ == LaneState::idle(destination)
                        &&& queue_limit(lanes@[i].queue) == QUEUE_CAPACITY
                        &&& lanes@[i].transport@ == (TransportView {
                            destination,
                            state: ConnectionState::Absent,
                        })
                    },
            decreases LANES_PER_DESTINATION - made,
        {
            let (sender, queue) = packet_channel(QUEUE_CAPACITY);
            senders.push(sender);
            lanes.push(
                Lane {
                    worker: LaneWorker::new(destination),
                    queue,
                    transport: Transport::new(destination),
                },
            );
            made = made + 1;
        }
        (LaneSet { destination, fanout: fan_out(senders) }, lanes)
    }

    /// The destination that these lanes serve.
    pub fn destination(&self) -> (destination: Destination)
        ensures
            destination == self@,
    {
        self.destination
    }

    /// The entry point through which packets reach the lanes.
    pub fn fanout(&self) -> (fanout: &FanOut<ForwardPacket>)
        ensures
            *fanout == self.entry(),
    {
        &self.fanout
    }
}

/// One thing that happens to the dispatcher.
pub enum DispatchStep {
    /// A packet for this destination came from upstream.
    Packet(Destination),
    /// The packet routed last has got onto a queue.
    Enqueued,
}

/// A dispatcher as a value: the destinations that have a lane set, in the
/// order in which they were first seen, and the place of the lane set whose
/// queues the packet routed last is waiting to get onto, if one is.
pub struct DispatcherState {
    pub destinations: Seq<Destination>,
    pub enqueueing: Option<nat>,
}

impl DispatcherState {
    /// A dispatcher that knows no destination yet.
    pub open spec fn empty() -> DispatcherState {
        DispatcherState { destinations: Seq::empty(), enqueueing: None }
    }

    /// No destination has two lane sets, and a packet waits only for a lane
    /// set that exists.
    pub open spec fn wf(self) -> bool {
        &&& self.destinations.no_duplicates()
        &&& self.enqueueing matches Some(at) ==> at < self.destinations.len()
    }

    /// The place of `destination`'s lane set: where it is, or behind all the
    /// others where it is yet to be made.
    pub open spec fn place_of(self, destination: Destination) -> nat {
        if self.destinations.contains(destination) {
            self.destinations.index_of(destination) as nat
        } else {
            self.destinations.len()
        }
    }

    /// Whether `step` can happen in this state. No packet is routed while
    /// another waits to get onto a queue.
    pub open spec fn admits(self, step: DispatchStep) -> bool {
        match step {
            DispatchStep::Packet(_) => self.enqueueing is None,
            DispatchStep::Enqueued => self.enqueueing is Some,
        }
    }

    /// The state after `step`. A destination seen for the first time gets its
    /// lane set behind all the others; no lane set ever leaves or moves.
    pub open spec fn next(self, step: DispatchStep) -> DispatcherState {
        match step {
            DispatchStep::Packet(destination) => DispatcherState {
                destinations: if self.destinations.contains(destination) {
                    self.destinations
                } else {
                    self.destinations.push(destination)
                },
                enqueueing: Some(self.place_of(destination)),
            },
            DispatchStep::Enqueued => DispatcherState { enqueueing: None, ..self },
        }
    }

    /// The state after all of `steps`, first to last.
    pub open spec fn run(self, steps: Seq<DispatchStep>) -> DispatcherState
        decreases steps.len(),
    {
        if steps.len() == 0 {
            self
        } else {
            self.run(steps.drop_last()).next(steps.last())
        }
    }

    /// Whether each of `steps` can happen in the state that the steps before
    /// it lead to.
    pub open spec fn admits_all(self, steps: Seq<DispatchStep>) -> bool
        decreases steps.len(),
    {
        steps.len() == 0 || (self.admits_all(steps.drop_last()) && self.run(
            steps.drop_last(),
        ).admits(steps.last()))
    }
}

/// Where a packet goes.
pub struct Route {
    /// The place of the destination's lane set in the dispatcher.
    pub lane_set: usize,
    /// The lanes to start, where the lane set was made for this packet.
    pub spawned: Option<Vec<Lane>>,
}

/// The registry of lane sets. Only the one task that takes packets from
/// upstream reads and changes it.
pub struct Dispatcher {
    lane_sets: Vec<LaneSet>,
    enqueueing: Option<usize>,
}

impl View for Dispatcher {
    type V = DispatcherState;

    closed spec fn view(&self) -> DispatcherState {
        DispatcherState {
            destinations: Seq::new(self.lane_sets@.len(), |i: int| self.lane_sets@[i]@),
            enqueueing: match self.enqueueing {
                Some(at) => Some(at as nat),
                None => None,
            },
        }
    }
}

impl Dispatcher {
    #[verifier::type_invariant]
    spec fn well_formed(self) -> bool {
        self@.wf()
    }

    /// The lane set at place `at`.
    pub closed spec fn lane_set_at(&self, at: int) -> LaneSet {
        self.lane_sets@[at]
    }

    /// A dispatcher that knows no destination yet.
    pub fn new() -> (dispatcher: Self)
        ensures
            dispatcher@ == DispatcherState::empty(),
    {
        let dispatcher = Dispatcher { lane_sets: Vec::new(), enqueueing: None };
        assert(dispatcher@.destinations == Seq::<Destination>::empty());
        dispatcher
    }

    /// The place of `destination`'s lane set, if it has one.
    pub fn lookup(&self, destination: Destination) -> (found: Option<usize>)
        ensures
            self@.wf(),
            match found {
                Some(at) => self@.destinations.contains(destination) && at == self@.place_of(
                    destination,
                ),
                None => !self@.destinations.contains(destination),
            },
    {
        proof {
            use_type_invariant(self);
        }
        let mut at: usize = 0;
        while at < self.lane_sets.len()
            invariant
                self@.wf(),
                at <= self.lane_sets@.len(),
                forall|i: int| 0 <= i < at ==> self@.destinations[i] != destination,
            decreases self.lane_sets@.len() - at,
        {
            if self.lane_sets[at].destination == destination {
                assert(self@.destinations[at as int] == destination);
                return Some(at);
            }
            at = at + 1;
        }
        None
    }

    /// Finds the lane set that `packet` goes to, making it first where the
    /// packet's destination is new, and marks the packet as waiting to get
    /// onto one of that lane set's queues.
    pub fn route(&mut self, packet: &ForwardPacket) -> (route: Route)
        requires
            old(self)@.admits(DispatchStep::Packet(packet.tpu_address)),
        ensures
            final(self)@.wf(),
            final(self)@ == old(self)@.next(DispatchStep::Packet(packet.tpu_address)),
            final(self)@.enqueueing == Some(route.lane_set as nat),
            final(self)@.destinations[route.lane_set as int] == packet.tpu_address,
            forall|at: int|
                0 <= at < old(self)@.destinations.len() ==> final(self).lane_set_at(at) == old(
                    self,
                ).lane_set_at(at),
            match route.spawned {
                Some(lanes) => !old(self)@.destinations.contains(packet.tpu_address)
                    && fresh_lanes(lanes@, packet.tpu_address),
                None => old(self)@.destinations.contains(packet.tpu_address),
            },
    {
        proof {
            use_type_invariant(&*self);
        }
        match self.lookup(packet.tpu_address) {
            Some(at) => {
                self.enqueueing = Some(at);
                Route { lane_set: at, spawned: None }
            },
            None => {
                let (lane_set, lanes) = LaneSet::open(packet.tpu_address);
                let at: usize = self.lane_sets.len();
                // The list is taken out, extended and put back whole, so that
                // the dispatcher is never seen half changed.
                let mut emptied = Dispatcher::new();
                std::mem::swap(self, &mut emptied);
                let mut lane_sets = emptied.lane_sets;
                lane_sets.push(lane_set);
                assert(Seq::new(lane_sets@.len(), |i: int| lane_sets@[i]@)
                    == old(self)@.destinations.push(packet.tpu_address));
                *self = Dispatcher { lane_sets, enqueueing: Some(at) };
                Route { lane_set: at, spawned: Some(lanes) }
            },
        }
    }

    /// Takes note that the packet routed last has got onto a queue, so that
    /// the next packet can be routed.
    pub fn enqueued(&mut self)
        requires
            old(self)@.admits(DispatchStep::Enqueued),
        ensures
            final(self)@.wf(),
            final(self)@ == old(self)@.next(DispatchStep::Enqueued),
            forall|at: int|
                0 <= at < old(self)@.destinations.len() ==> final(self).lane_set_at(at) == old(
                    self,
                ).lane_set_at(at),
    {
        proof {
            use_type_invariant(&*self);
        }
        self.enqueueing = None;
    }

    /// The lane set at place `at`, if there is one.
    pub fn lane_set(&self, at: usize) -> (found: Option<&LaneSet>)
        ensures
            match found {
                Some(lane_set) => at < self@.destinations.len() && *lane_set == self.lane_set_at(
                    at as int,
                ) && lane_set@ == self@.destinations[at as int],
                None => at >= self@.destinations.len(),
            },
    {
        if at < self.lane_sets.len() {
            Some(&self.lane_sets[at])
        } else {
            None
        }
    }

    /// The place of the lane set that the packet routed last is waiting to
    /// get onto, if one is waiting.
    pub fn enqueueing(&self) -> (place: Option<usize>)
        ensures
            match place {
                Some(at) => self@.enqueueing == Some(at as nat),
                None => self@.enqueueing is None,
            },
    {
        self.enqueueing
    }

    /// The number of destinations seen so far.
    pub fn len(&self) -> (n: usize)
        ensures
            n == self@.destinations.len(),
    {
        self.lane_sets.len()
    }
}

/// Every step keeps the registry sound: each destination has one lane set,
/// and those it had before stay where they were.
pub proof fn lemma_lane_sets_stay(state: DispatcherState, step: DispatchStep)
    requires
        state.wf(),
    ensures
        state.next(step).wf(),
        state.destinations.is_prefix_of(state.next(step).destinations),
        step matches DispatchStep::Packet(destination) ==> {
            &&& state.next(step).destinations.contains(destination)
            &&& state.next(step).destinations[state.place_of(destination) as int] == destination
        },
{
    if let DispatchStep::Packet(destination) = step {
        if state.destinations.contains(destination) {
            state.destinations.index_of_first_ensures(destination);
        } else {
            let longer = state.destinations.push(destination);
            assert(longer[state.destinations.len() as int] == destination);
        }
    }
}

/// Whatever happens, in whatever order, no lane set is ever given up or
/// moved, and no destination ever gets a second one.
pub proof fn lemma_dispatcher_never_forgets(start: DispatcherState, steps: Seq<DispatchStep>)
    requires
        start.wf(),
    ensures
        start.run(steps).wf(),
        start.destinations.is_prefix_of(start.run(steps).destinations),
    decreases steps.len(),
{
    if steps.len() > 0 {
        lemma_dispatcher_never_forgets(start, steps.drop_last());
        lemma_lane_sets_stay(start.run(steps.drop_last()), steps.last());
    }
}

/// Where all of `steps` can happen, so can each shorter run of them.
pub proof fn lemma_admitted_dispatch_prefix(
    start: DispatcherState,
    steps: Seq<DispatchStep>,
    k: int,
)
    requires
        start.admits_all(steps),
        0 <= k < steps.len(),
    ensures
        start.admits_all(steps.take(k)),
        start.run(steps.take(k)).admits(steps[k]),
        start.run(steps.take(k + 1)) == start.run(steps.take(k)).next(steps[k]),
    decreases steps.len(),
{
    assert(steps.take(k + 1).drop_last() == steps.take(k));
    if k == steps.len() - 1 {
        assert(steps.take(k) == steps.drop_last());
    } else {
        lemma_admitted_dispatch_prefix(start, steps.drop_last(), k);
        assert(steps.drop_last().take(k) == steps.take(k));
    }
}

/// The dispatcher routes one packet at a time. The step after the routing
/// of a packet is that packet getting onto a queue: until then no other
/// packet is routed, not even one bound for a destination whose queues have
/// room.
pub proof fn lemma_routing_waits_for_enqueue(
    start: DispatcherState,
    steps: Seq<DispatchStep>,
    i: int,
)
    requires
        start.admits_all(steps),
        0 <= i,
        i + 1 < steps.len(),
        steps[i] is Packet,
    ensures
        start.run(steps.take(i + 1)).enqueueing is Some,
        steps[i + 1] is Enqueued,
{
    lemma_admitted_dispatch_prefix(start, steps, i);
    lemma_admitted_dispatch_prefix(start, steps, i + 1);
}

} // verus!
