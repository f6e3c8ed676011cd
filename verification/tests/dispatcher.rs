use quic_forward_proxy::address::Destination;
use quic_forward_proxy::dispatcher::Dispatcher;
use quic_forward_proxy::dispatcher::LaneSet;
use quic_forward_proxy::dispatcher::LANES_PER_DESTINATION;
use quic_forward_proxy::lane::LanePhase;
use quic_forward_proxy::packet::ForwardPacket;
use quic_forward_proxy::transport::ConnectionState;
use std::time::Duration;

fn first_destination() -> Destination {
    Destination::V4 { ip: 0xc0a8_0001, port: 8003 }
}

fn second_destination() -> Destination {
    Destination::V6 { ip: 1, port: 8003, flowinfo: 0, scope_id: 0 }
}

fn empty_packet(destination: Destination) -> ForwardPacket {
    ForwardPacket { tpu_address: destination, transactions: Vec::new() }
}

#[test]
fn new_dispatcher_knows_no_destination() {
    let dispatcher = Dispatcher::new();
    assert_eq!(dispatcher.len(), 0);
    assert_eq!(dispatcher.lookup(first_destination()), None);
    assert_eq!(dispatcher.enqueueing(), None);
    assert!(dispatcher.lane_set(0).is_none());
}

#[test]
fn lane_set_has_four_lanes_with_queues_of_a_hundred_thousand() {
    assert_eq!(LANES_PER_DESTINATION, 4);
    let (lane_set, lanes) = LaneSet::open(first_destination());
    assert_eq!(lane_set.destination(), first_destination());
    assert_eq!(lanes.len(), 4);
    for lane in lanes.iter() {
        assert_eq!(lane.queue.max_capacity(), 100_000);
        assert_eq!(lane.queue.len(), 0);
        assert_eq!(lane.worker.destination(), first_destination());
        assert_eq!(lane.worker.phase(), LanePhase::Receiving);
        assert_eq!(lane.transport.destination(), first_destination());
        assert_eq!(lane.transport.state(), ConnectionState::Absent);
    }
}

#[test]
fn first_packet_for_a_destination_makes_its_lane_set() {
    let mut dispatcher = Dispatcher::new();
    let route = dispatcher.route(&empty_packet(first_destination()));
    assert_eq!(route.lane_set, 0);
    assert_eq!(route.spawned.unwrap().len(), 4);
    assert_eq!(dispatcher.len(), 1);
    assert_eq!(dispatcher.lookup(first_destination()), Some(0));
    assert_eq!(dispatcher.lane_set(0).unwrap().destination(), first_destination());
    assert_eq!(dispatcher.enqueueing(), Some(0));
    dispatcher.enqueued();
    assert_eq!(dispatcher.enqueueing(), None);
}

#[test]
fn later_packets_for_a_destination_find_its_lane_set() {
    let mut dispatcher = Dispatcher::new();
    assert!(dispatcher.route(&empty_packet(first_destination())).spawned.is_some());
    dispatcher.enqueued();
    let again = dispatcher.route(&empty_packet(first_destination()));
    assert_eq!(again.lane_set, 0);
    assert!(again.spawned.is_none());
    dispatcher.enqueued();
    assert_eq!(dispatcher.len(), 1);
}

#[test]
fn each_destination_has_one_lane_set_and_keeps_its_place() {
    let mut dispatcher = Dispatcher::new();
    let order = [
        first_destination(),
        second_destination(),
        first_destination(),
        Destination::V4 { ip: 0xc0a8_0001, port: 8004 },
        second_destination(),
        first_destination(),
    ];
    let places: Vec<usize> = order
        .iter()
        .map(|destination| {
            let route = dispatcher.route(&empty_packet(*destination));
            dispatcher.enqueued();
            route.lane_set
        })
        .collect();
    assert_eq!(places, vec![0, 1, 0, 2, 1, 0]);
    assert_eq!(dispatcher.len(), 3);
    assert_eq!(dispatcher.lookup(second_destination()), Some(1));
    assert_eq!(dispatcher.lane_set(1).unwrap().destination(), second_destination());
    assert_eq!(dispatcher.lane_set(2).unwrap().destination().clone(), order[3]);
    assert!(dispatcher.lane_set(3).is_none());
}

#[test]
fn packet_sent_through_the_entry_point_lands_on_one_lane() {
    let runtime = tokio::runtime::Builder::new_current_thread().enable_all().build().unwrap();
    runtime.block_on(async {
        let mut dispatcher = Dispatcher::new();
        let packet = empty_packet(first_destination());
        let route = dispatcher.route(&packet);
        let mut lanes = route.spawned.unwrap();
        dispatcher.lane_set(route.lane_set).unwrap().fanout().send(packet).await.unwrap();
        dispatcher.enqueued();
        let waiting: usize = lanes.iter().map(|lane| lane.queue.len()).sum();
        assert_eq!(waiting, 1);
        let holder = lanes.iter_mut().find(|lane| lane.queue.len() == 1).unwrap();
        let received = holder.queue.try_recv().unwrap();
        assert!(holder.worker.routes_here(&received));
    });
}

#[test]
fn full_queues_of_one_destination_hold_up_every_other() {
    let runtime = tokio::runtime::Builder::new_current_thread().enable_all().build().unwrap();
    runtime.block_on(async {
        let mut dispatcher = Dispatcher::new();

        let opening = empty_packet(first_destination());
        let route = dispatcher.route(&opening);
        let mut stuck_lanes = route.spawned.unwrap();
        dispatcher.lane_set(route.lane_set).unwrap().fanout().send(opening).await.unwrap();
        dispatcher.enqueued();
        for _ in 1..4 * 100_000 {
            let packet = empty_packet(first_destination());
            let route = dispatcher.route(&packet);
            dispatcher.lane_set(route.lane_set).unwrap().fanout().send(packet).await.unwrap();
            dispatcher.enqueued();
        }
        for lane in stuck_lanes.iter() {
            assert_eq!(lane.queue.len(), 100_000);
        }

        let overflow = empty_packet(first_destination());
        let route = dispatcher.route(&overflow);
        assert_eq!(dispatcher.enqueueing(), Some(0));
        {
            let entry = dispatcher.lane_set(route.lane_set).unwrap().fanout();
            let blocked = tokio::time::timeout(Duration::from_millis(50), entry.send(overflow));
            assert!(blocked.await.is_err());
        }
        // While that packet waits, the dispatcher routes nothing, so a packet
        // for the second destination stays where it is.
        assert_eq!(dispatcher.enqueueing(), Some(0));
        assert_eq!(dispatcher.lookup(second_destination()), None);

        assert!(stuck_lanes[2].queue.try_recv().is_ok());
        let retried = empty_packet(first_destination());
        {
            let entry = dispatcher.lane_set(route.lane_set).unwrap().fanout();
            let sent = tokio::time::timeout(Duration::from_millis(50), entry.send(retried));
            assert!(sent.await.unwrap().is_ok());
        }
        dispatcher.enqueued();
        assert_eq!(stuck_lanes[2].queue.len(), 100_000);

        let other = empty_packet(second_destination());
        let route = dispatcher.route(&other);
        assert_eq!(route.lane_set, 1);
        let other_lanes = route.spawned.unwrap();
        dispatcher.lane_set(route.lane_set).unwrap().fanout().send(other).await.unwrap();
        dispatcher.enqueued();
        let delivered: usize = other_lanes.iter().map(|lane| lane.queue.len()).sum();
        assert_eq!(delivered, 1);
    });
}
