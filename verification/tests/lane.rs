use quic_forward_proxy::address::Destination;
use quic_forward_proxy::lane::LanePhase;
use quic_forward_proxy::lane::LaneWorker;
use quic_forward_proxy::lane::SendOutcome;
use quic_forward_proxy::lane::QUEUE_CAPACITY;
use quic_forward_proxy::lane::SEND_TIMEOUT_MS;
use quic_forward_proxy::packet::ForwardPacket;
use solana_sdk::message::VersionedMessage;
use solana_sdk::signature::Signature;
use solana_sdk::transaction::VersionedTransaction;
use tokio::sync::mpsc::channel;

fn here() -> Destination {
    Destination::V4 { ip: 0x0a00_0001, port: 1024 }
}

fn elsewhere() -> Destination {
    Destination::V4 { ip: 0x0a00_0001, port: 1025 }
}

fn tagged(tag: u8) -> VersionedTransaction {
    VersionedTransaction {
        signatures: vec![Signature::from([tag; 64])],
        message: VersionedMessage::default(),
    }
}

fn packet_for(destination: Destination, tags: &[u8]) -> ForwardPacket {
    ForwardPacket {
        tpu_address: destination,
        transactions: tags.iter().map(|tag| tagged(*tag)).collect(),
    }
}

fn tags_of(transactions: &[VersionedTransaction]) -> Vec<u8> {
    transactions.iter().map(|transaction| transaction.signatures[0].as_ref()[0]).collect()
}

#[test]
fn lane_constants() {
    assert_eq!(QUEUE_CAPACITY, 100_000);
    assert_eq!(SEND_TIMEOUT_MS, 500);
}

#[test]
fn new_worker_waits_for_a_packet() {
    let worker = LaneWorker::new(here());
    assert_eq!(worker.phase(), LanePhase::Receiving);
    assert_eq!(worker.destination(), here());
    assert_eq!(worker.gathered(), 0);
}

#[test]
fn worker_tells_its_own_packets_from_others() {
    let worker = LaneWorker::new(here());
    assert!(worker.routes_here(&packet_for(here(), &[1])));
    assert!(!worker.routes_here(&packet_for(elsewhere(), &[1])));
    assert!(!worker.routes_here(&packet_for(
        Destination::V6 { ip: 0x0a00_0001, port: 1024, flowinfo: 0, scope_id: 0 },
        &[1]
    )));
}

#[test]
fn batch_is_the_packets_joined_in_arrival_order() {
    let mut worker = LaneWorker::new(here());
    worker.absorb(packet_for(here(), &[1, 2]));
    assert_eq!(worker.phase(), LanePhase::Batching);
    worker.absorb(packet_for(here(), &[3]));
    worker.absorb(packet_for(here(), &[4, 5, 6]));
    assert_eq!(worker.gathered(), 6);
    let batch = worker.begin_sending();
    assert_eq!(tags_of(&batch.transactions), vec![1, 2, 3, 4, 5, 6]);
    assert_eq!(batch.timeout_ms, 500);
    assert_eq!(worker.phase(), LanePhase::Sending);
    assert_eq!(worker.gathered(), 0);
}

#[test]
fn batch_of_one_packet_is_that_packet() {
    let mut worker = LaneWorker::new(here());
    worker.absorb(packet_for(here(), &[9, 8, 7]));
    let batch = worker.begin_sending();
    assert_eq!(tags_of(&batch.transactions), vec![9, 8, 7]);
}

#[test]
fn packet_without_transactions_gives_an_empty_batch() {
    let mut worker = LaneWorker::new(here());
    worker.absorb(packet_for(here(), &[]));
    assert_eq!(worker.phase(), LanePhase::Batching);
    let batch = worker.begin_sending();
    assert!(batch.transactions.is_empty());
}

#[test]
fn drain_takes_all_that_waits_on_the_queue() {
    let (sender, mut queue) = channel::<ForwardPacket>(16);
    sender.try_send(packet_for(here(), &[2, 3])).unwrap();
    sender.try_send(packet_for(here(), &[4])).unwrap();
    sender.try_send(packet_for(here(), &[])).unwrap();
    sender.try_send(packet_for(here(), &[5, 6])).unwrap();
    let mut worker = LaneWorker::new(here());
    worker.absorb(packet_for(here(), &[1]));
    assert!(worker.drain(&mut queue).is_none());
    assert!(queue.try_recv().is_err());
    let batch = worker.begin_sending();
    assert_eq!(tags_of(&batch.transactions), vec![1, 2, 3, 4, 5, 6]);
}

#[test]
fn drain_of_an_empty_queue_takes_nothing() {
    let (_sender, mut queue) = channel::<ForwardPacket>(16);
    let mut worker = LaneWorker::new(here());
    worker.absorb(packet_for(here(), &[1]));
    assert!(worker.drain(&mut queue).is_none());
    assert_eq!(worker.gathered(), 1);
    assert_eq!(worker.phase(), LanePhase::Batching);
}

#[test]
fn drain_of_a_closed_queue_takes_what_is_left() {
    let (sender, mut queue) = channel::<ForwardPacket>(16);
    sender.try_send(packet_for(here(), &[2])).unwrap();
    drop(sender);
    let mut worker = LaneWorker::new(here());
    worker.absorb(packet_for(here(), &[1]));
    assert!(worker.drain(&mut queue).is_none());
    assert_eq!(worker.gathered(), 2);
}

#[test]
fn drain_hands_back_a_stray_packet_and_stops() {
    let (sender, mut queue) = channel::<ForwardPacket>(16);
    sender.try_send(packet_for(here(), &[2])).unwrap();
    sender.try_send(packet_for(elsewhere(), &[3])).unwrap();
    sender.try_send(packet_for(here(), &[4])).unwrap();
    let mut worker = LaneWorker::new(here());
    worker.absorb(packet_for(here(), &[1]));
    let stray = worker.drain(&mut queue).unwrap();
    assert_eq!(stray.tpu_address, elsewhere());
    assert_eq!(tags_of(&stray.transactions), vec![3]);
    assert_eq!(worker.gathered(), 2);
    assert_eq!(tags_of(&queue.try_recv().unwrap().transactions), vec![4]);
}

#[test]
fn drain_takes_no_more_than_a_queue_can_hold() {
    let (sender, mut queue) = channel::<ForwardPacket>(QUEUE_CAPACITY);
    for _ in 0..QUEUE_CAPACITY {
        sender.try_send(packet_for(here(), &[])).unwrap();
    }
    assert!(sender.try_send(packet_for(here(), &[])).is_err());
    let mut worker = LaneWorker::new(here());
    worker.absorb(packet_for(here(), &[1]));
    assert!(worker.drain(&mut queue).is_none());
    assert!(queue.try_recv().is_err());
    assert_eq!(worker.gathered(), 1);
}

#[test]
fn completed_send_puts_the_worker_back_to_receiving() {
    let mut worker = LaneWorker::new(here());
    worker.absorb(packet_for(here(), &[1, 2]));
    worker.begin_sending();
    assert_eq!(worker.finish_sending(SendOutcome::Completed), 0);
    assert_eq!(worker.phase(), LanePhase::Receiving);
    assert_eq!(worker.gathered(), 0);
}

#[test]
fn timed_out_batch_is_dropped_and_the_lane_goes_on() {
    let mut worker = LaneWorker::new(here());
    worker.absorb(packet_for(here(), &[1, 2, 3]));
    let lost = worker.begin_sending();
    assert_eq!(lost.transactions.len(), 3);
    assert_eq!(worker.finish_sending(SendOutcome::TimedOut), 3);
    assert_eq!(worker.phase(), LanePhase::Receiving);
    worker.absorb(packet_for(here(), &[4]));
    let next = worker.begin_sending();
    assert_eq!(tags_of(&next.transactions), vec![4]);
    assert_eq!(worker.finish_sending(SendOutcome::Completed), 0);
}

#[test]
fn batches_follow_one_another() {
    let (sender, mut queue) = channel::<ForwardPacket>(16);
    let mut worker = LaneWorker::new(here());
    let mut issued = Vec::new();
    for round in 0u8..3 {
        sender.try_send(packet_for(here(), &[10 * round + 1])).unwrap();
        sender.try_send(packet_for(here(), &[10 * round + 2])).unwrap();
        let first = queue.try_recv().unwrap();
        assert!(worker.routes_here(&first));
        worker.absorb(first);
        assert!(worker.drain(&mut queue).is_none());
        let batch = worker.begin_sending();
        issued.push(tags_of(&batch.transactions));
        worker.finish_sending(SendOutcome::Completed);
    }
    assert_eq!(issued, vec![vec![1, 2], vec![11, 12], vec![21, 22]]);
}

#[test]
fn stalled_send_gives_way_after_the_time_limit() {
    let runtime = tokio::runtime::Builder::new_current_thread().enable_all().build().unwrap();
    runtime.block_on(async {
        let (sender, mut queue) = channel::<ForwardPacket>(16);
        let mut worker = LaneWorker::new(here());

        sender.try_send(packet_for(here(), &[1, 2])).unwrap();
        let first = queue.recv().await.unwrap();
        worker.absorb(first);
        assert!(worker.drain(&mut queue).is_none());
        let batch = worker.begin_sending();
        let started = std::time::Instant::now();
        let stalled = tokio::time::timeout(
            std::time::Duration::from_millis(batch.timeout_ms),
            std::future::pending::<()>(),
        )
        .await;
        let waited = started.elapsed();
        assert!(stalled.is_err());
        assert!(waited >= std::time::Duration::from_millis(500));
        assert!(waited < std::time::Duration::from_millis(1_500));
        assert_eq!(worker.finish_sending(SendOutcome::TimedOut), 2);

        sender.try_send(packet_for(here(), &[3])).unwrap();
        let next = queue.recv().await.unwrap();
        assert!(worker.routes_here(&next));
        worker.absorb(next);
        assert!(worker.drain(&mut queue).is_none());
        let batch = worker.begin_sending();
        assert_eq!(tags_of(&batch.transactions), vec![3]);
        assert_eq!(worker.finish_sending(SendOutcome::Completed), 0);
    });
}
