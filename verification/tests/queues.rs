use netsim::delay_queue::{DelayPop, DelayQueue};
use netsim::device::ip_hub::{HubBroadcast, IpHubTask};
use netsim::device::machine::{TapTask, TaskState, TunTask};
use netsim::frame_buffer::FrameBuffer;
use netsim::hub::Hub;
use netsim::ip::{Ipv4Packet as RawIpv4Packet, Ipv4Payload as RawIpv4Payload};
use netsim::Ipv4Addr;

#[test]
fn delay_queue_releases_due_values_earliest_first() {
    let mut queue: DelayQueue<&str> = DelayQueue::new();
    assert!(matches!(queue.pop(0), DelayPop::Empty));
    assert_eq!(queue.timer(), None);
    queue.push(100, "a");
    assert_eq!(queue.timer(), Some(100));
    queue.push(50, "b");
    queue.push(100, "c");
    // The timer stays at the first instant pushed.
    assert_eq!(queue.timer(), Some(100));
    assert!(matches!(queue.pop(99), DelayPop::NotReady));
    // At 100 the earliest instant (50) goes first.
    assert!(matches!(queue.pop(100), DelayPop::Value("b")));
    // The timer moves to the earliest instant still pending.
    assert_eq!(queue.timer(), Some(100));
    // Values under one instant come out last pushed first.
    assert!(matches!(queue.pop(100), DelayPop::Value("c")));
    assert!(matches!(queue.pop(100), DelayPop::Value("a")));
    assert_eq!(queue.timer(), None);
    assert!(matches!(queue.pop(100), DelayPop::Empty));
}

#[test]
fn ip_hub_broadcast_skips_receiver_and_survives_failures() {
    let mut hub = IpHubTask::new();
    let ids: Vec<u64> = (0..4).map(|_| hub.insert_iface()).collect();
    assert_eq!(ids, vec![0, 1, 2, 3]);
    // A packet arrives on interface 1; the send to interface 2 fails.
    let mut walk = HubBroadcast::start(&hub, 1);
    let mut sent = Vec::new();
    let mut failures_left = 1;
    while let Some(target) = walk.next_target(&hub) {
        if target == 2 && failures_left > 0 {
            failures_left -= 1;
            walk.failed(&mut hub);
        } else {
            sent.push(target);
            walk.delivered(&hub);
        }
    }
    // Interface 3 moved into position 2 and still got the packet.
    assert_eq!(hub.len(), 3);
    assert_eq!(sent, vec![0, 2]);
}

#[test]
fn ip_hub_receiver_moved_by_failure_is_still_skipped() {
    let mut hub = IpHubTask::new();
    for _ in 0..3 {
        hub.insert_iface();
    }
    // The packet came from the last interface; the send to interface 1 fails, which moves the
    // receiver into position 1.
    let mut walk = HubBroadcast::start(&hub, 2);
    let mut sent = Vec::new();
    while let Some(target) = walk.next_target(&hub) {
        if target == 1 && hub.len() == 3 {
            walk.failed(&mut hub);
        } else {
            sent.push(target);
            walk.delivered(&hub);
        }
    }
    assert_eq!(sent, vec![0]);
    assert_eq!(hub.len(), 2);
}

#[test]
fn ether_hub_queues_frames_for_everyone() {
    let mut hub = Hub::new();
    let a = hub.add_client();
    let b = hub.add_client();
    hub.receive(&[1, 2, 3]);
    hub.receive(&[4]);
    assert_eq!(hub.take_outgoing(a), vec![vec![1, 2, 3], vec![4]]);
    assert_eq!(hub.take_outgoing(a), Vec::<Vec<u8>>::new());
    let c = hub.add_client();
    hub.receive(&[5]);
    hub.remove_client(a);
    assert_eq!(hub.num_clients(), 2);
    // Client c moved into a's place.
    assert_eq!(hub.take_outgoing(0), vec![vec![5]]);
    assert_eq!(hub.take_outgoing(b), vec![vec![1, 2, 3], vec![4], vec![5]]);
    let _ = c;
}

#[test]
fn frame_buffer_accounting() {
    let mut buffer = FrameBuffer::new(10);
    assert!(buffer.start_send(vec![0; 6]).is_none());
    assert_eq!(buffer.start_send(vec![0; 5]), Some(vec![0; 5]));
    assert!(buffer.start_send(vec![1; 4]).is_none());
    assert_eq!(buffer.pop_for_ready_channel(), Some(vec![0; 6]));
    assert!(buffer.start_send(vec![2; 6]).is_none());
    assert_eq!(buffer.pop_for_busy_channel(), Some(vec![1; 4]));
    buffer.push_front(vec![1; 4]);
    assert_eq!(buffer.pop_for_ready_channel(), Some(vec![1; 4]));
    assert_eq!(buffer.pop_for_ready_channel(), Some(vec![2; 6]));
    assert_eq!(buffer.pop_for_ready_channel(), None);
}

#[test]
fn device_tasks_linger_after_drop() {
    let mut tap = TapTask::new();
    assert!(!tap.poll_lifecycle(true, false, 0));
    assert_eq!(tap.state, TaskState::Receiving);
    assert!(!tap.poll_lifecycle(false, true, 1000));
    assert_eq!(tap.state, TaskState::Dying { deadline_ms: 1100 });
    assert!(!tap.poll_lifecycle(true, false, 1050));
    assert_eq!(tap.state, TaskState::Dying { deadline_ms: 1150 });
    assert!(!tap.poll_lifecycle(false, false, 1149));
    assert!(tap.poll_lifecycle(false, false, 1150));

    let mut tun = TunTask::new();
    assert!(!tun.poll_lifecycle(false, true, 5));
    assert!(tun.poll_lifecycle(false, true, 105));
}

#[test]
fn raw_ipv4_packet_fields() {
    let mut data = vec![0u8; 24];
    data[0] = 0x46; // six-word header
    data[8] = 0x40;
    data[9] = 17;
    data[12..16].copy_from_slice(&[10, 0, 0, 1]);
    data[16..20].copy_from_slice(&[10, 0, 0, 2]);
    data.extend_from_slice(&[9, 8, 7]);
    let packet = RawIpv4Packet::new(data);
    assert_eq!(packet.ttl(), 0x4011);
    assert_eq!(packet.source(), Ipv4Addr::new(10, 0, 0, 1));
    assert_eq!(packet.destination(), Ipv4Addr::new(10, 0, 0, 2));
    match packet.payload() {
        RawIpv4Payload::Udp(udp) => assert_eq!(udp.as_bytes(), &[9, 8, 7]),
        other => panic!("unexpected payload: {:?}", other),
    }
}
