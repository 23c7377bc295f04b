use canal_router::config::{default_dev_name, default_queues, Config};
use canal_router::icmp::Reply;
use canal_router::ip::IpOutcome;
use canal_router::router::{Router, Supervision, WorkerExit};
use canal_router::tun::{Step, TunContext, TunError, REVERSE_BUFFER_HEADER};

const ECHO: [u8; 28] = [
    0x45, 0x00, 0x00, 0x1c, 0x12, 0x34, 0x00, 0x00, 0x64, 0x01, 0x30, 0xa8, 0x0a, 0x00, 0x00, 0x05,
    0x0a, 0x00, 0x00, 0x01, 0x08, 0x00, 0xf7, 0xff, 0x00, 0x00, 0x00, 0x00,
];

#[test]
fn buffer_is_prefix_and_receive_region_all_zero() {
    assert_eq!(REVERSE_BUFFER_HEADER, 64);
    let tun = TunContext::new(1500, 3).unwrap();
    assert_eq!(tun.queue, 3);
    assert_eq!(tun.buffer, vec![0u8; 1564]);
}

#[test]
fn every_mtu_from_zero_on_gives_a_context() {
    for mtu in [0, 1, 20, 27, 28, 67, 68, 576, 65535] {
        let tun = TunContext::new(mtu, 5).unwrap();
        assert_eq!(tun.queue, 5);
        assert_eq!(tun.buffer, vec![0u8; 64 + mtu as usize]);
    }
}

#[test]
fn queue_with_a_small_mtu_serves_its_frames() {
    let mut tun = TunContext::new(28, 0).unwrap();
    tun.buffer[64..92].copy_from_slice(&ECHO);
    assert_eq!(
        tun.handle(28),
        Step::Handled(IpOutcome::Replied(Reply { start: 36, size: 56 }))
    );
    let mut tun = TunContext::new(27, 0).unwrap();
    tun.buffer[64..91].copy_from_slice(&ECHO[..27]);
    let before = tun.buffer.clone();
    assert_eq!(tun.handle(27), Step::Handled(IpOutcome::Ignored));
    assert_eq!(tun.buffer, before);
    let mut tun = TunContext::new(0, 0).unwrap();
    assert_eq!(tun.handle(0), Step::TooSmall);
    assert_eq!(tun.buffer, vec![0u8; 64]);
}

#[test]
fn negative_mtu_is_refused() {
    assert_eq!(TunContext::new(-1, 0).unwrap_err(), TunError::NegativeMtu);
    assert_eq!(TunContext::new(i32::MIN, 0).unwrap_err(), TunError::NegativeMtu);
}

#[test]
fn frame_no_longer_than_a_header_is_dropped() {
    for size in [0usize, 1, 19, 20] {
        let mut tun = TunContext::new(1500, 0).unwrap();
        tun.buffer[64..92].copy_from_slice(&ECHO);
        let before = tun.buffer.clone();
        assert_eq!(tun.handle(size), Step::TooSmall);
        assert_eq!(tun.buffer, before);
        // The queue goes on with the next frame.
        assert_eq!(
            tun.handle(28),
            Step::Handled(IpOutcome::Replied(Reply { start: 36, size: 56 }))
        );
    }
}

#[test]
fn frame_of_twenty_one_bytes_goes_to_the_dispatcher() {
    let mut tun = TunContext::new(1500, 0).unwrap();
    tun.buffer[64] = 0x60;
    assert_eq!(tun.handle(21), Step::Handled(IpOutcome::Ipv6));
    tun.buffer[64] = 0x25;
    assert_eq!(tun.handle(21), Step::Handled(IpOutcome::UnknownVersion(2)));
    tun.buffer[64] = 0x45;
    tun.buffer[64 + 9] = 6;
    assert_eq!(tun.handle(21), Step::Handled(IpOutcome::Ignored));
}

#[test]
fn queue_serves_one_frame_after_another() {
    let mut tun = TunContext::new(1500, 2).unwrap();
    tun.buffer[64..92].copy_from_slice(&ECHO);
    let first = tun.handle(28);
    let sent = tun.buffer[36..92].to_vec();
    tun.buffer[64..92].copy_from_slice(&ECHO);
    assert_eq!(tun.handle(28), first);
    assert_eq!(&tun.buffer[36..92], &sent[..]);
    assert_eq!(tun.queue, 2);
}

#[test]
fn first_failure_ends_all_queues() {
    let mut router = Router::new(2);
    assert!(router.is_running());
    assert_eq!(router.on_exit(WorkerExit::Failed), Supervision::Terminate);
    // The other queue had no error and still runs.
    assert_eq!(router, Router { queues: 2, ended: 1 });
    assert!(router.is_running());
}

#[test]
fn router_waits_for_every_worker() {
    let mut router = Router::new(3);
    assert_eq!(router.on_exit(WorkerExit::Completed), Supervision::Wait);
    assert_eq!(router.on_exit(WorkerExit::Completed), Supervision::Wait);
    assert_eq!(router.on_exit(WorkerExit::Completed), Supervision::Finish);
    assert!(!router.is_running());
}

#[test]
fn failure_of_the_last_worker_terminates_too() {
    let mut router = Router::new(2);
    assert_eq!(router.on_exit(WorkerExit::Completed), Supervision::Wait);
    assert_eq!(router.on_exit(WorkerExit::Failed), Supervision::Terminate);
}

#[test]
fn router_without_queues_has_nothing_to_wait_for() {
    assert!(!Router::new(0).is_running());
}

#[test]
fn configuration_defaults() {
    assert_eq!(default_dev_name(), "");
    assert_eq!(default_queues(), 1);
    let config = Config { dev_name: default_dev_name(), queues: default_queues() };
    assert_eq!(config, Config { dev_name: String::new(), queues: 1 });
}
