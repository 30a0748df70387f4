use rust_delay::buffer::ChannelBuffer;
use rust_delay::notify::{should_report, HostNotification};

#[test]
fn buffer_append_keeps_order() {
    let mut buf: ChannelBuffer<f32> = ChannelBuffer::new();
    assert_eq!(buf.len(), 0);
    buf.append(&[1.0, 2.0]);
    buf.append(&[]);
    buf.append(&[3.0]);
    assert_eq!(buf.len(), 3);
    let all = buf.drain_front(3);
    assert_eq!(all, vec![1.0, 2.0, 3.0]);
    assert_eq!(buf.len(), 0);
}

#[test]
fn buffer_drain_shifts_remainder_to_front() {
    let mut buf: ChannelBuffer<f32> = ChannelBuffer::new();
    buf.append(&[1.0, 2.0, 3.0, 4.0, 5.0]);
    let front = buf.drain_front(2);
    assert_eq!(front, vec![1.0, 2.0]);
    assert_eq!(buf.len(), 3);
    buf.append(&[6.0]);
    let rest = buf.drain_front(4);
    assert_eq!(rest, vec![3.0, 4.0, 5.0, 6.0]);
}

#[test]
fn buffer_drain_zero_is_empty() {
    let mut buf: ChannelBuffer<f32> = ChannelBuffer::new();
    buf.append(&[1.0]);
    let none = buf.drain_front(0);
    assert_eq!(none, Vec::<f32>::new());
    assert_eq!(buf.len(), 1);
}

#[test]
fn notify_tier_zero_reports_shutdown_only() {
    assert!(should_report(HostNotification::Shutdown, 0));
    assert!(!should_report(HostNotification::ThreadInit, 0));
    assert!(!should_report(HostNotification::SampleRateChange, 0));
    assert!(!should_report(HostNotification::Xrun, 0));
    assert!(!should_report(HostNotification::Freewheel, 0));
    assert!(!should_report(HostNotification::PortRegistration, 0));
}

#[test]
fn notify_tier_one_adds_operational_notices() {
    assert!(should_report(HostNotification::ThreadInit, 1));
    assert!(should_report(HostNotification::SampleRateChange, 1));
    assert!(should_report(HostNotification::Xrun, 1));
    assert!(should_report(HostNotification::Freewheel, 1));
    assert!(should_report(HostNotification::Shutdown, 1));
    assert!(!should_report(HostNotification::ClientRegistration, 1));
    assert!(!should_report(HostNotification::PortRename, 1));
    assert!(!should_report(HostNotification::PortsConnected, 1));
    assert!(!should_report(HostNotification::GraphReorder, 1));
    assert!(!should_report(HostNotification::LatencyChange, 1));
}

#[test]
fn notify_tier_two_reports_everything() {
    assert!(should_report(HostNotification::ClientRegistration, 2));
    assert!(should_report(HostNotification::PortRegistration, 2));
    assert!(should_report(HostNotification::PortRename, 2));
    assert!(should_report(HostNotification::PortsConnected, 2));
    assert!(should_report(HostNotification::GraphReorder, 2));
    assert!(should_report(HostNotification::LatencyChange, 2));
    assert!(should_report(HostNotification::Xrun, 255));
}
