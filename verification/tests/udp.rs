use lemonbeatd::error::Error;
use lemonbeatd::net::SocketAddr;
use lemonbeatd::net::SocketAddrV4;
use lemonbeatd::net::SocketAddrV6;
use lemonbeatd::traits::ByteOrder;
use lemonbeatd::udp;
use lemonbeatd::udp::check_error_queue;
use lemonbeatd::udp::ErrorQueue;
use lemonbeatd::udp::ReceiveError;
use lemonbeatd::udp::SendEvent;
use lemonbeatd::udp::Sender;
use lemonbeatd::udp::UdpFramed;

fn v6(flowinfo: u32) -> SocketAddr {
    SocketAddr::V6(SocketAddrV6 { ip: 7, port: 20000, flowinfo, scope_id: 3 })
}

#[test]
fn error_queues() {
    assert_eq!(check_error_queue(&ErrorQueue::Empty), Ok(()));
    assert_eq!(
        check_error_queue(&ErrorQueue::Failed),
        Err(ReceiveError::Io(Error::ErrorQueueFailed))
    );
    assert_eq!(
        check_error_queue(&ErrorQueue::Truncated),
        Err(ReceiveError::Io(Error::ErrorQueueTruncated))
    );
    assert_eq!(check_error_queue(&ErrorQueue::Messages(vec![false, false])), Ok(()));
    assert_eq!(
        check_error_queue(&ErrorQueue::Messages(vec![false, true])),
        Err(ReceiveError::Udp(udp::Error::Icmp))
    );
}

#[test]
fn received_packets() {
    let mut framed = UdpFramed::new(5u8);
    assert_eq!(*framed.codec(), 5);
    assert!(framed.take_packet().is_none());
    assert_eq!(
        framed.receive_ordered(vec![1, 2], &[0, 0x1c], Sender::Inet(v6(0)), ByteOrder::Little),
        Ok(())
    );
    let (packet, sender) = framed.take_packet().unwrap();
    assert_eq!(packet, vec![1, 2]);
    assert_eq!(sender, v6(0x0000_c001));
    assert!(framed.take_packet().is_none());
    // an empty packet holds no message
    assert_eq!(framed.receive(vec![], &[], Sender::Inet(v6(9))), Ok(()));
    assert!(framed.take_packet().is_none());
}

#[test]
fn refused_packets() {
    let mut framed = UdpFramed::new(());
    let sender = Sender::Inet(v6(0));
    assert_eq!(framed.receive(vec![1], &[256], sender), Err(Error::TrafficClassTooBig));
    assert_eq!(framed.receive(vec![1], &[-1], sender), Err(Error::TrafficClassTooBig));
    assert_eq!(framed.receive(vec![1], &[], Sender::Missing), Err(Error::NoSender));
    assert_eq!(framed.receive(vec![1], &[], Sender::Other), Err(Error::NoInetSender));
    let v4 = SocketAddr::V4(SocketAddrV4 { ip: 1, port: 2 });
    assert_eq!(framed.receive(vec![1], &[], Sender::Inet(v4)), Err(Error::NoFlowinfo));
    assert!(framed.take_packet().is_none());
}

#[test]
fn sent_packets() {
    let mut framed = UdpFramed::new(());
    assert_eq!(framed.on_sent(SendEvent::WouldBlock), Some(Ok(())));
    framed.start_send(vec![1, 2, 3], v6(0x0000_c001));
    assert_eq!(framed.out_class_ordered(ByteOrder::Little), 0x1c);
    assert_eq!(framed.on_sent(SendEvent::WouldBlock), None);
    assert_eq!(
        framed.on_sent(SendEvent::Failed(Error::StreamEnded)),
        Some(Err(Error::StreamEnded))
    );
    assert_eq!(framed.on_sent(SendEvent::Sent(3)), Some(Ok(())));
    framed.start_send(vec![1, 2, 3], v6(0));
    assert_eq!(framed.on_sent(SendEvent::Sent(2)), Some(Err(Error::ShortWrite)));
    assert_eq!(framed.on_sent(SendEvent::WouldBlock), Some(Ok(())));
}
