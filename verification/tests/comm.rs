use lemonbeatd::bigint::BigUint;
use lemonbeatd::comm::attempt_answer;
use lemonbeatd::comm::request_addrs;
use lemonbeatd::comm::service_addr;
use lemonbeatd::comm::service_step;
use lemonbeatd::comm::AttemptEvent;
use lemonbeatd::comm::EXICodec;
use lemonbeatd::comm::Port;
use lemonbeatd::comm::PortPool;
use lemonbeatd::comm::RequestError;
use lemonbeatd::comm::ServiceStep;
use lemonbeatd::comm::WakeupChannel;
use lemonbeatd::comm::WakeupChannels;
use lemonbeatd::error::Error;
use lemonbeatd::net::SocketAddr;
use lemonbeatd::net::SocketAddrV6;
use lemonbeatd::storage::channel_map::ChannelMap;

fn v6(ip: u128, port: u16) -> SocketAddr {
    SocketAddr::V6(SocketAddrV6 { ip, port, flowinfo: 0, scope_id: 0 })
}

#[test]
fn ports() {
    let mut pool = PortPool::from_bits(0);
    let mut ports: Vec<Port> = (0..64)
        .map(|_| {
            let port = Port::allocate(&mut pool).unwrap();
            let bit = port.number() - 20128u16;
            assert_ne!(pool.bits() & (1 << bit), 0);
            assert_eq!(port.number(), 20128u16 + bit);
            port
        })
        .collect();

    match Port::allocate(&mut pool) {
        Err(_) => (),
        other => panic!("unexpected result: {other:?}"),
    }

    ports.pop().unwrap().release(&mut pool);

    match Port::allocate(&mut pool) {
        Ok(port) => port.release(&mut pool),
        other => panic!("unexpected result: {other:?}"),
    }

    for port in ports {
        port.release(&mut pool);
    }
    assert_eq!(pool.bits(), 0);
}

#[test]
fn wakeup_channel() {
    let channel_map = ChannelMap::new(BigUint::from_bytes_be(&[0x10, 0x08, 0x08, 0x04]));
    println!("{channel_map:#?}");
    let mut channels = WakeupChannels::new();

    let channel0 = WakeupChannel::allocate(&mut channels, &channel_map).unwrap();

    let channel1 = WakeupChannel::allocate(&mut channels, &channel_map).unwrap();
    assert_ne!(channel1.channel(), channel0.channel());

    let channel2 = WakeupChannel::allocate(&mut channels, &channel_map).unwrap();
    assert_ne!(channel2.channel(), channel0.channel());
    assert_ne!(channel2.channel(), channel1.channel());
}

#[test]
fn first_port_is_never_handed_out() {
    let mut pool = PortPool::new();
    assert_eq!(pool.bits(), 1);
    let port = Port::allocate_nth(&mut pool, 0).unwrap();
    assert_eq!(port.number(), 20129);
    assert_eq!(Port::allocate_nth(&mut pool, 62).unwrap_err(), Error::NoFreePort);
    port.release(&mut pool);
    assert_eq!(pool.bits(), 1);
}

#[test]
fn released_port_is_free_again() {
    let mut pool = PortPool::from_bits(0xf0);
    let port = Port::allocate_nth(&mut pool, 4).unwrap();
    assert_eq!(port.number(), 20128 + 8);
    assert_eq!(pool.bits(), 0x1f0);
    port.release(&mut pool);
    assert_eq!(pool.bits(), 0xf0);
}

#[test]
fn least_used_channel_is_taken() {
    // all but the channels 1 and 2 are in the map
    let map = ChannelMap::from_bytes_be(&[0xff, 0xff, 0xff, 0xfc]);
    let mut channels = WakeupChannels::new();
    let one = WakeupChannel::allocate_nth(&mut channels, &map, 0).unwrap();
    assert_eq!(one.channel(), 1);
    let two = WakeupChannel::allocate_nth(&mut channels, &map, 0).unwrap();
    assert_eq!(two.channel(), 2);
    let again = WakeupChannel::allocate_nth(&mut channels, &map, 1).unwrap();
    assert_eq!(again.channel(), 2);
    assert_eq!(channels.users(2), Some(2));
    assert_eq!(WakeupChannel::allocate(&mut channels, &map).unwrap().channel(), 1);
    two.release(&mut channels);
    assert_eq!(channels.users(2), Some(1));
    assert_eq!(channels.users(31), None);
}

#[test]
fn no_channel_left() {
    let map = ChannelMap::from_bytes_be(&[0xff, 0xff, 0xff, 0xff]);
    let mut channels = WakeupChannels::new();
    assert_eq!(
        WakeupChannel::allocate(&mut channels, &map).unwrap_err(),
        Error::NoMatchingChannel
    );
    assert_eq!(
        WakeupChannel::allocate_unchecked(&mut channels, 31).unwrap_err(),
        Error::ChannelOutOfRange
    );
    for _ in 0..255 {
        WakeupChannel::allocate_unchecked(&mut channels, 7).unwrap();
    }
    assert_eq!(
        WakeupChannel::allocate_unchecked(&mut channels, 7).unwrap_err(),
        Error::OutOfChannels
    );
    // only channel 7 is left
    let map = ChannelMap::from_bytes_be(&[0xff, 0xff, 0xff, 0xbf]);
    assert_eq!(
        WakeupChannel::allocate(&mut channels, &map).unwrap_err(),
        Error::OutOfChannels
    );
}

#[test]
fn duplicated_channel_counts_twice() {
    let mut channels = WakeupChannels::new();
    let channel = WakeupChannel::allocate_unchecked(&mut channels, 3).unwrap();
    let second = channel.duplicate(&mut channels).unwrap();
    assert_eq!(second.channel(), 3);
    assert_eq!(channels.users(3), Some(2));
    second.release(&mut channels);
    channel.release(&mut channels);
    assert_eq!(channels.users(3), Some(0));
}

#[test]
fn codec_empties_its_buffer() {
    let codec: EXICodec<u8> = EXICodec::new();
    let mut buf = vec![1, 2, 3];
    assert_eq!(codec.decode_eof(&mut buf), Some(vec![1, 2, 3]));
    assert!(buf.is_empty());
    assert_eq!(codec.decode_eof(&mut buf), None);
}

#[test]
fn request_addresses() {
    let mut pool = PortPool::new();
    let port = Port::allocate_nth(&mut pool, 0).unwrap();
    let addrs = request_addrs(v6(1, 1), v6(2, 2), 20005, &port);
    assert_eq!(addrs.local.port(), 20129);
    assert_eq!(addrs.device.port(), 20005);
    assert_eq!(service_addr(v6(1, 1), 20005).port(), 20005);
}

#[test]
fn answers_to_an_attempt() {
    assert_eq!(attempt_answer(AttemptEvent::<u8>::TimedOut), Err(RequestError::Timeout));
    assert_eq!(
        attempt_answer(AttemptEvent::<u8>::SendFailed(Error::ShortWrite)),
        Err(RequestError::Internal(Error::ShortWrite))
    );
    assert_eq!(
        attempt_answer(AttemptEvent::<u8>::StreamEnded),
        Err(RequestError::Internal(Error::StreamEnded))
    );
    assert_eq!(attempt_answer(AttemptEvent::Received(Ok((7u8, v6(2, 2))))), Ok(7));
}

#[test]
fn service_goes_on_after_errors() {
    match service_step(Some(Ok((7u8, v6(2, 2))))) {
        Ok(ServiceStep::Handle(message, sender)) => {
            assert_eq!(message, 7);
            assert_eq!(sender, v6(2, 2));
        }
        other => panic!("unexpected step: {other:?}"),
    }
    assert!(matches!(
        service_step::<u8>(Some(Err(RequestError::Timeout))),
        Ok(ServiceStep::Skip)
    ));
    assert!(matches!(service_step::<u8>(None), Err(Error::StreamEnded)));
}
