use lemonbeatd::crypto::Network;
use lemonbeatd::crypto::NetworkKey;
use lemonbeatd::error::Error;
use lemonbeatd::error::ValueField;
use lemonbeatd::net::SocketAddr;
use lemonbeatd::net::SocketAddrV6;
use lemonbeatd::radiomodule::antenna_diversity_result;
use lemonbeatd::radiomodule::app_version;
use lemonbeatd::radiomodule::checked_response;
use lemonbeatd::radiomodule::choose_rm_mac;
use lemonbeatd::radiomodule::client_request;
use lemonbeatd::radiomodule::client_response;
use lemonbeatd::radiomodule::counter_to_restore;
use lemonbeatd::radiomodule::get_rm_addr;
use lemonbeatd::radiomodule::is_white_space;
use lemonbeatd::radiomodule::load_counter;
use lemonbeatd::radiomodule::parse_rm_mac;
use lemonbeatd::radiomodule::raw_step;
use lemonbeatd::radiomodule::request_unchecked;
use lemonbeatd::radiomodule::setup_requests;
use lemonbeatd::radiomodule::stored_counter;
use lemonbeatd::radiomodule::tx_mac_counter;
use lemonbeatd::radiomodule::tx_mac_counter_data;
use lemonbeatd::radiomodule::wakeup_data;
use lemonbeatd::radiomodule::wakeup_result;
use lemonbeatd::radiomodule::ApiCommand;
use lemonbeatd::radiomodule::ApiResponse;
use lemonbeatd::radiomodule::ApiResultCode;
use lemonbeatd::radiomodule::DiversityMode;
use lemonbeatd::radiomodule::InterfaceAddr;
use lemonbeatd::radiomodule::InterfaceEntry;
use lemonbeatd::radiomodule::RawAction;
use lemonbeatd::radiomodule::RawEvent;
use lemonbeatd::radiomodule::RawStage;
use lemonbeatd::storage::value::StoredField;
use lemonbeatd::storage::value::Value;
use lemonbeatd::storage::value::ValueData;

#[test]
fn command_codes() {
    assert_eq!(ApiCommand::SetNetworkKey.code(), 1);
    assert_eq!(ApiCommand::GetTxMacCounter.code(), 14);
    assert_eq!(ApiCommand::Si4467StopTx.code(), 0xe1);
    assert_eq!(DiversityMode::Mcu.code(), 0);
    assert_eq!(DiversityMode::Trx.code(), 1);
}

#[test]
fn result_codes() {
    for code in 0..=0x12 {
        assert_eq!(ApiResultCode::from_u8(code).unwrap().code(), code);
    }
    assert_eq!(ApiResultCode::from_u8(0x13), None);
    assert_eq!(ApiResultCode::from_u8(0x11), Some(ApiResultCode::NoHwSupport));
}

#[test]
fn requests() {
    assert_eq!(
        request_unchecked(ApiCommand::ResetDeviceNonce, &[1, 2, 3, 4, 5, 6]),
        Ok(vec![1, 4, 6, 1, 2, 3, 4, 5, 6])
    );
    assert_eq!(request_unchecked(ApiCommand::GetAppVersion, &[]), Ok(vec![1, 13, 0]));
    assert!(request_unchecked(ApiCommand::SetNetworkKey, &[0; 255]).is_ok());
    assert_eq!(
        request_unchecked(ApiCommand::SetNetworkKey, &[0; 256]),
        Err(Error::OutOfRange)
    );
}

#[test]
fn client_frames() {
    assert_eq!(client_request(1, 3, &[7, 8]), Ok(vec![1, 3, 2, 7, 8]));
    assert_eq!(client_request(2, 3, &[]), Err(Error::InvalidApiVersion));
    let response = ApiResponse {
        api_version: 1,
        result_code: ApiResultCode::LockTimeout,
        data: vec![9],
    };
    assert_eq!(client_response(&response), vec![1, 5, 1, 9]);
}

/// Feeds events to a request until it is over.
fn run(events: Vec<RawEvent>) -> RawAction {
    let mut stage = RawStage::WriteFirst;
    let mut action = None;
    for event in events {
        let (next, todo) = raw_step(stage, event);
        stage = next;
        action = Some(todo);
    }
    assert_eq!(stage, RawStage::Over);
    action.unwrap()
}

#[test]
fn raw_request_succeeds() {
    let action = run(vec![
        RawEvent::Written,
        RawEvent::Written,
        RawEvent::Byte(1),
        RawEvent::Byte(0),
        RawEvent::Byte(2),
        RawEvent::Data(vec![5, 6]),
    ]);
    match action {
        RawAction::Done(response) => {
            assert_eq!(response.api_version, 1);
            assert_eq!(response.result_code, ApiResultCode::Okay);
            assert_eq!(response.data, vec![5, 6]);
        }
        other => panic!("unexpected action: {other:?}"),
    }
}

#[test]
fn raw_request_reconnects_once() {
    let (stage, action) = raw_step(RawStage::WriteFirst, RawEvent::Failed);
    assert_eq!(stage, RawStage::WriteFirstAgain);
    assert!(matches!(action, RawAction::Reconnect));
    assert!(matches!(
        run(vec![RawEvent::Failed, RawEvent::Failed]),
        RawAction::Fail(Error::ConnectionLost, true)
    ));
    assert!(matches!(
        run(vec![RawEvent::Failed, RawEvent::Written, RawEvent::Written, RawEvent::Failed]),
        RawAction::Fail(Error::ConnectionLost, true)
    ));
}

#[test]
fn raw_request_needs_the_api_version() {
    // the connection is kept
    assert!(matches!(
        run(vec![RawEvent::Written, RawEvent::Written, RawEvent::Byte(2)]),
        RawAction::Fail(Error::InvalidApiVersion, false)
    ));
}

#[test]
fn results_of_commands() {
    let response = |result_code| ApiResponse { api_version: 1, result_code, data: vec![1] };
    assert_eq!(checked_response(response(ApiResultCode::Okay)).unwrap().data, vec![1]);
    assert_eq!(
        checked_response(response(ApiResultCode::CantSave)).unwrap_err(),
        Error::ApiError(ApiResultCode::CantSave)
    );
    assert_eq!(antenna_diversity_result(ApiResultCode::Okay), Ok(true));
    assert_eq!(antenna_diversity_result(ApiResultCode::NoHwSupport), Ok(false));
    assert_eq!(
        antenna_diversity_result(ApiResultCode::WakeupFailed),
        Err(Error::ApiError(ApiResultCode::WakeupFailed))
    );
    assert_eq!(wakeup_result(ApiResultCode::Okay), Ok(()));
    assert_eq!(wakeup_result(ApiResultCode::WakeupFailed), Ok(()));
    assert_eq!(
        wakeup_result(ApiResultCode::LockTimeout),
        Err(Error::ApiError(ApiResultCode::LockTimeout))
    );
}

#[test]
fn wakeup_requests() {
    let mac = [1, 2, 3, 4, 5, 6];
    // 20 s
    assert_eq!(
        wakeup_data(&mac, 20_000_000_000, 9),
        Ok(vec![0x20, 0x4e, 0, 0, 1, 2, 3, 4, 5, 6, 9])
    );
    let longest = u32::MAX as u128 * 1_000_000 + 999_999;
    assert!(wakeup_data(&mac, longest, 9).is_ok());
    assert_eq!(wakeup_data(&mac, longest + 1, 9), Err(Error::OutOfRange));
}

#[test]
fn counters() {
    assert_eq!(tx_mac_counter_data(0x0102), vec![2, 1, 0, 0, 0, 0, 0, 0]);
    for counter in [0, 1, 0x0123_4567_89ab_cdef, u64::MAX] {
        assert_eq!(tx_mac_counter(&tx_mac_counter_data(counter)), counter);
    }
    assert_eq!(counter_to_restore(3, 3071), Some(3072));
    assert_eq!(counter_to_restore(3, 3072), None);
    assert_eq!(counter_to_restore(u32::MAX, 0), Some(0x3ff_ffff_fc00));
}

#[test]
fn stored_counters() {
    let value = |data| Value { id: 1, timestamp: 0, data };
    assert_eq!(stored_counter(&value(ValueData::Binary(vec![0, 1, 2, 3]))), Ok(0x010203));
    assert_eq!(
        stored_counter(&value(ValueData::Binary(vec![0, 1, 2]))),
        Err(Error::InvalidSize)
    );
    assert_eq!(
        stored_counter(&value(ValueData::Text("a".to_string()))),
        Err(Error::TypeMismatch)
    );
    let entries = |id, text: &str| {
        [StoredField::Timestamp(5), StoredField::Id(id), StoredField::Value(text.to_string())]
    };
    assert_eq!(load_counter(&entries(1, "000000ff")), Ok(255));
    assert_eq!(load_counter(&entries(1, "ff")), Err(Error::InvalidSize));
    assert_eq!(load_counter(&entries(1, "xyz")), Err(Error::InvalidSize));
    assert_eq!(load_counter(&entries(2, "000000ff")), Err(Error::NoValueDescription));
    assert_eq!(load_counter(&[]), Err(Error::MissingField(ValueField::Id)));
}

fn addr(ip: u128) -> SocketAddr {
    SocketAddr::V6(SocketAddrV6 { ip, port: 0, flowinfo: 0, scope_id: 0 })
}

fn entry(name: &str, address: InterfaceAddr, destination: InterfaceAddr) -> InterfaceEntry {
    InterfaceEntry { name: name.to_string(), address, destination }
}

#[test]
fn interface_addresses() {
    let good = || {
        entry("ppp0", InterfaceAddr::Inet6(addr(1)), InterfaceAddr::Inet6(addr(2)))
    };
    let other = || {
        entry("eth0", InterfaceAddr::Inet6(addr(3)), InterfaceAddr::Inet6(addr(4)))
    };
    let v4 = || entry("ppp0", InterfaceAddr::Other, InterfaceAddr::Other);
    let one_sided = || entry("ppp0", InterfaceAddr::Inet6(addr(5)), InterfaceAddr::Missing);
    let found = get_rm_addr(&[other(), v4(), one_sided(), good()], "ppp0").unwrap();
    assert_eq!(found.address, addr(1));
    assert_eq!(found.destination, addr(2));
    assert_eq!(found.api_address().port(), 8888);
    assert_eq!(get_rm_addr(&[other()], "ppp0"), Err(Error::NoAddress));
    assert_eq!(get_rm_addr(&[good(), good()], "ppp0"), Err(Error::MultipleAddresses));
    let mixed = || entry("ppp0", InterfaceAddr::Inet6(addr(1)), InterfaceAddr::Other);
    assert_eq!(get_rm_addr(&[mixed(), good()], "ppp0"), Err(Error::UnsupportedAddress));
    let unreadable =
        || entry("ppp0", InterfaceAddr::Unreadable, InterfaceAddr::Inet6(addr(2)));
    assert_eq!(get_rm_addr(&[unreadable()], "ppp0"), Err(Error::UnsupportedAddress));
}

#[test]
fn printed_mac_addresses() {
    let mac = [0x8c, 0x05, 0x51, 0x00, 0x06, 0xe2];
    assert_eq!(parse_rm_mac(b"  8c:05:51:00:06:e2\n"), Ok(mac));
    assert_eq!(parse_rm_mac(b"8C-05-51-00-06-E2"), Ok(mac));
    assert_eq!(parse_rm_mac(b"8c:05:51:00:06"), Err(Error::InvalidMacAddress));
    assert_eq!(parse_rm_mac("\u{3000}8c:05:51:00:06:e2\u{a0}".as_bytes()), Ok(mac));
    assert_eq!(parse_rm_mac(b""), Err(Error::InvalidMacAddress));
    assert_eq!(parse_rm_mac(&[0xff]), Err(Error::InvalidUtf8));
}

#[test]
fn chosen_mac_address() {
    let given = [1, 2, 3, 4, 5, 6];
    let stored = [6, 5, 4, 3, 2, 1];
    assert_eq!(choose_rm_mac(Some(given), Ok(stored)), given);
    assert_eq!(choose_rm_mac(None, Ok(stored)), stored);
    assert_eq!(
        choose_rm_mac(None, Err(Error::InvalidUtf8)),
        [0x8c, 0x05, 0x51, 0x00, 0x06, 0xe2]
    );
}

#[test]
fn radio_module_setup() {
    let key = NetworkKey::from_bytes([7; 16]);
    let modulus = [0xff; 64];
    let network = Network::new(key, None, &modulus).unwrap();
    let requests = setup_requests(&[1, 2, 3, 4, 5, 6], &network).unwrap();
    let mut set_key = vec![1, 1, 16];
    set_key.extend([7; 16]);
    assert_eq!(
        requests,
        vec![
            vec![1, 13, 0],
            vec![1, 2, 6, 1, 2, 3, 4, 5, 6],
            set_key,
            vec![1, 8, 1, 1],
            vec![1, 14, 0],
        ]
    );
    assert_eq!(app_version(b"1.2.3"), "1.2.3");
}

#[test]
fn white_space_in_all_scripts() {
    for c in '\0'..=char::MAX {
        assert_eq!(is_white_space(c), c.is_whitespace(), "{c:?}");
    }
}
