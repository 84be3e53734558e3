use lemonbeatd::abortable_sleep::SleepResult;
use lemonbeatd::comm::RequestError;
use lemonbeatd::comm::WakeupChannel;
use lemonbeatd::comm::WakeupChannels;
use lemonbeatd::config::Config;
use lemonbeatd::device::inclusion::accept_values;
use lemonbeatd::device::inclusion::check_descriptions;
use lemonbeatd::device::inclusion::description_ranges;
use lemonbeatd::device::inclusion::is_outdated;
use lemonbeatd::device::inclusion::num_values;
use lemonbeatd::device::inclusion::PendingKind;
use lemonbeatd::device::lemonbeat_communication::confirms_wakeup;
use lemonbeatd::device::lemonbeat_communication::random_retry_pause;
use lemonbeatd::device::lemonbeat_communication::MessageAction;
use lemonbeatd::device::lemonbeat_communication::MessageEnd;
use lemonbeatd::device::lemonbeat_communication::MessageEvent;
use lemonbeatd::device::lemonbeat_communication::MessageFailure;
use lemonbeatd::device::lemonbeat_communication::MessageOutcome;
use lemonbeatd::device::lemonbeat_communication::MessageRun;
use lemonbeatd::device::lemonbeat_communication::OnlineChange;
use lemonbeatd::device::lemonbeat_communication::RequestAction;
use lemonbeatd::device::lemonbeat_communication::RequestEnd;
use lemonbeatd::device::lemonbeat_communication::RequestEvent;
use lemonbeatd::device::lemonbeat_communication::RequestFailure;
use lemonbeatd::device::lemonbeat_communication::RequestOutcome;
use lemonbeatd::device::lemonbeat_communication::RequestRun;
use lemonbeatd::device::lemonbeat_communication::WakeupAction;
use lemonbeatd::device::lemonbeat_communication::WakeupEvent;
use lemonbeatd::device::lemonbeat_communication::WakeupRun;
use lemonbeatd::device::lemonbeat_requests::after_inclusion_message;
use lemonbeatd::device::lemonbeat_requests::all_values;
use lemonbeatd::device::lemonbeat_requests::confirmed_result;
use lemonbeatd::device::lemonbeat_requests::confirms_exclusion;
use lemonbeatd::device::lemonbeat_requests::confirms_inclusion;
use lemonbeatd::device::lemonbeat_requests::confirms_timezone;
use lemonbeatd::device::lemonbeat_requests::ids_in_range;
use lemonbeatd::device::lemonbeat_requests::plan_firmware_data;
use lemonbeatd::device::lemonbeat_requests::plan_firmware_init;
use lemonbeatd::device::lemonbeat_requests::plan_message;
use lemonbeatd::device::lemonbeat_requests::plan_update_start;
use lemonbeatd::device::lemonbeat_requests::response_value;
use lemonbeatd::device::lemonbeat_requests::timezone_result;
use lemonbeatd::device::lemonbeat_requests::unconfirmed_result;
use lemonbeatd::device::lemonbeat_requests::value_descriptions;
use lemonbeatd::device::lemonbeat_requests::Confirmation;
use lemonbeatd::device::lemonbeat_requests::InclusionNext;
use lemonbeatd::device::lemonbeat_requests::MessageKind;
use lemonbeatd::device::lemonbeat_requests::MessagePlan;
use lemonbeatd::device::lemonbeat_requests::RequestPlan;
use lemonbeatd::device::lifecycle::takes_radio_lock;
use lemonbeatd::device::lifecycle::task_pause;
use lemonbeatd::device::lifecycle::task_step;
use lemonbeatd::device::lifecycle::Farewell;
use lemonbeatd::device::lifecycle::RegularTask;
use lemonbeatd::device::lifecycle::TaskAction;
use lemonbeatd::device::lifecycle::TaskAnswer;
use lemonbeatd::device::lifecycle::TaskEvent;
use lemonbeatd::device::Device;
use lemonbeatd::device::NewDeviceSource;
use lemonbeatd::device::PublicationState;
use lemonbeatd::error::Error;
use lemonbeatd::lsdl::Float;
use lemonbeatd::lsdl::FormatReport;
use lemonbeatd::lsdl::Manufacturer;
use lemonbeatd::lsdl::MemoryId;
use lemonbeatd::lsdl::Permission;
use lemonbeatd::lsdl::Property;
use lemonbeatd::lsdl::PropertyId;
use lemonbeatd::lsdl::Protocol;
use lemonbeatd::lsdl::RadioMode;
use lemonbeatd::lsdl::StatusCode;
use lemonbeatd::lsdl::ValueDescriptionReport;
use lemonbeatd::lsdl::ValueReport;
use lemonbeatd::lsdl::ValueResponse;
use lemonbeatd::lsdl::ValueType;
use lemonbeatd::net::IpAddr;
use lemonbeatd::net::SocketAddr;
use lemonbeatd::net::SocketAddrV6;
use lemonbeatd::storage::channel_map::ChannelMap;
use lemonbeatd::storage::description::ConnectionStatus;
use lemonbeatd::storage::description::DeviceDescription;
use lemonbeatd::storage::description::MemoryInformation;
use lemonbeatd::storage::value::Value;
use lemonbeatd::storage::value::ValueData;
use lemonbeatd::storage::value::ValueFormat;

const ADDRESS: u128 = 0xfc00_0000_0000_0000_0006_94bb_ae16_8bb0;

const SECOND: u128 = 1_000_000_000;

fn property(id: PropertyId) -> Property {
    Property {
        id: Some(id),
        number: None,
        text: Some("1.5.3".to_string()),
        hex: None,
        manufacturer: Some(Manufacturer::Gardena),
        protocol: Some(Protocol { code: 1 }),
        radio_mode: Some(RadioMode::WakeOnRadio),
    }
}

fn number(id: PropertyId, number: u64) -> Property {
    Property { number: Some(number), ..property(id) }
}

fn bytes(id: PropertyId, hex: &str) -> Property {
    Property { hex: Some(hex::decode(hex).unwrap()), ..property(id) }
}

fn description(channels: &mut WakeupChannels, included: u64, channel: u64) -> DeviceDescription {
    let properties = [
        property(PropertyId::Manufacturer),
        property(PropertyId::ApplicationVersion),
        property(PropertyId::HardwareVersion),
        property(PropertyId::BootloaderVersion),
        property(PropertyId::StackVersion),
        property(PropertyId::Protocol),
        number(PropertyId::Type, 6),
        number(PropertyId::Product, 2),
        number(PropertyId::Included, included),
        property(PropertyId::Name),
        bytes(PropertyId::Sgtin, "3034F8EE901EE94000002FDB"),
        property(PropertyId::RadioMode),
        number(PropertyId::WakeupChannel, channel),
        bytes(PropertyId::ChannelMap, "10080804"),
    ];
    DeviceDescription::new(IpAddr::V6(ADDRESS), &properties, channels, 17).unwrap()
}

fn device_with(channels: &mut WakeupChannels) -> Device {
    let interface =
        SocketAddr::V6(SocketAddrV6 { ip: 1, port: 8888, flowinfo: 0, scope_id: 2 });
    let description = description(channels, 1, 5);
    Device::new(interface, description, None, NewDeviceSource::Air, 50, 7, 600)
}

fn device() -> Device {
    device_with(&mut WakeupChannels::new())
}

#[test]
fn online_changes() {
    let mut device = device();
    assert!(device.online());
    let change = device.set_online(true, 60, 1000);
    assert!(!change.changed);
    assert_eq!(device.last_communication_attempt, Some(60));
    assert_eq!(device.online_changed_at, 50);
    device.publication_state = PublicationState::Ready;
    let change = device.set_online(false, 70, 1000);
    assert_eq!(
        change,
        OnlineChange { changed: true, set_utc_offset: false, publish: true, save: true }
    );
    assert!(!device.online());
    assert_eq!(device.online_changed_at, 70);
    assert_eq!(device.persistent.connection_status_last_transition, 1000);
    device.description.included = false;
    let change = device.set_online(true, 80, 2000);
    assert_eq!(
        change,
        OnlineChange { changed: true, set_utc_offset: true, publish: false, save: false }
    );
}

#[test]
fn awake_devices() {
    let mut device = device();
    assert!(!device.is_awake(0));
    assert_eq!(device.device_received_message(10 * SECOND, Some(20 * SECOND)), Ok(()));
    assert_eq!(device.awake_until, Some(30 * SECOND));
    assert!(device.is_awake(29 * SECOND - 1));
    assert!(!device.is_awake(29 * SECOND));
    // a message that may have been missed only makes it shorter
    assert_eq!(device.device_received_message_maybe(10 * SECOND, Some(25 * SECOND)), Ok(()));
    assert_eq!(device.awake_until, Some(30 * SECOND));
    assert_eq!(device.device_received_message_maybe(10 * SECOND, Some(5 * SECOND)), Ok(()));
    assert_eq!(device.awake_until, Some(15 * SECOND));
    assert_eq!(device.device_received_message(10 * SECOND, None), Ok(()));
    assert_eq!(device.awake_until, Some(15 * SECOND));
    assert_eq!(device.device_received_message(1, Some(u128::MAX)), Err(Error::TimeOverflow));
    assert_eq!(
        device.device_received_message_maybe(1, Some(u128::MAX)),
        Err(Error::TimeOverflow)
    );
    device.awake_until = None;
    device.description.included = false;
    assert!(device.is_awake(0));
    device.description.included = true;
    device.description.radio_mode = RadioMode::AlwaysOnline;
    assert!(device.is_awake(0));
}

#[test]
fn requests_that_time_out() {
    let mut device = device();
    let mut run = RequestRun::new(2);
    let mut step = |event, now| device.request_step(&mut run, event, Some(SECOND), now);
    let timeout = RequestOutcome::Failed(RequestError::Timeout);
    assert_eq!(step(RequestEvent::Continue, 0), RequestAction::Wakeup);
    assert_eq!(step(RequestEvent::WokenUp, 0), RequestAction::Send);
    assert_eq!(step(RequestEvent::Attempted(0, timeout), 0), RequestAction::Wakeup);
    assert_eq!(step(RequestEvent::WokenUp, 0), RequestAction::Send);
    assert_eq!(
        step(RequestEvent::Attempted(0, timeout), 0),
        RequestAction::Finish(RequestEnd {
            set_online: Some(false),
            result: Err(RequestFailure::NoAnswer(RequestError::Timeout)),
        })
    );
}

#[test]
fn requests_pause_after_errors() {
    let mut device = device();
    device.description.radio_mode = RadioMode::AlwaysOnline;
    let mut run = RequestRun::new(1);
    let icmp = RequestError::Udp(lemonbeatd::udp::Error::Icmp);
    assert_eq!(
        device.request_step(&mut run, RequestEvent::Continue, None, 0),
        RequestAction::Send
    );
    // a single attempt does not make a device offline
    let failed = RequestEvent::Attempted(0, RequestOutcome::Failed(icmp));
    assert_eq!(
        device.request_step(&mut run, failed, None, 0),
        RequestAction::Finish(RequestEnd {
            set_online: None,
            result: Err(RequestFailure::NoAnswer(icmp)),
        })
    );
    let mut run = RequestRun::new(2);
    device.request_step(&mut run, RequestEvent::Continue, None, 0);
    let internal = RequestError::Internal(Error::StreamEnded);
    let failed = RequestEvent::Attempted(0, RequestOutcome::Failed(internal));
    assert_eq!(device.request_step(&mut run, failed, None, 0), RequestAction::Pause);
    assert_eq!(
        device.request_step(&mut run, RequestEvent::Continue, None, 0),
        RequestAction::Send
    );
    // an error of our own says nothing about the device
    assert_eq!(
        device.request_step(&mut run, failed, None, 0),
        RequestAction::Finish(RequestEnd {
            set_online: Some(true),
            result: Err(RequestFailure::NoAnswer(internal)),
        })
    );
    assert!((1500..2000).contains(&random_retry_pause()));
}

#[test]
fn answered_requests() {
    let mut device = device();
    let mut run = RequestRun::new(1);
    assert_eq!(
        device.request_step(
            &mut run,
            RequestEvent::Attempted(5, RequestOutcome::Answered),
            Some(20 * SECOND),
            6
        ),
        RequestAction::Finish(RequestEnd { set_online: Some(true), result: Ok(()) })
    );
    assert_eq!(device.awake_until, Some(5 + 20 * SECOND));
    assert_eq!(
        device.request_step(
            &mut run,
            RequestEvent::Attempted(5, RequestOutcome::Answered),
            Some(u128::MAX),
            6
        ),
        RequestAction::Finish(RequestEnd {
            set_online: None,
            result: Err(RequestFailure::Internal(Error::TimeOverflow)),
        })
    );
    assert_eq!(
        device.request_step(
            &mut run,
            RequestEvent::WakeupFailed(Error::OutOfAttempts),
            None,
            6
        ),
        RequestAction::Finish(RequestEnd {
            set_online: Some(false),
            result: Err(RequestFailure::Wakeup(Error::OutOfAttempts)),
        })
    );
}

fn finish(
    set_online: Option<bool>,
    result: Result<bool, MessageFailure>,
) -> MessageAction {
    MessageAction::Finish(MessageEnd { set_online, result })
}

#[test]
fn messages_are_repeated() {
    let mut device = device();
    device.description.radio_mode = RadioMode::AlwaysOnline;
    let config = Config::default();
    let mut run = MessageRun::new(true);
    assert_eq!(run.timeout(&config), 2 * SECOND);
    assert_eq!(MessageRun::new(false).timeout(&config), 4 * SECOND);
    let mut step = |event| device.message_step(&mut run, event, None, 0);
    let outcome = |outcome| MessageEvent::Attempted(0, outcome);
    assert_eq!(step(MessageEvent::Continue), MessageAction::Send);
    assert_eq!(step(outcome(MessageOutcome::Undelivered)), MessageAction::Pause);
    assert_eq!(step(MessageEvent::Continue), MessageAction::Send);
    assert_eq!(step(outcome(MessageOutcome::TimedOut)), MessageAction::Send);
    assert_eq!(
        step(outcome(MessageOutcome::TimedOut)),
        finish(Some(false), Ok(false))
    );
}

#[test]
fn undelivered_messages_fail() {
    let mut device = device();
    device.description.radio_mode = RadioMode::AlwaysOnline;
    let mut run = MessageRun::new(true);
    let mut step = |event| device.message_step(&mut run, event, None, 0);
    let undelivered = MessageEvent::Attempted(0, MessageOutcome::Undelivered);
    for _ in 0..2 {
        assert_eq!(step(MessageEvent::Continue), MessageAction::Send);
        assert_eq!(step(undelivered), MessageAction::Pause);
    }
    assert_eq!(step(MessageEvent::Continue), MessageAction::Send);
    assert_eq!(step(undelivered), finish(Some(false), Err(MessageFailure::OutOfAttempts)));
}

#[test]
fn messages_end() {
    let end = |answer_required: bool, event: MessageEvent| {
        let mut device = device();
        let mut run = MessageRun::new(answer_required);
        device.message_step(&mut run, event, Some(SECOND), 0)
    };
    let outcome = |outcome| MessageEvent::Attempted(0, outcome);
    assert_eq!(end(true, outcome(MessageOutcome::Confirmed)), finish(Some(true), Ok(true)));
    assert_eq!(end(false, outcome(MessageOutcome::TimedOut)), finish(None, Ok(false)));
    assert_eq!(
        end(true, outcome(MessageOutcome::Response)),
        finish(None, Err(MessageFailure::UnexpectedResponse))
    );
    assert_eq!(
        end(true, outcome(MessageOutcome::Failed(RequestError::Timeout))),
        finish(None, Err(MessageFailure::Read(RequestError::Timeout)))
    );
    assert_eq!(
        end(true, MessageEvent::SendFailed(Error::StreamEnded)),
        finish(None, Err(MessageFailure::Send(Error::StreamEnded)))
    );
    assert_eq!(
        end(true, MessageEvent::WakeupFailed(Error::QueueClosed)),
        finish(Some(false), Err(MessageFailure::Wakeup(Error::QueueClosed)))
    );
    assert_eq!(
        end(true, MessageEvent::Attempted(u128::MAX, MessageOutcome::Confirmed)),
        finish(None, Err(MessageFailure::Internal(Error::TimeOverflow)))
    );
    // a device that sleeps is woken up first
    assert_eq!(end(true, MessageEvent::Continue), MessageAction::Wakeup);
    assert_eq!(end(true, MessageEvent::WokenUp), MessageAction::Send);
}

#[test]
fn waking_up() {
    let mut device = device();
    let plan = device.plan_wakeup().unwrap();
    assert_eq!(plan.mac_address, [0x94, 0xbb, 0xae, 0x16, 0x8b, 0xb0]);
    assert_eq!(plan.channel, 5);
    let mut run = WakeupRun::new();
    let duration = 20 * SECOND;
    let mut step = |event| device.wakeup_step(&mut run, event, duration);
    assert_eq!(step(WakeupEvent::Started), WakeupAction::Try);
    assert_eq!(step(WakeupEvent::TimedOut), WakeupAction::Try);
    assert_eq!(step(WakeupEvent::TimedOut), WakeupAction::Try);
    assert_eq!(step(WakeupEvent::TimedOut), WakeupAction::Finish(Err(Error::OutOfAttempts)));
    assert_eq!(
        step(WakeupEvent::Failed(Error::ConnectionLost)),
        WakeupAction::Finish(Err(Error::ConnectionLost))
    );
    assert_eq!(step(WakeupEvent::QueueClosed), WakeupAction::Finish(Err(Error::QueueClosed)));
    assert_eq!(
        step(WakeupEvent::Confirmed(u128::MAX)),
        WakeupAction::Finish(Err(Error::TimeOverflow))
    );
    assert_eq!(step(WakeupEvent::Confirmed(7)), WakeupAction::Finish(Ok(())));
    assert_eq!(device.awake_until, Some(7 + duration));
    assert!(device.is_awake(7));
    assert!(confirms_wakeup(StatusCode::Awake, 7, 7));
    assert!(!confirms_wakeup(StatusCode::Awake, 6, 7));
    assert!(!confirms_wakeup(StatusCode::Other, 7, 7));
    device.description.address = IpAddr::V4(1);
    assert_eq!(device.plan_wakeup(), Err(Error::Ipv6Required));
    assert_eq!(device.begin_inclusion(), Err(Error::Ipv6Required));
}

#[test]
fn confirmations() {
    let mut description = description(&mut WakeupChannels::new(), 1, 5);
    assert!(confirms_inclusion(&description, 7, 7));
    assert!(!confirms_inclusion(&description, 6, 7));
    description.included = false;
    assert!(!confirms_inclusion(&description, 7, 7));
    assert!(confirms_exclusion(StatusCode::FactoryResetPending, 7, 7));
    assert!(!confirms_exclusion(StatusCode::ConfigurationStarted, 7, 7));
    assert!(confirms_timezone(StatusCode::ConfigurationStarted, 7, 7));
    assert!(!confirms_timezone(StatusCode::ConfigurationStarted, 6, 7));

    let failed = Confirmation::Failed(MessageFailure::OutOfAttempts);
    assert_eq!(after_inclusion_message(Confirmation::Confirmed), Ok(InclusionNext::Included));
    for confirmation in [Confirmation::TimedOut, failed] {
        assert_eq!(
            after_inclusion_message(confirmation),
            Ok(InclusionNext::AskForDescription)
        );
    }
    let closed = Confirmation::QueueClosed;
    assert_eq!(after_inclusion_message(closed), Err(Error::QueueClosed));
    assert_eq!(confirmed_result(Confirmation::Confirmed), Ok(()));
    assert_eq!(confirmed_result(Confirmation::TimedOut), Err(Error::NotConfirmed));
    assert_eq!(confirmed_result(closed), Err(Error::QueueClosed));
    assert_eq!(confirmed_result(failed), Err(Error::RequestFailed));
    assert_eq!(timezone_result(Confirmation::Confirmed), Ok(false));
    assert_eq!(timezone_result(Confirmation::TimedOut), Ok(true));
    assert_eq!(timezone_result(failed), Err(Error::RequestFailed));
    assert_eq!(unconfirmed_result(Confirmation::TimedOut), Ok(()));
    assert_eq!(unconfirmed_result(Confirmation::Confirmed), Err(Error::UnexpectedResponse));
    assert_eq!(unconfirmed_result(failed), Err(Error::RequestFailed));
}

#[test]
fn plans() {
    assert_eq!(
        plan_message(MessageKind::Include),
        MessagePlan { encrypt: false, answer_required: true }
    );
    assert_eq!(
        plan_message(MessageKind::Exclude),
        MessagePlan { encrypt: true, answer_required: true }
    );
    assert_eq!(
        plan_message(MessageKind::WriteValues),
        MessagePlan { encrypt: true, answer_required: false }
    );
    assert_eq!(
        plan_firmware_data(),
        RequestPlan { timeout: Some(10 * SECOND), num_attempts: 1, pause: 0 }
    );
    assert_eq!(plan_update_start(true).timeout, Some(15 * SECOND));
    assert_eq!(plan_update_start(true).num_attempts, 1);
    assert_eq!(
        plan_update_start(false),
        RequestPlan { timeout: None, num_attempts: 3, pause: 0 }
    );
    assert_eq!(plan_firmware_init(true).timeout, Some(10 * SECOND));
    assert_eq!(plan_firmware_init(false).pause, 6 * SECOND);
}

#[test]
fn announced_uploads() {
    let mut device = device();
    let init = device.request_firmware_init(5, 0x0a0b, 2).unwrap();
    assert_eq!(init.size, 5);
    assert_eq!(init.firmware_id, 2);
    assert_eq!(init.checksum, "0a0b");
    assert_eq!(init.plan, plan_firmware_init(true));
    device.description.version_stack = "1.5.0".to_string();
    let init = device.request_firmware_init(5, 0x0a0b, 2).unwrap();
    assert_eq!(init.plan, plan_firmware_init(false));
    assert_eq!(
        device.request_firmware_init(1 << 32, 0, 2).unwrap_err(),
        Error::OutOfRange
    );
}

fn format_report() -> ValueDescriptionReport {
    ValueDescriptionReport {
        value_id: 1,
        permission: Some(Permission::ReadOnly),
        name: Some("schedule".to_string()),
        value_type: Some(ValueType::GeneralPurpose),
        persistent: 0,
        virtual_value: None,
        formats: vec![FormatReport::HexBinary { max_length: 2 }],
    }
}

fn value_report(hex: &str) -> ValueReport {
    ValueReport {
        value_id: Some(1),
        timestamp: 9,
        number: None,
        text: None,
        hex_binary: Some(hex.to_string()),
    }
}

#[test]
fn reported_values() {
    assert_eq!(ids_in_range(11, 14), [11, 12, 13]);
    assert!(ids_in_range(5, 5).is_empty());
    let descriptions = value_descriptions(&[format_report()]).unwrap();
    assert_eq!(descriptions.len(), 1);
    assert_eq!(descriptions[0].format, ValueFormat::Binary { max_length: 2 });
    let unusable = ValueDescriptionReport { permission: None, ..format_report() };
    let worse = ValueDescriptionReport { formats: vec![], ..format_report() };
    assert_eq!(
        value_descriptions(&[format_report(), unusable, worse]).unwrap_err(),
        Error::UnsupportedMode
    );
    let values = all_values(&[
        ValueResponse::Report(value_report("ca")),
        ValueResponse::Report(value_report("fe")),
    ])
    .unwrap();
    assert_eq!(values[1].data, ValueData::Binary(vec![0xfe]));
    assert_eq!(
        all_values(&[ValueResponse::Report(value_report("ca")), ValueResponse::Other])
            .unwrap_err(),
        Error::UnsupportedData
    );
    assert_eq!(
        response_value(&ValueResponse::Report(value_report("x"))).unwrap_err(),
        Error::InvalidHex
    );
}

fn memory(id: MemoryId, count: u32, free_count: u32) -> MemoryInformation {
    MemoryInformation { id, count, free_count }
}

#[test]
fn asked_descriptions() {
    let infos = [
        memory(MemoryId::Other(3), 100, 1),
        memory(MemoryId::Value, 40, 15),
        memory(MemoryId::Value, 1, 1),
    ];
    assert_eq!(num_values(&infos), Ok(25));
    assert_eq!(num_values(&infos[..1]), Err(Error::NoMemoryInformation));
    assert_eq!(description_ranges(25), [(1, 11), (11, 21), (21, 26)]);
    assert_eq!(description_ranges(10), [(1, 11)]);
    assert!(description_ranges(0).is_empty());
}

#[test]
fn accepted_values() {
    let descriptions = value_descriptions(&[format_report()]).unwrap();
    let values = || vec![Value { id: 1, timestamp: 9, data: ValueData::Binary(vec![1]) }];
    assert_eq!(check_descriptions(1, &descriptions), Ok(()));
    assert_eq!(check_descriptions(2, &descriptions), Err(Error::CountMismatch));
    let accepted = accept_values(&descriptions, values(), 77).unwrap();
    assert_eq!(accepted[0].timestamp, 77);
    assert_eq!(accepted[0].data, ValueData::Binary(vec![1]));
    assert_eq!(accept_values(&descriptions, vec![], 77), Err(Error::CountMismatch));
    let others = vec![Value { id: 1, timestamp: 9, data: ValueData::Number(Float { bits: 0 }) }];
    assert_eq!(accept_values(&descriptions, others, 77), Err(Error::TypeMismatch));
    assert!(is_outdated(PendingKind::UpdateValues));
    assert!(is_outdated(PendingKind::ReceivedDeviceDescription));
    assert!(!is_outdated(PendingKind::Other));
}

#[test]
fn inclusion() {
    let mut channels = WakeupChannels::new();
    let mut device = device_with(&mut channels);
    assert_eq!(device.begin_inclusion(), Ok([0x94, 0xbb, 0xae, 0x16, 0x8b, 0xb0]));
    assert_eq!(channels.users(5), Some(1));
    let excluded = description(&mut channels, 0, 6);
    assert_eq!(
        device.on_inclusion_description(excluded, &mut channels, 99),
        Err(Error::NotIncluded)
    );
    assert_eq!(channels.users(5), Some(0));
    assert_eq!(channels.users(6), Some(1));
    device.persistent.time_offset = Some(60);
    let included = description(&mut channels, 1, 7);
    assert_eq!(device.on_inclusion_description(included, &mut channels, 99), Ok(()));
    assert_eq!(device.persistent.time_offset, None);
    assert_eq!(device.persistent.connection_status, ConnectionStatus::Online);
    assert_eq!(device.persistent.modified, 99);
    device.finish_inclusion(
        value_descriptions(&[format_report()]).unwrap(),
        vec![Value { id: 1, timestamp: 9, data: ValueData::Binary(vec![1]) }],
    );
    assert_eq!(device.get_value("schedule").unwrap().id, 1);
    device.fail_inclusion();
    assert!(device.values.is_empty());
    assert!(device.value_descriptions.is_empty());
    assert!(device.description.included);
    device.on_exclusion_attempted();
    assert!(!device.description.included);
}

#[test]
fn wakeup_channels() {
    let mut channels = WakeupChannels::new();
    let mut device = device_with(&mut channels);
    let channel = device.choose_wakeup_channel(&mut channels).unwrap().unwrap();
    let chosen = channel.channel();
    // none of the channels of normal communication, and not the one in use
    assert!(![3, 5, 12, 20, 29].contains(&chosen));
    assert_eq!(
        device.accept_wakeup_channel(channel, chosen + 1, &mut channels),
        Err(Error::WrongWakeupChannel)
    );
    assert_eq!(device.description.wakeup_channel.channel(), 5);
    assert_eq!(channels.users(chosen as usize), Some(0));
    let channel = device.choose_wakeup_channel(&mut channels).unwrap().unwrap();
    let chosen = channel.channel();
    assert_eq!(device.accept_wakeup_channel(channel, chosen, &mut channels), Ok(()));
    assert_eq!(device.description.wakeup_channel.channel(), chosen);
    assert_eq!(channels.users(5), Some(0));
    device.description.channel_map = vec![0xff; 4];
    assert_eq!(
        device.choose_wakeup_channel(&mut channels).unwrap_err(),
        Error::NoMatchingChannel
    );
    assert!(WakeupChannel::allocate(&mut channels, &ChannelMap::from_bytes_be(&[0xff; 4])).is_err());
    device.description.radio_mode = RadioMode::AlwaysOnline;
    assert!(device.choose_wakeup_channel(&mut channels).unwrap().is_none());
}

#[test]
fn regular_tasks() {
    let config = Config::default();
    assert_eq!(task_pause(TaskAnswer::Next(7), &config), Some(7));
    assert_eq!(task_pause(TaskAnswer::Failed, &config), Some(900 * SECOND));
    assert_eq!(task_pause(TaskAnswer::Closed, &config), None);
    let step = |event| task_step(event, &config);
    assert_eq!(step(TaskEvent::Started), TaskAction::Ask);
    assert_eq!(step(TaskEvent::Answered(TaskAnswer::Next(7))), TaskAction::Sleep(7));
    assert_eq!(
        step(TaskEvent::Answered(TaskAnswer::NoAnswer)),
        TaskAction::Sleep(900 * SECOND)
    );
    assert_eq!(step(TaskEvent::Answered(TaskAnswer::Closed)), TaskAction::Stop);
    assert_eq!(step(TaskEvent::Slept(SleepResult::Slept)), TaskAction::Ask);
    assert_eq!(step(TaskEvent::Slept(SleepResult::Interrupted)), TaskAction::Ask);
    assert_eq!(step(TaskEvent::Slept(SleepResult::Dropped)), TaskAction::Stop);
    assert!(takes_radio_lock(RegularTask::Ping));
    assert!(takes_radio_lock(RegularTask::UtcOffset));
    assert!(!takes_radio_lock(RegularTask::Fota));
}

#[test]
fn forgotten_devices() {
    let mut device = device();
    assert!(!device.announces_itself());
    assert!(device.begin_forget());
    device.on_exclusion_attempted();
    assert!(!device.begin_forget());
    assert!(device.announces_itself());
    device.set_online(false, 60, 60);
    assert!(!device.announces_itself());
    assert_eq!(device.farewell(), Farewell::Nothing);
    device.publication_state = PublicationState::Includable;
    assert_eq!(device.farewell(), Farewell::IncludableDevice);
    device.publication_state = PublicationState::Ready;
    assert_eq!(device.farewell(), Farewell::Device);
}
