use lemonbeatd::comm::WakeupChannels;
use lemonbeatd::config::Config;
use lemonbeatd::device::fota::DataDownload;
use lemonbeatd::device::fota::FirmwareUploadKind;
use lemonbeatd::device::fota::FirmwareUploadState;
use lemonbeatd::device::lemonbeat_requests::Confirmation;
use lemonbeatd::device::lemonbeat_communication::MessageFailure;
use lemonbeatd::device::lwm2m_utils::object_path;
use lemonbeatd::device::lwm2m_utils::resource_path;
use lemonbeatd::device::lwm2m_utils::value_path;
use lemonbeatd::device::make_flowinfo_ordered;
use lemonbeatd::device::object_datadownload::changed_by_download;
use lemonbeatd::device::object_datadownload::on_download_report;
use lemonbeatd::device::object_datadownload::parse_download;
use lemonbeatd::device::object_datadownload::parse_download_with;
use lemonbeatd::device::object_datadownload::BytesField;
use lemonbeatd::device::object_datadownload::Download;
use lemonbeatd::device::object_datadownload::DownloadNext;
use lemonbeatd::device::object_datadownload::DownloadRequest;
use lemonbeatd::device::object_datadownload::NumberField;
use lemonbeatd::device::object_firmwareupdate::after_update_status;
use lemonbeatd::device::object_firmwareupdate::changed_by_update;
use lemonbeatd::device::object_firmwareupdate::confirms_reboot;
use lemonbeatd::device::object_firmwareupdate::fota_on_device_description;
use lemonbeatd::device::object_firmwareupdate::on_update_started;
use lemonbeatd::device::object_firmwareupdate::plan_update;
use lemonbeatd::device::object_firmwareupdate::AfterUpdate;
use lemonbeatd::device::object_firmwareupdate::PackageStep;
use lemonbeatd::device::object_firmwareupdate::UpdateStart;
use lemonbeatd::device::object_lemonbeat::confirms_write;
use lemonbeatd::device::object_lemonbeat::LemonbeatHandler;
use lemonbeatd::device::object_lemonbeat::NamedWrite;
use lemonbeatd::device::values::description_by_name;
use lemonbeatd::device::values::description_by_resource_id;
use lemonbeatd::device::values::find_value;
use lemonbeatd::device::values::validate_values;
use lemonbeatd::device::values::value_by_resource_id;
use lemonbeatd::device::Device;
use lemonbeatd::device::NewDeviceSource;
use lemonbeatd::device::PublicationState;
use lemonbeatd::error::DownloadField;
use lemonbeatd::error::Error;
use lemonbeatd::lsdl::FirmwareReport;
use lemonbeatd::lsdl::FirmwareStatus;
use lemonbeatd::lsdl::Float;
use lemonbeatd::lsdl::Manufacturer;
use lemonbeatd::lsdl::Permission;
use lemonbeatd::lsdl::Property;
use lemonbeatd::lsdl::PropertyId;
use lemonbeatd::lsdl::Protocol;
use lemonbeatd::lsdl::RadioMode;
use lemonbeatd::lsdl::RawStatus;
use lemonbeatd::lsdl::ValueType;
use lemonbeatd::lwm2m::DataDownloadStatus;
use lemonbeatd::lwm2m::FirmwareUpdateResult;
use lemonbeatd::lwm2m::FirmwareUpdateState;
use lemonbeatd::lwm2m::NumberReading;
use lemonbeatd::lwm2m::ObjectType;
use lemonbeatd::lwm2m::Operations;
use lemonbeatd::lwm2m::Resource;
use lemonbeatd::lwm2m::ResourceData;
use lemonbeatd::lwm2m::WriteData;
use lemonbeatd::net::IpAddr;
use lemonbeatd::net::SocketAddr;
use lemonbeatd::net::SocketAddrV4;
use lemonbeatd::net::SocketAddrV6;
use lemonbeatd::storage::description::ConnectionStatus;
use lemonbeatd::storage::description::DeviceDescription;
use lemonbeatd::storage::persistent::PersistentState;
use lemonbeatd::storage::value::StoredField;
use lemonbeatd::storage::value::Value;
use lemonbeatd::storage::value::ValueData;
use lemonbeatd::storage::value::ValueDescription;
use lemonbeatd::storage::value::ValueFormat;
use lemonbeatd::traits::ByteOrder;
use sha2::Digest;

const ADDRESS: u128 = 0xfc00_0000_0000_0000_0006_94bb_ae16_8bb0;

const INTERFACE: SocketAddr =
    SocketAddr::V6(SocketAddrV6 { ip: 1, port: 8888, flowinfo: 0, scope_id: 2 });

fn property(id: PropertyId) -> Property {
    Property {
        id: Some(id),
        number: None,
        text: None,
        hex: None,
        manufacturer: None,
        protocol: None,
        radio_mode: None,
    }
}

fn number(id: PropertyId, number: u64) -> Property {
    Property { number: Some(number), ..property(id) }
}

fn text(id: PropertyId, text: &str) -> Property {
    Property { text: Some(text.to_string()), ..property(id) }
}

fn bytes(id: PropertyId, hex: &str) -> Property {
    Property { hex: Some(hex::decode(hex).unwrap()), ..property(id) }
}

/// An irrigation control.
fn description() -> DeviceDescription {
    let properties = [
        Property {
            manufacturer: Some(Manufacturer::Gardena),
            ..property(PropertyId::Manufacturer)
        },
        text(PropertyId::ApplicationVersion, "1.1.2"),
        text(PropertyId::HardwareVersion, "0.2.0"),
        text(PropertyId::BootloaderVersion, "1.0.3"),
        text(PropertyId::StackVersion, "1.5.3"),
        Property { protocol: Some(Protocol { code: 1 }), ..property(PropertyId::Protocol) },
        number(PropertyId::Type, 6),
        number(PropertyId::Product, 2),
        number(PropertyId::Included, 1),
        text(PropertyId::Name, "IrrigationControl"),
        bytes(PropertyId::Sgtin, "3034F8EE901EE94000002FDB"),
        Property { radio_mode: Some(RadioMode::WakeOnRadio), ..property(PropertyId::RadioMode) },
        number(PropertyId::WakeupChannel, 5),
        bytes(PropertyId::ChannelMap, "10080804"),
    ];
    let mut channels = WakeupChannels::new();
    DeviceDescription::new(IpAddr::V6(ADDRESS), &properties, &mut channels, 17).unwrap()
}

/// A lawnmower with a radio module of its own.
fn mower_description() -> DeviceDescription {
    let mut description = description();
    description.type_id = 10;
    description.serialid = hex::decode("3035C33A8834B925750D9CD0").unwrap();
    description
}

fn float(number: f64) -> Float {
    Float { bits: number.to_bits() }
}

fn number_format() -> ValueFormat {
    ValueFormat::Number {
        unit: "min".to_string(),
        min: float(0.0),
        max: float(90.0),
        step: float(1.0),
    }
}

fn value_description(id: u32, name: &str, format: ValueFormat) -> ValueDescription {
    ValueDescription {
        id,
        permission: Permission::ReadWrite,
        name: Some(name.to_string()),
        type_id: ValueType::GeneralPurpose,
        format,
        persistent: false,
        virtual_value: false,
    }
}

fn value_descriptions() -> Vec<ValueDescription> {
    vec![
        value_description(1, "duration", number_format()),
        value_description(2, "schedule", ValueFormat::Binary { max_length: 2 }),
        value_description(3, "label", ValueFormat::Text { max_length: 4 }),
    ]
}

fn values() -> Vec<Value> {
    vec![
        Value { id: 3, timestamp: 3, data: ValueData::Text("east".to_string()) },
        Value { id: 1, timestamp: 1, data: ValueData::Number(float(7.0)) },
        Value { id: 2, timestamp: 2, data: ValueData::Binary(vec![0xca, 0xfe]) },
    ]
}

fn device() -> Device {
    Device::load(INTERFACE, description(), None, value_descriptions(), values(), 50, 7, 600).unwrap()
}

#[test]
fn load_device_data() {
    let stored = |id: u32, value: &str| {
        vec![
            StoredField::Timestamp(1),
            StoredField::Id(id),
            StoredField::Value(value.to_string()),
        ]
    };
    let descriptions = value_descriptions();
    let values = [
        Value::load(&stored(1, "7"), Some(float(7.0)), &descriptions).unwrap(),
        Value::load(&stored(2, "CAFE"), None, &descriptions).unwrap(),
        Value::load(&stored(3, "east"), None, &descriptions).unwrap(),
    ];
    validate_values(&descriptions, &values).unwrap();
    let device = Device::load(
        INTERFACE,
        description(),
        None,
        descriptions,
        values.into(),
        50,
        7,
        600,
    )
    .unwrap();
    assert_eq!(device.get_value("schedule").unwrap().data, ValueData::Binary(vec![0xca, 0xfe]));
}

fn text_description(id: u32) -> ValueDescription {
    value_description(id, "label", ValueFormat::Text { max_length: 4 })
}

fn text_value(id: u32) -> Value {
    Value { id, timestamp: 3, data: ValueData::Text("east".to_string()) }
}

#[test]
fn values_that_do_not_belong_together() {
    let descriptions = value_descriptions();
    assert_eq!(validate_values(&descriptions, &values()), Ok(()));
    assert_eq!(validate_values(&descriptions, &values()[1..]), Err(Error::CountMismatch));
    let mut others = values();
    others[0].id = 4;
    assert_eq!(validate_values(&descriptions, &others), Err(Error::NoValue));
    let mut others = values();
    others[0].data = ValueData::Binary(vec![]);
    assert_eq!(validate_values(&descriptions, &others), Err(Error::TypeMismatch));
    let twice = vec![text_description(1), text_description(1)];
    let values = vec![text_value(1), text_value(2)];
    assert_eq!(validate_values(&twice, &values), Err(Error::DuplicateDescription));
    let values = vec![text_value(1), text_value(1)];
    assert_eq!(validate_values(&twice, &values), Err(Error::DuplicateDescription));
    let both = vec![text_description(1), text_description(2)];
    assert_eq!(validate_values(&both, &values), Err(Error::NoValue));
    assert_eq!(
        Device::load(INTERFACE, description(), None, value_descriptions(), others, 50, 7, 600)
            .unwrap_err(),
        Error::TypeMismatch
    );
}

#[test]
fn found_values() {
    let descriptions = value_descriptions();
    assert_eq!(description_by_name(&descriptions, "label").unwrap().id, 3);
    assert_eq!(
        description_by_name(&descriptions, "labels").unwrap_err(),
        Error::NoValueDescription
    );
    assert_eq!(description_by_resource_id(&descriptions, 2).unwrap().id, 2);
    assert_eq!(
        description_by_resource_id(&descriptions, (1 << 32) + 2).unwrap_err(),
        Error::NoValueDescription
    );
    assert_eq!(value_by_resource_id(&values(), 1).unwrap().timestamp, 1);
    assert_eq!(value_by_resource_id(&values(), 4).unwrap_err(), Error::NoValue);
    assert_eq!(find_value(&values(), 2), Some(2));
    assert_eq!(find_value(&values(), 9), None);
    assert_eq!(device().get_value("duration").unwrap().timestamp, 1);
    assert_eq!(device().get_value("nothing").unwrap_err(), Error::NoValueDescription);
}

#[test]
fn updated_values() {
    let mut device = device();
    let now = 1_000_000;
    let value = Value { id: 1, timestamp: now - 60_000, data: ValueData::Number(float(8.0)) };
    assert_eq!(device.update_value(value, now), Ok(Some(1)));
    assert!(!device.time_out_of_sync);
    assert_eq!(device.values[1].timestamp, now);
    assert_eq!(device.values[1].data, ValueData::Number(float(8.0)));
    // the other values are left alone, and everything still belongs together
    assert_eq!(device.values[0], values()[0]);
    assert_eq!(validate_values(&device.value_descriptions, &device.values), Ok(()));

    let value = Value { id: 1, timestamp: now + 60_001, data: ValueData::Number(float(8.0)) };
    assert_eq!(device.update_value(value, now), Ok(Some(1)));
    assert!(device.time_out_of_sync);
    let value = Value { id: 1, timestamp: 0, data: ValueData::Number(float(8.0)) };
    assert_eq!(device.update_value(value, now), Ok(Some(1)));
    assert!(device.time_out_of_sync);

    let value = Value { id: 1, timestamp: 0, data: ValueData::Binary(vec![]) };
    assert_eq!(device.update_value(value, now), Err(Error::TypeMismatch));
    let value = Value { id: 4, timestamp: 0, data: ValueData::Binary(vec![]) };
    assert_eq!(device.update_value(value, now), Err(Error::NoValue));
}

#[test]
fn chatter_is_not_published() {
    let mut device = device();
    device.value_descriptions[0].name = Some("command_result".to_string());
    let value = || Value { id: 1, timestamp: 0, data: ValueData::Number(float(8.0)) };
    assert_eq!(device.update_value(value(), 1), Ok(Some(1)));
    device.description = mower_description();
    assert!(device.description.is_lawnmower());
    assert_eq!(device.update_value(value(), 1), Ok(None));
}

#[test]
fn new_devices() {
    let device = Device::new(INTERFACE, description(), None, NewDeviceSource::Air, 50, 7, 600);
    assert_eq!(device.persistent.connection_status, ConnectionStatus::Online);
    assert_eq!(device.last_communication_attempt, Some(50));
    assert_eq!(device.online_changed_at, 50);
    assert_eq!(device.dont_delete_until, 650);
    // what is stored shows the clock on the wall
    assert_eq!(device.persistent.connection_status_last_transition, 7);
    assert_eq!(device.persistent.modified, 7);
    assert_eq!(device.publication_state, PublicationState::Invisible);
    assert_eq!(device.data_download, DataDownload::new());
    assert!(device.values.is_empty());
    let device = Device::new(INTERFACE, description(), None, NewDeviceSource::Storage, 50, 7, 600);
    assert_eq!(device.persistent.connection_status, ConnectionStatus::Offline);
    assert_eq!(device.last_communication_attempt, None);
    let device = self::device();
    assert_eq!(device.online_changed_at, 50);
    assert_eq!(device.persistent.connection_status_last_transition, 7);
    for (state, included, expected) in [
        (FirmwareUpdateState::Downloading, false, FirmwareUpdateState::Idle),
        (FirmwareUpdateState::Updating, true, FirmwareUpdateState::Idle),
        (FirmwareUpdateState::Updating, false, FirmwareUpdateState::Updating),
        (FirmwareUpdateState::DownloadComplete, true, FirmwareUpdateState::DownloadComplete),
    ] {
        let mut persistent = PersistentState::new(ConnectionStatus::Online, 1);
        persistent.firmware_update_state = state;
        let mut description = description();
        description.included = included;
        let device = Device::new(
            INTERFACE,
            description,
            Some(persistent),
            NewDeviceSource::Storage,
            50,
            7,
            600,
        );
        assert_eq!(device.persistent.firmware_update_state, expected);
    }
}

#[test]
fn time_to_sleep() {
    let config = Config::default();
    let mut device = device();
    let second = Some(1_000_000_000);
    assert_eq!(device.filter_go_to_sleep(second, &config), second);
    assert_eq!(device.filter_go_to_sleep(None, &config), None);
    device.persistent.firmware_update_state = FirmwareUpdateState::Downloading;
    assert_eq!(device.filter_go_to_sleep(second, &config), None);
    let fota = Some(config.gotosleep_duration_fota);
    assert_eq!(device.filter_go_to_sleep(fota, &config), fota);
    device.description.radio_mode = RadioMode::AlwaysOnline;
    assert_eq!(device.filter_go_to_sleep(fota, &config), None);
}

#[test]
fn addresses() {
    let mut device = device();
    assert_eq!(
        device.address(),
        SocketAddr::V6(SocketAddrV6 { ip: ADDRESS, port: 8888, flowinfo: 0, scope_id: 2 })
    );
    device.interface = SocketAddr::V4(SocketAddrV4 { ip: 9, port: 77 });
    assert_eq!(
        device.address(),
        SocketAddr::V6(SocketAddrV6 { ip: ADDRESS, port: 77, flowinfo: 0, scope_id: 0 })
    );
    device.description.address = IpAddr::V4(8);
    assert_eq!(device.address(), SocketAddr::V4(SocketAddrV4 { ip: 8, port: 77 }));
    assert_eq!(device.message_address(true), Err(Error::NoFlowinfo));
    assert_eq!(make_flowinfo_ordered(true, ByteOrder::Little).raw(), 0x0000_c001);
    assert_eq!(make_flowinfo_ordered(false, ByteOrder::Little).raw(), 0x0000_c000);
    assert_eq!(make_flowinfo_ordered(true, ByteOrder::Big).raw(), 0x01c0_0000);
}

#[test]
fn device_object() {
    let mut device = device();
    assert_eq!(device.manufacturer(), (Some("Gardena"), 17));
    assert_eq!(device.model_number(), ("31653".to_string(), 17));
    assert_eq!(device.serial_number(), ("00012251".to_string(), 17));
    assert_eq!(device.firmware_version(), ("1.0.3-1.5.3".to_string(), 17));
    assert_eq!(device.error_code(), (0, 17));
    assert_eq!(device.supported_binding_and_modes(), ("U", 17));
    assert_eq!(device.device_type(), ("Irrigation Control", 17));
    assert_eq!(device.hardware_version(), ("0.2.0".to_string(), 17));
    assert_eq!(device.software_version(), ("1.1.2".to_string(), 17));
    assert_eq!(device.utc_offset(), (String::new(), 7));
    device.persistent.time_offset = Some(-210);
    assert_eq!(device.utc_offset(), ("UTC-03:30".to_string(), 7));
    let write = device.reboot();
    assert_eq!(write.name, "command");
    assert!(matches!(write.data, WriteData::Number(number) if number == float(31.0)));
    device.description.manufacturer = Manufacturer::Other(7);
    assert_eq!(device.manufacturer(), (None, 17));
}

#[test]
fn connection_status_object() {
    let mut device = device();
    assert_eq!(device.connection_status(), (false, 7));
    device.set_online(true, 60, 1000);
    assert_eq!(device.connection_status(), (true, 1000));
}

#[test]
fn status_message_object() {
    let mut device = device();
    assert_eq!(device.status_type(), Err(Error::MissingStatus));
    assert_eq!(device.status_code(), Err(Error::MissingStatus));
    assert_eq!(device.status_level(), Err(Error::MissingStatus));
    assert_eq!(device.status_data(), Err(Error::MissingStatus));
    device.persistent.status = Some(RawStatus { type_id: 1, code: 2, level: 3, data: None });
    assert_eq!(device.status_type(), Ok((1, 7)));
    assert_eq!(device.status_code(), Ok((2, 7)));
    assert_eq!(device.status_level(), Ok((3, 7)));
    assert_eq!(device.status_data(), Ok((String::new(), 7)));
    device.persistent.status =
        Some(RawStatus { type_id: 1, code: 2, level: 3, data: Some("a".to_string()) });
    assert_eq!(device.status_data(), Ok(("a".to_string(), 7)));
}

#[test]
fn listed_objects() {
    let mut device = device();
    let always = [
        ObjectType::Device,
        ObjectType::FirmwareUpdate,
        ObjectType::Lemonbeat,
        ObjectType::ConnectionStatus,
    ];
    let objects = |device: &Device| -> Vec<ObjectType> {
        device.object_list().iter().map(|(object, _)| *object).collect()
    };
    assert_eq!(objects(&device), always);
    assert_eq!(device.get_object(ObjectType::DataDownload), Err(Error::Unsupported));
    device.persistent.status = Some(RawStatus { type_id: 1, code: 2, level: 3, data: None });
    device.description = mower_description();
    assert!(device.description.is_cbtl());
    assert_eq!(
        objects(&device)[4..],
        [ObjectType::DataDownload, ObjectType::LemonbeatStatusMessage]
    );
    for object in objects(&device) {
        assert_eq!(device.get_object(object), Ok(()));
    }
    assert_eq!(
        device.resource_instance_list(ObjectType::Lemonbeat),
        [(Resource::Lemonbeat(1), 0), (Resource::Lemonbeat(2), 0), (Resource::Lemonbeat(3), 0)]
    );
    for (object, count) in [
        (ObjectType::Device, 10),
        (ObjectType::FirmwareUpdate, 7),
        (ObjectType::DataDownload, 4),
        (ObjectType::ConnectionStatus, 1),
        (ObjectType::LemonbeatStatusMessage, 4),
    ] {
        assert_eq!(device.resource_instance_list(object).len(), count);
    }
}

#[test]
fn paths() {
    assert_eq!(object_path("device", 0), "device/0");
    assert_eq!(resource_path("lemonbeat", 0, "duration", 0), "lemonbeat/0/duration");
    assert_eq!(resource_path("lemonbeat", 1, "duration", 12), "lemonbeat/1/duration/12");
    assert_eq!(value_path("command"), "lemonbeat/0/command/0");
}

#[test]
fn publication() {
    let mut device = device();
    assert!(device.is_published());
    device.on_includable_device_published(false);
    assert_eq!(device.publication_state, PublicationState::Includable);
    assert!(!device.is_published());
    device.on_includable_device_published(true);
    assert_eq!(device.publication_state, PublicationState::Invisible);
    assert!(device.can_publish_endpoint());
    device.on_endpoint_published();
    assert!(device.is_published());
}

fn read(device: &Device, id: usize, reading: NumberReading) -> Result<ResourceData, Error> {
    LemonbeatHandler::new(device).read_resource(0, id, 0, reading).map(|(data, _)| data)
}

#[test]
fn read_values() {
    let mut device = device();
    let handler = LemonbeatHandler::new(&device);
    assert_eq!(handler.urn(), "urn:oma:lwm2m:x:31000");
    assert!(!handler.is_array_resource());
    assert_eq!(handler.exec(), Err(Error::Unsupported));
    assert_eq!(
        handler.read_resource(1, 1, 0, NumberReading::Float).unwrap_err(),
        Error::NonZeroObjectInstance
    );
    assert_eq!(
        handler.read_resource(0, 1, 1, NumberReading::Float).unwrap_err(),
        Error::NonZeroResourceInstance
    );
    assert_eq!(handler.read_resource(0, 1, 0, NumberReading::Positive(7)).unwrap().1, 1);
    assert!(matches!(read(&device, 1, NumberReading::Positive(7)), Ok(ResourceData::Unsigned(7))));
    assert!(matches!(read(&device, 1, NumberReading::Negative(-7)), Ok(ResourceData::Signed(-7))));
    assert!(matches!(read(&device, 1, NumberReading::NotANumber), Ok(ResourceData::NoInteger)));
    assert!(matches!(
        read(&device, 1, NumberReading::Float),
        Ok(ResourceData::Float(number)) if number == float(7.0)
    ));
    assert_eq!(read(&device, 1, NumberReading::Fraction).unwrap_err(), Error::HasFraction);
    assert_eq!(read(&device, 1, NumberReading::TooBig).unwrap_err(), Error::OutOfRange);
    assert!(matches!(
        read(&device, 2, NumberReading::Float),
        Ok(ResourceData::Opaque(bytes)) if bytes == [0xca, 0xfe]
    ));
    assert!(matches!(
        read(&device, 3, NumberReading::Float),
        Ok(ResourceData::Text(text)) if text == "east"
    ));
    assert_eq!(read(&device, 9, NumberReading::Float).unwrap_err(), Error::NoValueDescription);
    device.values[0].data = ValueData::Binary(vec![]);
    assert_eq!(read(&device, 3, NumberReading::Float).unwrap_err(), Error::TypeMismatch);
    device.values.clear();
    assert_eq!(read(&device, 3, NumberReading::Float).unwrap_err(), Error::NoValue);
}

#[test]
fn value_names() {
    let mut device = device();
    device.value_descriptions[0].name = None;
    device.value_descriptions[1].permission = Permission::ReadOnly;
    device.value_descriptions[2].permission = Permission::WriteOnly;
    let handler = LemonbeatHandler::new(&device);
    assert_eq!(handler.parse_resource_name("label"), Ok(3));
    assert_eq!(handler.parse_resource_name("duration"), Err(Error::NoValueDescription));
    assert_eq!(handler.get_resource_name(3), Ok("label"));
    assert_eq!(handler.get_resource_name(1), Err(Error::NoName));
    assert_eq!(handler.get_resource_name(7), Err(Error::NoValueDescription));
    assert_eq!(handler.write_resource(3, 0), Ok("label"));
    assert_eq!(handler.write_resource(3, 1), Err(Error::NonZeroResourceInstance));
    let operations = |id| handler.supported_resource_operations(id);
    assert_eq!(operations(1), Ok(Operations { read: true, write: true }));
    assert_eq!(operations(2), Ok(Operations { read: true, write: false }));
    assert_eq!(operations(3), Ok(Operations { read: false, write: true }));
    assert_eq!(operations(4), Err(Error::NoValueDescription));
}

fn write(name: &str, data: WriteData) -> NamedWrite {
    NamedWrite { name: name.to_string(), data }
}

#[test]
fn written_values() {
    let mut device = device();
    let handler = LemonbeatHandler::new(&device);
    let message = handler
        .handle_partial_write(
            0,
            &[
                write("schedule", WriteData::Opaque(vec![1, 0xff])),
                write("duration", WriteData::Number(float(5.0))),
                write("label", WriteData::Text("west".to_string())),
            ],
        )
        .unwrap();
    assert_eq!(message.go_to_sleep, Some(0));
    let ids: Vec<u32> = message.sets.iter().map(|set| set.value_id).collect();
    assert_eq!(ids, [2, 1, 3]);
    assert_eq!(message.sets[0].hex_binary.as_deref(), Some("01ff"));
    assert_eq!(message.sets[1].number, Some(float(5.0)));
    assert_eq!(message.sets[2].text.as_deref(), Some("west"));
    device.description.radio_mode = RadioMode::AlwaysOnline;
    let handler = LemonbeatHandler::new(&device);
    assert_eq!(handler.handle_partial_write(0, &[]).unwrap().go_to_sleep, None);
}

#[test]
fn refused_writes() {
    let mut device = device();
    let refused = |device: &Device, name: &str, data: WriteData| {
        let writes = [write("duration", WriteData::Number(float(5.0))), write(name, data)];
        LemonbeatHandler::new(device).handle_partial_write(0, &writes).unwrap_err()
    };
    let handler = LemonbeatHandler::new(&device);
    assert_eq!(
        handler.handle_partial_write(1, &[]).unwrap_err(),
        Error::NonZeroObjectInstance
    );
    assert_eq!(refused(&device, "x", WriteData::Unsupported), Error::NoValueDescription);
    assert_eq!(refused(&device, "label", WriteData::Unsupported), Error::UnsupportedData);
    assert_eq!(
        refused(&device, "label", WriteData::Text("north".to_string())),
        Error::ValueTooLong
    );
    assert_eq!(
        refused(&device, "schedule", WriteData::Opaque(vec![1, 2, 3])),
        Error::ValueTooLong
    );
    assert_eq!(
        refused(&device, "schedule", WriteData::Number(float(1.0))),
        Error::TypeMismatch
    );
    device.value_descriptions[1].permission = Permission::ReadOnly;
    assert_eq!(
        refused(&device, "schedule", WriteData::Opaque(vec![1])),
        Error::ReadOnlyValue
    );
}

#[test]
fn finished_writes() {
    let mut device = device();
    assert!(confirms_write(5, 5));
    assert!(!confirms_write(4, 5));
    assert_eq!(
        device.finish_write(Confirmation::Failed(MessageFailure::OutOfAttempts), 9),
        Err(Error::RequestFailed)
    );
    assert_eq!(device.last_write, None);
    assert_eq!(device.finish_write(Confirmation::TimedOut, 9), Ok(()));
    assert_eq!(device.last_write, Some(9));
}

fn package(version: &str) -> Vec<u8> {
    let mut data = b"LBFW\0".to_vec();
    data.push(version.len() as u8);
    data.extend(version.as_bytes());
    data.extend([1, 0, 0, 0, 2, 0, 0, 0, 7, 7]);
    let digest = sha2::Sha512::digest(&data);
    data.extend(digest);
    data
}

#[test]
fn firmware_packages() {
    let mut device = device();
    assert_eq!(device.begin_package(&[0]), Ok(PackageStep::Accept));
    device.persistent.firmware_update_state = FirmwareUpdateState::DownloadComplete;
    device.persistent.firmware_update_pkg_version = "1".to_string();
    assert_eq!(device.begin_package(&[0]), Ok(PackageStep::Flush));
    assert_eq!(device.begin_package(&[0, 0]), Ok(PackageStep::Accept));

    // the last update is forgotten first, and only then the package looked at
    assert_eq!(device.reset_for_package(), Ok(true));
    assert_eq!(device.pkg_version(), "");
    assert_eq!(device.firmware_update_state(), FirmwareUpdateState::Idle);
    assert_eq!(device.update_result(), FirmwareUpdateResult::Initial);
    assert_eq!(device.reset_for_package(), Ok(false));
    let container = device.accept_package(&package("2.0")).unwrap();
    assert_eq!(container.firmware_version, "2.0");
    assert_eq!(device.pkg_version(), "2.0");
    assert_eq!(device.firmware_update_state(), FirmwareUpdateState::Idle);

    // what is no package leaves the update reset
    device.persistent.firmware_update_state = FirmwareUpdateState::DownloadComplete;
    assert_eq!(device.reset_for_package(), Ok(true));
    assert_eq!(device.accept_package(b"no package").unwrap_err(), Error::UnsupportedMagic);
    assert_eq!(device.pkg_version(), "");
    assert_eq!(device.firmware_update_state(), FirmwareUpdateState::Idle);
    device.description.included = false;
    assert_eq!(device.reset_for_package(), Err(Error::NotIncluded));
    device.persistent.firmware_update_state = FirmwareUpdateState::Updating;
    assert_eq!(device.reset_for_package(), Err(Error::UpdateInProgress));
    assert_eq!(device.firmware_update_state(), FirmwareUpdateState::Updating);
    device.persistent.firmware_update_state = FirmwareUpdateState::Downloading;
    assert_eq!(device.reset_for_package(), Err(Error::UpdateInProgress));
}

fn data_upload(slot: u32) -> FirmwareUploadState {
    FirmwareUploadState::new(1, FirmwareUploadKind::Data { data: vec![1], slot }, 0)
}

#[test]
fn uploads_in_the_way() {
    let mut device = device();
    assert_eq!(device.download_conflict(4), Ok(false));
    device.set_upload_state(data_upload(5));
    assert_eq!(device.firmware_update_state(), FirmwareUpdateState::Downloading);
    assert_eq!(device.begin_package(&[1]), Err(Error::UploadRunning(5)));
    assert_eq!(device.download_conflict(4), Err(Error::UploadRunning(5)));
    assert_eq!(device.download_conflict(5), Ok(true));
    assert!(device.abort_upload().is_some());
    assert!(device.abort_upload().is_none());
    let data = package("1");
    let container = device.accept_package(&data).unwrap();
    device.set_upload_state(FirmwareUploadState::new(
        1,
        FirmwareUploadKind::Fota { data, container, image: 0 },
        0,
    ));
    assert_eq!(device.begin_package(&[1]), Ok(PackageStep::AbortFirst));
    assert_eq!(device.download_conflict(4), Ok(true));
}

#[test]
fn firmware_updates() {
    let mut device = device();
    assert_eq!(
        Device::on_package_started(true),
        (FirmwareUpdateState::Downloading, FirmwareUpdateResult::Success)
    );
    assert_eq!(
        Device::on_package_started(false),
        (FirmwareUpdateState::Idle, FirmwareUpdateResult::IntegrityCheckFail)
    );
    assert_eq!(device.begin_update(), Err(Error::NotDownloaded));
    assert_eq!(
        device.set_firmware_update_status(
            FirmwareUpdateState::DownloadComplete,
            FirmwareUpdateResult::Initial
        ),
        Ok(true)
    );
    assert_eq!(device.begin_update(), Ok(()));
    let step = device.on_update_info(100, 100);
    assert_eq!(step.next, Ok(UpdateStart { reboot_radio: false, long_timeout: false }));
    assert_eq!(step.state, FirmwareUpdateState::Updating);
    // a stack that is too old for some things
    device.description.version_stack = "1.5.1".to_string();
    let step = device.on_update_info(100, 100);
    assert_eq!(step.next, Ok(UpdateStart { reboot_radio: false, long_timeout: true }));
    assert_eq!(device.on_update_info(0, 0).next, Err(Error::ResetNotSupported));
    device.description.version_stack = "1.5.3".to_string();
    assert!(device.on_update_info(0, 0).next.is_ok());
    assert_eq!(device.package_uri(), "");
    assert_eq!(device.set_package_uri(), Err(Error::Unsupported));
    assert_eq!(device.firmware_update_delivery_method(), 1);
    assert_eq!(
        changed_by_update(),
        [
            Resource::FirmwareUpdateState,
            Resource::FirmwareUpdateUpdateResult,
            Resource::FirmwareUpdatePkgVersion
        ]
    );
}

#[test]
fn update_plans() {
    let step = plan_update(5, 4, false, false, false);
    assert_eq!(step.next, Err(Error::IncompleteDownload));
    assert_eq!(step.state, FirmwareUpdateState::Idle);
    assert_eq!(step.result, FirmwareUpdateResult::NoFlash);
    let step = plan_update(0, 0, true, false, false);
    assert_eq!(step.next, Err(Error::ResetNotSupported));
    assert_eq!(step.result, FirmwareUpdateResult::UpdateFailed);
    let step = plan_update(5, 5, true, true, true);
    assert_eq!(step.next, Ok(UpdateStart { reboot_radio: true, long_timeout: true }));
    assert_eq!(step.result, FirmwareUpdateResult::Initial);
    assert!(confirms_reboot(7, 7));
    assert!(!confirms_reboot(6, 7));
}

#[test]
fn update_answers() {
    let end = on_update_started(FirmwareStatus::Accepted);
    assert_eq!(end.state, FirmwareUpdateState::Updating);
    assert_eq!(end.result, FirmwareUpdateResult::Success);
    assert_eq!(end.outcome, Ok(()));
    let end = on_update_started(FirmwareStatus::ChecksumErr);
    assert_eq!(end.state, FirmwareUpdateState::Idle);
    assert_eq!(end.result, FirmwareUpdateResult::IntegrityCheckFail);
    assert_eq!(end.outcome, Err(Error::UpdateRefused(FirmwareStatus::ChecksumErr)));
    let end = on_update_started(FirmwareStatus::Other(9));
    assert_eq!(end.result, FirmwareUpdateResult::UpdateFailed);
    assert_eq!(end.outcome, Err(Error::UpdateRefused(FirmwareStatus::Other(9))));
    assert_eq!(fota_on_device_description(true), AfterUpdate::Failed);
    assert_eq!(fota_on_device_description(false), AfterUpdate::IncludeAgain);
    assert_eq!(
        after_update_status(AfterUpdate::Failed, false),
        Some((FirmwareUpdateState::Idle, FirmwareUpdateResult::UpdateFailed))
    );
    assert_eq!(
        after_update_status(AfterUpdate::IncludeAgain, true),
        Some((FirmwareUpdateState::Idle, FirmwareUpdateResult::Success))
    );
    assert_eq!(after_update_status(AfterUpdate::IncludeAgain, false), None);
}

fn download_request() -> DownloadRequest {
    DownloadRequest {
        count: 4,
        slot: NumberField::Number(3),
        checksum: NumberField::Number(0x31c3),
        content_tag: NumberField::Number(0xffff_ffff),
        data: BytesField::Bytes(b"123456789".to_vec()),
    }
}

#[test]
fn download_requests() {
    let download = parse_download(download_request()).unwrap();
    assert_eq!(download.slot, 3);
    assert_eq!(download.checksum, 0x31c3);
    assert_eq!(download.content_tag, 0xffff_ffff);
    assert_eq!(download.data, b"123456789");
    let error = |change: &dyn Fn(&mut DownloadRequest)| {
        let mut request = download_request();
        change(&mut request);
        parse_download(request).unwrap_err()
    };
    assert_eq!(error(&|r| r.count = 5), Error::InvalidValueCount);
    assert_eq!(
        error(&|r| r.slot = NumberField::Missing),
        Error::MissingDownloadField(DownloadField::Slot)
    );
    assert_eq!(
        error(&|r| r.slot = NumberField::Number(1 << 32)),
        Error::InvalidDownloadField(DownloadField::Slot)
    );
    assert_eq!(
        error(&|r| r.checksum = NumberField::Number(0x1_31c3)),
        Error::InvalidDownloadField(DownloadField::Checksum)
    );
    assert_eq!(
        error(&|r| r.content_tag = NumberField::WrongType),
        Error::InvalidDownloadField(DownloadField::ContentTag)
    );
    assert_eq!(
        error(&|r| r.data = BytesField::Missing),
        Error::MissingDownloadField(DownloadField::Data)
    );
    assert_eq!(
        error(&|r| r.data = BytesField::WrongType),
        Error::InvalidDownloadField(DownloadField::Data)
    );
    assert_eq!(
        error(&|r| r.data = BytesField::Bytes(b"12345678".to_vec())),
        Error::InvalidChecksum
    );
    assert_eq!(
        parse_download_with(download_request(), 0x31c4).unwrap_err(),
        Error::InvalidChecksum
    );
}

#[test]
fn started_downloads() {
    let mut device = device();
    assert_eq!(device.download_status(), (DataDownloadStatus::Idle, None));
    let download = || Download { slot: 3, checksum: 4, content_tag: 5, data: vec![1, 2] };
    assert_eq!(
        device.start_download(download(), 3, 64, 50, 99).unwrap_err(),
        Error::SizeMismatch
    );
    assert_eq!(device.download_status(), (DataDownloadStatus::Idle, None));
    let upload = device.start_download(download(), 2, 64, 50, 99).unwrap();
    assert_eq!(upload.started, 50);
    assert_eq!(upload.chunk_size, 64);
    assert!(device.upload_state.is_none());
    assert_eq!(device.download_status(), (DataDownloadStatus::Uploading, Some(99)));
    assert_eq!(device.download_slot(), (3, Some(99)));
    assert_eq!(device.download_checksum(), (4, Some(99)));
    assert_eq!(device.download_content_tag(), (5, Some(99)));
    device.set_upload_state(upload);
    assert!(device.upload_state.is_some());
    assert_eq!(device.set_download_part(), Err(Error::Unsupported));
    assert_eq!(changed_by_download().len(), 4);
    let accepted = |expected_offset| FirmwareReport {
        status: FirmwareStatus::Accepted,
        expected_offset,
    };
    assert_eq!(on_download_report(2, accepted(Some(2))), Ok(DownloadNext::Activate));
    assert_eq!(on_download_report(2, accepted(Some(0))), Ok(DownloadNext::AskForChunkSize));
    let refused = FirmwareReport { status: FirmwareStatus::Refused, expected_offset: None };
    assert_eq!(
        on_download_report(2, refused),
        Err(Error::InitRefused(FirmwareStatus::Refused))
    );
    assert_eq!(on_download_report(1 << 32, accepted(None)), Err(Error::OutOfRange));
}
