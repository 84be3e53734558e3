use lemonbeatd::bigint::BigUint;
use lemonbeatd::comm::WakeupChannels;
use lemonbeatd::device::loadsave::description_file_name;
use lemonbeatd::device::loadsave::device_dir_address;
use lemonbeatd::device::loadsave::device_dir_name;
use lemonbeatd::device::loadsave::device_file_name;
use lemonbeatd::device::loadsave::holds_description;
use lemonbeatd::device::loadsave::holds_value;
use lemonbeatd::device::loadsave::temporary_name;
use lemonbeatd::device::loadsave::value_file_name;
use lemonbeatd::error::Error;
use lemonbeatd::error::ValueField;
use lemonbeatd::lsdl::Float;
use lemonbeatd::lsdl::FormatReport;
use lemonbeatd::lsdl::Manufacturer;
use lemonbeatd::lsdl::MemoryId;
use lemonbeatd::lsdl::Permission;
use lemonbeatd::lsdl::Property;
use lemonbeatd::lsdl::PropertyId;
use lemonbeatd::lsdl::Protocol;
use lemonbeatd::lsdl::RadioMode;
use lemonbeatd::lsdl::ValueDescriptionReport;
use lemonbeatd::lsdl::ValueReport;
use lemonbeatd::lsdl::ValueType;
use lemonbeatd::lwm2m::FirmwareUpdateResult;
use lemonbeatd::lwm2m::FirmwareUpdateState;
use lemonbeatd::net::IpAddr;
use lemonbeatd::storage::channel_map::ChannelMap;
use lemonbeatd::storage::description::ConnectionStatus;
use lemonbeatd::storage::description::DeviceDescription;
use lemonbeatd::storage::description::InclusionStatus;
use lemonbeatd::storage::description::MemoryInformation;
use lemonbeatd::storage::description::Product;
use lemonbeatd::storage::persistent::PersistentState;
use lemonbeatd::storage::value::number_flag;
use lemonbeatd::storage::value::optional_text;
use lemonbeatd::storage::value::signed_u32;
use lemonbeatd::storage::value::unsigned_u32;
use lemonbeatd::storage::value::StoredField;
use lemonbeatd::storage::value::Value;
use lemonbeatd::storage::value::ValueData;
use lemonbeatd::storage::value::ValueDescription;
use lemonbeatd::storage::value::ValueFormat;
use lemonbeatd::traits::Sgtin96;
use lemonbeatd::utils::create_version;
use lemonbeatd::utils::VersionOrder;

#[test]
fn load_value_unknown_attribute() {
    let text = concat_text(&[
        "56352052686F646F64656E6472656E",
        "0000000000000000000000000000000000000000",
        "0000000000000000000000000000000000000000",
        "000000000000000000",
    ]);
    let description = ValueDescription {
        id: 37,
        permission: Permission::ReadWrite,
        name: None,
        type_id: ValueType::GeneralPurpose,
        format: ValueFormat::Binary { max_length: 0 },
        persistent: false,
        virtual_value: false,
    };
    let value = Value::load(
        &[
            StoredField::Id(37),
            StoredField::Unknown,
            StoredField::Timestamp(1629142915419),
            StoredField::Value(text.clone()),
        ],
        None,
        &[description],
    )
    .unwrap();

    assert_eq!(
        value,
        Value {
            id: 37,
            timestamp: 1629142915419,
            data: ValueData::Binary(hex::decode(&text).unwrap()),
        }
    );
}

fn concat_text(parts: &[&str]) -> String {
    parts.concat()
}

fn property(id: PropertyId) -> Property {
    Property {
        id: Some(id),
        number: None,
        text: None,
        hex: None,
        manufacturer: None,
        protocol: None,
        radio_mode: None,
    }
}

fn number(id: PropertyId, number: u64) -> Property {
    Property { number: Some(number), ..property(id) }
}

fn text(id: PropertyId, text: &str) -> Property {
    Property { text: Some(text.to_string()), ..property(id) }
}

fn bytes(id: PropertyId, hex: &str) -> Property {
    Property { hex: Some(hex::decode(hex).unwrap()), ..property(id) }
}

fn sample_properties() -> Vec<Property> {
    vec![
        Property {
            manufacturer: Some(Manufacturer::Gardena),
            ..property(PropertyId::Manufacturer)
        },
        text(PropertyId::ApplicationVersion, "1.1.2"),
        text(PropertyId::HardwareVersion, "0.2.0"),
        text(PropertyId::BootloaderVersion, "1.0.3"),
        text(PropertyId::StackVersion, "1.5.3"),
        Property { protocol: Some(Protocol { code: 1 }), ..property(PropertyId::Protocol) },
        number(PropertyId::Type, 6),
        number(PropertyId::Product, 2),
        number(PropertyId::Included, 1),
        text(PropertyId::Name, "IrrigationControl"),
        bytes(PropertyId::Sgtin, "3034F8EE901EE94000002FDB"),
        Property { radio_mode: Some(RadioMode::WakeOnRadio), ..property(PropertyId::RadioMode) },
        number(PropertyId::WakeupChannel, 5),
        bytes(PropertyId::ChannelMap, "10080804"),
        number(PropertyId::Uptime, 77),
        number(PropertyId::TxPower, 3),
        Property { id: None, ..property(PropertyId::Name) },
    ]
}

const ADDRESS: u128 = 0xfc00_0000_0000_0000_0006_94bb_ae16_8bb0;

/// An irrigation control.
fn sample_description() -> DeviceDescription {
    let mut channels = WakeupChannels::new();
    DeviceDescription::new(IpAddr::V6(ADDRESS), &sample_properties(), &mut channels, 17).unwrap()
}

#[test]
fn channel_map() {
    let description = sample_description();
    let channel_map = description.channel_map();

    for i in 0..=64 {
        assert_eq!(channel_map.contains(i), matches!(i, 3 | 12 | 20 | 29))
    }
}

#[test]
fn sgtin_api() {
    let description = sample_description();

    let sgtin = description.sgtin();
    assert_eq!(
        sgtin,
        BigUint::from_bytes_be(&hex::decode("3034F8EE901EE94000002FDB").unwrap())
    );
    assert_eq!(description.device_type(), "Irrigation Control");
    assert_eq!(description.bnw_id(), "3034F8EE901EE94000002FDB");
    assert_eq!(sgtin.header(), 3);
    assert_eq!(sgtin.item_reference(), 31653);
    assert_eq!(sgtin.serial(), 0x2FDB);
}

#[test]
fn sgtin_translation() {
    let cases = [
        ("3034F8EE902D43800002E02B", "3034F8EE902D43800002E02B", 1, false),
        ("3034F8EE90126D4000010379", "3034F8EE90126D4000010379", 1, true),
        ("0000000000126D6F98E18BD0", "3014F8EE90126D6F98E18BD0", 1, true),
        ("3034F8EE901267400000B3E2", "3034F8EE901267400000B3E2", 2, true),
        ("3034F8EE900000281045740D", "3014F8EE901267681045740D", 2, true),
        ("3034F8EE90060082EFC8F554", "3034F8EE90060082EFC8F554", 3, true),
        ("3034F8EE900000233CC2D326", "3014F8EE900600A33CC2D326", 3, true),
        ("3034F8EE901602A8A93EEE22", "3034F8EE901602A8A93EEE22", 4, true),
        ("3034F8EE9000002585C3F73B", "3014F8EE901602A585C3F73B", 4, true),
        ("000000000000FEF29A26E4E6", "3014F8EE901EE9729A26E4E6", 6, true),
        ("3034F8EE901EE94000008771", "3034F8EE901EE94000008771", 6, true),
        ("3034F8EE902273E1CED2B39C", "3034F8EE902273E1CED2B39C", 7, true),
        ("3034F8EE9000002183F62406", "3014F8EE902273E183F62406", 7, true),
        ("3034F8EE9012983B9BD09539", "3034F8EE9012983B9BD09539", 8, true),
        ("0000000000129827B9C7475F", "3014F8EE90129827B9C7475F", 8, true),
        ("3035C33A881CFFBBE95988E3", "3035C33A881CFFBBE95988E3", 9, true),
        ("3035C33A8800002D43A6508A", "3015C33A881CFFAD43A6508A", 9, true),
        ("03035C33A8834B92FFF3D1CF", "3015C33A8834B912FFF3D1CF", 10, true),
        ("3035C33A8834B925750D9CD0", "3035C33A8834B925750D9CD0", 10, true),
    ];
    for (input, output_exp, type_id, is_device) in cases {
        let output_exp = BigUint::from_bytes_be(&hex::decode(output_exp).unwrap());
        let mut description = sample_description();
        description.serialid = hex::decode(input).unwrap();
        description.type_id = type_id;
        description.product = if is_device { Product::Device } else { Product::Gateway };
        assert_eq!(description.sgtin(), output_exp);
    }
}

#[test]
fn stack_version_handling() {
    let description = sample_description();

    assert_eq!(
        description.version_stack_parsed().compare(&create_version(1, 5, 3)),
        VersionOrder::Same
    );
    assert_eq!(
        create_version(0, 10, 10).compare(&description.version_stack_parsed()),
        VersionOrder::Older
    );

    let mut description = sample_description();
    description.version_stack = "unknown".to_string();

    assert_eq!(
        description.version_stack_parsed().compare(&create_version(1, 0, 0)),
        VersionOrder::Same
    );
}

#[test]
fn description_from_properties() {
    let description = sample_description();
    assert_eq!(description.address, IpAddr::V6(ADDRESS));
    assert_eq!(description.manufacturer, Manufacturer::Gardena);
    assert_eq!(description.version_app, "1.1.2");
    assert_eq!(description.version_hw, "0.2.0");
    assert_eq!(description.version_boot, "1.0.3");
    assert_eq!(description.version_stack, "1.5.3");
    assert_eq!(description.type_id, 6);
    assert_eq!(description.product, Product::Device);
    assert!(description.included);
    assert_eq!(description.name, "IrrigationControl");
    assert_eq!(description.radio_mode, RadioMode::WakeOnRadio);
    assert_eq!(description.wakeup_channel.channel(), 5);
    assert_eq!(description.uptime, Some(77));
    assert_eq!(description.inclusion_status, None);
    assert_eq!(description.modified, 17);
    assert_eq!(description.mac_address(), Some([0x94, 0xbb, 0xae, 0x16, 0x8b, 0xb0]));
    assert!(!description.is_radio_module());
    assert!(description.is_watering_device());
    assert!(!description.is_lawnmower());
}

fn description_error(change: impl Fn(&mut Vec<Property>)) -> Error {
    let mut properties = sample_properties();
    change(&mut properties);
    let mut channels = WakeupChannels::new();
    let res = DeviceDescription::new(IpAddr::V6(1), &properties, &mut channels, 0);
    // nobody holds a channel afterwards
    assert_eq!(channels.users(5), Some(0));
    res.unwrap_err()
}

#[test]
fn broken_descriptions() {
    for id in [
        PropertyId::Manufacturer,
        PropertyId::ApplicationVersion,
        PropertyId::HardwareVersion,
        PropertyId::BootloaderVersion,
        PropertyId::StackVersion,
        PropertyId::Protocol,
        PropertyId::Type,
        PropertyId::Product,
        PropertyId::Included,
        PropertyId::Name,
        PropertyId::Sgtin,
        PropertyId::RadioMode,
        PropertyId::WakeupChannel,
        PropertyId::ChannelMap,
    ] {
        assert_eq!(
            description_error(|properties| properties.retain(|p| p.id != Some(id))),
            Error::MissingProperty(id)
        );
        // one that cannot be read is an error even if a good one follows
        assert_eq!(
            description_error(|properties| properties.insert(0, property(id))),
            Error::InvalidProperty(id)
        );
    }
    assert_eq!(
        description_error(|properties| properties.push(bytes(PropertyId::Sgtin, "3034"))),
        Error::UnsupportedSgtinLength
    );
    assert_eq!(
        description_error(|properties| properties.push(number(PropertyId::WakeupChannel, 31))),
        Error::ChannelOutOfRange
    );
}

#[test]
fn last_property_counts() {
    let mut properties = sample_properties();
    properties.push(number(PropertyId::Product, 1));
    properties.push(number(PropertyId::Included, 2));
    let mut channels = WakeupChannels::new();
    let description =
        DeviceDescription::new(IpAddr::V4(1), &properties, &mut channels, 0).unwrap();
    assert_eq!(channels.users(5), Some(1));
    assert!(description.is_radio_module());
    assert!(!description.included);
    assert_eq!(description.mac_address(), None);
}

#[test]
fn correction_keeps_the_serial_number() {
    let mut description = sample_description();
    description.serialid = hex::decode("000000000000FEF29A26E4E6").unwrap();
    let corrected = description.sgtin();
    assert_eq!(corrected.serial(), 0x329a26e4e6);
    description.serialid = corrected.to_bytes_be();
    assert_eq!(description.sgtin(), corrected);
    assert_eq!(description.bnw_id(), "3014F8EE901EE9729A26E4E6");
    // a device type that is not known is left alone
    description.serialid = hex::decode("000000000000FEF29A26E4E6").unwrap();
    description.type_id = 5;
    assert_eq!(description.bnw_id(), "FEF29A26E4E6");
}

#[test]
fn device_types() {
    let mut description = sample_description();
    description.product = Product::Gateway;
    for (item, name) in [
        (18869u64, "Water Control"),
        (18845, "Sensor"),
        (19040, "Sensor"),
        (6146, "Robotics Lawnmower"),
        (29694, "Robotics Lawnmower"),
        (53988, "Robotics Lawnmower"),
        (22538, "Automatic Home and Garden Pump"),
        (31653, "Irrigation Control"),
        (35279, "Power Adapter"),
        (21869, "Gateway"),
        (46350, "Gateway"),
        (1, "unknown"),
    ] {
        description.serialid = BigUint::from_u64(item).shift_left(38).to_bytes_be();
        assert_eq!(description.device_type(), name);
        assert_eq!(description.is_cbt2(), item == 6146);
        assert_eq!(description.is_cbtl(), item == 53988);
        assert_eq!(description.is_sensor2(), item == 19040);
    }
}

#[test]
fn only_working_included_devices_are_kept() {
    let mut description = sample_description();
    assert!(description.loadsave_enabled());
    description.inclusion_status = Some(InclusionStatus::Included);
    assert!(description.loadsave_enabled());
    description.inclusion_status = Some(InclusionStatus::DeviceReportFailure);
    assert!(!description.loadsave_enabled());
    description.inclusion_status = None;
    description.included = false;
    assert!(!description.loadsave_enabled());
}

#[test]
fn channel_maps() {
    let map = ChannelMap::from_bytes_be(&[0x80, 0, 0, 1]);
    assert!(map.contains(1));
    assert!(map.contains(32));
    assert!(!map.contains(0));
    assert!(!map.contains(2));
    assert!(!map.contains(33));
    assert!(!ChannelMap::new(BigUint::from_u64(1 << 32)).contains(33));
}

#[test]
fn memory_information() {
    let info = MemoryInformation { id: MemoryId::Value, count: 50, free_count: 13 };
    assert_eq!(info.num_allocated(), 37);
    let info = MemoryInformation { id: MemoryId::Value, count: 5, free_count: 13 };
    assert_eq!(info.num_allocated(), 0);
}

#[test]
fn connection_status_numbers() {
    assert_eq!(ConnectionStatus::from_u64(1), Some(ConnectionStatus::Online));
    assert_eq!(ConnectionStatus::from_u64(0), Some(ConnectionStatus::Offline));
    assert_eq!(ConnectionStatus::from_u64(2), None);
    assert_eq!(ConnectionStatus::Online.to_u64(), 1);
}

#[test]
fn stored_fields() {
    assert_eq!(number_flag(1), Ok(true));
    assert_eq!(number_flag(2), Err(Error::InvalidFlag));
    assert_eq!(optional_text(Some(String::new())), None);
    assert_eq!(optional_text(Some("a".to_string())), Some("a".to_string()));
    assert_eq!(optional_text(None), None);
    assert_eq!(unsigned_u32(u32::MAX as u64), Ok(u32::MAX));
    assert_eq!(unsigned_u32(1 << 32), Err(Error::OutOfRange));
    assert_eq!(signed_u32(-1), Err(Error::OutOfRange));
    assert_eq!(signed_u32(5), Ok(5));
}

fn report() -> ValueDescriptionReport {
    ValueDescriptionReport {
        value_id: 4,
        permission: Some(Permission::ReadWrite),
        name: Some("flow".to_string()),
        value_type: Some(ValueType::Counter),
        persistent: 1,
        virtual_value: Some(1),
        formats: vec![FormatReport::HexBinary { max_length: 4 }],
    }
}

#[test]
fn value_descriptions_from_reports() {
    let description = ValueDescription::new(&report()).unwrap();
    assert_eq!(description.id, 4);
    assert_eq!(description.name, Some("flow".to_string()));
    assert_eq!(description.format, ValueFormat::Binary { max_length: 4 });
    assert!(description.persistent);
    assert!(description.virtual_value);
    let broken = [
        (ValueDescriptionReport { persistent: 2, ..report() }, Error::InvalidFlag),
        (ValueDescriptionReport { virtual_value: Some(7), ..report() }, Error::InvalidFlag),
        (ValueDescriptionReport { formats: vec![], ..report() }, Error::InvalidFormatCount),
        (ValueDescriptionReport { permission: None, ..report() }, Error::UnsupportedMode),
        (ValueDescriptionReport { value_type: None, ..report() }, Error::UnsupportedType),
    ];
    for (report, error) in broken {
        assert_eq!(ValueDescription::new(&report).unwrap_err(), error);
    }
}

#[test]
fn set_messages() {
    let mut description = ValueDescription::new(&report()).unwrap();
    let set = description.makesetmsg_binary(&[0xab, 1]).unwrap();
    assert_eq!(set.value_id, 4);
    assert_eq!(set.hex_binary, Some("ab01".to_string()));
    assert_eq!(
        description.makesetmsg_binary(&[0; 5]).unwrap_err(),
        Error::ValueTooLong
    );
    assert_eq!(description.makesetmsg_string("a").unwrap_err(), Error::TypeMismatch);
    description.format = ValueFormat::Binary { max_length: 0 };
    assert!(description.makesetmsg_binary(&[0; 500]).is_ok());
    description.format = ValueFormat::Text { max_length: 3 };
    assert_eq!(
        description.makesetmsg_string("abc").unwrap().text,
        Some("abc".to_string())
    );
    // the length counts bytes
    assert_eq!(description.makesetmsg_string("ää").unwrap_err(), Error::ValueTooLong);
    let one = Float { bits: 1.0f64.to_bits() };
    description.format =
        ValueFormat::Number { unit: "l".to_string(), min: one, max: one, step: one };
    assert_eq!(description.makesetmsg_number(one).unwrap().number, Some(one));
    description.permission = Permission::ReadOnly;
    assert_eq!(description.makesetmsg_number(one).unwrap_err(), Error::ReadOnlyValue);
}

fn value_report() -> ValueReport {
    ValueReport {
        value_id: Some(3),
        timestamp: 99,
        number: None,
        text: None,
        hex_binary: Some("0aFF".to_string()),
    }
}

#[test]
fn values_from_reports() {
    let value = Value::new(&value_report()).unwrap();
    assert_eq!(value, Value { id: 3, timestamp: 99, data: ValueData::Binary(vec![10, 255]) });
    assert_eq!(value.as_binary(), Ok(&[10u8, 255][..]));
    assert_eq!(value.as_number(), Err(Error::TypeMismatch));
    let report = ValueReport { text: Some("x".to_string()), ..value_report() };
    assert_eq!(Value::new(&report).unwrap_err(), Error::MultipleTypes);
    let report = ValueReport { hex_binary: None, ..value_report() };
    assert_eq!(Value::new(&report).unwrap_err(), Error::NoType);
    let report = ValueReport { hex_binary: Some("abc".to_string()), ..value_report() };
    assert_eq!(Value::new(&report).unwrap_err(), Error::InvalidHex);
    let report = ValueReport { value_id: None, ..value_report() };
    assert_eq!(Value::new(&report).unwrap_err(), Error::MissingValueId);
}

#[test]
fn values_keep_their_type() {
    let mut value =
        Value { id: 1, timestamp: 0, data: ValueData::Text("a".to_string()) };
    assert_eq!(value.set_string("b"), Ok(()));
    assert_eq!(value.as_string(), Ok("b"));
    assert_eq!(value.set_binary(&[1]), Err(Error::TypeMismatch));
    let number = Float { bits: 5.5f64.to_bits() };
    assert_eq!(value.set_number(number), Err(Error::TypeMismatch));
    let mut other = Value { id: 1, timestamp: 0, data: ValueData::Binary(vec![]) };
    assert!(!value.same_type(&other));
    assert_eq!(other.set_binary(&[1, 2]), Ok(()));
    assert_eq!(other.data(), &ValueData::Binary(vec![1, 2]));
}

#[test]
fn broken_stored_values() {
    let description = ValueDescription::new(&report()).unwrap();
    let descriptions = [description];
    let load = |entries: &[StoredField]| Value::load(entries, None, &descriptions).unwrap_err();
    assert_eq!(
        load(&[StoredField::Id(4), StoredField::Id(4)]),
        Error::DuplicateField(ValueField::Id)
    );
    assert_eq!(load(&[]), Error::MissingField(ValueField::Id));
    assert_eq!(load(&[StoredField::Id(4)]), Error::MissingField(ValueField::Timestamp));
    assert_eq!(
        load(&[StoredField::Id(4), StoredField::Timestamp(1)]),
        Error::MissingField(ValueField::Value)
    );
    assert_eq!(
        load(&[
            StoredField::Id(5),
            StoredField::Timestamp(1),
            StoredField::Value("00".to_string())
        ]),
        Error::NoValueDescription
    );
    // text that cannot be read gives a value that is not initialised
    let value = Value::load(
        &[
            StoredField::Id(4),
            StoredField::Timestamp(1),
            StoredField::Value("no hex".to_string()),
        ],
        None,
        &descriptions,
    )
    .unwrap();
    assert_eq!(value.as_binary(), Ok(&[][..]));
}

#[test]
fn stored_value_reads_back() {
    let description = ValueDescription::new(&report()).unwrap();
    let data = ValueData::Binary(vec![0xde, 0xad, 0]);
    assert_eq!(data.to_text(""), "0xdead00");
    let stored = data.to_stored_text("");
    assert_eq!(stored, "DEAD00");
    let value = Value::load(
        &[StoredField::Id(4), StoredField::Timestamp(1), StoredField::Value(stored)],
        None,
        &[description],
    )
    .unwrap();
    assert_eq!(value.data, data);
    assert_eq!(ValueData::Number(Float { bits: 0 }).to_stored_text("0"), "0");
}

#[test]
fn mended_state() {
    let mut state = PersistentState::new(ConnectionStatus::Online, 5);
    state.firmware_update_state = FirmwareUpdateState::Downloading;
    state.firmware_update_pkg_version = "1.2".to_string();
    state.mend();
    assert_eq!(state.firmware_update_state, FirmwareUpdateState::Idle);
    assert_eq!(state.firmware_update_result, FirmwareUpdateResult::Success);
    assert_eq!(state.firmware_update_pkg_version, "");
    assert_eq!(state.modified, 5);
}

#[test]
fn update_status_changes() {
    let mut state = PersistentState::new(ConnectionStatus::Online, 5);
    state.firmware_update_pkg_version = "1.2".to_string();
    assert_eq!(
        state.set_firmware_update_status(
            false,
            FirmwareUpdateState::Updating,
            FirmwareUpdateResult::Initial
        ),
        Err(Error::NotIncluded)
    );
    assert_eq!(
        state.set_firmware_update_status(
            true,
            FirmwareUpdateState::Idle,
            FirmwareUpdateResult::Initial
        ),
        Ok(false)
    );
    assert_eq!(
        state.set_firmware_update_status(
            true,
            FirmwareUpdateState::DownloadComplete,
            FirmwareUpdateResult::Initial
        ),
        Ok(true)
    );
    assert_eq!(state.firmware_update_pkg_version, "1.2");
    assert_eq!(
        state.set_firmware_update_status(
            true,
            FirmwareUpdateState::Updating,
            FirmwareUpdateResult::Initial
        ),
        Ok(true)
    );
    assert_eq!(state.firmware_update_pkg_version, "");
}

#[test]
fn utc_offsets() {
    let mut state = PersistentState::new(ConnectionStatus::Online, 5);
    assert_eq!(state.utc_offset(), "");
    state.time_offset = Some(120);
    assert_eq!(state.utc_offset(), "UTC+02:00");
    state.time_offset = Some(-570);
    assert_eq!(state.utc_offset(), "UTC-09:30");
    state.time_offset = Some(0);
    assert_eq!(state.utc_offset(), "UTC+00:00");
}

#[test]
fn file_names() {
    assert_eq!(value_file_name(7), "Value_7r.json");
    assert_eq!(description_file_name(4294967295), "Value_description_4294967295.json");
    assert_eq!(temporary_name("Value_7r.json"), "tmp.Value_7r.json");
    assert_eq!(device_dir_name("fc00::1"), "Device_descriptionID_fc00::1");
    assert_eq!(device_file_name("fc00::1"), "Device_descriptionID_fc00::1.json");
    assert!(holds_value(Some("Value_7r.json"), true));
    assert!(!holds_value(Some("Value_7r.json"), false));
    assert!(!holds_value(Some("Value_7w.json"), true));
    assert!(!holds_value(Some("Value_r.json"), true));
    assert!(!holds_value(Some("tmp.Value_7r.json"), true));
    assert!(!holds_value(None, true));
    assert!(holds_description(Some("Value_description_23.json"), true));
    assert!(!holds_description(Some("Value_description_23.json.bak"), true));
    assert!(!holds_description(Some("Value_description_2x3.json"), true));
    assert!(!holds_value(Some("Value_description_23.json"), true));
    // digits of any script count
    assert!(holds_description(Some("Value_description_٣.json"), true));
    assert!(!holds_description(Some("Value_description_ä.json"), true));
}

#[test]
fn device_directories() {
    assert_eq!(device_dir_address("Device_descriptionID_fc00::6:1"), Some("fc00::6:1"));
    assert_eq!(device_dir_address("Device_descriptionID_"), Some(""));
    assert_eq!(device_dir_address("Device_descriptionID_a\nb"), None);
    assert_eq!(device_dir_address("Network_management"), None);
}
