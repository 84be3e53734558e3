use lemonbeatd::comm::WakeupChannels;
use lemonbeatd::error::Error;
use lemonbeatd::lsdl::Manufacturer;
use lemonbeatd::lsdl::Property;
use lemonbeatd::lsdl::PropertyId;
use lemonbeatd::lsdl::Protocol;
use lemonbeatd::lsdl::RadioMode;
use lemonbeatd::lsdl::RawStatus;
use lemonbeatd::lsdl::ValueReport;
use lemonbeatd::lsdl::ValueResponse;
use lemonbeatd::net::IpAddr;
use lemonbeatd::service::find_target;
use lemonbeatd::service::handle_device_description;
use lemonbeatd::service::handle_status;
use lemonbeatd::service::handle_value;
use lemonbeatd::service::is_gone;
use lemonbeatd::service::is_started;
use lemonbeatd::service::is_timezone_file;
use lemonbeatd::service::listed_devices;
use lemonbeatd::service::message_device;
use lemonbeatd::service::plan_migration;
use lemonbeatd::service::route_request;
use lemonbeatd::service::utc_offset_changed;
use lemonbeatd::service::workdir_entry;
use lemonbeatd::service::DescriptionAction;
use lemonbeatd::service::Devices;
use lemonbeatd::service::EntityKind;
use lemonbeatd::service::ListAnswer;
use lemonbeatd::service::NotifyResult;
use lemonbeatd::service::Route;
use lemonbeatd::service::StatusResponse;
use lemonbeatd::service::Target;
use lemonbeatd::storage::description::DeviceDescription;
use lemonbeatd::storage::description::InclusionStatus;
use lemonbeatd::storage::description::Product;

fn property(id: PropertyId) -> Property {
    Property {
        id: Some(id),
        number: None,
        text: Some("1.5.3".to_string()),
        hex: None,
        manufacturer: Some(Manufacturer::Gardena),
        protocol: Some(Protocol { code: 1 }),
        radio_mode: Some(RadioMode::WakeOnRadio),
    }
}

fn number(id: PropertyId, number: u64) -> Property {
    Property { number: Some(number), ..property(id) }
}

fn bytes(id: PropertyId, hex: &str) -> Property {
    Property { hex: Some(hex::decode(hex).unwrap()), ..property(id) }
}

/// The device with this number.
fn description(device: u8) -> DeviceDescription {
    let properties = [
        property(PropertyId::Manufacturer),
        property(PropertyId::ApplicationVersion),
        property(PropertyId::HardwareVersion),
        property(PropertyId::BootloaderVersion),
        property(PropertyId::StackVersion),
        property(PropertyId::Protocol),
        number(PropertyId::Type, 6),
        number(PropertyId::Product, 2),
        number(PropertyId::Included, 1),
        property(PropertyId::Name),
        bytes(PropertyId::Sgtin, &format!("3034F8EE901EE940000000{device:02X}")),
        property(PropertyId::RadioMode),
        number(PropertyId::WakeupChannel, 5),
        bytes(PropertyId::ChannelMap, "10080804"),
    ];
    let address = IpAddr::V6(device as u128);
    DeviceDescription::new(address, &properties, &mut WakeupChannels::new(), 17).unwrap()
}

#[test]
fn load_devices() {
    let mut devices = Devices::new();
    let name = "Device_descriptionID_fc00::6:94bb:ae16:8bb0";
    let entries = [(false, Some("TXMSC.txt")), (true, Some("Network_management")), (true, Some(name))];
    let device_descriptions: Vec<DeviceDescription> = entries
        .iter()
        .filter(|(is_dir, name)| workdir_entry(*is_dir, *name).unwrap().is_some())
        .map(|_| description(1))
        .filter(|description| description.loadsave_enabled())
        .collect();

    assert_eq!(devices.len(), 0);
    assert_eq!(device_descriptions.len(), 1);

    for description in device_descriptions.iter().filter(|description| is_started(description)) {
        devices.add_device(description);
    }
    assert_eq!(devices.len(), 1);
}

#[test]
fn known_devices() {
    let mut devices = Devices::new();
    let (first, replaced) = devices.add_device(&description(1));
    assert_eq!(replaced, None);
    let (second, _) = devices.add_device(&description(2));
    assert_ne!(first, second);
    assert_eq!(devices.find_device(&IpAddr::V6(1), &[]), Some(first));
    assert_eq!(devices.find_device(&IpAddr::V6(3), &[]), None);
    assert_eq!(devices.find_device(&IpAddr::V4(1), &[]), None);
    assert_eq!(devices.get_ip_for_bnw_id("3034F8EE901EE94000000002"), Some(IpAddr::V6(2)));
    assert_eq!(devices.get_ip_for_bnw_id("3034F8EE901EE94000000003"), None);
    assert_eq!(
        devices.find_device_by_bnw_id("3034F8EE901EE94000000002", &[]),
        Some(second)
    );
    // a device with the same address is replaced
    let (third, replaced) = devices.add_device(&description(1));
    assert_eq!(replaced, Some(first));
    assert_eq!(devices.len(), 2);
    let mut handles = devices.handles();
    handles.sort();
    assert_eq!(handles, [second, third]);
    // devices whose tasks are over are forgotten
    assert_eq!(devices.find_device(&IpAddr::V6(1), &[third]), None);
    assert_eq!(devices.len(), 1);
    assert_eq!(
        devices.find_device_by_bnw_id("3034F8EE901EE94000000002", &[second]),
        None
    );
    assert_eq!(devices.len(), 0);
}

#[test]
fn inactive_devices() {
    let mut devices = Devices::new();
    let handles: Vec<u64> = (1..=4).map(|id| devices.add_device(&description(id)).0).collect();
    devices.delete_inactive_devices(&[handles[0], handles[3]]);
    assert_eq!(devices.len(), 2);
    assert_eq!(devices.find_device(&IpAddr::V6(2), &[]), Some(handles[1]));
    assert_eq!(devices.find_device(&IpAddr::V6(4), &[]), None);
    assert!(is_gone(true, NotifyResult::Queued));
    assert!(is_gone(false, NotifyResult::Closed));
    assert!(!is_gone(false, NotifyResult::Queued));
    assert!(!is_gone(false, NotifyResult::NoAnswer));
}

#[test]
fn received_descriptions() {
    let mut devices = Devices::new();
    let (handle, _) = devices.add_device(&description(1));
    let mut handle_description = |description: &DeviceDescription, encrypted, closed: &[u64]| {
        handle_device_description(&mut devices, description, encrypted, closed)
    };
    assert_eq!(
        handle_description(&description(1), true, &[]),
        DescriptionAction::Forward(handle)
    );
    assert_eq!(handle_description(&description(1), false, &[]), DescriptionAction::Ignore);
    // an included device that is not known is left alone
    assert_eq!(handle_description(&description(2), true, &[]), DescriptionAction::Ignore);
    let mut excluded = description(2);
    excluded.included = false;
    assert_eq!(handle_description(&excluded, false, &[]), DescriptionAction::Add);
    excluded.product = Product::Gateway;
    assert_eq!(handle_description(&excluded, false, &[]), DescriptionAction::Ignore);
    excluded.product = Product::Device;
    excluded.manufacturer = Manufacturer::Other(3);
    assert_eq!(handle_description(&excluded, false, &[]), DescriptionAction::Ignore);
    // a device that is gone is added again
    let mut excluded = description(1);
    excluded.included = false;
    assert_eq!(handle_description(&excluded, false, &[handle]), DescriptionAction::Add);
    assert_eq!(devices.len(), 0);
}

#[test]
fn received_messages() {
    let mut devices = Devices::new();
    let (handle, _) = devices.add_device(&description(1));
    assert_eq!(message_device(&mut devices, &IpAddr::V6(1), true, &[]), Some(handle));
    assert_eq!(message_device(&mut devices, &IpAddr::V6(1), false, &[]), None);
    assert_eq!(message_device(&mut devices, &IpAddr::V6(2), true, &[]), None);
    assert_eq!(message_device(&mut devices, &IpAddr::V6(1), true, &[handle]), None);
    assert_eq!(devices.len(), 0);
}

fn value_response(id: Option<u32>) -> ValueResponse {
    ValueResponse::Report(ValueReport {
        value_id: id,
        timestamp: 0,
        number: None,
        text: Some("x".to_string()),
        hex_binary: None,
    })
}

#[test]
fn received_values() {
    assert_eq!(handle_value(&[]), None);
    let values = handle_value(&[
        value_response(Some(1)),
        ValueResponse::Other,
        value_response(None),
        value_response(Some(2)),
    ])
    .unwrap();
    let ids: Vec<u32> = values.iter().map(|value| value.id).collect();
    assert_eq!(ids, [1, 2]);
}

#[test]
fn received_status() {
    let report = || StatusResponse::Report(RawStatus { type_id: 1, code: 2, level: 3, data: None });
    assert_eq!(handle_status(&[]), (0, Ok(())));
    assert_eq!(handle_status(&[report(), report()]), (2, Ok(())));
    assert_eq!(
        handle_status(&[report(), StatusResponse::Other, report()]),
        (1, Err(Error::UnsupportedData))
    );
}

fn route(path: Option<&str>) -> Result<Route, Error> {
    route_request(&EntityKind::Gateway { service: "lemonbeatd".to_string() }, path)
}

#[test]
fn routed_requests() {
    assert!(matches!(route(Some("devices")), Ok(Route::AllDevices)));
    assert!(matches!(route(Some("includable_device/12/include")), Ok(Route::Include(12))));
    assert!(matches!(route(Some("includable_device/65535/include")), Ok(Route::Include(65535))));
    assert_eq!(
        route(Some("includable_device/65536/include")).unwrap_err(),
        Error::OutOfRange
    );
    assert!(matches!(
        route(Some("device/3034aF/repair")),
        Ok(Route::Repair(name)) if name == "3034aF"
    ));
    for path in [
        "includable_device//include",
        "includable_device/1x/include",
        "includable_device/include",
        "includable_device/1/include\n",
        "device//repair",
        "device/a-b/repair",
        "device/a/repair/",
        "other",
    ] {
        assert_eq!(route(Some(path)).unwrap_err(), Error::UnsupportedPath);
    }
    assert_eq!(route(None).unwrap_err(), Error::InvalidUtf8);
    let other = EntityKind::Gateway { service: "other".to_string() };
    assert_eq!(route_request(&other, Some("devices")).unwrap_err(), Error::UnsupportedService);
    let device = EntityKind::Device { device: "abc".to_string() };
    assert!(matches!(route_request(&device, None), Ok(Route::Device(name)) if name == "abc"));
}

#[test]
fn targets() {
    let mut devices = Devices::new();
    let (handle, _) = devices.add_device(&description(1));
    let mut find = |route: Route, includable: Option<IpAddr>, closed: &[u64]| {
        find_target(&mut devices, &route, includable, closed)
    };
    assert_eq!(find(Route::AllDevices, None, &[]), Ok(Target::AllDevices));
    let found = Ok(Target::Device(handle));
    assert_eq!(find(Route::Include(1), Some(IpAddr::V6(1)), &[]), found);
    assert_eq!(find(Route::Include(1), Some(IpAddr::V6(2)), &[]), Err(Error::DeviceNotFound));
    assert_eq!(find(Route::Include(1), None, &[]), Err(Error::DeviceNotFound));
    let name = || "3034F8EE901EE94000000001".to_string();
    assert_eq!(find(Route::Repair(name()), None, &[]), found);
    assert_eq!(find(Route::Device(name()), None, &[]), found);
    assert_eq!(
        find(Route::Device("x".to_string()), None, &[]),
        Err(Error::DeviceNotFound)
    );
    assert_eq!(find(Route::Device(name()), None, &[handle]), Err(Error::DeviceNotFound));
    assert_eq!(find(Route::Device(name()), None, &[]), Err(Error::DeviceNotFound));
}

#[test]
fn listing() {
    assert_eq!(
        listed_devices(&[
            ListAnswer::Listed,
            ListAnswer::Gone,
            ListAnswer::Hidden,
            ListAnswer::Failed,
            ListAnswer::Listed,
        ]),
        [0, 4]
    );
}

#[test]
fn working_directory() {
    assert_eq!(workdir_entry(false, Some("Device_descriptionID_x")), Ok(None));
    assert_eq!(workdir_entry(true, Some("Device_descriptionID_x")), Ok(Some("x")));
    assert_eq!(workdir_entry(true, Some("Network_management")), Ok(None));
    assert_eq!(workdir_entry(true, Some("Device_descriptionID_x\ny")), Ok(None));
    assert_eq!(workdir_entry(true, None), Err(Error::InvalidUtf8));
    let mut description = description(1);
    assert!(is_started(&description));
    description.inclusion_status = Some(InclusionStatus::Included);
    assert!(is_started(&description));
    description.product = Product::Gateway;
    assert!(!is_started(&description));
    description.product = Product::Device;
    description.included = false;
    assert!(!is_started(&description));
    assert_eq!(plan_migration(false, false), Ok(false));
    assert_eq!(plan_migration(true, true), Ok(true));
    assert_eq!(plan_migration(true, false), Err(Error::WorkdirNotEmpty));
}

#[test]
fn time_zones() {
    let mut offset = 3600;
    assert!(!utc_offset_changed(&mut offset, 3600));
    assert!(utc_offset_changed(&mut offset, 7200));
    assert!(!utc_offset_changed(&mut offset, 7200));
    assert!(is_timezone_file(Some("/etc/localtime")));
    assert!(!is_timezone_file(Some("Europe/Berlin")));
    assert!(!is_timezone_file(Some("")));
    assert!(!is_timezone_file(None));
}
