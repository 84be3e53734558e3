//! Device descriptions.

use crate::bigint;
use crate::bigint::BigUint;
use crate::comm::WakeupChannel;
use crate::comm::WakeupChannels;
use crate::error::Error;
use crate::hexcode;
use crate::hexcode::encode_upper;
use crate::lsdl::Manufacturer;
use crate::lsdl::MemoryId;
use crate::lsdl::Property;
use crate::lsdl::PropertyId;
use crate::lsdl::Protocol;
use crate::lsdl::RadioMode;
use crate::net::IpAddr;
use crate::storage::channel_map::ChannelMap;
use crate::time::Nanos;
use crate::traits::Sgtin96;
use crate::traits::bitmask;
use crate::utils;
use crate::utils::Version;
use crate::utils::create_version;
use vstd::arithmetic::power2::*;
use vstd::prelude::*;

verus! {

pub const ITEM_REFERENCE_CBT2: u32 = 6146;

pub const ITEM_REFERENCE_CBTG: u32 = 29694;

pub const ITEM_REFERENCE_CBTL: u32 = 53988;

pub const ITEM_REFERENCE_WATER_CONTROL: u32 = 18869;

pub const ITEM_REFERENCE_IRRIGATION_CONTROL: u32 = 31653;

pub const ITEM_REFERENCE_SENSOR2: u32 = 19040;

#[derive(Clone, Copy, Debug, PartialEq, Eq, Structural)]
pub enum ConnectionStatus {
    Offline,
    Online,
}

impl ConnectionStatus {
    /// The number that is stored for it.
    pub open spec fn spec_to_u64(self) -> u64 {
        match self {
            ConnectionStatus::Offline => 0,
            ConnectionStatus::Online => 1,
        }
    }

    pub fn to_u64(&self) -> (res: u64)
        ensures
            res == self.spec_to_u64(),
    {
        match self {
            ConnectionStatus::Offline => 0,
            ConnectionStatus::Online => 1,
        }
    }

    /// What a stored number stands for, if anything.
    pub fn from_u64(number: u64) -> (res: Option<Self>)
        ensures
            match res {
                Some(status) => status.spec_to_u64() == number,
                None => number > 1,
            },
    {
        match number {
            0 => Some(ConnectionStatus::Offline),
            1 => Some(ConnectionStatus::Online),
            _ => None,
        }
    }
}

/// How far the inclusion of a device has come. It is read where it is stored,
/// and never written.
#[derive(Clone, Copy, Debug, PartialEq, Eq, Structural)]
pub enum InclusionStatus {
    DeviceIncluding,
    DeviceInclusionFailure,
    DeviceInclusionSuccess,
    DeviceReporting,
    DeviceReportFailure,
    DeviceReportSuccess,
    DeviceReportValuesSuccess,
    Included,
    Excluded,
}

#[derive(Clone, Copy, Debug, PartialEq, Eq, Structural)]
pub enum Product {
    Gateway,
    Device,
}

/// What is known of a device from its own description of itself.
#[derive(Debug)]
pub struct DeviceDescription {
    pub address: IpAddr,
    pub manufacturer: Manufacturer,
    pub version_app: String,
    pub version_hw: String,
    pub version_boot: String,
    pub version_stack: String,
    pub protocol: Protocol,
    /// The manufacturer's device type.
    pub type_id: u64,
    pub product: Product,
    pub included: bool,
    pub name: String,
    /// The SGTIN as the device reports it.
    pub serialid: Vec<u8>,
    pub radio_mode: RadioMode,
    /// The radio channel on which the device listens for wakeup frames.
    pub wakeup_channel: WakeupChannel,
    /// The channels of normal communication.
    pub channel_map: Vec<u8>,
    pub uptime: Option<u64>,
    /// Filters devices that do not work. Never written.
    pub inclusion_status: Option<InclusionStatus>,
    /// When the description was last written.
    pub modified: Nanos,
}

/// The last property with this id.
pub open spec fn last_property(properties: Seq<Property>, id: PropertyId) -> Option<Property>
    decreases properties.len(),
{
    if properties.len() == 0 {
        None
    } else if properties.last().id == Some(id) {
        Some(properties.last())
    } else {
        last_property(properties.drop_last(), id)
    }
}

/// Whether a property can be read as what its id asks for. A property that is
/// not known, or not used, may hold anything.
pub open spec fn is_readable(property: Property) -> bool {
    match property.id {
        None => true,
        Some(id) => match id {
            PropertyId::Manufacturer => property.manufacturer is Some,
            PropertyId::Protocol => property.protocol is Some,
            PropertyId::RadioMode => property.radio_mode is Some,
            PropertyId::ApplicationVersion | PropertyId::HardwareVersion
            | PropertyId::BootloaderVersion | PropertyId::StackVersion
            | PropertyId::Name => property.text is Some,
            PropertyId::Sgtin | PropertyId::ChannelMap => property.hex is Some,
            PropertyId::Type | PropertyId::Product | PropertyId::Included
            | PropertyId::WakeupChannel | PropertyId::Uptime => property.number is Some,
            _ => true,
        },
    }
}

/// The id of the first property that cannot be read.
pub open spec fn first_unreadable(properties: Seq<Property>) -> Option<PropertyId>
    decreases properties.len(),
{
    if properties.len() == 0 {
        None
    } else {
        match first_unreadable(properties.drop_last()) {
            Some(id) => Some(id),
            None => if is_readable(properties.last()) {
                None
            } else {
                properties.last().id
            },
        }
    }
}

/// The number that a property gives.
pub open spec fn number_of(properties: Seq<Property>, id: PropertyId) -> Option<u64> {
    match last_property(properties, id) {
        Some(property) => property.number,
        None => None,
    }
}

/// The text that a property gives.
pub open spec fn text_of(properties: Seq<Property>, id: PropertyId) -> Option<Seq<char>> {
    match last_property(properties, id) {
        Some(property) => match property.text {
            Some(text) => Some(text@),
            None => None,
        },
        None => None,
    }
}

/// The bytes that a property gives.
pub open spec fn hex_of(properties: Seq<Property>, id: PropertyId) -> Option<Seq<u8>> {
    match last_property(properties, id) {
        Some(property) => match property.hex {
            Some(hex) => Some(hex@),
            None => None,
        },
        None => None,
    }
}

pub open spec fn manufacturer_of(properties: Seq<Property>) -> Option<Manufacturer> {
    match last_property(properties, PropertyId::Manufacturer) {
        Some(property) => property.manufacturer,
        None => None,
    }
}

pub open spec fn protocol_of(properties: Seq<Property>) -> Option<Protocol> {
    match last_property(properties, PropertyId::Protocol) {
        Some(property) => property.protocol,
        None => None,
    }
}

pub open spec fn radio_mode_of(properties: Seq<Property>) -> Option<RadioMode> {
    match last_property(properties, PropertyId::RadioMode) {
        Some(property) => property.radio_mode,
        None => None,
    }
}

/// Why the properties do not make up a device description, leaving aside the
/// wakeup channel and the channel map. What comes first is reported.
pub open spec fn description_error(properties: Seq<Property>) -> Option<Error> {
    if first_unreadable(properties) is Some {
        Some(Error::InvalidProperty(first_unreadable(properties)->0))
    } else if number_of(properties, PropertyId::Included) is None {
        Some(Error::MissingProperty(PropertyId::Included))
    } else if number_of(properties, PropertyId::Product) is None {
        Some(Error::MissingProperty(PropertyId::Product))
    } else if number_of(properties, PropertyId::Type) is None {
        Some(Error::MissingProperty(PropertyId::Type))
    } else if hex_of(properties, PropertyId::Sgtin) is None {
        Some(Error::MissingProperty(PropertyId::Sgtin))
    } else if (hex_of(properties, PropertyId::Sgtin)->0).len() != 12 {
        Some(Error::UnsupportedSgtinLength)
    } else if manufacturer_of(properties) is None {
        Some(Error::MissingProperty(PropertyId::Manufacturer))
    } else if text_of(properties, PropertyId::ApplicationVersion) is None {
        Some(Error::MissingProperty(PropertyId::ApplicationVersion))
    } else if text_of(properties, PropertyId::HardwareVersion) is None {
        Some(Error::MissingProperty(PropertyId::HardwareVersion))
    } else if text_of(properties, PropertyId::BootloaderVersion) is None {
        Some(Error::MissingProperty(PropertyId::BootloaderVersion))
    } else if text_of(properties, PropertyId::StackVersion) is None {
        Some(Error::MissingProperty(PropertyId::StackVersion))
    } else if protocol_of(properties) is None {
        Some(Error::MissingProperty(PropertyId::Protocol))
    } else if text_of(properties, PropertyId::Name) is None {
        Some(Error::MissingProperty(PropertyId::Name))
    } else if radio_mode_of(properties) is None {
        Some(Error::MissingProperty(PropertyId::RadioMode))
    } else if number_of(properties, PropertyId::WakeupChannel) is None {
        Some(Error::MissingProperty(PropertyId::WakeupChannel))
    } else {
        None
    }
}

proof fn lemma_one_more(properties: Seq<Property>, i: int)
    requires
        0 <= i < properties.len(),
    ensures
        properties.take(i + 1).drop_last() == properties.take(i),
        properties.take(i + 1).last() == properties[i],
{
    assert(properties.take(i + 1).drop_last() =~= properties.take(i));
}

/// Once a property cannot be read, it stays the first one.
proof fn lemma_first_unreadable(properties: Seq<Property>, i: int)
    requires
        0 <= i <= properties.len(),
        first_unreadable(properties.take(i)) is Some,
    ensures
        first_unreadable(properties) == first_unreadable(properties.take(i)),
    decreases properties.len() - i,
{
    if i < properties.len() {
        lemma_one_more(properties, i);
        lemma_first_unreadable(properties, i + 1);
    } else {
        assert(properties.take(i) =~= properties);
    }
}

/// The text of a property, as a string of its own.
fn copy_text(text: &Option<String>) -> (res: Option<String>)
    ensures
        match (text, res) {
            (Some(text), Some(res)) => res@ == text@,
            (None, None) => true,
            _ => false,
        },
{
    match text {
        Some(text) => Some(text.clone()),
        None => None,
    }
}

/// The bytes of a property, as a vector of its own.
fn copy_hex(hex: &Option<Vec<u8>>) -> (res: Option<Vec<u8>>)
    ensures
        match (hex, res) {
            (Some(hex), Some(res)) => res@ == hex@,
            (None, None) => true,
            _ => false,
        },
{
    match hex {
        Some(hex) => Some(vstd::slice::slice_to_vec(hex.as_slice())),
        None => None,
    }
}

/// The text in an optional string.
pub open spec fn opt_text(text: Option<String>) -> Option<Seq<char>> {
    match text {
        Some(text) => Some(text@),
        None => None,
    }
}

/// The bytes in an optional vector.
pub open spec fn opt_bytes(bytes: Option<Vec<u8>>) -> Option<Seq<u8>> {
    match bytes {
        Some(bytes) => Some(bytes@),
        None => None,
    }
}

/// What has been found in some properties.
struct Found {
    manufacturer: Option<Manufacturer>,
    version_app: Option<String>,
    version_hw: Option<String>,
    version_boot: Option<String>,
    version_stack: Option<String>,
    protocol: Option<Protocol>,
    type_id: Option<u64>,
    product: Option<u64>,
    included: Option<u64>,
    name: Option<String>,
    serialid: Option<Vec<u8>>,
    radio_mode: Option<RadioMode>,
    wakeup_channel: Option<u64>,
    channel_map: Option<Vec<u8>>,
    uptime: Option<u64>,
}

impl Found {
    spec fn is_found_in(self, properties: Seq<Property>) -> bool {
        &&& self.manufacturer == manufacturer_of(properties)
        &&& opt_text(self.version_app) == text_of(properties, PropertyId::ApplicationVersion)
        &&& opt_text(self.version_hw) == text_of(properties, PropertyId::HardwareVersion)
        &&& opt_text(self.version_boot) == text_of(properties, PropertyId::BootloaderVersion)
        &&& opt_text(self.version_stack) == text_of(properties, PropertyId::StackVersion)
        &&& self.protocol == protocol_of(properties)
        &&& self.type_id == number_of(properties, PropertyId::Type)
        &&& self.product == number_of(properties, PropertyId::Product)
        &&& self.included == number_of(properties, PropertyId::Included)
        &&& opt_text(self.name) == text_of(properties, PropertyId::Name)
        &&& opt_bytes(self.serialid) == hex_of(properties, PropertyId::Sgtin)
        &&& self.radio_mode == radio_mode_of(properties)
        &&& self.wakeup_channel == number_of(properties, PropertyId::WakeupChannel)
        &&& opt_bytes(self.channel_map) == hex_of(properties, PropertyId::ChannelMap)
        &&& self.uptime == number_of(properties, PropertyId::Uptime)
    }

    /// Reads the properties one after the other. A property that cannot be read
    /// is an error even if it comes again later on.
    fn search(properties: &[Property]) -> (res: Result<Self, Error>)
        ensures
            match res {
                Ok(found) => first_unreadable(properties@) is None && found.is_found_in(
                    properties@,
                ),
                Err(e) => first_unreadable(properties@) is Some && e == Error::InvalidProperty(
                    first_unreadable(properties@)->0,
                ),
            },
    {
        let mut found = Found {
            manufacturer: None,
            version_app: None,
            version_hw: None,
            version_boot: None,
            version_stack: None,
            protocol: None,
            type_id: None,
            product: None,
            included: None,
            name: None,
            serialid: None,
            radio_mode: None,
            wakeup_channel: None,
            channel_map: None,
            uptime: None,
        };
        let mut i: usize = 0;
        while i < properties.len()
            invariant
                i <= properties@.len(),
                first_unreadable(properties@.take(i as int)) is None,
                found.is_found_in(properties@.take(i as int)),
            decreases properties@.len() - i,
        {
            proof {
                lemma_one_more(properties@, i as int);
            }
            let property = &properties[i];
            if let Some(id) = property.id {
                let readable: bool = match id {
                    PropertyId::Manufacturer => {
                        found.manufacturer = property.manufacturer;
                        property.manufacturer.is_some()
                    },
                    PropertyId::ApplicationVersion => {
                        found.version_app = copy_text(&property.text);
                        property.text.is_some()
                    },
                    PropertyId::HardwareVersion => {
                        found.version_hw = copy_text(&property.text);
                        property.text.is_some()
                    },
                    PropertyId::BootloaderVersion => {
                        found.version_boot = copy_text(&property.text);
                        property.text.is_some()
                    },
                    PropertyId::StackVersion => {
                        found.version_stack = copy_text(&property.text);
                        property.text.is_some()
                    },
                    PropertyId::Protocol => {
                        found.protocol = property.protocol;
                        property.protocol.is_some()
                    },
                    PropertyId::Type => {
                        found.type_id = property.number;
                        property.number.is_some()
                    },
                    PropertyId::Product => {
                        found.product = property.number;
                        property.number.is_some()
                    },
                    PropertyId::Included => {
                        found.included = property.number;
                        property.number.is_some()
                    },
                    PropertyId::Name => {
                        found.name = copy_text(&property.text);
                        property.text.is_some()
                    },
                    PropertyId::Sgtin => {
                        found.serialid = copy_hex(&property.hex);
                        property.hex.is_some()
                    },
                    PropertyId::RadioMode => {
                        found.radio_mode = property.radio_mode;
                        property.radio_mode.is_some()
                    },
                    PropertyId::WakeupChannel => {
                        found.wakeup_channel = property.number;
                        property.number.is_some()
                    },
                    PropertyId::ChannelMap => {
                        found.channel_map = copy_hex(&property.hex);
                        property.hex.is_some()
                    },
                    PropertyId::Uptime => {
                        found.uptime = property.number;
                        property.number.is_some()
                    },
                    _ => true,
                };
                if !readable {
                    proof {
                        lemma_first_unreadable(properties@, i + 1);
                    }
                    return Err(Error::InvalidProperty(id));
                }
            }
            i += 1;
        }
        assert(properties@.take(i as int) =~= properties@);
        Ok(found)
    }
}

impl DeviceDescription {
    /// Every field says what the properties say.
    pub open spec fn describes(
        self,
        address: IpAddr,
        properties: Seq<Property>,
        wall_clock: Nanos,
    ) -> bool {
        &&& self.address == address
        &&& Some(self.manufacturer) == manufacturer_of(properties)
        &&& Some(self.version_app@) == text_of(properties, PropertyId::ApplicationVersion)
        &&& Some(self.version_hw@) == text_of(properties, PropertyId::HardwareVersion)
        &&& Some(self.version_boot@) == text_of(properties, PropertyId::BootloaderVersion)
        &&& Some(self.version_stack@) == text_of(properties, PropertyId::StackVersion)
        &&& Some(self.protocol) == protocol_of(properties)
        &&& Some(self.type_id) == number_of(properties, PropertyId::Type)
        &&& self.product == (if number_of(properties, PropertyId::Product) == Some(1u64) {
            Product::Gateway
        } else {
            Product::Device
        })
        &&& self.included == (number_of(properties, PropertyId::Included) == Some(1u64))
        &&& Some(self.name@) == text_of(properties, PropertyId::Name)
        &&& Some(self.serialid@) == hex_of(properties, PropertyId::Sgtin)
        &&& Some(self.radio_mode) == radio_mode_of(properties)
        &&& Some(self.wakeup_channel.spec_channel() as u64) == number_of(
            properties,
            PropertyId::WakeupChannel,
        )
        &&& Some(self.channel_map@) == hex_of(properties, PropertyId::ChannelMap)
        &&& self.uptime == number_of(properties, PropertyId::Uptime)
        &&& self.inclusion_status is None
        &&& self.modified == wall_clock
    }

    /// The description that the properties of a device make up. It takes hold
    /// of the wakeup channel that the device reports.
    pub fn new(
        address: IpAddr,
        properties: &[Property],
        channels: &mut WakeupChannels,
        wall_clock: Nanos,
    ) -> (res: Result<Self, Error>)
        ensures
            ({
                let channel = number_of(properties@, PropertyId::WakeupChannel);
                match res {
                    Ok(description) => {
                        &&& description_error(properties@) is None
                        &&& hex_of(properties@, PropertyId::ChannelMap) is Some
                        &&& channel->0 < 31
                        &&& old(channels)@[channel->0 as int] < 255
                        &&& description.describes(address, properties@, wall_clock)
                        &&& final(channels)@ == old(channels)@.update(
                            channel->0 as int,
                            (old(channels)@[channel->0 as int] + 1) as u8,
                        )
                    },
                    Err(e) => {
                        &&& final(channels)@ == old(channels)@
                        &&& if description_error(properties@) is Some {
                            e == description_error(properties@)->0
                        } else if channel->0 >= 31 {
                            e == Error::ChannelOutOfRange
                        } else if old(channels)@[channel->0 as int] == 255 {
                            e == Error::OutOfChannels
                        } else {
                            &&& e == Error::MissingProperty(PropertyId::ChannelMap)
                            &&& hex_of(properties@, PropertyId::ChannelMap) is None
                        }
                    },
                }
            }),
    {
        let found = Found::search(properties)?;
        let included: u64 = found.included.ok_or(Error::MissingProperty(PropertyId::Included))?;
        let product: u64 = found.product.ok_or(Error::MissingProperty(PropertyId::Product))?;
        let type_id: u64 = found.type_id.ok_or(Error::MissingProperty(PropertyId::Type))?;
        let serialid = found.serialid.ok_or(Error::MissingProperty(PropertyId::Sgtin))?;
        if serialid.len() != 12 {
            return Err(Error::UnsupportedSgtinLength);
        }
        let manufacturer = found.manufacturer.ok_or(
            Error::MissingProperty(PropertyId::Manufacturer),
        )?;
        let version_app = found.version_app.ok_or(
            Error::MissingProperty(PropertyId::ApplicationVersion),
        )?;
        let version_hw = found.version_hw.ok_or(
            Error::MissingProperty(PropertyId::HardwareVersion),
        )?;
        let version_boot = found.version_boot.ok_or(
            Error::MissingProperty(PropertyId::BootloaderVersion),
        )?;
        let version_stack = found.version_stack.ok_or(
            Error::MissingProperty(PropertyId::StackVersion),
        )?;
        let protocol = found.protocol.ok_or(Error::MissingProperty(PropertyId::Protocol))?;
        let name = found.name.ok_or(Error::MissingProperty(PropertyId::Name))?;
        let radio_mode = found.radio_mode.ok_or(Error::MissingProperty(PropertyId::RadioMode))?;
        let channel: u64 = found.wakeup_channel.ok_or(
            Error::MissingProperty(PropertyId::WakeupChannel),
        )?;
        let wakeup_channel = WakeupChannel::allocate_unchecked(channels, channel)?;
        let channel_map = match found.channel_map {
            Some(channel_map) => channel_map,
            None => {
                let ghost before = old(channels)@;
                proof {
                    old(channels).lemma_slots();
                }
                wakeup_channel.release(channels);
                assert(channels@ =~= before);
                return Err(Error::MissingProperty(PropertyId::ChannelMap));
            },
        };
        Ok(
            Self {
                address,
                manufacturer,
                version_app,
                version_hw,
                version_boot,
                version_stack,
                protocol,
                type_id,
                product: if product == 1 {
                    Product::Gateway
                } else {
                    Product::Device
                },
                included: included == 1,
                name,
                serialid,
                radio_mode,
                wakeup_channel,
                channel_map,
                uptime: found.uptime,
                inclusion_status: None,
                modified: wall_clock,
            },
        )
    }
}

/// The start of a SGTIN as it is usually written: bits 36 to 99, with the two
/// lowest, which belong to the serial number, cleared. A SGTIN that does not fit
/// into that has no start and counts as 0.
pub open spec fn sgtin_start(number: nat) -> int {
    let start = number / pow2(36);
    if start <= u64::MAX {
        start - start % 4
    } else {
        0
    }
}

/// The starts of the SGTINs of the devices.
pub open spec fn is_known_start(start: int) -> bool {
    ||| start == 0x3034F8EE90126D4
    ||| start == 0x3034F8EE9012674
    ||| start == 0x3034F8EE9006008
    ||| start == 0x3034F8EE9016028
    ||| start == 0x3034F8EE901EE94
    ||| start == 0x3034F8EE902273C
    ||| start == 0x3034F8EE9012980
    ||| start == 0x3035C33A881CFF8
    ||| start == 0x3035C33A8834B90
}

/// The start that a device of this type gets if its own is wrong.
pub open spec fn start_for_type(type_id: u64) -> Option<u64> {
    match type_id {
        1 => Some(0x3014F8EE90126D4),
        2 => Some(0x3014F8EE9012674),
        3 => Some(0x3014F8EE9006008),
        4 => Some(0x3014F8EE9016028),
        6 => Some(0x3014F8EE901EE94),
        7 => Some(0x3014F8EE902273C),
        8 => Some(0x3014F8EE9012980),
        9 => Some(0x3015C33A881CFF8),
        10 => Some(0x3015C33A8834B90),
        _ => None,
    }
}

/// The SGTIN of a device that reports `number`. A gateway's is taken as it is,
/// and so is one with a known start. Otherwise the start is replaced by that for
/// the device type, and only the serial number, 38 bits, is kept.
pub open spec fn corrected_sgtin(number: nat, product: Product, type_id: u64) -> nat {
    if product == Product::Gateway || is_known_start(sgtin_start(number)) || start_for_type(
        type_id,
    ) is None {
        number
    } else {
        number % pow2(38) + (start_for_type(type_id)->0 as nat) * pow2(36)
    }
}

/// The item reference of a SGTIN.
pub open spec fn item_reference_of(sgtin: nat) -> int {
    ((sgtin / pow2(38)) % pow2(20)) as int
}

/// What kind of device has this item reference.
pub open spec fn device_type_name(item_reference: int) -> Seq<char> {
    if item_reference == ITEM_REFERENCE_WATER_CONTROL {
        "Water Control"@
    } else if item_reference == 18845 || item_reference == ITEM_REFERENCE_SENSOR2 {
        "Sensor"@
    } else if item_reference == ITEM_REFERENCE_CBT2 || item_reference == ITEM_REFERENCE_CBTG
        || item_reference == ITEM_REFERENCE_CBTL {
        "Robotics Lawnmower"@
    } else if item_reference == 22538 {
        "Automatic Home and Garden Pump"@
    } else if item_reference == ITEM_REFERENCE_IRRIGATION_CONTROL {
        "Irrigation Control"@
    } else if item_reference == 35279 {
        "Power Adapter"@
    } else if item_reference == 21869 || item_reference == 46350 {
        "Gateway"@
    } else {
        "unknown"@
    }
}

fn known_start(start: u64) -> (res: bool)
    ensures
        res == is_known_start(start as int),
{
    start == 0x3034F8EE90126D4 || start == 0x3034F8EE9012674 || start == 0x3034F8EE9006008 || start
        == 0x3034F8EE9016028 || start == 0x3034F8EE901EE94 || start == 0x3034F8EE902273C || start
        == 0x3034F8EE9012980 || start == 0x3035C33A881CFF8 || start == 0x3035C33A8834B90
}

fn replacement_start(type_id: u64) -> (res: Option<u64>)
    ensures
        res == start_for_type(type_id),
{
    match type_id {
        1 => Some(0x3014F8EE90126D4),
        2 => Some(0x3014F8EE9012674),
        3 => Some(0x3014F8EE9006008),
        4 => Some(0x3014F8EE9016028),
        6 => Some(0x3014F8EE901EE94),
        7 => Some(0x3014F8EE902273C),
        8 => Some(0x3014F8EE9012980),
        9 => Some(0x3015C33A881CFF8),
        10 => Some(0x3015C33A8834B90),
        _ => None,
    }
}

/// A replaced start lies above the serial number.
proof fn lemma_start_above_serial(type_id: u64)
    requires
        start_for_type(type_id) is Some,
    ensures
        ({
            let start = start_for_type(type_id)->0 as nat;
            &&& start % 4 == 0
            &&& start * pow2(36) == (start / 4) * pow2(38)
        }),
{
    let start = start_for_type(type_id)->0 as nat;
    lemma_pow2_adds(36, 2);
    lemma2_to64();
    assert(start % 4 == 0);
    let q = start / 4;
    assert(start == 4 * q);
    assert((4 * q) * pow2(36) == q * (pow2(36) * 4)) by (nonlinear_arith);
}

impl DeviceDescription {
    /// The SGTIN of this device.
    pub open spec fn spec_sgtin(self) -> nat {
        corrected_sgtin(bigint::be_value(self.serialid@), self.product, self.type_id)
    }

    pub open spec fn spec_item_reference(self) -> int {
        item_reference_of(self.spec_sgtin())
    }

    /// The lower six octets of an IPv6 address.
    pub fn mac_address(&self) -> (res: Option<[u8; 6]>)
        ensures
            match (self.address, res) {
                (IpAddr::V6(address), Some(mac)) => bigint::be_value(mac@) == address as nat % pow2(48),
                (IpAddr::V4(_), None) => true,
                _ => false,
            },
    {
        match self.address {
            IpAddr::V4(_) => None,
            IpAddr::V6(address) => {
                let mac: u64 = (address % 0x1_0000_0000_0000) as u64;
                let res: [u8; 6] = [
                    (mac / 0x100_0000_0000) as u8,
                    (mac / 0x1_0000_0000 % 0x100) as u8,
                    (mac / 0x100_0000 % 0x100) as u8,
                    (mac / 0x1_0000 % 0x100) as u8,
                    (mac / 0x100 % 0x100) as u8,
                    (mac % 0x100) as u8,
                ];
                proof {
                    lemma_six_bytes(res@, mac as nat);
                    lemma2_to64();
                    lemma2_to64_rest();
                }
                Some(res)
            },
        }
    }

    /// The SGTIN of this device, corrected where it has to be.
    pub fn sgtin(&self) -> (res: BigUint)
        ensures
            res@ == self.spec_sgtin(),
    {
        let sgtin = BigUint::from_bytes_be(self.serialid.as_slice());
        let start: u64 = match sgtin.shift_right(36).to_u64() {
            Some(start) => start - start % 4,
            None => 0,
        };
        if let Product::Gateway = self.product {
            return sgtin;
        }
        if known_start(start) {
            return sgtin;
        }
        let replacement: u64 = match replacement_start(self.type_id) {
            Some(replacement) => replacement,
            None => {
                return sgtin;
            },
        };
        proof {
            lemma_start_above_serial(self.type_id);
            bigint::lemma_and_low_bits(sgtin@, 38);
            lemma_pow2_pos(38);
            vstd::arithmetic::div_mod::lemma_mod_bound(sgtin@ as int, pow2(38) as int);
            bigint::lemma_or_disjoint(sgtin@ % pow2(38), replacement as nat / 4, 38);
        }
        let value = BigUint::from_u64(replacement).shift_left(36);
        sgtin.bitand(&BigUint::from_u64(bitmask(38))).bitor(&value)
    }

    fn item_reference(&self) -> (res: u32)
        ensures
            res == self.spec_item_reference(),
    {
        self.sgtin().item_reference()
    }

    pub fn device_type(&self) -> (res: &'static str)
        ensures
            res@ == device_type_name(self.spec_item_reference()),
    {
        let item: u32 = self.item_reference();
        if item == ITEM_REFERENCE_WATER_CONTROL {
            "Water Control"
        } else if item == 18845 || item == ITEM_REFERENCE_SENSOR2 {
            "Sensor"
        } else if item == ITEM_REFERENCE_CBT2 || item == ITEM_REFERENCE_CBTG || item
            == ITEM_REFERENCE_CBTL {
            "Robotics Lawnmower"
        } else if item == 22538 {
            "Automatic Home and Garden Pump"
        } else if item == ITEM_REFERENCE_IRRIGATION_CONTROL {
            "Irrigation Control"
        } else if item == 35279 {
            "Power Adapter"
        } else if item == 21869 || item == 46350 {
            "Gateway"
        } else {
            "unknown"
        }
    }

    pub fn is_cbt2(&self) -> (res: bool)
        ensures
            res == (self.spec_item_reference() == ITEM_REFERENCE_CBT2),
    {
        self.item_reference() == ITEM_REFERENCE_CBT2
    }

    pub open spec fn spec_is_cbtl(self) -> bool {
        self.spec_item_reference() == ITEM_REFERENCE_CBTL
    }

    pub fn is_cbtl(&self) -> (res: bool)
        ensures
            res == self.spec_is_cbtl(),
    {
        self.item_reference() == ITEM_REFERENCE_CBTL
    }

    pub open spec fn spec_is_lawnmower(self) -> bool {
        ||| self.spec_item_reference() == ITEM_REFERENCE_CBT2
        ||| self.spec_item_reference() == ITEM_REFERENCE_CBTG
        ||| self.spec_item_reference() == ITEM_REFERENCE_CBTL
    }

    pub fn is_lawnmower(&self) -> (res: bool)
        ensures
            res == self.spec_is_lawnmower(),
    {
        let item: u32 = self.item_reference();
        item == ITEM_REFERENCE_CBT2 || item == ITEM_REFERENCE_CBTG || item == ITEM_REFERENCE_CBTL
    }

    pub fn is_watering_device(&self) -> (res: bool)
        ensures
            res == (self.spec_item_reference() == ITEM_REFERENCE_WATER_CONTROL
                || self.spec_item_reference() == ITEM_REFERENCE_IRRIGATION_CONTROL),
    {
        let item: u32 = self.item_reference();
        item == ITEM_REFERENCE_WATER_CONTROL || item == ITEM_REFERENCE_IRRIGATION_CONTROL
    }

    pub open spec fn spec_is_sensor2(self) -> bool {
        self.spec_item_reference() == ITEM_REFERENCE_SENSOR2
    }

    pub fn is_sensor2(&self) -> (res: bool)
        ensures
            res == self.spec_is_sensor2(),
    {
        self.item_reference() == ITEM_REFERENCE_SENSOR2
    }

    pub open spec fn spec_bnw_id(self) -> Seq<char> {
        hexcode::hex_text(bigint::shortest_bytes(self.spec_sgtin()), true)
    }

    /// The name under which the device is known outside: its SGTIN in upper
    /// case digits.
    pub fn bnw_id(&self) -> (res: String)
        ensures
            res@ == self.spec_bnw_id(),
    {
        encode_upper(self.sgtin().to_bytes_be().as_slice())
    }

    pub open spec fn spec_is_radio_module(self) -> bool {
        self.product == Product::Gateway
    }

    pub fn is_radio_module(&self) -> (res: bool)
        ensures
            res == self.spec_is_radio_module(),
    {
        match self.product {
            Product::Gateway => true,
            Product::Device => false,
        }
    }

    pub open spec fn spec_loadsave_enabled(self) -> bool {
        &&& self.included
        &&& self.inclusion_status is None || self.inclusion_status == Some(
            InclusionStatus::Included,
        )
    }

    /// Whether the device is kept on disk.
    pub fn loadsave_enabled(&self) -> (res: bool)
        ensures
            res == self.spec_loadsave_enabled(),
    {
        self.included && match self.inclusion_status {
            None => true,
            Some(InclusionStatus::Included) => true,
            Some(_) => false,
        }
    }

    pub fn channel_map(&self) -> (res: ChannelMap)
        ensures
            res@ == bigint::be_value(self.channel_map@),
    {
        ChannelMap::from_bytes_be(self.channel_map.as_slice())
    }

    /// The parts of the stack version; 1.0.0 if it is none.
    pub open spec fn spec_version_stack(self) -> Seq<utils::PartView> {
        match utils::version_parts(self.version_stack@) {
            Some(parts) => parts,
            None => utils::three_numbers(1, 0, 0),
        }
    }

    /// The stack version. One that cannot be read counts as 1.0.0.
    pub fn version_stack_parsed(&self) -> (res: Version)
        ensures
            res@ == self.spec_version_stack(),
    {
        match Version::parse(self.version_stack.as_str()) {
            Some(version) => version,
            None => create_version(1, 0, 0),
        }
    }
}

/// Six bytes, from the highest to the lowest, make up the number that they were
/// taken from.
proof fn lemma_six_bytes(bytes: Seq<u8>, number: nat)
    requires
        bytes.len() == 6,
        number < 0x1_0000_0000_0000,
        bytes[0] == number / 0x100_0000_0000,
        bytes[1] == number / 0x1_0000_0000 % 0x100,
        bytes[2] == number / 0x100_0000 % 0x100,
        bytes[3] == number / 0x1_0000 % 0x100,
        bytes[4] == number / 0x100 % 0x100,
        bytes[5] == number % 0x100,
    ensures
        bigint::be_value(bytes) == number,
{
    let n4 = number / 0x100;
    let n3 = number / 0x1_0000;
    let n2 = number / 0x100_0000;
    let n1 = number / 0x1_0000_0000;
    let n0 = number / 0x100_0000_0000;
    assert(n4 / 0x100 == n3);
    assert(n3 / 0x100 == n2);
    assert(n2 / 0x100 == n1);
    assert(n1 / 0x100 == n0);
    assert(bytes.take(0) =~= Seq::<u8>::empty());
    assert(bigint::be_value(bytes.take(0)) == 0);
    assert(bytes.take(1).drop_last() =~= bytes.take(0));
    assert(bigint::be_value(bytes.take(1)) == n0);
    assert(bytes.take(2).drop_last() =~= bytes.take(1));
    assert(bigint::be_value(bytes.take(2)) == n1);
    assert(bytes.take(3).drop_last() =~= bytes.take(2));
    assert(bigint::be_value(bytes.take(3)) == n2);
    assert(bytes.take(4).drop_last() =~= bytes.take(3));
    assert(bigint::be_value(bytes.take(4)) == n3);
    assert(bytes.take(5).drop_last() =~= bytes.take(4));
    assert(bigint::be_value(bytes.take(5)) == n4);
    assert(bytes.take(6).drop_last() =~= bytes.take(5));
    assert(bytes.take(6) =~= bytes);
}

/// Correcting a SGTIN never touches its serial number.
pub proof fn law_sgtin_keeps_serial(number: nat, product: Product, type_id: u64)
    ensures
        corrected_sgtin(number, product, type_id) % pow2(38) == number % pow2(38),
{
    if start_for_type(type_id) is Some {
        lemma_start_above_serial(type_id);
        lemma_pow2_pos(38);
        let p = pow2(38) as int;
        let serial = number as int % p;
        let q = start_for_type(type_id)->0 as int / 4;
        vstd::arithmetic::div_mod::lemma_mod_multiples_vanish(q, serial, p);
        assert(p * q + serial == serial + q * p) by (nonlinear_arith);
        vstd::arithmetic::div_mod::lemma_mod_twice(number as int, p);
    }
}

/// Correcting a corrected SGTIN changes nothing.
pub proof fn law_sgtin_correction_is_final(number: nat, product: Product, type_id: u64)
    ensures
        corrected_sgtin(corrected_sgtin(number, product, type_id), product, type_id)
            == corrected_sgtin(number, product, type_id),
{
    law_sgtin_keeps_serial(number, product, type_id);
}

/// A device of a known type whose SGTIN had to be corrected is found to be of
/// that type by the item reference.
pub proof fn law_corrected_item_reference(number: nat, type_id: u64)
    requires
        start_for_type(type_id) is Some,
        !is_known_start(sgtin_start(number)),
    ensures
        item_reference_of(corrected_sgtin(number, Product::Device, type_id)) == (
        start_for_type(type_id)->0 as int / 4) % 0x100000,
        type_id == 6 ==> item_reference_of(corrected_sgtin(number, Product::Device, type_id))
            == ITEM_REFERENCE_IRRIGATION_CONTROL,
        type_id == 8 ==> item_reference_of(corrected_sgtin(number, Product::Device, type_id))
            == ITEM_REFERENCE_SENSOR2,
{
    lemma_start_above_serial(type_id);
    lemma_pow2_pos(38);
    lemma2_to64();
    let p = pow2(38) as int;
    let serial = number as int % p;
    let q = start_for_type(type_id)->0 as int / 4;
    vstd::arithmetic::div_mod::lemma_mod_bound(number as int, p);
    vstd::arithmetic::div_mod::lemma_fundamental_div_mod_converse(q * p + serial, p, q, serial);
}

/// How many of something a device has memory for.
#[derive(Clone, Copy, Debug, PartialEq, Eq)]
pub struct MemoryInformation {
    pub id: MemoryId,
    pub count: u32,
    pub free_count: u32,
}

impl MemoryInformation {
    pub open spec fn spec_num_allocated(self) -> int {
        if self.count >= self.free_count {
            self.count - self.free_count
        } else {
            0
        }
    }

    /// How many are in use.
    pub fn num_allocated(&self) -> (res: u32)
        ensures
            res == self.spec_num_allocated(),
    {
        self.count.saturating_sub(self.free_count)
    }
}

/// If a property is given more than once, the last one counts, and one that is
/// not given is not found.
pub proof fn law_last_property_counts(properties: Seq<Property>, id: PropertyId, i: int)
    requires
        0 <= i < properties.len(),
    ensures
        properties[i].id == Some(id) && (forall|j: int|
            i < j < properties.len() ==> (#[trigger] properties[j]).id != Some(id))
            ==> last_property(properties, id) == Some(properties[i]),
        last_property(properties, id) is None ==> properties[i].id != Some(id),
        last_property(properties, id) matches Some(property) ==> property.id == Some(id)
            && properties.contains(property),
    decreases properties.len(),
{
    let rest = properties.drop_last();
    if properties.last().id == Some(id) {
        assert(properties[properties.len() - 1] == properties.last());
    } else if rest.len() > 0 {
        let k = if i < rest.len() {
            i
        } else {
            0
        };
        law_last_property_counts(rest, id, k);
        assert(rest[k] == properties[k]);
        if last_property(rest, id) is Some {
            let m = choose|m: int| 0 <= m < rest.len() && rest[m] == last_property(rest, id)->0;
            assert(properties[m] == rest[m]);
        }
        assert forall|j: int| k < j < rest.len() implies rest[j] == #[trigger] properties[j] by {
        }
        if forall|j: int| i < j < properties.len() ==> (#[trigger] properties[j]).id != Some(id) {
            assert forall|j: int| k < j < rest.len() && k == i implies (#[trigger] rest[j]).id
                != Some(id) by {
                assert(rest[j] == properties[j]);
            }
        }
    }
}

/// What is read of a property is what its last entry says.
pub proof fn law_properties_are_read(properties: Seq<Property>, id: PropertyId)
    ensures
        last_property(properties, id) is None ==> {
            &&& number_of(properties, id) is None
            &&& text_of(properties, id) is None
            &&& hex_of(properties, id) is None
        },
        last_property(properties, id) matches Some(property) ==> {
            &&& number_of(properties, id) == property.number
            &&& text_of(properties, id) is Some <==> property.text is Some
            &&& property.text matches Some(text) ==> text_of(properties, id) == Some(text@)
            &&& hex_of(properties, id) is Some <==> property.hex is Some
            &&& property.hex matches Some(hex) ==> hex_of(properties, id) == Some(hex@)
        },
        last_property(properties, PropertyId::Manufacturer) matches Some(property)
            ==> manufacturer_of(properties) == property.manufacturer,
        last_property(properties, PropertyId::Manufacturer) is None ==> manufacturer_of(
            properties,
        ) is None,
        last_property(properties, PropertyId::Protocol) matches Some(property) ==> protocol_of(
            properties,
        ) == property.protocol,
        last_property(properties, PropertyId::Protocol) is None ==> protocol_of(properties) is None,
        last_property(properties, PropertyId::RadioMode) matches Some(property) ==> radio_mode_of(
            properties,
        ) == property.radio_mode,
        last_property(properties, PropertyId::RadioMode) is None ==> radio_mode_of(
            properties,
        ) is None,
{
}

/// A property that is used has to be of the kind that its id asks for; any other
/// property may be anything.
pub proof fn law_readable_properties(property: Property)
    ensures
        property.id is None ==> is_readable(property),
        property.id == Some(PropertyId::Manufacturer) ==> is_readable(property) == (
        property.manufacturer is Some),
        property.id == Some(PropertyId::Protocol) ==> is_readable(property) == (
        property.protocol is Some),
        property.id == Some(PropertyId::RadioMode) ==> is_readable(property) == (
        property.radio_mode is Some),
        property.id == Some(PropertyId::ApplicationVersion) || property.id == Some(
            PropertyId::HardwareVersion,
        ) || property.id == Some(PropertyId::BootloaderVersion) || property.id == Some(
            PropertyId::StackVersion,
        ) || property.id == Some(PropertyId::Name) ==> is_readable(property) == (property.text
            is Some),
        property.id == Some(PropertyId::Sgtin) || property.id == Some(PropertyId::ChannelMap)
            ==> is_readable(property) == (property.hex is Some),
        property.id == Some(PropertyId::Type) || property.id == Some(PropertyId::Product)
            || property.id == Some(PropertyId::Included) || property.id == Some(
            PropertyId::WakeupChannel,
        ) || property.id == Some(PropertyId::Uptime) ==> is_readable(property) == (property.number
            is Some),
        property.id == Some(PropertyId::ChannelScanTime) || property.id == Some(
            PropertyId::DiversityMode,
        ) || property.id == Some(PropertyId::Ipv6Address) || property.id == Some(
            PropertyId::MacAddress,
        ) || property.id == Some(PropertyId::TxPower) || property.id == Some(
            PropertyId::WakeupInterval,
        ) || property.id == Some(PropertyId::WakeupNow) || property.id == Some(
            PropertyId::WakeupOffset,
        ) ==> is_readable(property),
{
}

/// A description fails on the first property that cannot be read, even if it is
/// given again later on, and on none if all can be read.
pub proof fn law_first_unreadable_property(properties: Seq<Property>, i: int)
    requires
        0 <= i <= properties.len(),
        forall|k: int| 0 <= k < i ==> is_readable(#[trigger] properties[k]),
    ensures
        i == properties.len() ==> first_unreadable(properties) is None,
        i < properties.len() && !is_readable(properties[i]) ==> first_unreadable(properties)
            == properties[i].id,
{
    lemma_all_readable(properties, i);
    if i == properties.len() {
        assert(properties.take(i) =~= properties);
    } else if !is_readable(properties[i]) {
        lemma_one_more(properties, i);
        lemma_first_unreadable(properties, i + 1);
    }
}

proof fn lemma_all_readable(properties: Seq<Property>, i: int)
    requires
        0 <= i <= properties.len(),
        forall|k: int| 0 <= k < i ==> is_readable(#[trigger] properties[k]),
    ensures
        first_unreadable(properties.take(i)) is None,
    decreases i,
{
    if i > 0 {
        lemma_one_more(properties, i - 1);
        lemma_all_readable(properties, i - 1);
        assert(is_readable(properties[i - 1]));
    }
}

/// A description is complete if all properties can be read, everything that a
/// device has to say is given, and its SGTIN has twelve bytes. Otherwise the
/// reason names something that is really missing or wrong.
pub proof fn law_complete_descriptions(properties: Seq<Property>)
    ensures
        description_error(properties) is None <==> {
            &&& first_unreadable(properties) is None
            &&& number_of(properties, PropertyId::Included) is Some
            &&& number_of(properties, PropertyId::Product) is Some
            &&& number_of(properties, PropertyId::Type) is Some
            &&& number_of(properties, PropertyId::WakeupChannel) is Some
            &&& hex_of(properties, PropertyId::Sgtin) is Some
            &&& hex_of(properties, PropertyId::Sgtin)->0.len() == 12
            &&& text_of(properties, PropertyId::ApplicationVersion) is Some
            &&& text_of(properties, PropertyId::HardwareVersion) is Some
            &&& text_of(properties, PropertyId::BootloaderVersion) is Some
            &&& text_of(properties, PropertyId::StackVersion) is Some
            &&& text_of(properties, PropertyId::Name) is Some
            &&& manufacturer_of(properties) is Some
            &&& protocol_of(properties) is Some
            &&& radio_mode_of(properties) is Some
        },
        first_unreadable(properties) matches Some(id) ==> description_error(properties) == Some(
            Error::InvalidProperty(id),
        ),
        first_unreadable(properties) is None ==> (description_error(properties) matches Some(e)
            ==> e == Error::UnsupportedSgtinLength || e is MissingProperty),
        description_error(properties) matches Some(Error::MissingProperty(id)) ==> match id {
            PropertyId::Manufacturer => manufacturer_of(properties) is None,
            PropertyId::Protocol => protocol_of(properties) is None,
            PropertyId::RadioMode => radio_mode_of(properties) is None,
            PropertyId::Sgtin => hex_of(properties, id) is None,
            PropertyId::Included | PropertyId::Product | PropertyId::Type
            | PropertyId::WakeupChannel => number_of(properties, id) is None,
            PropertyId::ApplicationVersion | PropertyId::HardwareVersion
            | PropertyId::BootloaderVersion | PropertyId::StackVersion
            | PropertyId::Name => text_of(properties, id) is None,
            _ => false,
        },
        description_error(properties) == Some(Error::UnsupportedSgtinLength) ==> hex_of(
            properties,
            PropertyId::Sgtin,
        ) is Some && hex_of(properties, PropertyId::Sgtin)->0.len() != 12,
{
}

/// A description says of a device what its properties say. It is a gateway if
/// its product is 1, and included if that is said with a 1.
pub proof fn law_description_says_what_properties_say(
    description: DeviceDescription,
    address: IpAddr,
    properties: Seq<Property>,
    wall_clock: Nanos,
)
    requires
        description.describes(address, properties, wall_clock),
    ensures
        description.address == address,
        manufacturer_of(properties) == Some(description.manufacturer),
        protocol_of(properties) == Some(description.protocol),
        radio_mode_of(properties) == Some(description.radio_mode),
        text_of(properties, PropertyId::ApplicationVersion) == Some(description.version_app@),
        text_of(properties, PropertyId::HardwareVersion) == Some(description.version_hw@),
        text_of(properties, PropertyId::BootloaderVersion) == Some(description.version_boot@),
        text_of(properties, PropertyId::StackVersion) == Some(description.version_stack@),
        text_of(properties, PropertyId::Name) == Some(description.name@),
        hex_of(properties, PropertyId::Sgtin) == Some(description.serialid@),
        hex_of(properties, PropertyId::ChannelMap) == Some(description.channel_map@),
        number_of(properties, PropertyId::Type) == Some(description.type_id),
        number_of(properties, PropertyId::Uptime) == description.uptime,
        number_of(properties, PropertyId::WakeupChannel) == Some(
            description.wakeup_channel.spec_channel() as u64,
        ),
        description.product == Product::Gateway <==> number_of(properties, PropertyId::Product)
            == Some(1u64),
        description.included <==> number_of(properties, PropertyId::Included) == Some(1u64),
        description.modified == wall_clock,
        description.inclusion_status is None,
{
}

/// A start is known if it is that of a device type with the right filter value;
/// the starts that wrong ones are replaced by have another one.
pub proof fn law_known_starts(start: int)
    ensures
        is_known_start(start) <==> exists|type_id: u64|
            (#[trigger] start_for_type(type_id)) is Some && start == start_for_type(type_id)->0
                + 0x2_0000_0000_0000,
        forall|type_id: u64|
            (#[trigger] start_for_type(type_id)) is Some <==> (1 <= type_id <= 4 || 6 <= type_id
                <= 10),
{
    if is_known_start(start) {
        let type_id: u64 = if start == 0x3034F8EE90126D4 {
            1
        } else if start == 0x3034F8EE9012674 {
            2
        } else if start == 0x3034F8EE9006008 {
            3
        } else if start == 0x3034F8EE9016028 {
            4
        } else if start == 0x3034F8EE901EE94 {
            6
        } else if start == 0x3034F8EE902273C {
            7
        } else if start == 0x3034F8EE9012980 {
            8
        } else if start == 0x3035C33A881CFF8 {
            9
        } else {
            10
        };
        assert(start_for_type(type_id) is Some);
        assert(start == start_for_type(type_id)->0 + 0x2_0000_0000_0000);
    }
}

/// The start of a SGTIN is its upper part without the bits of the serial number,
/// so that the serial number plays no part in it.
pub proof fn law_sgtin_start(upper: nat, serial: nat)
    requires
        serial < pow2(38),
        upper < 0x4000_0000_0000_0000,
    ensures
        sgtin_start(upper * pow2(38) + serial) == 4 * upper,
{
    lemma_pow2_adds(36, 2);
    lemma2_to64();
    lemma_pow2_pos(36);
    let p = pow2(36) as int;
    let number = (upper * pow2(38) + serial) as int;
    let low = serial as int / p;
    let rest = serial as int % p;
    vstd::arithmetic::div_mod::lemma_fundamental_div_mod(serial as int, p);
    vstd::arithmetic::div_mod::lemma_mod_bound(serial as int, p);
    assert(0 <= low < 4) by (nonlinear_arith)
        requires
            0 <= serial < 4 * p,
            low == serial as int / p,
            p > 0,
    ;
    assert(number == (4 * upper + low) * p + rest) by (nonlinear_arith)
        requires
            number == upper * (p * 4) + serial,
            serial == p * low + rest,
    ;
    vstd::arithmetic::div_mod::lemma_fundamental_div_mod_converse(
        number,
        p,
        4 * upper as int + low,
        rest,
    );
}

/// The SGTIN of a gateway, one with a known start, and one of a device of an
/// unknown type is left as it is. Any other one gets the start of its device
/// type.
pub proof fn law_which_sgtins_are_corrected(number: nat, product: Product, type_id: u64)
    ensures
        product == Product::Gateway ==> corrected_sgtin(number, product, type_id) == number,
        is_known_start(sgtin_start(number)) ==> corrected_sgtin(number, product, type_id) == number,
        start_for_type(type_id) is None ==> corrected_sgtin(number, product, type_id) == number,
        product == Product::Device && !is_known_start(sgtin_start(number)) ==> (start_for_type(
            type_id,
        ) matches Some(start) ==> corrected_sgtin(number, product, type_id) / pow2(38) == start
            / 4),
{
    if start_for_type(type_id) is Some {
        lemma_start_above_serial(type_id);
        lemma_pow2_pos(38);
        let p = pow2(38) as int;
        let serial = number as int % p;
        let q = start_for_type(type_id)->0 as int / 4;
        vstd::arithmetic::div_mod::lemma_mod_bound(number as int, p);
        vstd::arithmetic::div_mod::lemma_fundamental_div_mod_converse(q * p + serial, p, q, serial);
    }
}

/// The item reference of a SGTIN is the twenty bits above its serial number.
pub proof fn law_item_reference(upper: nat, item: nat, serial: nat)
    requires
        item < pow2(20),
        serial < pow2(38),
    ensures
        item_reference_of((upper * pow2(20) + item) * pow2(38) + serial) == item,
{
    lemma_pow2_pos(20);
    lemma_pow2_pos(38);
    let both = (upper * pow2(20) + item) as int;
    vstd::arithmetic::div_mod::lemma_fundamental_div_mod_converse(
        both * pow2(38) + serial,
        pow2(38) as int,
        both,
        serial as int,
    );
    vstd::arithmetic::div_mod::lemma_fundamental_div_mod_converse(
        both,
        pow2(20) as int,
        upper as int,
        item as int,
    );
}

/// Devices are told apart by their item reference: three kinds of lawnmowers,
/// of which one takes data, and one kind of sensor that talks a lot.
pub proof fn law_kinds_of_devices(description: DeviceDescription)
    ensures
        description.spec_item_reference() == item_reference_of(description.spec_sgtin()),
        description.spec_sgtin() == corrected_sgtin(
            bigint::be_value(description.serialid@),
            description.product,
            description.type_id,
        ),
        description.spec_is_lawnmower() <==> description.spec_item_reference() == 6146
            || description.spec_item_reference() == 29694 || description.spec_item_reference()
            == 53988,
        description.spec_is_cbtl() <==> description.spec_item_reference() == 53988,
        description.spec_is_sensor2() <==> description.spec_item_reference() == 19040,
        description.spec_is_cbtl() ==> description.spec_is_lawnmower(),
        description.spec_is_radio_module() <==> description.product == Product::Gateway,
{
}

/// The name of its kind says what a device is. All lawnmowers have the same, and
/// so have both sensors and both gateways; what is not known is called unknown.
pub proof fn law_device_type_names(item: int)
    ensures
        item == 18869 ==> device_type_name(item) == "Water Control"@,
        item == 18845 || item == 19040 ==> device_type_name(item) == "Sensor"@,
        item == 6146 || item == 29694 || item == 53988 ==> device_type_name(item)
            == "Robotics Lawnmower"@,
        item == 22538 ==> device_type_name(item) == "Automatic Home and Garden Pump"@,
        item == 31653 ==> device_type_name(item) == "Irrigation Control"@,
        item == 35279 ==> device_type_name(item) == "Power Adapter"@,
        item == 21869 || item == 46350 ==> device_type_name(item) == "Gateway"@,
        !(item == 18869 || item == 18845 || item == 19040 || item == 6146 || item == 29694 || item
            == 53988 || item == 22538 || item == 31653 || item == 35279 || item == 21869 || item
            == 46350) ==> device_type_name(item) == "unknown"@,
{
}

/// The name of a device stands for its SGTIN, in hexadecimal digits of which
/// letters are in upper case, and without leading zero bytes.
pub proof fn law_device_name_is_its_sgtin(description: DeviceDescription)
    ensures
        ({
            let name = description.spec_bnw_id();
            &&& hexcode::is_hex_text(name)
            &&& bigint::be_value(hexcode::hex_bytes(name)) == description.spec_sgtin()
            &&& bigint::is_shortest(hexcode::hex_bytes(name))
            &&& forall|i: int| 0 <= i < name.len() ==> !('a' <= #[trigger] name[i] <= 'f')
        }),
{
    let bytes = bigint::shortest_bytes(description.spec_sgtin());
    bigint::law_shortest_bytes_of_a_number(description.spec_sgtin());
    hexcode::law_hex_round_trip(bytes, true);
    let name = description.spec_bnw_id();
    assert forall|i: int| 0 <= i < name.len() implies !('a' <= #[trigger] name[i] <= 'f') by {
        assert(0 <= bytes[i / 2] as int / 16 < 16);
    }
}

/// Just the included devices are kept on disk, but for those whose inclusion
/// was left unfinished once.
pub proof fn law_which_devices_are_kept(description: DeviceDescription)
    ensures
        !description.included ==> !description.spec_loadsave_enabled(),
        description.included && description.inclusion_status is None
            ==> description.spec_loadsave_enabled(),
        description.included ==> (description.inclusion_status matches Some(status) ==> (
        description.spec_loadsave_enabled() <==> status == InclusionStatus::Included)),
{
}

/// A stack version is what it says, and 1.0.0 if it says nothing that can be
/// read.
pub proof fn law_stack_version(description: DeviceDescription)
    ensures
        utils::version_parts(description.version_stack@) matches Some(parts)
            ==> description.spec_version_stack() == parts,
        utils::version_parts(description.version_stack@) is None
            ==> description.spec_version_stack() == seq![
            utils::PartView::Number(1),
            utils::PartView::Number(0),
            utils::PartView::Number(0),
        ],
{
}

/// What is free of the memory of a device is not in use, and the rest is.
pub proof fn law_memory_in_use(info: MemoryInformation)
    ensures
        info.free_count <= info.count ==> info.spec_num_allocated() + info.free_count == info.count,
        info.free_count > info.count ==> info.spec_num_allocated() == 0,
{
}

/// Offline and online are stored as the numbers 0 and 1.
pub proof fn law_stored_connection_status(status: ConnectionStatus)
    ensures
        status.spec_to_u64() <= 1,
        status == ConnectionStatus::Online <==> status.spec_to_u64() == 1,
{
}

} // verus!
