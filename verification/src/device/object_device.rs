//! The object that describes a device. Every reading comes with the time at
//! which it was last changed.

use crate::device::Device;
use crate::device::object_lemonbeat::NamedWrite;
use crate::lsdl::Float;
use crate::lsdl::Manufacturer;
use crate::lwm2m::WriteData;
use crate::storage::description;
use crate::storage::persistent;
use crate::time::Nanos;
use crate::traits::Sgtin96;
use crate::utils;
use crate::utils::decimal_text;
use crate::utils::padded_decimal_text;
use vstd::arithmetic::power2::*;
use vstd::prelude::*;
use vstd::string::*;

verus! {

/// The bits of 31.0, the command that makes a device start anew.
pub const REBOOT_COMMAND_BITS: u64 = 0x403f_0000_0000_0000;

impl Device {
    /// The name of the manufacturer; nothing for one that this gateway does not
    /// serve.
    pub fn manufacturer(&self) -> (res: (Option<&'static str>, Nanos))
        ensures
            match (self.description.manufacturer, res.0) {
                (Manufacturer::Gardena, Some(name)) => name@ == "Gardena"@,
                (Manufacturer::Other(_), None) => true,
                _ => false,
            },
            res.1 == self.description.modified,
    {
        let name: Option<&'static str> = match self.description.manufacturer {
            Manufacturer::Gardena => Some("Gardena"),
            Manufacturer::Other(_) => None,
        };
        (name, self.description.modified)
    }

    /// The item reference in the SGTIN.
    pub fn model_number(&self) -> (res: (String, Nanos))
        ensures
            res.0@ == utils::decimal(self.description.spec_item_reference() as nat),
            res.1 == self.description.modified,
    {
        let item_reference: u32 = self.description.sgtin().item_reference();
        (decimal_text(item_reference as u64), self.description.modified)
    }

    /// The serial number in the SGTIN, in at least eight digits.
    pub fn serial_number(&self) -> (res: (String, Nanos))
        ensures
            res.0@ == utils::padded_decimal(self.description.spec_sgtin() % pow2(38), 8),
            res.1 == self.description.modified,
    {
        let serial: u64 = self.description.sgtin().serial();
        (padded_decimal_text(serial, 8), self.description.modified)
    }

    /// The versions of the boot loader and of the stack.
    pub fn firmware_version(&self) -> (res: (String, Nanos))
        ensures
            res.0@ == self.description.version_boot@ + "-"@ + self.description.version_stack@,
            res.1 == self.description.modified,
    {
        let mut text: String = self.description.version_boot.clone();
        text.append("-");
        text.append(self.description.version_stack.as_str());
        (text, self.description.modified)
    }

    /// There is no error that would be reported here.
    pub fn error_code(&self) -> (res: (i64, Nanos))
        ensures
            res == (0i64, self.description.modified),
    {
        (0, self.description.modified)
    }

    /// The device is reached by UDP.
    pub fn supported_binding_and_modes(&self) -> (res: (&'static str, Nanos))
        ensures
            res.0@ == "U"@,
            res.1 == self.description.modified,
    {
        ("U", self.description.modified)
    }

    pub fn device_type(&self) -> (res: (&'static str, Nanos))
        ensures
            res.0@ == description::device_type_name(self.description.spec_item_reference()),
            res.1 == self.description.modified,
    {
        (self.description.device_type(), self.description.modified)
    }

    pub fn hardware_version(&self) -> (res: (String, Nanos))
        ensures
            res.0@ == self.description.version_hw@,
            res.1 == self.description.modified,
    {
        (self.description.version_hw.clone(), self.description.modified)
    }

    pub fn software_version(&self) -> (res: (String, Nanos))
        ensures
            res.0@ == self.description.version_app@,
            res.1 == self.description.modified,
    {
        (self.description.version_app.clone(), self.description.modified)
    }

    /// The offset of the device's time zone from UTC.
    pub fn utc_offset(&self) -> (res: (String, Nanos))
        requires
            self.persistent.time_offset matches Some(minutes) ==> -1440 < minutes < 1440,
        ensures
            res.0@ == (match self.persistent.time_offset {
                None => Seq::empty(),
                Some(minutes) => "UTC"@ + persistent::offset_text(60 * minutes),
            }),
            res.1 == self.persistent.modified,
    {
        (self.persistent.utc_offset(), self.persistent.modified)
    }

    /// What is written to make the device start anew.
    pub fn reboot(&self) -> (res: NamedWrite)
        ensures
            res.name@ == "command"@,
            res.data == WriteData::Number(Float { bits: REBOOT_COMMAND_BITS }),
    {
        NamedWrite {
            name: "command".to_owned(),
            data: WriteData::Number(Float { bits: REBOOT_COMMAND_BITS }),
        }
    }
}

} // verus!
