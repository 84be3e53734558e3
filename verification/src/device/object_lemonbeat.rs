//! The object that hands out the values of a device.

use crate::device::Device;
use crate::device::GOTO_SLEEP_IMMEDIATELY;
use crate::device::lemonbeat_requests::Confirmation;
use crate::device::values;
use crate::device::values::description_by_name;
use crate::device::values::description_by_resource_id;
use crate::device::values::value_by_resource_id;
use crate::error::Error;
use crate::hexcode;
use crate::lsdl::Permission;
use crate::lsdl::RadioMode;
use crate::lsdl::ValueSet;
use crate::lwm2m::NumberReading;
use crate::lwm2m::Operations;
use crate::lwm2m::ResourceData;
use crate::lwm2m::WriteData;
use crate::storage::value;
use crate::storage::value::Value;
use crate::storage::value::ValueData;
use crate::storage::value::ValueDescription;
use crate::storage::value::ValueFormat;
use crate::time::Nanos;
use vstd::prelude::*;

verus! {

/// The values of a device as an object.
pub struct LemonbeatHandler<'a> {
    pub device: &'a Device,
}

/// The description of a resource.
pub open spec fn resource_description(device: Device, id: usize) -> Option<ValueDescription> {
    if id > u32::MAX {
        None
    } else {
        value::description_for(device.value_descriptions@, id as u32)
    }
}

/// The value of a resource.
pub open spec fn resource_value(device: Device, id: usize) -> Option<Value> {
    if id > u32::MAX {
        None
    } else {
        values::value_for(device.values@, id as u32)
    }
}

/// Whether `res` is what reading a value with this description gives.
pub open spec fn is_reading(
    res: Result<ResourceData, Error>,
    format: ValueFormat,
    data: ValueData,
    reading: NumberReading,
) -> bool {
    match (format, data) {
        (ValueFormat::Number { .. }, ValueData::Number(number)) => match reading {
            NumberReading::Float => res == Ok::<ResourceData, Error>(ResourceData::Float(number)),
            NumberReading::NotANumber => res == Ok::<ResourceData, Error>(ResourceData::NoInteger),
            NumberReading::Fraction => res == Err::<ResourceData, Error>(Error::HasFraction),
            NumberReading::Negative(n) => res == Ok::<ResourceData, Error>(ResourceData::Signed(n)),
            NumberReading::Positive(n) => res == Ok::<ResourceData, Error>(
                ResourceData::Unsigned(n),
            ),
            NumberReading::TooBig => res == Err::<ResourceData, Error>(Error::OutOfRange),
        },
        (ValueFormat::Text { .. }, ValueData::Text(text)) => res matches Ok(ResourceData::Text(t))
            && t@ == text@,
        (ValueFormat::Binary { .. }, ValueData::Binary(bytes)) => res matches Ok(
            ResourceData::Opaque(b),
        ) && b@ == bytes@,
        _ => res == Err::<ResourceData, Error>(Error::TypeMismatch),
    }
}

fn read_data(format: &ValueFormat, data: &ValueData, reading: NumberReading) -> (res: Result<
    ResourceData,
    Error,
>)
    ensures
        is_reading(res, *format, *data, reading),
{
    match (format, data) {
        (ValueFormat::Number { .. }, ValueData::Number(number)) => match reading {
            NumberReading::Float => Ok(ResourceData::Float(*number)),
            NumberReading::NotANumber => Ok(ResourceData::NoInteger),
            NumberReading::Fraction => Err(Error::HasFraction),
            NumberReading::Negative(n) => Ok(ResourceData::Signed(n)),
            NumberReading::Positive(n) => Ok(ResourceData::Unsigned(n)),
            NumberReading::TooBig => Err(Error::OutOfRange),
        },
        (ValueFormat::Text { .. }, ValueData::Text(text)) => Ok(ResourceData::Text(text.clone())),
        (ValueFormat::Binary { .. }, ValueData::Binary(bytes)) => Ok(
            ResourceData::Opaque(vstd::slice::slice_to_vec(bytes.as_slice())),
        ),
        _ => Err(Error::TypeMismatch),
    }
}

/// Whether `res` is what writing this data to a described value gives: the
/// message that the description makes of it.
pub open spec fn is_set_message(
    res: Result<ValueSet, Error>,
    description: ValueDescription,
    data: WriteData,
) -> bool {
    match data {
        WriteData::Number(number) => match res {
            Ok(set) => description.format is Number && description.is_writable() && set == (
            ValueSet {
                value_id: description.id,
                timestamp: 0,
                number: Some(number),
                text: None,
                hex_binary: None,
            }),
            Err(e) => if description.format is Number {
                e == Error::ReadOnlyValue && !description.is_writable()
            } else {
                e == Error::TypeMismatch
            },
        },
        WriteData::Text(text) => match res {
            Ok(set) => {
                &&& description.format matches ValueFormat::Text { max_length }
                &&& value::text_length(text@) <= max_length
                &&& description.is_writable()
                &&& set.value_id == description.id
                &&& set.timestamp == 0
                &&& set.number is None
                &&& set.hex_binary is None
                &&& set.text matches Some(t)
                &&& t@ == text@
            },
            Err(e) => match description.format {
                ValueFormat::Text { max_length } => if value::text_length(text@) > max_length {
                    e == Error::ValueTooLong
                } else {
                    e == Error::ReadOnlyValue && !description.is_writable()
                },
                _ => e == Error::TypeMismatch,
            },
        },
        WriteData::Opaque(bytes) => match res {
            Ok(set) => {
                &&& description.format matches ValueFormat::Binary { max_length }
                &&& bytes@.len() <= (if max_length > 0 {
                    max_length
                } else {
                    u32::MAX
                })
                &&& description.is_writable()
                &&& set.value_id == description.id
                &&& set.timestamp == 0
                &&& set.number is None
                &&& set.text is None
                &&& set.hex_binary matches Some(t)
                &&& t@ == hexcode::hex_text(bytes@, false)
            },
            Err(e) => match description.format {
                ValueFormat::Binary { max_length } => if bytes@.len() > (if max_length > 0 {
                    max_length
                } else {
                    u32::MAX
                }) {
                    e == Error::ValueTooLong
                } else {
                    e == Error::ReadOnlyValue && !description.is_writable()
                },
                _ => e == Error::TypeMismatch,
            },
        },
        WriteData::Unsupported => res == Err::<ValueSet, Error>(Error::UnsupportedData),
    }
}

/// Whether `res` is what writing this data to the value with this name gives.
pub open spec fn is_named_set(
    res: Result<ValueSet, Error>,
    device: Device,
    name: Seq<char>,
    data: WriteData,
) -> bool {
    match values::description_named(device.value_descriptions@, name) {
        None => res == Err::<ValueSet, Error>(Error::NoValueDescription),
        Some(description) => is_set_message(res, description, data),
    }
}

/// A value to write, by its name.
#[derive(Debug)]
pub struct NamedWrite {
    pub name: String,
    pub data: WriteData,
}

/// A message with new values for a device.
#[derive(Debug)]
pub struct WriteMessage {
    pub sets: Vec<ValueSet>,
    /// How long the device is told to stay awake, if at all.
    pub go_to_sleep: Option<Nanos>,
}

impl<'a> LemonbeatHandler<'a> {
    pub fn new(device: &'a Device) -> (res: Self)
        ensures
            res.device == device,
    {
        Self { device }
    }

    /// The name of this kind of object.
    pub fn urn(&self) -> (res: &'static str)
        ensures
            res@ == "urn:oma:lwm2m:x:31000"@,
    {
        "urn:oma:lwm2m:x:31000"
    }

    /// No value has several instances.
    pub fn is_array_resource(&self) -> (res: bool)
        ensures
            !res,
    {
        false
    }

    /// A value is nothing that could be executed.
    pub fn exec(&self) -> (res: Result<(), Error>)
        ensures
            res == Err::<(), Error>(Error::Unsupported),
    {
        Err(Error::Unsupported)
    }

    /// Reads a value, together with its timestamp in milliseconds. `reading` is
    /// how its number turns out, if it is one.
    pub fn read_resource(
        &self,
        object_instance: usize,
        resource_id: usize,
        resource_instance: usize,
        reading: NumberReading,
    ) -> (res: Result<(ResourceData, u64), Error>)
        ensures
            if object_instance != 0 {
                res == Err::<(ResourceData, u64), Error>(Error::NonZeroObjectInstance)
            } else if resource_instance != 0 {
                res == Err::<(ResourceData, u64), Error>(Error::NonZeroResourceInstance)
            } else if resource_description(*self.device, resource_id) is None {
                res == Err::<(ResourceData, u64), Error>(Error::NoValueDescription)
            } else if resource_value(*self.device, resource_id) is None {
                res == Err::<(ResourceData, u64), Error>(Error::NoValue)
            } else {
                let description = resource_description(*self.device, resource_id)->0;
                let value = resource_value(*self.device, resource_id)->0;
                match res {
                    Ok((data, timestamp)) => timestamp == value.timestamp && is_reading(
                        Ok(data),
                        description.format,
                        value.data,
                        reading,
                    ),
                    Err(e) => is_reading(Err(e), description.format, value.data, reading),
                }
            },
    {
        if object_instance != 0 {
            return Err(Error::NonZeroObjectInstance);
        }
        if resource_instance != 0 {
            return Err(Error::NonZeroResourceInstance);
        }
        let description = description_by_resource_id(
            self.device.value_descriptions.as_slice(),
            resource_id,
        )?;
        let value = value_by_resource_id(self.device.values.as_slice(), resource_id)?;
        match read_data(&description.format, &value.data, reading) {
            Ok(data) => Ok((data, value.timestamp)),
            Err(e) => Err(e),
        }
    }

    fn set_message(&self, write: &NamedWrite) -> (res: Result<ValueSet, Error>)
        ensures
            is_named_set(res, *self.device, write.name@, write.data),
    {
        let description = description_by_name(
            self.device.value_descriptions.as_slice(),
            write.name.as_str(),
        )?;
        match &write.data {
            WriteData::Number(number) => description.makesetmsg_number(*number),
            WriteData::Text(text) => description.makesetmsg_string(text.as_str()),
            WriteData::Opaque(bytes) => description.makesetmsg_binary(bytes.as_slice()),
            WriteData::Unsupported => Err(Error::UnsupportedData),
        }
    }

    /// The message that writes all these values at once. If one cannot be
    /// written, the first such one decides the error. A device that has to be
    /// woken up may go back to sleep right away.
    pub fn handle_partial_write(&self, object_instance: usize, writes: &[NamedWrite]) -> (res:
        Result<WriteMessage, Error>)
        ensures
            match res {
                Ok(message) => {
                    &&& object_instance == 0
                    &&& message.sets@.len() == writes@.len()
                    &&& forall|i: int|
                        0 <= i < writes@.len() ==> is_named_set(
                            Ok(#[trigger] message.sets@[i]),
                            *self.device,
                            writes@[i].name@,
                            writes@[i].data,
                        )
                    &&& message.go_to_sleep == (if self.device.description.radio_mode
                        == RadioMode::WakeOnRadio {
                        Some(GOTO_SLEEP_IMMEDIATELY)
                    } else {
                        None
                    })
                },
                Err(e) => if object_instance != 0 {
                    e == Error::NonZeroObjectInstance
                } else {
                    exists|i: int|
                        {
                            &&& 0 <= i < writes@.len()
                            &&& is_named_set(
                                Err(e),
                                *self.device,
                                (#[trigger] writes@[i]).name@,
                                writes@[i].data,
                            )
                            &&& forall|j: int|
                                0 <= j < i ==> exists|set: ValueSet| #[trigger]
                                    is_named_set(
                                        Ok(set),
                                        *self.device,
                                        (#[trigger] writes@[j]).name@,
                                        writes@[j].data,
                                    )
                        }
                },
            },
    {
        if object_instance != 0 {
            return Err(Error::NonZeroObjectInstance);
        }
        let mut sets: Vec<ValueSet> = Vec::new();
        let mut i: usize = 0;
        while i < writes.len()
            invariant
                object_instance == 0,
                i <= writes@.len(),
                sets@.len() == i,
                forall|k: int|
                    0 <= k < i ==> is_named_set(
                        Ok(#[trigger] sets@[k]),
                        *self.device,
                        writes@[k].name@,
                        writes@[k].data,
                    ),
            decreases writes@.len() - i,
        {
            match self.set_message(&writes[i]) {
                Err(e) => {
                    assert forall|j: int| 0 <= j < i implies exists|set: ValueSet| #[trigger]
                        is_named_set(
                            Ok(set),
                            *self.device,
                            (#[trigger] writes@[j]).name@,
                            writes@[j].data,
                        ) by {
                        assert(is_named_set(
                            Ok(sets@[j]),
                            *self.device,
                            writes@[j].name@,
                            writes@[j].data,
                        ));
                    }
                    return Err(e);
                },
                Ok(set) => {
                    sets.push(set);
                },
            }
            i += 1;
        }
        Ok(
            WriteMessage {
                sets,
                go_to_sleep: if self.device.description.radio_mode == RadioMode::WakeOnRadio {
                    Some(GOTO_SLEEP_IMMEDIATELY)
                } else {
                    None
                },
            },
        )
    }

    /// The name under which a single value is written.
    pub fn write_resource(&self, resource_id: usize, resource_instance: usize) -> (res: Result<
        &str,
        Error,
    >)
        ensures
            if resource_instance != 0 {
                res == Err::<&str, Error>(Error::NonZeroResourceInstance)
            } else {
                match (resource_description(*self.device, resource_id), res) {
                    (None, Err(e)) => e == Error::NoValueDescription,
                    (Some(description), Ok(name)) => description.name matches Some(n) && n@
                        == name@,
                    (Some(description), Err(e)) => description.name is None && e == Error::NoName,
                    _ => false,
                }
            },
    {
        if resource_instance != 0 {
            return Err(Error::NonZeroResourceInstance);
        }
        self.get_resource_name(resource_id)
    }

    /// The resource id for a name.
    pub fn parse_resource_name(&self, name: &str) -> (res: Result<usize, Error>)
        ensures
            match values::description_named(self.device.value_descriptions@, name@) {
                Some(description) => res == Ok::<usize, Error>(description.id as usize),
                None => res == Err::<usize, Error>(Error::NoValueDescription),
            },
    {
        let description = description_by_name(self.device.value_descriptions.as_slice(), name)?;
        Ok(description.id as usize)
    }

    /// The name for a resource id.
    pub fn get_resource_name(&self, resource_id: usize) -> (res: Result<&str, Error>)
        ensures
            match (resource_description(*self.device, resource_id), res) {
                (None, Err(e)) => e == Error::NoValueDescription,
                (Some(description), Ok(name)) => description.name matches Some(n) && n@ == name@,
                (Some(description), Err(e)) => description.name is None && e == Error::NoName,
                _ => false,
            },
    {
        let description = description_by_resource_id(
            self.device.value_descriptions.as_slice(),
            resource_id,
        )?;
        match &description.name {
            Some(name) => Ok(name.as_str()),
            None => Err(Error::NoName),
        }
    }

    pub fn supported_resource_operations(&self, resource_id: usize) -> (res: Result<
        Operations,
        Error,
    >)
        ensures
            match resource_description(*self.device, resource_id) {
                None => res == Err::<Operations, Error>(Error::NoValueDescription),
                Some(description) => res == Ok::<Operations, Error>(
                    Operations {
                        read: description.permission != Permission::WriteOnly,
                        write: description.permission != Permission::ReadOnly,
                    },
                ),
            },
    {
        let description = description_by_resource_id(
            self.device.value_descriptions.as_slice(),
            resource_id,
        )?;
        Ok(
            match description.permission {
                Permission::ReadOnly => Operations { read: true, write: false },
                Permission::ReadWrite => Operations { read: true, write: true },
                Permission::WriteOnly => Operations { read: false, write: true },
            },
        )
    }
}

/// Whether a report of values confirms new values that were sent at `sent`.
/// There is no confirmation of its own, so any report will do.
pub fn confirms_write(received: Nanos, sent: Nanos) -> (res: bool)
    ensures
        res == (received >= sent),
{
    received >= sent
}

impl Device {
    /// Takes note of new values that were sent to the device. That nothing has
    /// confirmed them is no failure.
    pub fn finish_write(&mut self, confirmation: Confirmation, now: Nanos) -> (res: Result<
        (),
        Error,
    >)
        ensures
            match confirmation {
                Confirmation::Failed(_) => {
                    &&& res == Err::<(), Error>(Error::RequestFailed)
                    &&& *final(self) == *old(self)
                },
                _ => {
                    &&& res is Ok
                    &&& *final(self) == (Device { last_write: Some(now), ..*old(self) })
                },
            },
    {
        match confirmation {
            Confirmation::Failed(_) => Err(Error::RequestFailed),
            Confirmation::Confirmed | Confirmation::TimedOut | Confirmation::QueueClosed => {
                self.last_write = Some(now);
                Ok(())
            },
        }
    }
}

/// Writing is only ever done to values that say that they can be written.
pub proof fn law_only_writable_values_are_written(
    set: ValueSet,
    device: Device,
    name: Seq<char>,
    data: WriteData,
)
    requires
        is_named_set(Ok(set), device, name, data),
    ensures
        values::description_named(device.value_descriptions@, name) matches Some(description)
            && description.is_writable() && set.value_id == description.id,
{
}

/// A resource id stands for the value with that id. One that is too big for an
/// id stands for none.
pub proof fn law_resource_ids(device: Device, id: usize)
    ensures
        id > 0xffff_ffff ==> resource_description(device, id) is None && resource_value(
            device,
            id,
        ) is None,
        id <= 0xffff_ffff ==> {
            &&& resource_description(device, id) == value::description_for(
                device.value_descriptions@,
                id as u32,
            )
            &&& resource_value(device, id) == values::value_for(device.values@, id as u32)
        },
{
}

/// What is read of a value depends on its kind: texts and bytes are handed out
/// as they are, numbers as they were read. A value of another kind than its
/// description says is an error.
pub proof fn law_readings(
    res: Result<ResourceData, Error>,
    format: ValueFormat,
    data: ValueData,
    reading: NumberReading,
)
    ensures
        is_reading(res, format, data, reading) && res is Ok ==> match data {
            ValueData::Number(_) => format is Number,
            ValueData::Text(_) => format is Text,
            ValueData::Binary(_) => format is Binary,
        },
        match (format, data) {
            (ValueFormat::Number { .. }, ValueData::Number(number)) => is_reading(
                res,
                format,
                data,
                reading,
            ) == match reading {
                NumberReading::Float => res matches Ok(ResourceData::Float(n)) && n == number,
                NumberReading::NotANumber => res matches Ok(ResourceData::NoInteger),
                NumberReading::Fraction => res matches Err(Error::HasFraction),
                NumberReading::Negative(k) => res matches Ok(ResourceData::Signed(n)) && n == k,
                NumberReading::Positive(k) => res matches Ok(ResourceData::Unsigned(n)) && n == k,
                NumberReading::TooBig => res matches Err(Error::OutOfRange),
            },
            (ValueFormat::Text { .. }, ValueData::Text(text)) => is_reading(
                res,
                format,
                data,
                reading,
            ) == (res matches Ok(ResourceData::Text(t)) && t@ == text@),
            (ValueFormat::Binary { .. }, ValueData::Binary(bytes)) => is_reading(
                res,
                format,
                data,
                reading,
            ) == (res matches Ok(ResourceData::Opaque(b)) && b@ == bytes@),
            _ => is_reading(res, format, data, reading) == (res matches Err(e) && e
                == Error::TypeMismatch),
        },
{
}

/// What is written goes to the value that is described, with no time, and holds
/// just the data: a number as it is, a text as it is, and bytes by their
/// hexadecimal digits.
pub proof fn law_written_data(set: ValueSet, description: ValueDescription, data: WriteData)
    requires
        is_set_message(Ok(set), description, data),
    ensures
        set.value_id == description.id,
        set.timestamp == 0,
        match data {
            WriteData::Number(number) => set.number == Some(number) && set.text is None
                && set.hex_binary is None,
            WriteData::Text(text) => set.number is None && set.hex_binary is None && (
            set.text matches Some(t) && t@ == text@),
            WriteData::Opaque(bytes) => set.number is None && set.text is None && (
            set.hex_binary matches Some(t) && hexcode::is_hex_text(t@) && hexcode::hex_bytes(t@)
                == bytes@ && forall|i: int|
                0 <= i < t@.len() ==> !('A' <= #[trigger] t@[i] <= 'F')),
            WriteData::Unsupported => false,
        },
{
    if let WriteData::Opaque(bytes) = data {
        hexcode::law_hex_round_trip(bytes@, false);
        let text = set.hex_binary->0@;
        assert forall|i: int| 0 <= i < text.len() implies !('A' <= #[trigger] text[i] <= 'F') by {
            assert(0 <= bytes@[i / 2] as int / 16 < 16);
        }
    }
}

/// Data can be written if it is of the kind that is described, is not longer than
/// allowed, and the value may be written at all. A longest length of 0 does not
/// limit bytes. What is wrong is said in that order.
pub proof fn law_what_can_be_written(
    res: Result<ValueSet, Error>,
    description: ValueDescription,
    data: WriteData,
)
    requires
        is_set_message(res, description, data),
    ensures
        match (data, description.format) {
            (WriteData::Number(_), ValueFormat::Number { .. }) => {
                &&& description.is_writable() ==> res is Ok
                &&& !description.is_writable() ==> res == Err::<ValueSet, Error>(Error::ReadOnlyValue)
            },
            (WriteData::Text(text), ValueFormat::Text { max_length }) => {
                &&& value::text_length(text@) > max_length ==> res == Err::<ValueSet, Error>(Error::ValueTooLong)
                &&& value::text_length(text@) <= max_length && description.is_writable()
                    ==> res is Ok
                &&& value::text_length(text@) <= max_length && !description.is_writable()
                    ==> res == Err::<ValueSet, Error>(Error::ReadOnlyValue)
            },
            (WriteData::Opaque(bytes), ValueFormat::Binary { max_length }) => {
                let fits = bytes@.len() <= max_length || (max_length == 0 && bytes@.len()
                    <= 0xffff_ffff);
                &&& !fits ==> res == Err::<ValueSet, Error>(Error::ValueTooLong)
                &&& fits && description.is_writable() ==> res is Ok
                &&& fits && !description.is_writable() ==> res == Err::<ValueSet, Error>(Error::ReadOnlyValue)
            },
            (WriteData::Unsupported, _) => res matches Err(e) && e == Error::UnsupportedData,
            _ => res matches Err(e) && e == Error::TypeMismatch,
        },
{
}

/// A value is written by its name: the description with that name decides, and
/// without one it is an error.
pub proof fn law_named_values(
    res: Result<ValueSet, Error>,
    device: Device,
    name: Seq<char>,
    data: WriteData,
)
    ensures
        values::description_named(device.value_descriptions@, name) is None ==> (is_named_set(
            res,
            device,
            name,
            data,
        ) <==> (res matches Err(e) && e == Error::NoValueDescription)),
        values::description_named(device.value_descriptions@, name) matches Some(description)
            ==> is_named_set(res, device, name, data) == is_set_message(res, description, data),
{
}

} // verus!
