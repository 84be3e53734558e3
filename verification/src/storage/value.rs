//! Values and their descriptions.

use crate::error::Error;
use crate::error::ValueField;
use crate::hexcode;
use crate::hexcode::decode;
use crate::hexcode::encode;
use crate::hexcode::encode_upper;
use crate::lsdl::Float;
use crate::lsdl::FormatReport;
use crate::lsdl::NAN_BITS;
use crate::lsdl::Permission;
use crate::lsdl::ValueDescriptionReport;
use crate::lsdl::ValueReport;
use crate::lsdl::ValueSet;
use crate::lsdl::ValueType;
use vstd::prelude::*;
use vstd::utf8::*;

verus! {

/// What kind of data a value holds.
#[derive(Clone, Copy, Debug, PartialEq, Eq, Structural)]
pub enum DataType {
    Number,
    Text,
    Binary,
}

/// The format of a value.
#[derive(Debug, PartialEq, Eq)]
pub enum ValueFormat {
    Number { unit: String, min: Float, max: Float, step: Float },
    Binary {
        /// 0 if the length is not known.
        max_length: u32,
    },
    Text { max_length: u32 },
}

/// The data of a value.
#[derive(Debug, PartialEq, Eq)]
pub enum ValueData {
    Number(Float),
    Text(String),
    Binary(Vec<u8>),
}

/// A value of a device.
#[derive(Debug, PartialEq, Eq)]
pub struct Value {
    pub id: u32,
    pub timestamp: u64,
    pub data: ValueData,
}

/// What is known of a value from the device's own description of it.
#[derive(Debug, PartialEq, Eq)]
pub struct ValueDescription {
    pub id: u32,
    pub permission: Permission,
    pub name: Option<String>,
    pub type_id: ValueType,
    pub format: ValueFormat,
    /// Whether the value outlives a loss of power.
    pub persistent: bool,
    pub virtual_value: bool,
}

impl ValueData {
    pub open spec fn data_type(self) -> DataType {
        match self {
            ValueData::Number(_) => DataType::Number,
            ValueData::Text(_) => DataType::Text,
            ValueData::Binary(_) => DataType::Binary,
        }
    }
}

impl ValueFormat {
    pub open spec fn data_type(self) -> DataType {
        match self {
            ValueFormat::Number { .. } => DataType::Number,
            ValueFormat::Text { .. } => DataType::Text,
            ValueFormat::Binary { .. } => DataType::Binary,
        }
    }

    /// Checks that a value holds the data that this format asks for.
    pub fn validate_value_format(&self, value: &Value) -> (res: Result<(), Error>)
        ensures
            res is Ok <==> self.data_type() == value.data.data_type(),
            res matches Err(e) ==> e == Error::TypeMismatch,
    {
        match (self, &value.data) {
            (ValueFormat::Number { .. }, ValueData::Number(_)) => Ok(()),
            (ValueFormat::Binary { .. }, ValueData::Binary(_)) => Ok(()),
            (ValueFormat::Text { .. }, ValueData::Text(_)) => Ok(()),
            _ => Err(Error::TypeMismatch),
        }
    }
}

/// What an empty text stands for: nothing.
pub fn optional_text(text: Option<String>) -> (res: Option<String>)
    ensures
        match text {
            Some(text) => if text@.len() == 0 {
                res is None
            } else {
                res == Some(text)
            },
            None => res is None,
        },
{
    match text {
        Some(text) => {
            if text.as_str().is_empty() {
                None
            } else {
                Some(text)
            }
        },
        None => None,
    }
}

/// A flag that is stored as a number.
pub fn number_flag(number: u64) -> (res: Result<bool, Error>)
    ensures
        match res {
            Ok(flag) => number == (if flag {
                1u64
            } else {
                0u64
            }),
            Err(e) => number > 1 && e == Error::InvalidFlag,
        },
{
    match number {
        0 => Ok(false),
        1 => Ok(true),
        _ => Err(Error::InvalidFlag),
    }
}

/// The value id that a description reports, and all the rest of it, or why it
/// cannot be used.
pub open spec fn report_error(report: ValueDescriptionReport) -> Option<Error> {
    if report.persistent > 1 {
        Some(Error::InvalidFlag)
    } else if report.virtual_value matches Some(flag) && flag > 1 {
        Some(Error::InvalidFlag)
    } else if report.formats@.len() != 1 {
        Some(Error::InvalidFormatCount)
    } else if report.permission is None {
        Some(Error::UnsupportedMode)
    } else if report.value_type is None {
        Some(Error::UnsupportedType)
    } else {
        None
    }
}

/// The same format.
pub open spec fn same_format(format: ValueFormat, report: FormatReport) -> bool {
    match (format, report) {
        (ValueFormat::Number { unit, min, max, step }, FormatReport::Number {
            unit: unit2,
            min: min2,
            max: max2,
            step: step2,
        }) => unit@ == unit2@ && min == min2 && max == max2 && step == step2,
        (ValueFormat::Text { max_length }, FormatReport::Text { max_length: max2 }) => max_length
            == max2,
        (ValueFormat::Binary { max_length }, FormatReport::HexBinary { max_length: max2 }) =>
        max_length == max2,
        _ => false,
    }
}

/// The length of a text in bytes.
pub open spec fn text_length(text: Seq<char>) -> int {
    encode_utf8(text).len() as int
}

impl ValueDescription {
    pub open spec fn is_writable(self) -> bool {
        self.permission != Permission::ReadOnly
    }

    /// Every field says what the report says.
    pub open spec fn is_reported_by(self, report: ValueDescriptionReport) -> bool {
        &&& self.id == report.value_id
        &&& Some(self.permission) == report.permission
        &&& match (self.name, report.name) {
            (Some(name), Some(name2)) => name@ == name2@,
            (None, None) => true,
            _ => false,
        }
        &&& Some(self.type_id) == report.value_type
        &&& same_format(self.format, report.formats@[0])
        &&& self.persistent == (report.persistent == 1)
        &&& self.virtual_value == (report.virtual_value == Some(1u32))
    }

    pub fn new(report: &ValueDescriptionReport) -> (res: Result<Self, Error>)
        ensures
            match res {
                Ok(description) => report_error(*report) is None && description.is_reported_by(
                    *report,
                ),
                Err(e) => report_error(*report) == Some(e),
            },
    {
        let persistent: bool = number_flag(report.persistent as u64)?;
        let virtual_value: bool = match report.virtual_value {
            Some(flag) => number_flag(flag as u64)?,
            None => false,
        };
        if report.formats.len() != 1 {
            return Err(Error::InvalidFormatCount);
        }
        let format = match &report.formats[0] {
            FormatReport::Number { unit, min, max, step } => ValueFormat::Number {
                unit: unit.clone(),
                min: *min,
                max: *max,
                step: *step,
            },
            FormatReport::Text { max_length } => ValueFormat::Text { max_length: *max_length },
            FormatReport::HexBinary { max_length } => ValueFormat::Binary {
                max_length: *max_length,
            },
        };
        let permission = report.permission.ok_or(Error::UnsupportedMode)?;
        let type_id = report.value_type.ok_or(Error::UnsupportedType)?;
        Ok(
            Self {
                id: report.value_id,
                permission,
                name: match &report.name {
                    Some(name) => Some(name.clone()),
                    None => None,
                },
                type_id,
                format,
                persistent,
                virtual_value,
            },
        )
    }

    /// The message that sets this value to a text.
    pub fn makesetmsg_string(&self, s: &str) -> (res: Result<ValueSet, Error>)
        ensures
            match res {
                Ok(set) => {
                    &&& self.format matches ValueFormat::Text { max_length }
                    &&& text_length(s@) <= max_length
                    &&& self.is_writable()
                    &&& set.value_id == self.id
                    &&& set.timestamp == 0
                    &&& set.number is None
                    &&& set.hex_binary is None
                    &&& set.text matches Some(text)
                    &&& text@ == s@
                },
                Err(e) => match self.format {
                    ValueFormat::Text { max_length } => if text_length(s@) > max_length {
                        e == Error::ValueTooLong
                    } else {
                        e == Error::ReadOnlyValue && !self.is_writable()
                    },
                    _ => e == Error::TypeMismatch,
                },
            },
    {
        match &self.format {
            ValueFormat::Text { max_length } => {
                if s.as_bytes().len() > *max_length as usize {
                    return Err(Error::ValueTooLong);
                }
            },
            _ => {
                return Err(Error::TypeMismatch);
            },
        }
        if let Permission::ReadOnly = self.permission {
            return Err(Error::ReadOnlyValue);
        }
        Ok(
            ValueSet {
                value_id: self.id,
                timestamp: 0,
                number: None,
                text: Some(s.to_owned()),
                hex_binary: None,
            },
        )
    }

    /// The message that sets this value to a number. Whether the number is in
    /// range is left to the device.
    pub fn makesetmsg_number(&self, number: Float) -> (res: Result<ValueSet, Error>)
        ensures
            match res {
                Ok(set) => {
                    &&& self.format is Number
                    &&& self.is_writable()
                    &&& set == (ValueSet {
                        value_id: self.id,
                        timestamp: 0,
                        number: Some(number),
                        text: None,
                        hex_binary: None,
                    })
                },
                Err(e) => if self.format is Number {
                    e == Error::ReadOnlyValue && !self.is_writable()
                } else {
                    e == Error::TypeMismatch
                },
            },
    {
        match &self.format {
            ValueFormat::Number { .. } => {},
            _ => {
                return Err(Error::TypeMismatch);
            },
        }
        if let Permission::ReadOnly = self.permission {
            return Err(Error::ReadOnlyValue);
        }
        Ok(
            ValueSet {
                value_id: self.id,
                timestamp: 0,
                number: Some(number),
                text: None,
                hex_binary: None,
            },
        )
    }

    /// The message that sets this value to some bytes. Where the longest length
    /// is not known, any length will do that 32 bits can count.
    pub fn makesetmsg_binary(&self, binary: &[u8]) -> (res: Result<ValueSet, Error>)
        ensures
            match res {
                Ok(set) => {
                    &&& self.format matches ValueFormat::Binary { max_length }
                    &&& binary@.len() <= (if max_length > 0 {
                        max_length
                    } else {
                        u32::MAX
                    })
                    &&& self.is_writable()
                    &&& set.value_id == self.id
                    &&& set.timestamp == 0
                    &&& set.number is None
                    &&& set.text is None
                    &&& set.hex_binary matches Some(text)
                    &&& text@ == hexcode::hex_text(binary@, false)
                },
                Err(e) => match self.format {
                    ValueFormat::Binary { max_length } => if binary@.len() > (if max_length > 0 {
                        max_length
                    } else {
                        u32::MAX
                    }) {
                        e == Error::ValueTooLong
                    } else {
                        e == Error::ReadOnlyValue && !self.is_writable()
                    },
                    _ => e == Error::TypeMismatch,
                },
            },
    {
        match &self.format {
            ValueFormat::Binary { max_length } => {
                if binary.len() > 0xffff_ffff || (*max_length > 0 && binary.len()
                    > *max_length as usize) {
                    return Err(Error::ValueTooLong);
                }
            },
            _ => {
                return Err(Error::TypeMismatch);
            },
        }
        if let Permission::ReadOnly = self.permission {
            return Err(Error::ReadOnlyValue);
        }
        Ok(
            ValueSet {
                value_id: self.id,
                timestamp: 0,
                number: None,
                text: None,
                hex_binary: Some(encode(binary)),
            },
        )
    }
}

/// A field of a stored value, in the order in which they are stored.
#[derive(Debug)]
pub enum StoredField {
    Id(u32),
    Timestamp(u64),
    Value(String),
    /// Anything else is skipped.
    Unknown,
}

/// The field that an entry is for.
pub open spec fn field_of(entry: StoredField) -> Option<ValueField> {
    match entry {
        StoredField::Id(_) => Some(ValueField::Id),
        StoredField::Timestamp(_) => Some(ValueField::Timestamp),
        StoredField::Value(_) => Some(ValueField::Value),
        StoredField::Unknown => None,
    }
}

/// The first entry for a field.
pub open spec fn first_entry(entries: Seq<StoredField>, field: ValueField) -> Option<StoredField>
    decreases entries.len(),
{
    if entries.len() == 0 {
        None
    } else {
        match first_entry(entries.drop_last(), field) {
            Some(entry) => Some(entry),
            None => if field_of(entries.last()) == Some(field) {
                Some(entries.last())
            } else {
                None
            },
        }
    }
}

/// The first field that is stored twice.
pub open spec fn first_duplicate(entries: Seq<StoredField>) -> Option<ValueField>
    decreases entries.len(),
{
    if entries.len() == 0 {
        None
    } else {
        match first_duplicate(entries.drop_last()) {
            Some(field) => Some(field),
            None => match field_of(entries.last()) {
                Some(field) => if first_entry(entries.drop_last(), field) is Some {
                    Some(field)
                } else {
                    None
                },
                None => None,
            },
        }
    }
}

pub open spec fn stored_id(entries: Seq<StoredField>) -> Option<u32> {
    match first_entry(entries, ValueField::Id) {
        Some(StoredField::Id(id)) => Some(id),
        _ => None,
    }
}

pub open spec fn stored_timestamp(entries: Seq<StoredField>) -> Option<u64> {
    match first_entry(entries, ValueField::Timestamp) {
        Some(StoredField::Timestamp(timestamp)) => Some(timestamp),
        _ => None,
    }
}

pub open spec fn stored_text(entries: Seq<StoredField>) -> Option<Seq<char>> {
    match first_entry(entries, ValueField::Value) {
        Some(StoredField::Value(text)) => Some(text@),
        _ => None,
    }
}

/// The first description with this id.
pub open spec fn description_for(descriptions: Seq<ValueDescription>, id: u32) -> Option<
    ValueDescription,
>
    decreases descriptions.len(),
{
    if descriptions.len() == 0 {
        None
    } else {
        match description_for(descriptions.drop_last(), id) {
            Some(description) => Some(description),
            None => if descriptions.last().id == id {
                Some(descriptions.last())
            } else {
                None
            },
        }
    }
}

/// The data that a stored text stands for. Text that cannot be read as what the
/// format asks for gives a value that is not initialised: "not a number", or no
/// bytes.
pub open spec fn is_data_of(
    data: ValueData,
    format: ValueFormat,
    text: Seq<char>,
    number: Option<Float>,
) -> bool {
    match format {
        ValueFormat::Number { .. } => data == ValueData::Number(
            match number {
                Some(number) => number,
                None => Float { bits: NAN_BITS },
            },
        ),
        ValueFormat::Text { .. } => data matches ValueData::Text(t) && t@ == text,
        ValueFormat::Binary { .. } => data matches ValueData::Binary(bytes) && bytes@ == (
        if hexcode::is_hex_text(text) {
            hexcode::hex_bytes(text)
        } else {
            Seq::empty()
        }),
    }
}

proof fn lemma_entries_step(entries: Seq<StoredField>, i: int)
    requires
        0 <= i < entries.len(),
    ensures
        entries.take(i + 1).drop_last() == entries.take(i),
        entries.take(i + 1).last() == entries[i],
{
    assert(entries.take(i + 1).drop_last() =~= entries.take(i));
}

/// Once a field is stored twice, it stays the first one.
proof fn lemma_first_duplicate(entries: Seq<StoredField>, i: int)
    requires
        0 <= i <= entries.len(),
        first_duplicate(entries.take(i)) is Some,
    ensures
        first_duplicate(entries) == first_duplicate(entries.take(i)),
    decreases entries.len() - i,
{
    if i < entries.len() {
        lemma_entries_step(entries, i);
        lemma_first_duplicate(entries, i + 1);
    } else {
        assert(entries.take(i) =~= entries);
    }
}

/// A first entry for a field is an entry for that field.
proof fn lemma_first_entry(entries: Seq<StoredField>, field: ValueField)
    ensures
        first_entry(entries, field) matches Some(entry) ==> field_of(entry) == Some(field),
    decreases entries.len(),
{
    if entries.len() > 0 {
        lemma_first_entry(entries.drop_last(), field);
    }
}

/// What is read from a file of a value.
struct StoredValue {
    id: u32,
    timestamp: u64,
    text: String,
}

/// Collects the fields of a stored value.
fn collect_fields(entries: &[StoredField]) -> (res: Result<StoredValue, Error>)
    ensures
        match res {
            Ok(stored) => {
                &&& first_duplicate(entries@) is None
                &&& stored_id(entries@) == Some(stored.id)
                &&& stored_timestamp(entries@) == Some(stored.timestamp)
                &&& stored_text(entries@) == Some(stored.text@)
            },
            Err(e) => if first_duplicate(entries@) is Some {
                e == Error::DuplicateField(first_duplicate(entries@)->0)
            } else if stored_id(entries@) is None {
                e == Error::MissingField(ValueField::Id)
            } else if stored_timestamp(entries@) is None {
                e == Error::MissingField(ValueField::Timestamp)
            } else {
                e == Error::MissingField(ValueField::Value) && stored_text(entries@) is None
            },
        },
{
    let mut id: Option<u32> = None;
    let mut timestamp: Option<u64> = None;
    let mut text: Option<String> = None;
    let mut i: usize = 0;
    while i < entries.len()
        invariant
            i <= entries@.len(),
            first_duplicate(entries@.take(i as int)) is None,
            id == stored_id(entries@.take(i as int)),
            timestamp == stored_timestamp(entries@.take(i as int)),
            match text {
                Some(text) => stored_text(entries@.take(i as int)) == Some(text@),
                None => stored_text(entries@.take(i as int)) is None,
            },
        decreases entries@.len() - i,
    {
        proof {
            lemma_entries_step(entries@, i as int);
            lemma_first_entry(entries@.take(i as int), ValueField::Id);
            lemma_first_entry(entries@.take(i as int), ValueField::Timestamp);
            lemma_first_entry(entries@.take(i as int), ValueField::Value);
        }
        match &entries[i] {
            StoredField::Id(value) => {
                if id.is_some() {
                    proof {
                        lemma_first_duplicate(entries@, i + 1);
                    }
                    return Err(Error::DuplicateField(ValueField::Id));
                }
                id = Some(*value);
            },
            StoredField::Timestamp(value) => {
                if timestamp.is_some() {
                    proof {
                        lemma_first_duplicate(entries@, i + 1);
                    }
                    return Err(Error::DuplicateField(ValueField::Timestamp));
                }
                timestamp = Some(*value);
            },
            StoredField::Value(value) => {
                if text.is_some() {
                    proof {
                        lemma_first_duplicate(entries@, i + 1);
                    }
                    return Err(Error::DuplicateField(ValueField::Value));
                }
                text = Some(value.clone());
            },
            StoredField::Unknown => {},
        }
        i += 1;
    }
    assert(entries@.take(i as int) =~= entries@);
    let id: u32 = id.ok_or(Error::MissingField(ValueField::Id))?;
    let timestamp: u64 = timestamp.ok_or(Error::MissingField(ValueField::Timestamp))?;
    let text: String = text.ok_or(Error::MissingField(ValueField::Value))?;
    Ok(StoredValue { id, timestamp, text })
}

/// The index of the first description with this id.
pub(crate) fn find_description(descriptions: &[ValueDescription], id: u32) -> (res: Option<usize>)
    ensures
        match res {
            Some(i) => i < descriptions@.len() && description_for(descriptions@, id) == Some(
                descriptions@[i as int],
            ),
            None => description_for(descriptions@, id) is None,
        },
{
    let mut i: usize = 0;
    while i < descriptions.len()
        invariant
            i <= descriptions@.len(),
            description_for(descriptions@.take(i as int), id) is None,
        decreases descriptions@.len() - i,
    {
        proof {
            assert(descriptions@.take(i + 1).drop_last() =~= descriptions@.take(i as int));
        }
        if descriptions[i].id == id {
            proof {
                lemma_description_for(descriptions@, id, i + 1);
            }
            return Some(i);
        }
        i += 1;
    }
    assert(descriptions@.take(i as int) =~= descriptions@);
    None
}

/// A description that was found stays the first one.
proof fn lemma_description_for(descriptions: Seq<ValueDescription>, id: u32, i: int)
    requires
        0 <= i <= descriptions.len(),
        description_for(descriptions.take(i), id) is Some,
    ensures
        description_for(descriptions, id) == description_for(descriptions.take(i), id),
    decreases descriptions.len() - i,
{
    if i < descriptions.len() {
        assert(descriptions.take(i + 1).drop_last() =~= descriptions.take(i));
        lemma_description_for(descriptions, id, i + 1);
    } else {
        assert(descriptions.take(i) =~= descriptions);
    }
}

/// Why a reported value cannot be used.
pub open spec fn value_error(report: ValueReport) -> Option<Error> {
    let given = (if report.number is Some {
        1int
    } else {
        0
    }) + (if report.text is Some {
        1int
    } else {
        0
    }) + (if report.hex_binary is Some {
        1int
    } else {
        0
    });
    if given > 1 {
        Some(Error::MultipleTypes)
    } else if given == 0 {
        Some(Error::NoType)
    } else if report.hex_binary matches Some(text) && !hexcode::is_hex_text(text@) {
        Some(Error::InvalidHex)
    } else if report.value_id is None {
        Some(Error::MissingValueId)
    } else {
        None
    }
}

impl Value {
    /// Every field says what the report says.
    pub open spec fn is_reported_by(self, report: ValueReport) -> bool {
        &&& report.value_id == Some(self.id)
        &&& self.timestamp == report.timestamp
        &&& match self.data {
            ValueData::Number(number) => report.number == Some(number),
            ValueData::Text(text) => report.text matches Some(t) && t@ == text@,
            ValueData::Binary(bytes) => report.hex_binary matches Some(t) && bytes@
                == hexcode::hex_bytes(t@),
        }
    }

    pub fn new(report: &ValueReport) -> (res: Result<Self, Error>)
        ensures
            match res {
                Ok(value) => value_error(*report) is None && value.is_reported_by(*report),
                Err(e) => value_error(*report) == Some(e),
            },
    {
        let data = if let Some(number) = report.number {
            if report.text.is_some() || report.hex_binary.is_some() {
                return Err(Error::MultipleTypes);
            }
            ValueData::Number(number)
        } else if let Some(text) = &report.text {
            if report.hex_binary.is_some() {
                return Err(Error::MultipleTypes);
            }
            ValueData::Text(text.clone())
        } else if let Some(text) = &report.hex_binary {
            match decode(text.as_str()) {
                Ok(bytes) => ValueData::Binary(bytes),
                Err(_) => {
                    return Err(Error::InvalidHex);
                },
            }
        } else {
            return Err(Error::NoType);
        };
        let id: u32 = report.value_id.ok_or(Error::MissingValueId)?;
        Ok(Self { id, timestamp: report.timestamp, data })
    }

    /// The value that a file holds. What its text means depends on the
    /// description with the same id; `number` is what the text reads as a
    /// floating point number, if it does.
    pub fn load(
        entries: &[StoredField],
        number: Option<Float>,
        descriptions: &[ValueDescription],
    ) -> (res: Result<Self, Error>)
        ensures
            match res {
                Ok(value) => {
                    &&& first_duplicate(entries@) is None
                    &&& stored_id(entries@) == Some(value.id)
                    &&& stored_timestamp(entries@) == Some(value.timestamp)
                    &&& stored_text(entries@) matches Some(text)
                    &&& description_for(descriptions@, value.id) matches Some(description)
                    &&& is_data_of(value.data, description.format, text, number)
                },
                Err(e) => if first_duplicate(entries@) is Some {
                    e == Error::DuplicateField(first_duplicate(entries@)->0)
                } else if stored_id(entries@) is None {
                    e == Error::MissingField(ValueField::Id)
                } else if stored_timestamp(entries@) is None {
                    e == Error::MissingField(ValueField::Timestamp)
                } else if stored_text(entries@) is None {
                    e == Error::MissingField(ValueField::Value)
                } else {
                    &&& e == Error::NoValueDescription
                    &&& description_for(descriptions@, stored_id(entries@)->0) is None
                },
            },
    {
        let stored = collect_fields(entries)?;
        let index: usize = find_description(descriptions, stored.id).ok_or(
            Error::NoValueDescription,
        )?;
        let data = match &descriptions[index].format {
            ValueFormat::Number { .. } => ValueData::Number(
                match number {
                    Some(number) => number,
                    None => Float { bits: NAN_BITS },
                },
            ),
            ValueFormat::Text { .. } => ValueData::Text(stored.text),
            ValueFormat::Binary { .. } => match decode(stored.text.as_str()) {
                Ok(bytes) => ValueData::Binary(bytes),
                Err(_) => ValueData::Binary(Vec::new()),
            },
        };
        Ok(Self { id: stored.id, timestamp: stored.timestamp, data })
    }

    pub fn as_number(&self) -> (res: Result<Float, Error>)
        ensures
            match self.data {
                ValueData::Number(number) => res == Ok::<Float, Error>(number),
                _ => res == Err::<Float, Error>(Error::TypeMismatch),
            },
    {
        match &self.data {
            ValueData::Number(number) => Ok(*number),
            _ => Err(Error::TypeMismatch),
        }
    }

    pub fn as_string(&self) -> (res: Result<&str, Error>)
        ensures
            match (self.data, res) {
                (ValueData::Text(text), Ok(res)) => res@ == text@,
                (ValueData::Text(_), Err(_)) => false,
                (_, Ok(_)) => false,
                (_, Err(e)) => e == Error::TypeMismatch,
            },
    {
        match &self.data {
            ValueData::Text(text) => Ok(text.as_str()),
            _ => Err(Error::TypeMismatch),
        }
    }

    pub fn as_binary(&self) -> (res: Result<&[u8], Error>)
        ensures
            match (self.data, res) {
                (ValueData::Binary(bytes), Ok(res)) => res@ == bytes@,
                (ValueData::Binary(_), Err(_)) => false,
                (_, Ok(_)) => false,
                (_, Err(e)) => e == Error::TypeMismatch,
            },
    {
        match &self.data {
            ValueData::Binary(bytes) => Ok(bytes.as_slice()),
            _ => Err(Error::TypeMismatch),
        }
    }

    pub fn data(&self) -> (res: &ValueData)
        ensures
            *res == self.data,
    {
        &self.data
    }

    pub fn set_number(&mut self, number: Float) -> (res: Result<(), Error>)
        ensures
            final(self).id == old(self).id,
            final(self).timestamp == old(self).timestamp,
            match old(self).data {
                ValueData::Number(_) => res is Ok && final(self).data == ValueData::Number(number),
                _ => res == Err::<(), Error>(Error::TypeMismatch) && final(self).data == old(
                    self,
                ).data,
            },
    {
        match &self.data {
            ValueData::Number(_) => {
                self.data = ValueData::Number(number);
                Ok(())
            },
            _ => Err(Error::TypeMismatch),
        }
    }

    pub fn set_string(&mut self, s: &str) -> (res: Result<(), Error>)
        ensures
            final(self).id == old(self).id,
            final(self).timestamp == old(self).timestamp,
            match old(self).data {
                ValueData::Text(_) => {
                    &&& res is Ok
                    &&& final(self).data matches ValueData::Text(text)
                    &&& text@ == s@
                },
                _ => res == Err::<(), Error>(Error::TypeMismatch) && final(self).data == old(
                    self,
                ).data,
            },
    {
        match &self.data {
            ValueData::Text(_) => {
                self.data = ValueData::Text(s.to_owned());
                Ok(())
            },
            _ => Err(Error::TypeMismatch),
        }
    }

    pub fn set_binary(&mut self, binary: &[u8]) -> (res: Result<(), Error>)
        ensures
            final(self).id == old(self).id,
            final(self).timestamp == old(self).timestamp,
            match old(self).data {
                ValueData::Binary(_) => {
                    &&& res is Ok
                    &&& final(self).data matches ValueData::Binary(bytes)
                    &&& bytes@ == binary@
                },
                _ => res == Err::<(), Error>(Error::TypeMismatch) && final(self).data == old(
                    self,
                ).data,
            },
    {
        match &self.data {
            ValueData::Binary(_) => {
                self.data = ValueData::Binary(vstd::slice::slice_to_vec(binary));
                Ok(())
            },
            _ => Err(Error::TypeMismatch),
        }
    }

    pub fn same_type(&self, other: &Value) -> (res: bool)
        ensures
            res == (self.data.data_type() == other.data.data_type()),
    {
        match (&self.data, &other.data) {
            (ValueData::Number(_), ValueData::Number(_)) => true,
            (ValueData::Text(_), ValueData::Text(_)) => true,
            (ValueData::Binary(_), ValueData::Binary(_)) => true,
            _ => false,
        }
    }
}

/// A 32 bit number that is stored as an unsigned one of 64 bits.
pub fn unsigned_u32(number: u64) -> (res: Result<u32, Error>)
    ensures
        match res {
            Ok(value) => value == number,
            Err(e) => number > u32::MAX && e == Error::OutOfRange,
        },
{
    if number <= 0xffff_ffff {
        Ok(number as u32)
    } else {
        Err(Error::OutOfRange)
    }
}

/// A 32 bit number that is stored as a signed one of 64 bits.
pub fn signed_u32(number: i64) -> (res: Result<u32, Error>)
    ensures
        match res {
            Ok(value) => value == number,
            Err(e) => !(0 <= number <= u32::MAX) && e == Error::OutOfRange,
        },
{
    if 0 <= number && number <= 0xffff_ffff {
        Ok(number as u32)
    } else {
        Err(Error::OutOfRange)
    }
}

/// The text that is stored for some data: bytes in upper case digits, and a
/// number as it is written out.
pub open spec fn saved_text(data: ValueData, number_text: Seq<char>) -> Seq<char> {
    match data {
        ValueData::Number(_) => number_text,
        ValueData::Text(text) => text@,
        ValueData::Binary(bytes) => hexcode::hex_text(bytes@, true),
    }
}

impl ValueData {
    /// The text that is stored for this data. `number_text` is how a number is
    /// written out.
    pub fn to_stored_text(&self, number_text: &str) -> (res: String)
        ensures
            res@ == saved_text(*self, number_text@),
    {
        match self {
            ValueData::Number(_) => number_text.to_owned(),
            ValueData::Text(text) => text.clone(),
            ValueData::Binary(bytes) => encode_upper(bytes.as_slice()),
        }
    }

    /// The text that is shown for this data. `number_text` is how a number is
    /// written out.
    pub fn to_text(&self, number_text: &str) -> (res: String)
        ensures
            res@ == (match self {
                ValueData::Number(_) => number_text@,
                ValueData::Text(text) => text@,
                ValueData::Binary(bytes) => "0x"@ + hexcode::hex_text(bytes@, false),
            }),
    {
        match self {
            ValueData::Number(_) => number_text.to_owned(),
            ValueData::Text(text) => text.clone(),
            ValueData::Binary(bytes) => {
                let prefix: String = "0x".to_owned();
                prefix.concat(encode(bytes.as_slice()).as_str())
            },
        }
    }
}

/// What was stored reads back as the same data, as long as the format is of the
/// data's type and a number reads back as the number that was written out.
pub proof fn law_stored_value_reads_back(
    data: ValueData,
    format: ValueFormat,
    number_text: Seq<char>,
    number: Option<Float>,
)
    requires
        format.data_type() == data.data_type(),
        data matches ValueData::Number(n) ==> number == Some(n),
    ensures
        is_data_of(data, format, saved_text(data, number_text), number),
{
    if let ValueData::Binary(bytes) = data {
        hexcode::law_hex_round_trip(bytes@, true);
    }
}

/// A value that is loaded always has the type that its description asks for.
pub proof fn law_loaded_value_fits_description(
    data: ValueData,
    format: ValueFormat,
    text: Seq<char>,
    number: Option<Float>,
)
    requires
        is_data_of(data, format, text, number),
    ensures
        data.data_type() == format.data_type(),
{
}

/// Numbers, texts and bytes are told apart, in values and in formats alike.
pub proof fn law_types_are_told_apart(data: ValueData, format: ValueFormat)
    ensures
        data.data_type() == format.data_type() <==> (data is Number && format is Number) || (
        data is Text && format is Text) || (data is Binary && format is Binary),
{
}

/// Two values have the same type just if both are numbers, texts or bytes.
pub proof fn law_types_of_data(a: ValueData, b: ValueData)
    ensures
        a.data_type() == b.data_type() <==> (a is Number && b is Number) || (a is Text && b
            is Text) || (a is Binary && b is Binary),
{
}

/// A value can be written unless its description says that it can only be read.
pub proof fn law_writable_values(description: ValueDescription)
    ensures
        description.permission == Permission::ReadOnly ==> !description.is_writable(),
        description.permission == Permission::ReadWrite ==> description.is_writable(),
        description.permission == Permission::WriteOnly ==> description.is_writable(),
{
}

/// A text is as long as its bytes: at least one for each character, and no more
/// than one for plain ones.
pub proof fn law_text_length(text: Seq<char>)
    ensures
        is_ascii_chars(text) ==> text_length(text) == text.len(),
        text_length(text) == encode_utf8(text).len(),
{
    if is_ascii_chars(text) {
        is_ascii_chars_encode_utf8(text);
    }
}

/// A report of a description can be used if its flags are flags, its mode and
/// its type are known, and it has just one format; otherwise the first of these
/// that is not so is the reason.
pub proof fn law_usable_description_reports(report: ValueDescriptionReport)
    ensures
        report_error(report) is None <==> {
            &&& report.persistent == 0 || report.persistent == 1
            &&& report.virtual_value is None || report.virtual_value == Some(0u32)
                || report.virtual_value == Some(1u32)
            &&& report.formats@.len() == 1
            &&& report.permission is Some
            &&& report.value_type is Some
        },
        report_error(report) == Some(Error::InvalidFlag) <==> report.persistent > 1 || (
        report.virtual_value is Some && report.virtual_value->0 > 1),
        report_error(report) == Some(Error::InvalidFormatCount) ==> report.formats@.len() != 1,
        report_error(report) == Some(Error::UnsupportedMode) ==> report.formats@.len() == 1
            && report.permission is None,
        report_error(report) == Some(Error::UnsupportedType) ==> report.formats@.len() == 1
            && report.permission is Some && report.value_type is None,
        report_error(report) matches Some(e) ==> e == Error::InvalidFlag || e
            == Error::InvalidFormatCount || e == Error::UnsupportedMode || e
            == Error::UnsupportedType,
{
}

/// A description says of a value what the report says, and nothing else: two
/// descriptions of the same report do not differ.
pub proof fn law_description_says_what_is_reported(
    description: ValueDescription,
    report: ValueDescriptionReport,
)
    requires
        report_error(report) is None,
        description.is_reported_by(report),
    ensures
        description.id == report.value_id,
        report.permission == Some(description.permission),
        report.value_type == Some(description.type_id),
        description.persistent ==> report.persistent == 1,
        !description.persistent ==> report.persistent == 0,
        description.virtual_value ==> report.virtual_value == Some(1u32),
        !description.virtual_value ==> report.virtual_value is None || report.virtual_value == Some(
            0u32,
        ),
        description.name is None <==> report.name is None,
        description.name matches Some(name) ==> name@ == report.name->0@,
        description.format matches ValueFormat::Number { unit, min, max, step } ==> (
        report.formats@[0] matches FormatReport::Number { unit: u, min: a, max: b, step: s }
            && unit@ == u@ && min == a && max == b && step == s),
        description.format matches ValueFormat::Text { max_length } ==> (
        report.formats@[0] matches FormatReport::Text { max_length: longest } && max_length
            == longest),
        description.format matches ValueFormat::Binary { max_length } ==> (
        report.formats@[0] matches FormatReport::HexBinary { max_length: longest } && max_length
            == longest),
{
}

/// A reported value has an id and exactly one kind of data, and bytes are given
/// as hexadecimal text.
pub proof fn law_usable_values(report: ValueReport)
    ensures
        value_error(report) is None <==> {
            &&& report.value_id is Some
            &&& (report.number is Some && report.text is None && report.hex_binary is None) || (
            report.number is None && report.text is Some && report.hex_binary is None) || (
            report.number is None && report.text is None && report.hex_binary is Some
                && hexcode::is_hex_text(report.hex_binary->0@))
        },
        value_error(report) == Some(Error::NoType) <==> report.number is None && report.text is None
            && report.hex_binary is None,
        value_error(report) == Some(Error::MultipleTypes) <==> (report.number is Some && report.text
            is Some) || (report.number is Some && report.hex_binary is Some) || (report.text is Some
            && report.hex_binary is Some),
        value_error(report) == Some(Error::InvalidHex) <==> report.number is None && report.text
            is None && report.hex_binary is Some && !hexcode::is_hex_text(report.hex_binary->0@),
        value_error(report) matches Some(e) ==> e == Error::NoType || e == Error::MultipleTypes || e
            == Error::InvalidHex || e == Error::MissingValueId,
{
}

/// A value is what was reported: its id, its time, and its data of the kind that
/// was given.
pub proof fn law_value_says_what_is_reported(value: Value, report: ValueReport)
    requires
        value_error(report) is None,
        value.is_reported_by(report),
    ensures
        report.value_id == Some(value.id),
        report.timestamp == value.timestamp,
        report.number is Some ==> value.data == ValueData::Number(report.number->0),
        report.text is Some ==> (value.data matches ValueData::Text(text) && text@
            == report.text->0@),
        report.hex_binary is Some ==> (value.data matches ValueData::Binary(bytes) && bytes@
            == hexcode::hex_bytes(report.hex_binary->0@)),
{
}

/// Entries for the same field. What is not known is for none.
pub open spec fn is_same_field(a: StoredField, b: StoredField) -> bool {
    ||| a is Id && b is Id
    ||| a is Timestamp && b is Timestamp
    ||| a is Value && b is Value
}

/// Whether an entry before `i` is for the same field.
pub open spec fn is_repeated(entries: Seq<StoredField>, i: int) -> bool {
    exists|k: int| 0 <= k < i && is_same_field(#[trigger] entries[k], entries[i])
}

proof fn lemma_first_entry_is_first(entries: Seq<StoredField>, field: ValueField)
    ensures
        match first_entry(entries, field) {
            Some(entry) => exists|i: int|
                {
                    &&& 0 <= i < entries.len()
                    &&& #[trigger] entries[i] == entry
                    &&& field_of(entry) == Some(field)
                    &&& forall|k: int|
                        0 <= k < i ==> field_of(#[trigger] entries[k]) != Some(field)
                },
            None => forall|k: int|
                0 <= k < entries.len() ==> field_of(#[trigger] entries[k]) != Some(field),
        },
    decreases entries.len(),
{
    if entries.len() > 0 {
        let rest = entries.drop_last();
        lemma_first_entry_is_first(rest, field);
        if first_entry(rest, field) is Some {
            let entry = first_entry(rest, field)->0;
            let i = choose|i: int|
                {
                    &&& 0 <= i < rest.len()
                    &&& #[trigger] rest[i] == entry
                    &&& field_of(entry) == Some(field)
                    &&& forall|k: int| 0 <= k < i ==> field_of(#[trigger] rest[k]) != Some(field)
                };
            assert(entries[i] == entry);
            assert forall|k: int| 0 <= k < i implies field_of(#[trigger] entries[k]) != Some(
                field,
            ) by {
                assert(rest[k] == entries[k]);
            }
        } else {
            assert forall|k: int| 0 <= k < rest.len() implies field_of(#[trigger] entries[k])
                != Some(field) by {
                assert(rest[k] == entries[k]);
            }
            if field_of(entries.last()) == Some(field) {
                assert(entries[entries.len() - 1] == entries.last());
            }
        }
    }
}

/// What is stored is read from the first entry for each field, wherever it
/// stands among others, and is missing only if there is none.
pub proof fn law_stored_fields_are_found(entries: Seq<StoredField>, i: int)
    requires
        0 <= i < entries.len(),
        !is_repeated(entries, i),
    ensures
        entries[i] matches StoredField::Id(id) ==> stored_id(entries) == Some(id),
        entries[i] matches StoredField::Timestamp(timestamp) ==> stored_timestamp(entries) == Some(
            timestamp,
        ),
        entries[i] matches StoredField::Value(text) ==> stored_text(entries) == Some(text@),
{
    let field = field_of(entries[i]);
    if field is Some {
        lemma_first_entry_is_first(entries, field->0);
        if first_entry(entries, field->0) is Some {
            let entry = first_entry(entries, field->0)->0;
            let j = choose|j: int|
                {
                    &&& 0 <= j < entries.len()
                    &&& #[trigger] entries[j] == entry
                    &&& field_of(entry) == field
                    &&& forall|k: int| 0 <= k < j ==> field_of(#[trigger] entries[k]) != field
                };
            if j < i {
                assert(is_same_field(entries[j], entries[i]));
            }
            assert(!(i < j)) by {
                if i < j {
                    assert(field_of(entries[i]) != field);
                }
            }
        }
    }
}

/// A field is missing only if there is no entry for it.
pub proof fn law_missing_fields(entries: Seq<StoredField>, i: int)
    requires
        0 <= i < entries.len(),
    ensures
        stored_id(entries) is None ==> !(entries[i] is Id),
        stored_timestamp(entries) is None ==> !(entries[i] is Timestamp),
        stored_text(entries) is None ==> !(entries[i] is Value),
{
    lemma_first_entry_is_first(entries, ValueField::Id);
    lemma_first_entry_is_first(entries, ValueField::Timestamp);
    lemma_first_entry_is_first(entries, ValueField::Value);
    lemma_first_entry(entries, ValueField::Id);
    lemma_first_entry(entries, ValueField::Timestamp);
    lemma_first_entry(entries, ValueField::Value);
}

proof fn lemma_no_duplicate(entries: Seq<StoredField>, i: int)
    requires
        0 <= i <= entries.len(),
        forall|k: int| 0 <= k < i ==> !is_repeated(entries, k),
    ensures
        first_duplicate(entries.take(i)) is None,
    decreases i,
{
    if i > 0 {
        lemma_entries_step(entries, i - 1);
        lemma_no_duplicate(entries, i - 1);
        let last = entries[i - 1];
        assert(!is_repeated(entries, i - 1));
        if field_of(last) is Some {
            let before = entries.take(i - 1);
            lemma_first_entry_is_first(before, field_of(last)->0);
            if first_entry(before, field_of(last)->0) is Some {
                let entry = first_entry(before, field_of(last)->0)->0;
                let j = choose|j: int|
                    {
                        &&& 0 <= j < before.len()
                        &&& #[trigger] before[j] == entry
                        &&& field_of(entry) == field_of(last)
                        &&& forall|k: int|
                            0 <= k < j ==> field_of(#[trigger] before[k]) != field_of(last)
                    };
                assert(is_same_field(entries[j], entries[i - 1]));
            }
        }
    }
}

/// A field that is stored twice is an error, and the one whose second entry
/// comes first is named. What is not known may be stored as often as it likes.
pub proof fn law_repeated_fields(entries: Seq<StoredField>, i: int)
    requires
        0 <= i <= entries.len(),
        forall|k: int| 0 <= k < i ==> !is_repeated(entries, k),
    ensures
        i == entries.len() ==> first_duplicate(entries) is None,
        i < entries.len() && is_repeated(entries, i) ==> first_duplicate(entries) == Some(
            match entries[i] {
                StoredField::Id(_) => ValueField::Id,
                StoredField::Timestamp(_) => ValueField::Timestamp,
                _ => ValueField::Value,
            },
        ),
{
    lemma_no_duplicate(entries, i);
    if i == entries.len() {
        assert(entries.take(i) =~= entries);
    } else if is_repeated(entries, i) {
        lemma_entries_step(entries, i);
        let k = choose|k: int| 0 <= k < i && is_same_field(#[trigger] entries[k], entries[i]);
        let before = entries.take(i);
        let field = field_of(entries[i])->0;
        lemma_first_entry_is_first(before, field);
        assert(before[k] == entries[k]);
        assert(first_entry(before, field) is Some);
        lemma_first_duplicate(entries, i + 1);
    }
}

/// A description is found by the id of its value if there is one: the first.
pub proof fn law_description_is_found(descriptions: Seq<ValueDescription>, id: u32, i: int)
    requires
        0 <= i < descriptions.len(),
    ensures
        descriptions[i].id == id && (forall|j: int|
            0 <= j < i ==> (#[trigger] descriptions[j]).id != id) ==> description_for(
            descriptions,
            id,
        ) == Some(descriptions[i]),
        description_for(descriptions, id) is None ==> descriptions[i].id != id,
        description_for(descriptions, id) matches Some(description) ==> description.id == id,
    decreases descriptions.len(),
{
    let rest = descriptions.drop_last();
    lemma_none_described(rest, id);
    if i < rest.len() {
        law_description_is_found(rest, id, i);
        assert(rest[i] == descriptions[i]);
        if forall|j: int| 0 <= j < i ==> (#[trigger] descriptions[j]).id != id {
            assert forall|j: int| 0 <= j < i implies (#[trigger] rest[j]).id != id by {
                assert(rest[j] == descriptions[j]);
            }
        }
    } else {
        if rest.len() > 0 {
            law_description_is_found(rest, id, 0);
        }
        if forall|j: int| 0 <= j < i ==> (#[trigger] descriptions[j]).id != id {
            assert forall|j: int| 0 <= j < rest.len() implies (#[trigger] rest[j]).id != id by {
                assert(rest[j] == descriptions[j]);
            }
        }
    }
}

proof fn lemma_none_described(descriptions: Seq<ValueDescription>, id: u32)
    ensures
        (forall|j: int| 0 <= j < descriptions.len() ==> (#[trigger] descriptions[j]).id != id)
            ==> description_for(descriptions, id) is None,
    decreases descriptions.len(),
{
    if descriptions.len() > 0 {
        let rest = descriptions.drop_last();
        lemma_none_described(rest, id);
        if forall|j: int| 0 <= j < descriptions.len() ==> (#[trigger] descriptions[j]).id != id {
            assert forall|j: int| 0 <= j < rest.len() implies (#[trigger] rest[j]).id != id by {
                assert(rest[j] == descriptions[j]);
            }
            assert(descriptions[descriptions.len() - 1].id != id);
        }
    }
}

/// A stored text is the text itself, the number that it reads as, or the bytes
/// that it stands for. What cannot be read is "not a number", or no bytes.
pub proof fn law_loaded_data(
    data: ValueData,
    format: ValueFormat,
    text: Seq<char>,
    number: Option<Float>,
)
    requires
        is_data_of(data, format, text, number),
    ensures
        format is Text ==> (data matches ValueData::Text(t) && t@ == text),
        format is Number && number is Some ==> data == ValueData::Number(number->0),
        format is Number && number is None ==> data == ValueData::Number(
            Float { bits: 0x7ff8_0000_0000_0000 },
        ),
        format is Binary && !hexcode::is_hex_text(text) ==> (data matches ValueData::Binary(bytes)
            && bytes@.len() == 0),
        format is Binary && hexcode::is_hex_text(text) ==> (data matches ValueData::Binary(bytes)
            && bytes@ == hexcode::hex_bytes(text)),
{
}

/// What is stored for data is the text itself, a number as it is written out,
/// or the bytes in digits, of which letters are in upper case.
pub proof fn law_stored_text(data: ValueData, number_text: Seq<char>)
    ensures
        data is Number ==> saved_text(data, number_text) == number_text,
        data matches ValueData::Text(text) ==> saved_text(data, number_text) == text@,
        data matches ValueData::Binary(bytes) ==> {
            let text = saved_text(data, number_text);
            &&& text.len() == 2 * bytes@.len()
            &&& hexcode::is_hex_text(text)
            &&& hexcode::hex_bytes(text) == bytes@
            &&& forall|i: int| 0 <= i < text.len() ==> !('a' <= #[trigger] text[i] <= 'f')
        },
{
    if let ValueData::Binary(bytes) = data {
        hexcode::law_hex_round_trip(bytes@, true);
        let text = saved_text(data, number_text);
        assert forall|i: int| 0 <= i < text.len() implies !('a' <= #[trigger] text[i] <= 'f') by {
            assert(0 <= bytes@[i / 2] as int / 16 < 16);
        }
    }
}

} // verus!
