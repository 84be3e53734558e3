//! The values of a device: finding them, checking them against their
//! descriptions, and taking over what the device reports.

use crate::device::Device;
use crate::error::Error;
use crate::storage::value;
use crate::storage::value::Value;
use crate::storage::value::ValueDescription;
use crate::utils::text_is;
use vstd::prelude::*;

verus! {

/// How far a reported time may be off, in milliseconds.
pub const MAX_TIMESTAMP_DELTA: u64 = 60_000;

/// Whether a description is for this name.
pub open spec fn has_name(description: ValueDescription, name: Seq<char>) -> bool {
    description.name matches Some(n) && n@ == name
}

/// The first description with this name.
pub open spec fn description_named(descriptions: Seq<ValueDescription>, name: Seq<char>) -> Option<
    ValueDescription,
>
    decreases descriptions.len(),
{
    if descriptions.len() == 0 {
        None
    } else {
        match description_named(descriptions.drop_last(), name) {
            Some(description) => Some(description),
            None => if has_name(descriptions.last(), name) {
                Some(descriptions.last())
            } else {
                None
            },
        }
    }
}

/// The first value with this id.
pub open spec fn value_for(values: Seq<Value>, id: u32) -> Option<Value>
    decreases values.len(),
{
    if values.len() == 0 {
        None
    } else {
        match value_for(values.drop_last(), id) {
            Some(value) => Some(value),
            None => if values.last().id == id {
                Some(values.last())
            } else {
                None
            },
        }
    }
}

/// `i` is the first value with this id.
pub open spec fn is_first_value(values: Seq<Value>, id: u32, i: int) -> bool {
    &&& 0 <= i < values.len()
    &&& values[i].id == id
    &&& forall|j: int| 0 <= j < i ==> (#[trigger] values[j]).id != id
}

proof fn lemma_value_for(values: Seq<Value>, id: u32, i: int)
    requires
        0 <= i <= values.len(),
        value_for(values.take(i), id) is Some,
    ensures
        value_for(values, id) == value_for(values.take(i), id),
    decreases values.len() - i,
{
    if i < values.len() {
        assert(values.take(i + 1).drop_last() =~= values.take(i));
        lemma_value_for(values, id, i + 1);
    } else {
        assert(values.take(i) =~= values);
    }
}

proof fn lemma_description_named(descriptions: Seq<ValueDescription>, name: Seq<char>, i: int)
    requires
        0 <= i <= descriptions.len(),
        description_named(descriptions.take(i), name) is Some,
    ensures
        description_named(descriptions, name) == description_named(descriptions.take(i), name),
    decreases descriptions.len() - i,
{
    if i < descriptions.len() {
        assert(descriptions.take(i + 1).drop_last() =~= descriptions.take(i));
        lemma_description_named(descriptions, name, i + 1);
    } else {
        assert(descriptions.take(i) =~= descriptions);
    }
}

/// The index of the first value with this id.
pub fn find_value(values: &[Value], id: u32) -> (res: Option<usize>)
    ensures
        match res {
            Some(i) => is_first_value(values@, id, i as int) && value_for(values@, id) == Some(
                values@[i as int],
            ),
            None => value_for(values@, id) is None && forall|j: int|
                0 <= j < values@.len() ==> (#[trigger] values@[j]).id != id,
        },
{
    let mut i: usize = 0;
    while i < values.len()
        invariant
            i <= values@.len(),
            value_for(values@.take(i as int), id) is None,
            forall|j: int| 0 <= j < i ==> (#[trigger] values@[j]).id != id,
        decreases values@.len() - i,
    {
        proof {
            assert(values@.take(i + 1).drop_last() =~= values@.take(i as int));
        }
        if values[i].id == id {
            proof {
                lemma_value_for(values@, id, i + 1);
            }
            return Some(i);
        }
        i += 1;
    }
    assert(values@.take(i as int) =~= values@);
    None
}

/// The first description with this name.
pub fn description_by_name<'a>(descriptions: &'a [ValueDescription], name: &str) -> (res: Result<
    &'a ValueDescription,
    Error,
>)
    ensures
        match res {
            Ok(description) => description_named(descriptions@, name@) == Some(*description),
            Err(e) => e == Error::NoValueDescription && description_named(
                descriptions@,
                name@,
            ) is None,
        },
{
    let mut i: usize = 0;
    while i < descriptions.len()
        invariant
            i <= descriptions@.len(),
            description_named(descriptions@.take(i as int), name@) is None,
        decreases descriptions@.len() - i,
    {
        proof {
            assert(descriptions@.take(i + 1).drop_last() =~= descriptions@.take(i as int));
        }
        let found: bool = match &descriptions[i].name {
            Some(n) => text_is(n, name),
            None => false,
        };
        if found {
            proof {
                lemma_description_named(descriptions@, name@, i + 1);
            }
            return Ok(&descriptions[i]);
        }
        i += 1;
    }
    assert(descriptions@.take(i as int) =~= descriptions@);
    Err(Error::NoValueDescription)
}

/// The first description with this resource id, which is its value id.
pub fn description_by_resource_id<'a>(descriptions: &'a [ValueDescription], id: usize) -> (res:
    Result<&'a ValueDescription, Error>)
    ensures
        match res {
            Ok(description) => id <= u32::MAX && value::description_for(descriptions@, id as u32) == Some(
                *description,
            ),
            Err(e) => e == Error::NoValueDescription && (id > u32::MAX || value::description_for(
                descriptions@,
                id as u32,
            ) is None),
        },
{
    if id > 0xffff_ffff {
        return Err(Error::NoValueDescription);
    }
    match crate::storage::value::find_description(descriptions, id as u32) {
        Some(i) => Ok(&descriptions[i]),
        None => Err(Error::NoValueDescription),
    }
}

/// The first value with this resource id, which is its value id.
pub fn value_by_resource_id(values: &[Value], id: usize) -> (res: Result<&Value, Error>)
    ensures
        match res {
            Ok(value) => id <= u32::MAX && value_for(values@, id as u32) == Some(*value),
            Err(e) => e == Error::NoValue && (id > u32::MAX || value_for(values@, id as u32)
                is None),
        },
{
    if id > 0xffff_ffff {
        return Err(Error::NoValue);
    }
    match find_value(values, id as u32) {
        Some(i) => Ok(&values[i]),
        None => Err(Error::NoValue),
    }
}

/// Whether there is a value of the right type for each description from `i` on;
/// if not, what is wrong with the first one.
pub open spec fn validation_from(
    descriptions: Seq<ValueDescription>,
    values: Seq<Value>,
    i: int,
) -> Result<(), Error>
    decreases descriptions.len() - i,
{
    if i >= descriptions.len() || i < 0 {
        Ok(())
    } else {
        match value_for(values, descriptions[i].id) {
            None => Err(Error::NoValue),
            Some(value) => if descriptions[i].format.data_type() != value.data.data_type() {
                Err(Error::TypeMismatch)
            } else {
                validation_from(descriptions, values, i + 1)
            },
        }
    }
}

/// The ids of some values.
pub open spec fn value_ids(values: Seq<Value>) -> Seq<u32> {
    values.map_values(|value: Value| value.id)
}

/// The ids of some descriptions.
pub open spec fn description_ids(descriptions: Seq<ValueDescription>) -> Seq<u32> {
    descriptions.map_values(|description: ValueDescription| description.id)
}

/// Whether values and descriptions belong together.
pub open spec fn validation(descriptions: Seq<ValueDescription>, values: Seq<Value>) -> Result<
    (),
    Error,
> {
    if values.len() != descriptions.len() {
        Err(Error::CountMismatch)
    } else if !description_ids(descriptions).no_duplicates() {
        Err(Error::DuplicateDescription)
    } else {
        validation_from(descriptions, values, 0)
    }
}

/// Whether two descriptions have the same id.
fn has_duplicate(descriptions: &[ValueDescription]) -> (res: bool)
    ensures
        res == !description_ids(descriptions@).no_duplicates(),
{
    let ghost ids = description_ids(descriptions@);
    let mut i: usize = 0;
    while i < descriptions.len()
        invariant
            i <= descriptions@.len(),
            ids == description_ids(descriptions@),
            forall|a: int, b: int| 0 <= a < b < i ==> ids[a] != ids[b],
        decreases descriptions@.len() - i,
    {
        let mut k: usize = 0;
        while k < i
            invariant
                k <= i < descriptions@.len(),
                ids == description_ids(descriptions@),
                forall|a: int| 0 <= a < k ==> ids[a] != ids[i as int],
            decreases i - k,
        {
            if descriptions[k].id == descriptions[i].id {
                assert(ids[k as int] == ids[i as int]);
                return true;
            }
            k += 1;
        }
        i += 1;
    }
    false
}

/// Checks that there are as many values as descriptions, that no two
/// descriptions are for the same value, and that there is a value of the right
/// type for each description.
pub fn validate_values(descriptions: &[ValueDescription], values: &[Value]) -> (res: Result<
    (),
    Error,
>)
    ensures
        res == validation(descriptions@, values@),
{
    if values.len() != descriptions.len() {
        return Err(Error::CountMismatch);
    }
    if has_duplicate(descriptions) {
        return Err(Error::DuplicateDescription);
    }
    let mut i: usize = 0;
    while i < descriptions.len()
        invariant
            i <= descriptions@.len(),
            values@.len() == descriptions@.len(),
            description_ids(descriptions@).no_duplicates(),
            validation_from(descriptions@, values@, 0) == validation_from(
                descriptions@,
                values@,
                i as int,
            ),
        decreases descriptions@.len() - i,
    {
        match find_value(values, descriptions[i].id) {
            None => {
                return Err(Error::NoValue);
            },
            Some(k) => {
                match descriptions[i].format.validate_value_format(&values[k]) {
                    Err(e) => {
                        return Err(e);
                    },
                    Ok(()) => {},
                }
            },
        }
        i += 1;
    }
    Ok(())
}

/// After a successful check every description has a value of its type.
pub proof fn law_validated_lookup(descriptions: Seq<ValueDescription>, values: Seq<Value>, i: int)
    requires
        validation(descriptions, values) is Ok,
        0 <= i < descriptions.len(),
    ensures
        value_for(values, descriptions[i].id) matches Some(value) && value.data.data_type()
            == descriptions[i].format.data_type(),
{
    lemma_validation_reaches(descriptions, values, 0, i);
}

proof fn lemma_validation_reaches(
    descriptions: Seq<ValueDescription>,
    values: Seq<Value>,
    from: int,
    i: int,
)
    requires
        0 <= from <= i < descriptions.len(),
        validation_from(descriptions, values, from) is Ok,
    ensures
        validation_from(descriptions, values, i) is Ok,
    decreases i - from,
{
    if from < i {
        lemma_validation_reaches(descriptions, values, from + 1, i);
    }
}

proof fn lemma_value_for_contains(values: Seq<Value>, id: u32)
    requires
        value_for(values, id) is Some,
    ensures
        value_ids(values).contains(id),
    decreases values.len(),
{
    let rest = values.drop_last();
    if value_for(rest, id) is Some {
        lemma_value_for_contains(rest, id);
        let k = choose|k: int| 0 <= k < value_ids(rest).len() && value_ids(rest)[k] == id;
        assert(value_ids(values)[k] == id);
    } else {
        assert(value_ids(values)[values.len() - 1] == id);
    }
}

/// After a successful check values and descriptions belong together one to one:
/// no two descriptions have the same id, nor do two values, and each value has a
/// description.
pub proof fn law_validated_one_to_one(descriptions: Seq<ValueDescription>, values: Seq<Value>)
    requires
        validation(descriptions, values) is Ok,
    ensures
        description_ids(descriptions).no_duplicates(),
        value_ids(values).no_duplicates(),
        forall|k: int|
            0 <= k < values.len() ==> description_ids(descriptions).contains(
                (#[trigger] values[k]).id,
            ),
{
    let ids = description_ids(descriptions);
    let vids = value_ids(values);
    ids.unique_seq_to_set();
    vids.lemma_cardinality_of_set();
    assert forall|id: u32| ids.to_set().contains(id) implies vids.to_set().contains(id) by {
        let i = choose|i: int| 0 <= i < ids.len() && ids[i] == id;
        law_validated_lookup(descriptions, values, i);
        lemma_value_for_contains(values, id);
    }
    assert(ids.to_set().subset_of(vids.to_set()));
    vstd::set_lib::lemma_len_subset(ids.to_set(), vids.to_set());
    vstd::set_lib::lemma_subset_equality(ids.to_set(), vids.to_set());
    vids.lemma_no_dup_set_cardinality();
    assert forall|k: int| 0 <= k < values.len() implies ids.contains((#[trigger] values[k]).id) by {
        assert(vids[k] == values[k].id);
        assert(vids.to_set().contains(values[k].id));
        assert(ids.to_set().contains(values[k].id));
    }
}

/// The values that a robotic lawnmower or a sensor reports all the time, and
/// that nobody outside reads.
pub open spec fn is_chatter(device: Device, name: Seq<char>) -> bool {
    ||| device.description.spec_is_lawnmower() && (name == "command_result"@ || name
        == "internal_communication_status"@ || name == "internal_connection_state"@)
    ||| device.description.spec_is_sensor2() && (name == "experimental_model_state"@ || name
        == "soil_moisture_experimental_model"@)
}

/// Whether the clock of a device is off after it reported a value with this
/// timestamp. A value without a timestamp says nothing about it.
pub open spec fn clock_is_off(before: bool, timestamp: u64, gateway_timestamp: u64) -> bool {
    if timestamp == 0 {
        before
    } else {
        ||| gateway_timestamp - timestamp > MAX_TIMESTAMP_DELTA
        ||| timestamp - gateway_timestamp > MAX_TIMESTAMP_DELTA
    }
}

impl Device {
    /// Whether a report of a value with this id is published.
    pub open spec fn publishes_value(self, id: u32) -> bool {
        match value::description_for(self.value_descriptions@, id) {
            Some(description) => match description.name {
                Some(name) => !is_chatter(self, name@),
                None => true,
            },
            None => true,
        }
    }

    fn is_quiet(&self, id: u32) -> (res: bool)
        ensures
            res == !self.publishes_value(id),
    {
        match crate::storage::value::find_description(self.value_descriptions.as_slice(), id) {
            None => false,
            Some(i) => match &self.value_descriptions[i].name {
                None => false,
                Some(name) => {
                    if self.description.is_lawnmower() && (text_is(name, "command_result")
                        || text_is(name, "internal_communication_status") || text_is(
                        name,
                        "internal_connection_state",
                    )) {
                        true
                    } else {
                        self.description.is_sensor2() && (text_is(name, "experimental_model_state")
                            || text_is(name, "soil_moisture_experimental_model"))
                    }
                },
            },
        }
    }

    /// Takes over a value that the device reports. It has to be known, and of
    /// the type that it always was. It is stored with the time of the gateway,
    /// whatever the device says; what the device says tells whether its clock is
    /// off. Returns the resource id if the value is to be published.
    pub fn update_value(&mut self, value: Value, gateway_timestamp: u64) -> (res: Result<
        Option<usize>,
        Error,
    >)
        ensures
            ({
                let before = value_for(old(self).values@, value.id);
                match res {
                    Err(e) => {
                        &&& *final(self) == *old(self)
                        &&& if before is None {
                            e == Error::NoValue
                        } else {
                            &&& e == Error::TypeMismatch
                            &&& before->0.data.data_type() != value.data.data_type()
                        }
                    },
                    Ok(publish) => {
                        &&& before is Some
                        &&& before->0.data.data_type() == value.data.data_type()
                        &&& publish == (if old(self).publishes_value(value.id) {
                            Some(value.id as usize)
                        } else {
                            None
                        })
                        &&& exists|i: int|
                            {
                                &&& #[trigger] is_first_value(old(self).values@, value.id, i)
                                &&& final(self).values@ == old(self).values@.update(
                                    i,
                                    (Value { timestamp: gateway_timestamp, ..value }),
                                )
                            }
                        &&& *final(self) == (Device {
                            values: final(self).values,
                            time_out_of_sync: clock_is_off(
                                old(self).time_out_of_sync,
                                value.timestamp,
                                gateway_timestamp,
                            ),
                            ..*old(self)
                        })
                    },
                }
            }),
    {
        let id: u32 = value.id;
        let i: usize = match find_value(self.values.as_slice(), id) {
            Some(i) => i,
            None => {
                return Err(Error::NoValue);
            },
        };
        if !value.same_type(&self.values[i]) {
            return Err(Error::TypeMismatch);
        }
        let quiet: bool = self.is_quiet(id);
        if value.timestamp != 0 {
            let delta: u64 = if gateway_timestamp >= value.timestamp {
                gateway_timestamp - value.timestamp
            } else {
                value.timestamp - gateway_timestamp
            };
            self.time_out_of_sync = delta > MAX_TIMESTAMP_DELTA;
        }
        let stored = Value { id, timestamp: gateway_timestamp, data: value.data };
        self.values.set(i, stored);
        assert(is_first_value(old(self).values@, id, i as int));
        if quiet {
            Ok(None)
        } else {
            Ok(Some(id as usize))
        }
    }

    /// The value with this name.
    pub fn get_value(&self, name: &str) -> (res: Result<&Value, Error>)
        ensures
            match res {
                Ok(value) => description_named(self.value_descriptions@, name@) matches Some(
                    description,
                ) && value_for(self.values@, description.id) == Some(*value),
                Err(e) => match description_named(self.value_descriptions@, name@) {
                    None => e == Error::NoValueDescription,
                    Some(description) => e == Error::NoValue && value_for(
                        self.values@,
                        description.id,
                    ) is None,
                },
            },
    {
        let description = description_by_name(self.value_descriptions.as_slice(), name)?;
        value_by_resource_id(self.values.as_slice(), description.id as usize)
    }
}

/// An update keeps the ids and the types of all values.
pub proof fn law_update_keeps_shape(
    before: Seq<Value>,
    value: Value,
    gateway_timestamp: u64,
    i: int,
    k: int,
)
    requires
        is_first_value(before, value.id, i),
        before[i].data.data_type() == value.data.data_type(),
        0 <= k < before.len(),
    ensures
        ({
            let after = before.update(i, (Value { timestamp: gateway_timestamp, ..value }));
            &&& after.len() == before.len()
            &&& after[k].id == before[k].id
            &&& after[k].data.data_type() == before[k].data.data_type()
            &&& k != i ==> after[k] == before[k]
        }),
{
}

/// A value that is found is the first one with its id.
proof fn lemma_found_is_first(values: Seq<Value>, id: u32)
    ensures
        match value_for(values, id) {
            Some(value) => exists|k: int| #[trigger]
                is_first_value(values, id, k) && values[k] == value,
            None => forall|k: int| 0 <= k < values.len() ==> (#[trigger] values[k]).id != id,
        },
    decreases values.len(),
{
    if values.len() > 0 {
        let rest = values.drop_last();
        lemma_found_is_first(rest, id);
        if value_for(rest, id) is Some {
            let k = choose|k: int| #[trigger]
                is_first_value(rest, id, k) && rest[k] == value_for(rest, id)->0;
            assert(is_first_value(values, id, k)) by {
                assert forall|j: int| 0 <= j < k implies (#[trigger] values[j]).id != id by {
                    assert(rest[j].id != id);
                }
            }
        } else {
            assert forall|k: int| 0 <= k < rest.len() implies (#[trigger] values[k]).id != id by {
                assert(rest[k].id != id);
            }
            if values.last().id == id {
                assert(is_first_value(values, id, values.len() - 1));
            }
        }
    }
}

/// The first value with an id is the one that is found.
proof fn lemma_first_is_found(values: Seq<Value>, id: u32, k: int)
    requires
        is_first_value(values, id, k),
    ensures
        value_for(values, id) == Some(values[k]),
{
    lemma_found_is_first(values, id);
    if value_for(values, id) is Some {
        let m = choose|m: int| #[trigger]
            is_first_value(values, id, m) && values[m] == value_for(values, id)->0;
        if m < k {
            assert(values[m].id != id);
        } else if k < m {
            assert(values[k].id != id);
        }
    } else {
        assert(values[k].id != id);
    }
}

proof fn lemma_update_found(before: Seq<Value>, new: Value, i: int, id: u32)
    requires
        is_first_value(before, new.id, i),
        before[i].data.data_type() == new.data.data_type(),
        value_for(before, id) is Some,
    ensures
        value_for(before.update(i, new), id) matches Some(value) && value.data.data_type()
            == value_for(before, id)->0.data.data_type(),
{
    let after = before.update(i, new);
    lemma_found_is_first(before, id);
    let k = choose|k: int| #[trigger]
        is_first_value(before, id, k) && before[k] == value_for(before, id)->0;
    assert(is_first_value(after, id, k)) by {
        assert forall|j: int| 0 <= j < k implies (#[trigger] after[j]).id != id by {
            assert(before[j].id != id);
        }
    }
    lemma_first_is_found(after, id, k);
}

proof fn lemma_update_validation(
    descriptions: Seq<ValueDescription>,
    before: Seq<Value>,
    new: Value,
    i: int,
    from: int,
)
    requires
        is_first_value(before, new.id, i),
        before[i].data.data_type() == new.data.data_type(),
        validation_from(descriptions, before, from) is Ok,
        0 <= from,
    ensures
        validation_from(descriptions, before.update(i, new), from) is Ok,
    decreases descriptions.len() - from,
{
    if from < descriptions.len() {
        lemma_update_found(before, new, i, descriptions[from].id);
        lemma_update_validation(descriptions, before, new, i, from + 1);
    }
}

/// Values that belong to their descriptions still do so after an update.
pub proof fn law_update_keeps_validation(
    descriptions: Seq<ValueDescription>,
    before: Seq<Value>,
    value: Value,
    gateway_timestamp: u64,
    i: int,
)
    requires
        validation(descriptions, before) is Ok,
        is_first_value(before, value.id, i),
        before[i].data.data_type() == value.data.data_type(),
    ensures
        validation(
            descriptions,
            before.update(i, (Value { timestamp: gateway_timestamp, ..value })),
        ) is Ok,
{
    let new = Value { timestamp: gateway_timestamp, ..value };
    lemma_update_validation(descriptions, before, new, i, 0);
}

/// A report is held back only if its value is described under one of the names
/// that nobody reads, and only for the kind of device that reports it all the
/// time. Everything else is published, on every device.
pub proof fn law_only_chatter_is_held_back(device: Device, id: u32)
    ensures
        match value::description_for(device.value_descriptions@, id) {
            None => device.publishes_value(id),
            Some(description) => match description.name {
                None => device.publishes_value(id),
                Some(name) => {
                    let of_lawnmower = name@ == "command_result"@ || name@
                        == "internal_communication_status"@ || name@
                        == "internal_connection_state"@;
                    let of_sensor = name@ == "experimental_model_state"@ || name@
                        == "soil_moisture_experimental_model"@;
                    &&& !of_lawnmower && !of_sensor ==> device.publishes_value(id)
                    &&& device.publishes_value(id) || device.description.spec_is_lawnmower()
                        || device.description.spec_is_sensor2()
                    &&& device.publishes_value(id) || of_lawnmower
                        || device.description.spec_is_sensor2()
                    &&& device.publishes_value(id) || of_sensor
                        || device.description.spec_is_lawnmower()
                    &&& of_lawnmower && device.description.spec_is_lawnmower()
                        ==> !device.publishes_value(id)
                    &&& of_sensor && device.description.spec_is_sensor2()
                        ==> !device.publishes_value(id)
                },
            },
        },
{
}

/// The clock of a device is off if a reported time is more than a minute away
/// from that of the gateway, before it or behind it, and right again as soon as
/// one is not. A report without a time changes nothing.
pub proof fn law_clock_is_judged_by_reports(before: bool, timestamp: u64, gateway: u64)
    ensures
        timestamp == 0 ==> clock_is_off(before, timestamp, gateway) == before,
        timestamp != 0 ==> (!clock_is_off(before, timestamp, gateway) <==> -60_000 <= timestamp
            - gateway <= 60_000),
{
}

/// A value is found by its id if there is one: the first.
pub proof fn law_found_value(values: Seq<Value>, id: u32, i: int)
    requires
        0 <= i < values.len(),
    ensures
        values[i].id == id && (forall|j: int| 0 <= j < i ==> (#[trigger] values[j]).id != id)
            ==> value_for(values, id) == Some(values[i]),
        value_for(values, id) is None ==> values[i].id != id,
        value_for(values, id) matches Some(value) ==> value.id == id && values.contains(value),
{
    lemma_found_is_first(values, id);
    if values[i].id == id && (forall|j: int| 0 <= j < i ==> (#[trigger] values[j]).id != id) {
        assert(is_first_value(values, id, i));
        lemma_first_is_found(values, id, i);
    }
    if value_for(values, id) is Some {
        let k = choose|k: int| #[trigger]
            is_first_value(values, id, k) && values[k] == value_for(values, id)->0;
        assert(values.contains(values[k]));
    }
}

/// A description is found by its name if there is one: the first. One without a
/// name is never found.
pub proof fn law_found_description(descriptions: Seq<ValueDescription>, name: Seq<char>, i: int)
    requires
        0 <= i < descriptions.len(),
    ensures
        descriptions[i].name matches Some(n) && n@ == name && (forall|j: int|
            0 <= j < i ==> ((#[trigger] descriptions[j]).name matches Some(m) ==> m@ != name))
            ==> description_named(descriptions, name) == Some(descriptions[i]),
        description_named(descriptions, name) is None ==> (descriptions[i].name matches Some(n)
            ==> n@ != name),
        description_named(descriptions, name) matches Some(description) ==> (
        description.name matches Some(n) && n@ == name),
    decreases descriptions.len(),
{
    let rest = descriptions.drop_last();
    if i < rest.len() {
        law_found_description(rest, name, i);
        assert(rest[i] == descriptions[i]);
        assert forall|j: int|
            0 <= j < i && (descriptions[i].name matches Some(n) && n@ == name && (forall|k: int|
                0 <= k < i ==> ((#[trigger] descriptions[k]).name matches Some(m) ==> m@
                    != name))) implies ((#[trigger] rest[j]).name matches Some(m) ==> m@ != name) by {
            assert(rest[j] == descriptions[j]);
        }
    } else {
        if rest.len() > 0 {
            law_found_description(rest, name, rest.len() - 1);
        }
        lemma_none_named(rest, name);
        if forall|j: int|
            0 <= j < i ==> ((#[trigger] descriptions[j]).name matches Some(m) ==> m@ != name) {
            assert forall|j: int| 0 <= j < rest.len() implies ((#[trigger] rest[j]).name matches Some(
                m,
            ) ==> m@ != name) by {
                assert(rest[j] == descriptions[j]);
            }
        }
    }
}

proof fn lemma_none_named(descriptions: Seq<ValueDescription>, name: Seq<char>)
    ensures
        (forall|j: int|
            0 <= j < descriptions.len() ==> ((#[trigger] descriptions[j]).name matches Some(m)
                ==> m@ != name)) ==> description_named(descriptions, name) is None,
    decreases descriptions.len(),
{
    if descriptions.len() > 0 {
        let rest = descriptions.drop_last();
        lemma_none_named(rest, name);
        if forall|j: int|
            0 <= j < descriptions.len() ==> ((#[trigger] descriptions[j]).name matches Some(m)
                ==> m@ != name) {
            assert forall|j: int| 0 <= j < rest.len() implies ((#[trigger] rest[j]).name matches Some(
                m,
            ) ==> m@ != name) by {
                assert(rest[j] == descriptions[j]);
            }
            assert(descriptions[descriptions.len() - 1] == descriptions.last());
        }
    }
}

/// Whether the first value with the id of a description has its type.
pub open spec fn has_fitting_value(description: ValueDescription, values: Seq<Value>) -> bool {
    exists|k: int|
        {
            &&& #[trigger] is_first_value(values, description.id, k)
            &&& values[k].data.data_type() == description.format.data_type()
        }
}

proof fn lemma_validation_from(
    descriptions: Seq<ValueDescription>,
    values: Seq<Value>,
    from: int,
    i: int,
)
    requires
        0 <= from <= i <= descriptions.len(),
        forall|j: int|
            from <= j < i ==> has_fitting_value(#[trigger] descriptions[j], values),
    ensures
        validation_from(descriptions, values, from) == validation_from(descriptions, values, i),
    decreases i - from,
{
    if from < i {
        assert(has_fitting_value(descriptions[from], values));
        let k = choose|k: int|
            {
                &&& #[trigger] is_first_value(values, descriptions[from].id, k)
                &&& values[k].data.data_type() == descriptions[from].format.data_type()
            };
        lemma_first_is_found(values, descriptions[from].id, k);
        lemma_validation_from(descriptions, values, from + 1, i);
    }
}

/// Values belong to descriptions if there are as many, no two descriptions are
/// for the same value, and each has a value of its type. Otherwise the verdict
/// is about the first description, `i`, that has none.
pub proof fn law_validation_verdict(
    descriptions: Seq<ValueDescription>,
    values: Seq<Value>,
    i: int,
)
    requires
        0 <= i <= descriptions.len(),
        forall|j: int| 0 <= j < i ==> has_fitting_value(#[trigger] descriptions[j], values),
    ensures
        ({
            let verdict = validation(descriptions, values);
            let duplicate = exists|a: int, b: int|
                0 <= a < b < descriptions.len() && (#[trigger] descriptions[a]).id == (
                #[trigger] descriptions[b]).id;
            if descriptions.len() != values.len() {
                verdict == Err::<(), Error>(Error::CountMismatch)
            } else if duplicate {
                verdict == Err::<(), Error>(Error::DuplicateDescription)
            } else if i == descriptions.len() {
                verdict == Ok::<(), Error>(())
            } else if forall|k: int|
                0 <= k < values.len() ==> (#[trigger] values[k]).id != descriptions[i].id {
                verdict == Err::<(), Error>(Error::NoValue)
            } else if !has_fitting_value(descriptions[i], values) {
                verdict == Err::<(), Error>(Error::TypeMismatch)
            } else {
                true
            }
        }),
{
    let ids = description_ids(descriptions);
    if exists|a: int, b: int|
        0 <= a < b < descriptions.len() && (#[trigger] descriptions[a]).id == (
        #[trigger] descriptions[b]).id {
        let (a, b) = choose|a: int, b: int|
            0 <= a < b < descriptions.len() && (#[trigger] descriptions[a]).id == (
            #[trigger] descriptions[b]).id;
        assert(ids[a] == ids[b]);
        assert(!ids.no_duplicates());
    } else {
        assert forall|a: int, b: int| 0 <= a < ids.len() && 0 <= b < ids.len() && a != b implies ids[a]
            != ids[b] by {
            assert(descriptions[a].id == ids[a]);
            assert(descriptions[b].id == ids[b]);
        }
        assert(ids.no_duplicates());
    }
    lemma_validation_from(descriptions, values, 0, i);
    if i < descriptions.len() {
        lemma_found_is_first(values, descriptions[i].id);
        if value_for(values, descriptions[i].id) is Some {
            let k = choose|k: int| #[trigger]
                is_first_value(values, descriptions[i].id, k) && values[k] == value_for(
                    values,
                    descriptions[i].id,
                )->0;
            assert(values[k].id == descriptions[i].id);
        }
    }
}

/// The first value with an id has that id, and none before it has.
pub proof fn law_first_value(values: Seq<Value>, id: u32, i: int)
    ensures
        is_first_value(values, id, i) ==> 0 <= i < values.len() && values[i].id == id,
        0 <= i < values.len() && values[i].id == id ==> is_first_value(values, id, i) == (forall|
            j: int,
        |
            0 <= j < i ==> (#[trigger] values[j]).id != id),
        forall|k: int|
            is_first_value(values, id, i) && #[trigger] is_first_value(values, id, k) ==> k == i,
{
}

} // verus!
