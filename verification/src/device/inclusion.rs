//! Inclusion: how a device joins the network, and what has to be known of it
//! before it can be used.

use crate::bigint;
use crate::comm;
use crate::comm::WakeupChannel;
use crate::comm::WakeupChannels;
use crate::device::Device;
use crate::device::values;
use crate::device::values::validate_values;
use crate::error::Error;
use crate::lsdl::MemoryId;
use crate::lsdl::RadioMode;
use crate::net::IpAddr;
use crate::storage::description::ConnectionStatus;
use crate::storage::description::DeviceDescription;
use crate::storage::description::MemoryInformation;
use crate::storage::persistent::PersistentState;
use crate::storage::value::Value;
use crate::storage::value::ValueDescription;
use crate::time::Nanos;
use crate::traits;
use crate::traits::RangeChunks;
use vstd::prelude::*;

verus! {

/// How many value descriptions are asked for at once.
pub const DESCRIPTIONS_PER_REQUEST: u32 = 10;

/// What waits in the queue of a device.
#[derive(Clone, Copy, Debug, PartialEq, Eq, Structural)]
pub enum PendingKind {
    UpdateValues,
    ReceivedDeviceDescription,
    Other,
}

/// Whether something that waits is outdated once the values of a device have
/// been read.
pub fn is_outdated(kind: PendingKind) -> (res: bool)
    ensures
        res == (kind != PendingKind::Other),
{
    match kind {
        PendingKind::UpdateValues | PendingKind::ReceivedDeviceDescription => true,
        PendingKind::Other => false,
    }
}

/// The first information about the memory for values.
pub open spec fn value_memory(infos: Seq<MemoryInformation>) -> Option<MemoryInformation>
    decreases infos.len(),
{
    if infos.len() == 0 {
        None
    } else {
        match value_memory(infos.drop_last()) {
            Some(info) => Some(info),
            None => if infos.last().id == MemoryId::Value {
                Some(infos.last())
            } else {
                None
            },
        }
    }
}

proof fn lemma_value_memory(infos: Seq<MemoryInformation>, i: int)
    requires
        0 <= i <= infos.len(),
        value_memory(infos.take(i)) is Some,
    ensures
        value_memory(infos) == value_memory(infos.take(i)),
    decreases infos.len() - i,
{
    if i < infos.len() {
        assert(infos.take(i + 1).drop_last() =~= infos.take(i));
        lemma_value_memory(infos, i + 1);
    } else {
        assert(infos.take(i) =~= infos);
    }
}

/// How many values a device has.
pub fn num_values(infos: &[MemoryInformation]) -> (res: Result<u32, Error>)
    ensures
        match value_memory(infos@) {
            Some(info) => res == Ok::<u32, Error>(info.spec_num_allocated() as u32),
            None => res == Err::<u32, Error>(Error::NoMemoryInformation),
        },
{
    let mut i: usize = 0;
    while i < infos.len()
        invariant
            i <= infos@.len(),
            value_memory(infos@.take(i as int)) is None,
        decreases infos@.len() - i,
    {
        proof {
            assert(infos@.take(i + 1).drop_last() =~= infos@.take(i as int));
        }
        if infos[i].id == MemoryId::Value {
            proof {
                lemma_value_memory(infos@, i + 1);
            }
            return Ok(infos[i].num_allocated());
        }
        i += 1;
    }
    assert(infos@.take(i as int) =~= infos@);
    Err(Error::NoMemoryInformation)
}

/// Ranges as pairs of integers.
pub open spec fn as_pieces(ranges: Seq<(u32, u32)>) -> Seq<(int, int)> {
    ranges.map_values(|range: (u32, u32)| (range.0 as int, range.1 as int))
}

/// The ranges of value descriptions that are asked for one after the other. The
/// ids of the values begin with one, and there are no gaps.
pub fn description_ranges(num: u32) -> (res: Vec<(u32, u32)>)
    requires
        num < u32::MAX,
    ensures
        as_pieces(res@) == traits::range_pieces(1, num + 1, 10),
{
    let mut chunks = RangeChunks::new(1..num + 1, DESCRIPTIONS_PER_REQUEST);
    let ghost all = chunks.remaining();
    let mut res: Vec<(u32, u32)> = Vec::new();
    let mut more: bool = true;
    assert(as_pieces(res@) + chunks.remaining() =~= all);
    while more
        invariant
            as_pieces(res@) + chunks.remaining() == all,
            !more ==> chunks.remaining() == Seq::<(int, int)>::empty(),
        decreases chunks.remaining().len() + (if more {
            1int
        } else {
            0
        }),
    {
        match chunks.next() {
            None => {
                more = false;
            },
            Some(piece) => {
                let ghost done = res@;
                res.push((piece.start, piece.end));
                proof {
                    let one = (piece.start as int, piece.end as int);
                    assert(as_pieces(res@) =~= as_pieces(done).push(one));
                    assert(as_pieces(done).push(one) + chunks.remaining() =~= as_pieces(done) + (
                    seq![one] + chunks.remaining()));
                }
            },
        }
    }
    assert(as_pieces(res@) =~= all);
    res
}

/// Values with the same timestamp.
pub open spec fn stamped(values: Seq<Value>, timestamp: u64) -> Seq<Value> {
    values.map_values(|value: Value| Value { timestamp, ..value })
}

/// Checks that a device has described all of its values, before they are asked
/// for.
pub fn check_descriptions(num: u32, descriptions: &[ValueDescription]) -> (res: Result<(), Error>)
    ensures
        res == (if descriptions@.len() == num {
            Ok::<(), Error>(())
        } else {
            Err::<(), Error>(Error::CountMismatch)
        }),
{
    if descriptions.len() == num as usize {
        Ok(())
    } else {
        Err(Error::CountMismatch)
    }
}

/// Checks the values that were read from a device: there has to be one of the
/// right type for each description. They get the time of the gateway, since that
/// of the device cannot be relied on.
pub fn accept_values(
    descriptions: &[ValueDescription],
    values: Vec<Value>,
    gateway_timestamp: u64,
) -> (res: Result<Vec<Value>, Error>)
    ensures
        match res {
            Ok(accepted) => {
                &&& accepted@ == stamped(values@, gateway_timestamp)
                &&& values::validation(descriptions@, accepted@) is Ok
            },
            Err(e) => values::validation(descriptions@, stamped(values@, gateway_timestamp))
                == Err::<(), Error>(e),
        },
{
    let mut rest: Vec<Value> = values;
    let ghost all = rest@;
    let mut i: usize = 0;
    while i < rest.len()
        invariant
            i <= rest@.len(),
            rest@.len() == all.len(),
            forall|k: int|
                0 <= k < i ==> #[trigger] rest@[k] == (Value {
                    timestamp: gateway_timestamp,
                    ..all[k]
                }),
            forall|k: int| i <= k < all.len() ==> #[trigger] rest@[k] == all[k],
        decreases rest@.len() - i,
    {
        rest[i].timestamp = gateway_timestamp;
        i += 1;
    }
    assert(rest@ =~= stamped(all, gateway_timestamp));
    validate_values(descriptions, rest.as_slice())?;
    Ok(rest)
}

impl Device {
    /// The address under which the radio module counts the messages of the
    /// device. It has to start afresh: a device that was reset has, too.
    pub fn begin_inclusion(&self) -> (res: Result<[u8; 6], Error>)
        ensures
            match (self.description.address, res) {
                (IpAddr::V6(address), Ok(mac)) => bigint::be_value(mac@) == address as nat
                    % vstd::arithmetic::power2::pow2(48),
                (IpAddr::V4(_), Err(e)) => e == Error::Ipv6Required,
                _ => false,
            },
    {
        match self.description.mac_address() {
            Some(mac) => Ok(mac),
            None => Err(Error::Ipv6Required),
        }
    }

    /// Takes over a description, and gives back the wakeup channel of the one
    /// before.
    pub fn set_description(&mut self, description: DeviceDescription, channels: &mut WakeupChannels)
        requires
            old(channels)@[old(self).description.wakeup_channel.spec_channel()] > 0,
        ensures
            *final(self) == (Device { description, ..*old(self) }),
            final(channels)@ == old(channels)@.update(
                old(self).description.wakeup_channel.spec_channel(),
                (old(channels)@[old(self).description.wakeup_channel.spec_channel()] - 1) as u8,
            ),
    {
        let mut description = description;
        core::mem::swap(&mut self.description, &mut description);
        description.wakeup_channel.release(channels);
    }

    /// Takes over the description that a device sends after an inclusion
    /// message. If the device is included now, everything that was remembered of
    /// it is forgotten.
    pub fn on_inclusion_description(
        &mut self,
        description: DeviceDescription,
        channels: &mut WakeupChannels,
        wall_clock: Nanos,
    ) -> (res: Result<(), Error>)
        requires
            old(channels)@[old(self).description.wakeup_channel.spec_channel()] > 0,
        ensures
            final(channels)@ == old(channels)@.update(
                old(self).description.wakeup_channel.spec_channel(),
                (old(channels)@[old(self).description.wakeup_channel.spec_channel()] - 1) as u8,
            ),
            match res {
                Ok(()) => {
                    &&& description.included
                    &&& *final(self) == (Device {
                        description,
                        persistent: final(self).persistent,
                        ..*old(self)
                    })
                    &&& final(self).persistent.is_fresh(ConnectionStatus::Online, wall_clock)
                },
                Err(e) => {
                    &&& !description.included
                    &&& e == Error::NotIncluded
                    &&& *final(self) == (Device { description, ..*old(self) })
                },
            },
    {
        self.set_description(description, channels);
        if !self.description.included {
            return Err(Error::NotIncluded);
        }
        self.persistent = PersistentState::new(ConnectionStatus::Online, wall_clock);
        Ok(())
    }

    /// The wakeup channel that the device is to listen on, if it has to be woken
    /// up at all.
    pub fn choose_wakeup_channel(&self, channels: &mut WakeupChannels) -> (res: Result<
        Option<WakeupChannel>,
        Error,
    >)
        ensures
            match res {
                Ok(None) => {
                    &&& self.description.radio_mode != RadioMode::WakeOnRadio
                    &&& final(channels)@ == old(channels)@
                },
                Ok(Some(channel)) => {
                    let map = bigint::be_value(self.description.channel_map@);
                    let users = old(channels)@[channel.spec_channel()];
                    &&& self.description.radio_mode == RadioMode::WakeOnRadio
                    &&& comm::usable_channel(map, channel.spec_channel())
                    &&& users < 255
                    &&& comm::is_lowest_use(old(channels)@, map, users)
                    &&& final(channels)@ == old(channels)@.update(
                        channel.spec_channel(),
                        (users + 1) as u8,
                    )
                },
                Err(e) => {
                    let map = bigint::be_value(self.description.channel_map@);
                    &&& self.description.radio_mode == RadioMode::WakeOnRadio
                    &&& final(channels)@ == old(channels)@
                    &&& if e == Error::NoMatchingChannel {
                        forall|c: int| !#[trigger] comm::usable_channel(map, c)
                    } else {
                        e == Error::OutOfChannels && comm::is_lowest_use(old(channels)@, map, 255)
                    }
                },
            },
    {
        if self.description.radio_mode != RadioMode::WakeOnRadio {
            return Ok(None);
        }
        match WakeupChannel::allocate(channels, &self.description.channel_map()) {
            Ok(channel) => Ok(Some(channel)),
            Err(e) => Err(e),
        }
    }

    /// Takes over a wakeup channel if that is the one that the device reports.
    /// Either way one hold on a channel is given back: the one before, or the
    /// new one.
    pub fn accept_wakeup_channel(
        &mut self,
        channel: WakeupChannel,
        reported: u64,
        channels: &mut WakeupChannels,
    ) -> (res: Result<(), Error>)
        requires
            old(channels)@[channel.spec_channel()] > 0,
            old(channels)@[old(self).description.wakeup_channel.spec_channel()] > 0,
        ensures
            match res {
                Ok(()) => {
                    let before = old(self).description.wakeup_channel.spec_channel();
                    &&& reported == channel.spec_channel()
                    &&& *final(self) == (Device {
                        description: DeviceDescription {
                            wakeup_channel: channel,
                            ..old(self).description
                        },
                        ..*old(self)
                    })
                    &&& final(channels)@ == old(channels)@.update(
                        before,
                        (old(channels)@[before] - 1) as u8,
                    )
                },
                Err(e) => {
                    &&& reported != channel.spec_channel()
                    &&& e == Error::WrongWakeupChannel
                    &&& *final(self) == *old(self)
                    &&& final(channels)@ == old(channels)@.update(
                        channel.spec_channel(),
                        (old(channels)@[channel.spec_channel()] - 1) as u8,
                    )
                },
            },
    {
        if reported != channel.channel() {
            channel.release(channels);
            return Err(Error::WrongWakeupChannel);
        }
        let mut channel = channel;
        core::mem::swap(&mut self.description.wakeup_channel, &mut channel);
        channel.release(channels);
        Ok(())
    }

    /// Takes over what was read from the device.
    pub fn finish_inclusion(&mut self, descriptions: Vec<ValueDescription>, values: Vec<Value>)
        ensures
            *final(self) == (Device {
                value_descriptions: descriptions,
                values,
                ..*old(self)
            }),
    {
        self.value_descriptions = descriptions;
        self.values = values;
    }

    /// Gives up after an inclusion, before the device is excluded again.
    pub fn fail_inclusion(&mut self)
        ensures
            final(self).value_descriptions@ == Seq::<ValueDescription>::empty(),
            final(self).values@ == Seq::<Value>::empty(),
            *final(self) == (Device {
                value_descriptions: final(self).value_descriptions,
                values: final(self).values,
                ..*old(self)
            }),
    {
        self.value_descriptions = Vec::new();
        self.values = Vec::new();
    }
}

/// The ranges that are asked for cover the ids of all values, each just once,
/// and in ascending order.
pub proof fn law_all_descriptions_are_asked_for(num: u32)
    requires
        0 < num < u32::MAX,
    ensures
        ({
            let pieces = traits::range_pieces(1, num + 1, 10);
            &&& pieces.len() > 0
            &&& pieces[0].0 == 1
            &&& pieces.last().1 == num + 1
            &&& forall|i: int|
                0 <= i < pieces.len() ==> {
                    &&& (#[trigger] pieces[i]).0 < pieces[i].1
                    &&& pieces[i].1 - pieces[i].0 <= 10
                    &&& i + 1 < pieces.len() ==> pieces[i + 1].0 == pieces[i].1
                }
        }),
{
    traits::law_range_pieces_cover(1, num + 1, 10);
}

/// The memory for values is the first one of that kind, whatever follows it, and
/// there is none where none is listed.
pub proof fn law_first_value_memory(infos: Seq<MemoryInformation>, i: int)
    ensures
        0 <= i < infos.len() && infos[i].id == MemoryId::Value && (forall|k: int|
            0 <= k < i ==> (#[trigger] infos[k]).id != MemoryId::Value) ==> value_memory(infos)
            == Some(infos[i]),
        (forall|k: int| 0 <= k < infos.len() ==> (#[trigger] infos[k]).id != MemoryId::Value)
            ==> value_memory(infos) is None,
    decreases infos.len(),
{
    if infos.len() > 0 {
        let rest = infos.drop_last();
        assert forall|k: int| 0 <= k < rest.len() implies #[trigger] rest[k] == infos[k] by {}
        law_first_value_memory(rest, i);
        if i == infos.len() - 1 && (forall|k: int|
            0 <= k < i ==> (#[trigger] infos[k]).id != MemoryId::Value) {
            assert forall|k: int| 0 <= k < rest.len() implies (#[trigger] rest[k]).id
                != MemoryId::Value by {
                assert(infos[k].id != MemoryId::Value);
            }
        }
    }
}

/// Ranges are taken as they are, one piece for each, and a new time is all that
/// values get.
pub proof fn law_ranges_and_times(
    ranges: Seq<(u32, u32)>,
    values: Seq<Value>,
    timestamp: u64,
    i: int,
)
    ensures
        as_pieces(ranges).len() == ranges.len(),
        0 <= i < ranges.len() ==> as_pieces(ranges)[i].0 == ranges[i].0 && as_pieces(ranges)[i].1
            == ranges[i].1,
        stamped(values, timestamp).len() == values.len(),
        0 <= i < values.len() ==> {
            &&& stamped(values, timestamp)[i].timestamp == timestamp
            &&& stamped(values, timestamp)[i] == (Value {
                timestamp: stamped(values, timestamp)[i].timestamp,
                ..values[i]
            })
        },
{
}

} // verus!
