//! The gateway as a whole: the devices that it knows, and what it does with the
//! messages and requests that reach it.

use crate::device::lemonbeat_requests;
use crate::device::lemonbeat_requests::response_value;
use crate::device::loadsave;
use crate::device::loadsave::device_dir_address;
use crate::error::Error;
use crate::lsdl::Manufacturer;
use crate::lsdl::RawStatus;
use crate::lsdl::ValueResponse;
use crate::net::IpAddr;
use crate::storage::description::DeviceDescription;
use crate::storage::description::Product;
use crate::storage::value::Value;
use crate::utils;
use crate::utils::inner_text;
use crate::utils::same_text;
use crate::utils::text_is;
use vstd::prelude::*;
use vstd::string::*;

verus! {

/// A device that the gateway knows.
#[derive(Debug)]
pub struct DeviceEntry {
    pub address: IpAddr,
    /// The name under which the device is known outside.
    pub bnw_id: String,
    /// The task that is responsible for the device.
    pub handle: u64,
}

/// The devices that the gateway knows, by their address.
#[derive(Debug)]
pub struct Devices {
    entries: Vec<DeviceEntry>,
    next_handle: u64,
}

/// No two entries have the same address.
pub open spec fn unique_addresses(entries: Seq<DeviceEntry>) -> bool {
    forall|i: int, j: int|
        0 <= i < j < entries.len() ==> (#[trigger] entries[i]).address != (
        #[trigger] entries[j]).address
}

/// The handles of entries ascend, and all of them are below a limit.
pub open spec fn ascending_handles(entries: Seq<DeviceEntry>, limit: u64) -> bool {
    &&& forall|i: int| 0 <= i < entries.len() ==> (#[trigger] entries[i]).handle < limit
    &&& forall|i: int, j: int|
        0 <= i < j < entries.len() ==> (#[trigger] entries[i]).handle < (
        #[trigger] entries[j]).handle
}

/// Entries by their address.
pub open spec fn by_address(entries: Seq<DeviceEntry>) -> Map<IpAddr, DeviceEntry>
    decreases entries.len(),
{
    if entries.len() == 0 {
        Map::empty()
    } else {
        by_address(entries.drop_last()).insert(entries.last().address, entries.last())
    }
}

/// Every entry is found under its address, and nothing else is.
proof fn lemma_by_address(entries: Seq<DeviceEntry>)
    requires
        unique_addresses(entries),
    ensures
        forall|i: int|
            0 <= i < entries.len() ==> {
                &&& by_address(entries).contains_key((#[trigger] entries[i]).address)
                &&& by_address(entries)[entries[i].address] == entries[i]
            },
        forall|address: IpAddr|
            #[trigger] by_address(entries).contains_key(address) ==> exists|i: int|
                0 <= i < entries.len() && (#[trigger] entries[i]).address == address,
    decreases entries.len(),
{
    if entries.len() > 0 {
        let rest = entries.drop_last();
        assert forall|i: int, j: int| 0 <= i < j < rest.len() implies (#[trigger] rest[i]).address
            != (#[trigger] rest[j]).address by {
            assert(entries[i].address != entries[j].address);
        }
        lemma_by_address(rest);
        let last = entries.last();
        assert forall|i: int| 0 <= i < entries.len() implies {
            &&& by_address(entries).contains_key((#[trigger] entries[i]).address)
            &&& by_address(entries)[entries[i].address] == entries[i]
        } by {
            if i < rest.len() {
                assert(rest[i] == entries[i]);
                assert(entries[i].address != entries[entries.len() - 1].address);
            }
        }
        assert forall|address: IpAddr| #[trigger] by_address(entries).contains_key(address) implies exists|
            i: int,
        |
            0 <= i < entries.len() && (#[trigger] entries[i]).address == address by {
            if address == last.address {
                assert(entries[entries.len() - 1].address == address);
            } else {
                assert(by_address(rest).contains_key(address));
                let i = choose|i: int|
                    0 <= i < rest.len() && (#[trigger] rest[i]).address == address;
                assert(entries[i].address == address);
            }
        }
    }
}

impl View for Devices {
    type V = Map<IpAddr, DeviceEntry>;

    closed spec fn view(&self) -> Map<IpAddr, DeviceEntry> {
        by_address(self.entries@)
    }
}

/// Whether a handle is in a list.
fn is_in(handles: &[u64], handle: u64) -> (res: bool)
    ensures
        res == handles@.contains(handle),
{
    let mut i: usize = 0;
    while i < handles.len()
        invariant
            i <= handles@.len(),
            forall|k: int| 0 <= k < i ==> handles@[k] != handle,
        decreases handles@.len() - i,
    {
        if handles[i] == handle {
            return true;
        }
        i += 1;
    }
    false
}

impl Devices {
    #[verifier::type_invariant]
    spec fn is_valid(self) -> bool {
        unique_addresses(self.entries@) && ascending_handles(self.entries@, self.next_handle)
    }

    /// The handle that the next device gets.
    pub closed spec fn spec_next_handle(self) -> u64 {
        self.next_handle
    }

    /// No device is known.
    pub fn new() -> (res: Self)
        ensures
            res@ == Map::<IpAddr, DeviceEntry>::empty(),
            res.spec_next_handle() == 0,
    {
        Self { entries: Vec::new(), next_handle: 0 }
    }

    /// How many devices are known.
    pub fn len(&self) -> (res: usize)
        ensures
            res == self@.dom().len(),
    {
        proof {
            use_type_invariant(self);
            lemma_by_address_len(self.entries@);
        }
        self.entries.len()
    }

    fn position(&self, address: IpAddr) -> (res: Option<usize>)
        ensures
            match res {
                Some(i) => i < self.entries@.len() && self.entries@[i as int].address == address,
                None => forall|k: int|
                    0 <= k < self.entries@.len() ==> (#[trigger] self.entries@[k]).address
                        != address,
            },
    {
        let mut i: usize = 0;
        while i < self.entries.len()
            invariant
                i <= self.entries@.len(),
                forall|k: int| 0 <= k < i ==> (#[trigger] self.entries@[k]).address != address,
            decreases self.entries@.len() - i,
        {
            if self.entries[i].address == address {
                return Some(i);
            }
            i += 1;
        }
        None
    }

    fn remove_at(&mut self, i: usize)
        requires
            i < old(self).entries@.len(),
        ensures
            final(self).entries@ == old(self).entries@.remove(i as int),
            final(self)@ == old(self)@.remove(old(self).entries@[i as int].address),
            final(self).spec_next_handle() == old(self).spec_next_handle(),
    {
        proof {
            use_type_invariant(&*self);
        }
        let ghost before = self.entries@;
        let mut entries: Vec<DeviceEntry> = Vec::new();
        core::mem::swap(&mut entries, &mut self.entries);
        entries.remove(i);
        let ghost after = entries@;
        proof {
            assert(after =~= before.remove(i as int));
            assert forall|a: int, b: int| 0 <= a < b < after.len() implies (
            #[trigger] after[a]).address != (#[trigger] after[b]).address by {
                let a2 = if a < i {
                    a
                } else {
                    a + 1
                };
                let b2 = if b < i {
                    b
                } else {
                    b + 1
                };
                assert(before[a2].address != before[b2].address);
            }
            assert forall|a: int, b: int| 0 <= a < b < after.len() implies (
            #[trigger] after[a]).handle < (#[trigger] after[b]).handle by {
                let a2 = if a < i {
                    a
                } else {
                    a + 1
                };
                let b2 = if b < i {
                    b
                } else {
                    b + 1
                };
                assert(before[a2].handle < before[b2].handle);
            }
        }
        self.entries = entries;
        proof {
            lemma_by_address(before);
            lemma_by_address(after);
            let gone = before[i as int].address;
            assert forall|address: IpAddr|
                by_address(after).contains_key(address) == by_address(before).remove(
                    gone,
                ).contains_key(address) by {
                if by_address(after).contains_key(address) {
                    let k = choose|k: int|
                        0 <= k < after.len() && (#[trigger] after[k]).address == address;
                    let k2 = if k < i {
                        k
                    } else {
                        k + 1
                    };
                    assert(before[k2] == after[k]);
                    assert(before[k2].address != before[i as int].address) by {
                        if k2 < i {
                            assert(before[k2].address != before[i as int].address);
                        } else {
                            assert(before[i as int].address != before[k2].address);
                        }
                    }
                }
                if by_address(before).contains_key(address) && address != gone {
                    let k = choose|k: int|
                        0 <= k < before.len() && (#[trigger] before[k]).address == address;
                    let k2 = if k < i {
                        k
                    } else {
                        k - 1
                    };
                    assert(after[k2] == before[k]);
                }
            }
            assert forall|address: IpAddr| #[trigger]
                by_address(after).contains_key(address) implies by_address(after)[address]
                == by_address(before)[address] by {
                let k = choose|k: int|
                    0 <= k < after.len() && (#[trigger] after[k]).address == address;
                let k2 = if k < i {
                    k
                } else {
                    k + 1
                };
                assert(before[k2] == after[k]);
            }
            assert(by_address(after) =~= by_address(before).remove(gone));
        }
    }

    /// Adds a device, with a handle that none has had before. A device with the
    /// same address is replaced; its handle is returned as well.
    pub fn add_device(&mut self, description: &DeviceDescription) -> (res: (u64, Option<u64>))
        requires
            old(self).spec_next_handle() < u64::MAX,
        ensures
            ({
                let address = description.address;
                &&& res.0 == old(self).spec_next_handle()
                &&& forall|known: IpAddr| #[trigger]
                    old(self)@.contains_key(known) ==> old(self)@[known].handle < res.0
                &&& res.1 == (if old(self)@.contains_key(address) {
                    Some(old(self)@[address].handle)
                } else {
                    None
                })
                &&& final(self)@.contains_key(address)
                &&& final(self)@[address].address == address
                &&& final(self)@[address].bnw_id@ == description.spec_bnw_id()
                &&& final(self)@[address].handle == res.0
                &&& final(self)@ == old(self)@.insert(address, final(self)@[address])
                &&& final(self).spec_next_handle() == old(self).spec_next_handle() + 1
            }),
    {
        let address: IpAddr = description.address;
        proof {
            use_type_invariant(&*self);
            lemma_by_address(self.entries@);
        }
        let replaced: Option<u64> = match self.position(address) {
            Some(i) => {
                let handle: u64 = self.entries[i].handle;
                self.remove_at(i);
                Some(handle)
            },
            None => None,
        };
        proof {
            use_type_invariant(&*self);
            lemma_by_address(self.entries@);
        }
        let ghost before = self.entries@;
        assert forall|k: int| 0 <= k < before.len() implies (#[trigger] before[k]).address
            != address by {
            assert(by_address(before).contains_key(before[k].address));
        }
        let handle: u64 = self.next_handle;
        let entry = DeviceEntry { address, bnw_id: description.bnw_id(), handle };
        let mut entries: Vec<DeviceEntry> = Vec::new();
        core::mem::swap(&mut entries, &mut self.entries);
        entries.push(entry);
        let ghost after = entries@;
        assert(after.drop_last() =~= before);
        self.next_handle = handle + 1;
        self.entries = entries;
        assert(self@ =~= old(self)@.insert(address, after.last()));
        (handle, replaced)
    }

    /// The handle of the device with this address. A device whose task is over
    /// is forgotten instead.
    pub fn find_device(&mut self, address: &IpAddr, closed: &[u64]) -> (res: Option<u64>)
        ensures
            final(self).spec_next_handle() == old(self).spec_next_handle(),
            if !old(self)@.contains_key(*address) {
                res is None && final(self)@ == old(self)@
            } else if closed@.contains(old(self)@[*address].handle) {
                res is None && final(self)@ == old(self)@.remove(*address)
            } else {
                res == Some(old(self)@[*address].handle) && final(self)@ == old(self)@
            },
    {
        proof {
            use_type_invariant(&*self);
            lemma_by_address(self.entries@);
        }
        match self.position(*address) {
            None => None,
            Some(i) => {
                let handle: u64 = self.entries[i].handle;
                if is_in(closed, handle) {
                    self.remove_at(i);
                    return None;
                }
                Some(handle)
            },
        }
    }

    /// The address of a device with this name.
    pub fn get_ip_for_bnw_id(&self, bnw_id: &str) -> (res: Option<IpAddr>)
        ensures
            match res {
                Some(address) => self@.contains_key(address) && self@[address].bnw_id@ == bnw_id@,
                None => forall|address: IpAddr| #[trigger]
                    self@.contains_key(address) ==> self@[address].bnw_id@ != bnw_id@,
            },
    {
        proof {
            use_type_invariant(self);
            lemma_by_address(self.entries@);
        }
        let mut i: usize = 0;
        while i < self.entries.len()
            invariant
                i <= self.entries@.len(),
                forall|k: int|
                    0 <= k < self.entries@.len() ==> {
                        &&& by_address(self.entries@).contains_key((#[trigger] self.entries@[k]).address)
                        &&& by_address(self.entries@)[self.entries@[k].address] == self.entries@[k]
                    },
                forall|k: int| 0 <= k < i ==> (#[trigger] self.entries@[k]).bnw_id@ != bnw_id@,
            decreases self.entries@.len() - i,
        {
            if text_is(&self.entries[i].bnw_id, bnw_id) {
                return Some(self.entries[i].address);
            }
            i += 1;
        }
        None
    }

    /// The handle of a device with this name. A device whose task is over is
    /// forgotten instead.
    pub fn find_device_by_bnw_id(&mut self, bnw_id: &str, closed: &[u64]) -> (res: Option<u64>)
        ensures
            final(self).spec_next_handle() == old(self).spec_next_handle(),
            ({
                ||| {
                    &&& forall|address: IpAddr| #[trigger]
                        old(self)@.contains_key(address) ==> old(self)@[address].bnw_id@ != bnw_id@
                    &&& res is None
                    &&& final(self)@ == old(self)@
                }
                ||| exists|address: IpAddr|
                    {
                        &&& #[trigger] old(self)@.contains_key(address)
                        &&& old(self)@[address].bnw_id@ == bnw_id@
                        &&& if closed@.contains(old(self)@[address].handle) {
                            res is None && final(self)@ == old(self)@.remove(address)
                        } else {
                            res == Some(old(self)@[address].handle) && final(self)@ == old(self)@
                        }
                    }
            }),
    {
        match self.get_ip_for_bnw_id(bnw_id) {
            None => None,
            Some(address) => self.find_device(&address, closed),
        }
    }

    /// The handles of all devices, each of them once.
    pub fn handles(&self) -> (res: Vec<u64>)
        ensures
            res@.len() == self@.dom().len(),
            res@.no_duplicates(),
            forall|address: IpAddr| #[trigger]
                self@.contains_key(address) ==> res@.contains(self@[address].handle),
            forall|i: int|
                0 <= i < res@.len() ==> exists|address: IpAddr| #[trigger]
                    self@.contains_key(address) && self@[address].handle == #[trigger] res@[i],
    {
        proof {
            use_type_invariant(self);
            lemma_by_address(self.entries@);
            lemma_by_address_len(self.entries@);
        }
        let mut res: Vec<u64> = Vec::new();
        let mut i: usize = 0;
        while i < self.entries.len()
            invariant
                i <= self.entries@.len(),
                res@.len() == i,
                forall|k: int| 0 <= k < i ==> #[trigger] res@[k] == self.entries@[k].handle,
            decreases self.entries@.len() - i,
        {
            res.push(self.entries[i].handle);
            i += 1;
        }
        proof {
            assert forall|address: IpAddr| #[trigger]
                self@.contains_key(address) implies res@.contains(self@[address].handle) by {
                let k = choose|k: int|
                    0 <= k < self.entries@.len() && (#[trigger] self.entries@[k]).address
                        == address;
                assert(res@[k] == self@[address].handle);
            }
            assert forall|k: int| 0 <= k < res@.len() implies exists|address: IpAddr| #[trigger]
                self@.contains_key(address) && self@[address].handle == #[trigger] res@[k] by {
                assert(self@.contains_key(self.entries@[k].address));
            }
        }
        res
    }

    /// Forgets the devices whose tasks are over.
    pub fn delete_inactive_devices(&mut self, gone: &[u64])
        ensures
            final(self).spec_next_handle() == old(self).spec_next_handle(),
            forall|address: IpAddr| #[trigger]
                final(self)@.contains_key(address) <==> old(self)@.contains_key(address)
                    && !gone@.contains(old(self)@[address].handle),
            forall|address: IpAddr| #[trigger]
                final(self)@.contains_key(address) ==> final(self)@[address] == old(
                    self)@[address],
    {
        proof {
            use_type_invariant(&*self);
            lemma_by_address(self.entries@);
        }
        let mut i: usize = self.entries.len();
        while i > 0
            invariant
                i <= self.entries@.len(),
                self.spec_next_handle() == old(self).spec_next_handle(),
                forall|address: IpAddr| #[trigger]
                    self@.contains_key(address) ==> old(self)@.contains_key(address)
                        && self@[address] == old(self)@[address],
                forall|address: IpAddr| #[trigger]
                    old(self)@.contains_key(address) && !gone@.contains(old(self)@[address].handle)
                        ==> self@.contains_key(address),
                forall|k: int|
                    i <= k < self.entries@.len() ==> !gone@.contains(
                        (#[trigger] self.entries@[k]).handle,
                    ),
            decreases i,
        {
            i -= 1;
            proof {
                use_type_invariant(&*self);
                lemma_by_address(self.entries@);
            }
            let handle: u64 = self.entries[i].handle;
            if is_in(gone, handle) {
                self.remove_at(i);
            }
        }
        proof {
            use_type_invariant(&*self);
            lemma_by_address(self.entries@);
        }
    }
}

/// There are as many addresses as entries.
proof fn lemma_by_address_len(entries: Seq<DeviceEntry>)
    requires
        unique_addresses(entries),
    ensures
        by_address(entries).dom().finite(),
        by_address(entries).dom().len() == entries.len(),
    decreases entries.len(),
{
    if entries.len() > 0 {
        let rest = entries.drop_last();
        assert forall|i: int, j: int| 0 <= i < j < rest.len() implies (#[trigger] rest[i]).address
            != (#[trigger] rest[j]).address by {
            assert(entries[i].address != entries[j].address);
        }
        lemma_by_address_len(rest);
        lemma_by_address(rest);
        let last = entries.last().address;
        if by_address(rest).contains_key(last) {
            let k = choose|k: int| 0 <= k < rest.len() && (#[trigger] rest[k]).address == last;
            assert(entries[k].address != entries[entries.len() - 1].address);
        }
        assert(by_address(entries).dom() =~= by_address(rest).dom().insert(last));
    } else {
        assert(by_address(entries).dom() =~= Set::empty());
    }
}

/// What becomes of a device description that was received.
#[derive(Clone, Copy, Debug, PartialEq, Eq, Structural)]
pub enum DescriptionAction {
    /// Nothing.
    Ignore,
    /// The device with this handle gets it.
    Forward(u64),
    /// The device was not known before and is added.
    Add,
}

/// Whether a device description is ignored whoever sends it: one of an included
/// device that came unencrypted, or one of a device that is not served here.
pub open spec fn is_ignored(description: DeviceDescription, encrypted: bool) -> bool {
    ||| description.included && !encrypted
    ||| description.manufacturer != Manufacturer::Gardena
    ||| description.product != Product::Device
}

/// What becomes of a device description. A device that says that it is included
/// but is not known is left alone: it was either not excluded properly, or its
/// data was lost.
pub fn handle_device_description(
    devices: &mut Devices,
    description: &DeviceDescription,
    encrypted: bool,
    closed: &[u64],
) -> (res: DescriptionAction)
    ensures
        final(devices).spec_next_handle() == old(devices).spec_next_handle(),
        ({
            let address = description.address;
            let known = old(devices)@.contains_key(address);
            if is_ignored(*description, encrypted) {
                res == DescriptionAction::Ignore && final(devices)@ == old(devices)@
            } else if known && !closed@.contains(old(devices)@[address].handle) {
                &&& res == DescriptionAction::Forward(old(devices)@[address].handle)
                &&& final(devices)@ == old(devices)@
            } else {
                &&& res == (if description.included {
                    DescriptionAction::Ignore
                } else {
                    DescriptionAction::Add
                })
                &&& final(devices)@ == old(devices)@.remove(address)
            }
        }),
{
    if description.included && !encrypted {
        return DescriptionAction::Ignore;
    }
    if description.manufacturer != Manufacturer::Gardena {
        return DescriptionAction::Ignore;
    }
    match description.product {
        Product::Device => {},
        Product::Gateway => {
            return DescriptionAction::Ignore;
        },
    }
    let ghost before = devices@;
    match devices.find_device(&description.address, closed) {
        Some(handle) => DescriptionAction::Forward(handle),
        None => {
            assert(devices@ =~= before.remove(description.address));
            if description.included {
                DescriptionAction::Ignore
            } else {
                DescriptionAction::Add
            }
        },
    }
}

/// The device that a message is for. Messages that came unencrypted are
/// ignored, and so are those of a device that is not known.
pub fn message_device(
    devices: &mut Devices,
    address: &IpAddr,
    encrypted: bool,
    closed: &[u64],
) -> (res: Option<u64>)
    ensures
        final(devices).spec_next_handle() == old(devices).spec_next_handle(),
        if !encrypted || !old(devices)@.contains_key(*address) {
            res is None && final(devices)@ == old(devices)@
        } else if closed@.contains(old(devices)@[*address].handle) {
            res is None && final(devices)@ == old(devices)@.remove(*address)
        } else {
            res == Some(old(devices)@[*address].handle) && final(devices)@ == old(devices)@
        },
{
    if !encrypted {
        return None;
    }
    devices.find_device(address, closed)
}

/// The values that some parts of a message report, in their order. Those that
/// cannot be used are left out.
pub open spec fn usable_values(values: Seq<Value>, responses: Seq<ValueResponse>) -> bool
    decreases responses.len(),
{
    if responses.len() == 0 {
        values.len() == 0
    } else if lemonbeat_requests::response_error(responses.last()) is Some {
        usable_values(values, responses.drop_last())
    } else {
        &&& values.len() > 0
        &&& lemonbeat_requests::is_response(values.last(), responses.last())
        &&& usable_values(values.drop_last(), responses.drop_last())
    }
}

/// The values that a message reports. A message without any part is ignored.
pub fn handle_value(responses: &[ValueResponse]) -> (res: Option<Vec<Value>>)
    ensures
        match res {
            None => responses@.len() == 0,
            Some(values) => responses@.len() > 0 && usable_values(values@, responses@),
        },
{
    if responses.len() == 0 {
        return None;
    }
    let mut values: Vec<Value> = Vec::new();
    let mut i: usize = 0;
    while i < responses.len()
        invariant
            i <= responses@.len(),
            usable_values(values@, responses@.take(i as int)),
        decreases responses@.len() - i,
    {
        proof {
            assert(responses@.take(i + 1).drop_last() =~= responses@.take(i as int));
            assert(responses@.take(i + 1).last() == responses@[i as int]);
        }
        match response_value(&responses[i]) {
            Ok(value) => {
                let ghost before = values@;
                values.push(value);
                assert(values@.drop_last() =~= before);
            },
            Err(_) => {},
        }
        i += 1;
    }
    assert(responses@.take(i as int) =~= responses@);
    Some(values)
}

/// A part of a status message.
#[derive(Debug)]
pub enum StatusResponse {
    Report(RawStatus),
    /// Anything else.
    Other,
}

/// How many parts of a status message are reports before the first one that is
/// not.
pub open spec fn leading_reports(responses: Seq<StatusResponse>, from: int) -> int
    decreases responses.len() - from,
{
    if from < 0 || from >= responses.len() || responses[from] is Other {
        from
    } else {
        leading_reports(responses, from + 1)
    }
}

/// How many reports of a status message the device gets, and whether something
/// follows that is no report.
pub fn handle_status(responses: &[StatusResponse]) -> (res: (usize, Result<(), Error>))
    ensures
        res.0 == leading_reports(responses@, 0),
        res.1 == (if res.0 == responses@.len() {
            Ok::<(), Error>(())
        } else {
            Err::<(), Error>(Error::UnsupportedData)
        }),
{
    let mut i: usize = 0;
    while i < responses.len()
        invariant
            i <= responses@.len(),
            leading_reports(responses@, 0) == leading_reports(responses@, i as int),
        decreases responses@.len() - i,
    {
        match &responses[i] {
            StatusResponse::Report(_) => {},
            StatusResponse::Other => {
                return (i, Err(Error::UnsupportedData));
            },
        }
        i += 1;
    }
    (i, Ok(()))
}

/// What a request from outside is for.
#[derive(Debug)]
pub enum EntityKind {
    Gateway { service: String },
    Device { device: String },
}

/// What a request from outside asks for.
#[derive(Debug)]
pub enum Route {
    AllDevices,
    /// To include the device that was announced under this number.
    Include(u16),
    /// To repair the device with this name.
    Repair(String),
    /// Something of the device with this name.
    Device(String),
}

/// The number that decimal digits stand for.
pub open spec fn decimal_value(digits: Seq<char>) -> nat
    decreases digits.len(),
{
    if digits.len() == 0 {
        0
    } else {
        10 * decimal_value(digits.drop_last()) + (digits.last() as nat - 48) as nat
    }
}

pub open spec fn is_decimal(text: Seq<char>) -> bool {
    &&& text.len() > 0
    &&& forall|i: int| 0 <= i < text.len() ==> '0' <= #[trigger] text[i] <= '9'
}

pub open spec fn is_letter_or_digit(c: char) -> bool {
    ||| 'a' <= c <= 'z'
    ||| 'A' <= c <= 'Z'
    ||| '0' <= c <= '9'
}

pub open spec fn is_alphanumeric(text: Seq<char>) -> bool {
    &&& text.len() > 0
    &&& forall|i: int| 0 <= i < text.len() ==> is_letter_or_digit(#[trigger] text[i])
}

/// The number of the device that a path asks to include.
pub open spec fn includable_digits(path: Seq<char>) -> Option<Seq<char>> {
    match utils::inner(path, "includable_device/"@, "/include"@) {
        Some(digits) => if is_decimal(digits) {
            Some(digits)
        } else {
            None
        },
        None => None,
    }
}

/// The name of the device that a path asks to repair.
pub open spec fn repair_name(path: Seq<char>) -> Option<Seq<char>> {
    match utils::inner(path, "device/"@, "/repair"@) {
        Some(name) => if is_alphanumeric(name) {
            Some(name)
        } else {
            None
        },
        None => None,
    }
}

proof fn lemma_decimal_value_grows(digits: Seq<char>, i: int)
    requires
        is_decimal(digits),
        0 <= i <= digits.len(),
    ensures
        decimal_value(digits.take(i)) <= decimal_value(digits),
    decreases digits.len() - i,
{
    if i < digits.len() {
        assert(digits.take(i + 1).drop_last() =~= digits.take(i));
        lemma_decimal_value_grows(digits, i + 1);
    } else {
        assert(digits.take(i) =~= digits);
    }
}

/// The number of the device that a path asks to include; nothing for another
/// path.
fn includable_id(path: &str) -> (res: Result<Option<u16>, Error>)
    ensures
        match includable_digits(path@) {
            None => res == Ok::<Option<u16>, Error>(None),
            Some(digits) => if decimal_value(digits) <= u16::MAX {
                res == Ok::<Option<u16>, Error>(Some(decimal_value(digits) as u16))
            } else {
                res == Err::<Option<u16>, Error>(Error::OutOfRange)
            },
        },
{
    let digits: &str = match inner_text(path, "includable_device/", "/include") {
        Some(digits) => digits,
        None => {
            return Ok(None);
        },
    };
    let len: usize = digits.unicode_len();
    if len == 0 {
        return Ok(None);
    }
    let ghost text = digits@;
    let mut i: usize = 0;
    while i < len
        invariant
            i <= len,
            len == text.len(),
            text == digits@,
            utils::inner(path@, "includable_device/"@, "/include"@) == Some(text),
            forall|k: int| 0 <= k < i ==> '0' <= #[trigger] text[k] <= '9',
        decreases len - i,
    {
        let c: char = digits.get_char(i);
        if c < '0' || '9' < c {
            assert(!('0' <= text[i as int] <= '9'));
            return Ok(None);
        }
        i += 1;
    }
    assert(is_decimal(text));
    let mut value: u32 = 0;
    let mut j: usize = 0;
    assert(decimal_value(text.take(0)) == 0);
    while j < len
        invariant
            j <= len,
            len == text.len(),
            text == digits@,
            is_decimal(text),
            utils::inner(path@, "includable_device/"@, "/include"@) == Some(text),
            value <= 65535,
            value == decimal_value(text.take(j as int)),
        decreases len - j,
    {
        let c: char = digits.get_char(j);
        proof {
            assert('0' <= text[j as int] <= '9');
            assert(text.take(j + 1).drop_last() =~= text.take(j as int));
            lemma_decimal_value_grows(text, j + 1);
        }
        value = 10 * value + (c as u32 - 48);
        if value > 65535 {
            return Err(Error::OutOfRange);
        }
        j += 1;
    }
    assert(text.take(j as int) =~= text);
    Ok(Some(value as u16))
}

/// The name of the device that a path asks to repair; nothing for another path.
fn repairable_name(path: &str) -> (res: Option<String>)
    ensures
        match (res, repair_name(path@)) {
            (Some(name), Some(expected)) => name@ == expected,
            (None, None) => true,
            _ => false,
        },
{
    let name: &str = match inner_text(path, "device/", "/repair") {
        Some(name) => name,
        None => {
            return None;
        },
    };
    let len: usize = name.unicode_len();
    if len == 0 {
        return None;
    }
    let mut i: usize = 0;
    while i < len
        invariant
            i <= len,
            len == name@.len(),
            utils::inner(path@, "device/"@, "/repair"@) == Some(name@),
            forall|k: int| 0 <= k < i ==> is_letter_or_digit(#[trigger] name@[k]),
        decreases len - i,
    {
        let c: char = name.get_char(i);
        if !('a' <= c && c <= 'z' || 'A' <= c && c <= 'Z' || '0' <= c && c <= '9') {
            assert(!is_letter_or_digit(name@[i as int]));
            return None;
        }
        i += 1;
    }
    Some(name.to_owned())
}

/// Whether `res` is where a request is routed to. `path` is nothing if it is no
/// text.
pub open spec fn is_route(res: Result<Route, Error>, kind: EntityKind, path: Option<Seq<char>>) -> bool {
    match kind {
        EntityKind::Device { device } => res matches Ok(Route::Device(name)) && name@ == device@,
        EntityKind::Gateway { service } => if service@ != "lemonbeatd"@ {
            res == Err::<Route, Error>(Error::UnsupportedService)
        } else if path is None {
            res == Err::<Route, Error>(Error::InvalidUtf8)
        } else if path->0 == "devices"@ {
            res == Ok::<Route, Error>(Route::AllDevices)
        } else if includable_digits(path->0) is Some {
            let number = decimal_value(includable_digits(path->0)->0);
            if number <= u16::MAX {
                res == Ok::<Route, Error>(Route::Include(number as u16))
            } else {
                res == Err::<Route, Error>(Error::OutOfRange)
            }
        } else if repair_name(path->0) is Some {
            res matches Ok(Route::Repair(name)) && name@ == repair_name(path->0)->0
        } else {
            res == Err::<Route, Error>(Error::UnsupportedPath)
        },
    }
}

/// Where a request from outside is routed to.
pub fn route_request(kind: &EntityKind, path: Option<&str>) -> (res: Result<Route, Error>)
    ensures
        is_route(
            res,
            *kind,
            match path {
                Some(path) => Some(path@),
                None => None,
            },
        ),
{
    match kind {
        EntityKind::Device { device } => Ok(Route::Device(device.clone())),
        EntityKind::Gateway { service } => {
            if !text_is(service, "lemonbeatd") {
                return Err(Error::UnsupportedService);
            }
            let path: &str = match path {
                Some(path) => path,
                None => {
                    return Err(Error::InvalidUtf8);
                },
            };
            if same_text(path, "devices") {
                return Ok(Route::AllDevices);
            }
            match includable_id(path)? {
                Some(id) => {
                    return Ok(Route::Include(id));
                },
                None => {},
            }
            match repairable_name(path) {
                Some(name) => Ok(Route::Repair(name)),
                None => Err(Error::UnsupportedPath),
            }
        },
    }
}

/// A request to include a device reaches it, whatever its number.
pub proof fn law_include_path(id: u16)
    ensures
        includable_digits("includable_device/"@ + utils::decimal(id as nat) + "/include"@) == Some(
            utils::decimal(id as nat),
        ),
        decimal_value(utils::decimal(id as nat)) == id,
{
    utils::lemma_decimal_digits(id as nat);
    utils::lemma_inner("includable_device/"@, utils::decimal(id as nat), "/include"@);
    lemma_decimal_value(id as nat);
}

/// Reading the decimal digits of a number gives the number back.
proof fn lemma_decimal_value(number: nat)
    ensures
        decimal_value(utils::decimal(number)) == number,
    decreases number,
{
    if number >= 10 {
        lemma_decimal_value(number / 10);
        let digits = utils::decimal(number);
        assert(digits.drop_last() =~= utils::decimal(number / 10));
    } else {
        let digits = utils::decimal(number);
        assert(decimal_value(digits.drop_last()) == 0);
    }
}

/// Whom a request from outside is handed to.
#[derive(Clone, Copy, Debug, PartialEq, Eq, Structural)]
pub enum Target {
    AllDevices,
    /// The device with this handle.
    Device(u64),
}

/// Whom a request from outside is handed to. `includable` is the address of the
/// device that was announced under the number in the request, if there is one.
pub fn find_target(
    devices: &mut Devices,
    route: &Route,
    includable: Option<IpAddr>,
    closed: &[u64],
) -> (res: Result<Target, Error>)
    ensures
        final(devices).spec_next_handle() == old(devices).spec_next_handle(),
        match *route {
            Route::AllDevices => res == Ok::<Target, Error>(Target::AllDevices) && final(devices)@
                == old(devices)@,
            Route::Include(_) => match includable {
                None => res == Err::<Target, Error>(Error::DeviceNotFound) && final(devices)@
                    == old(devices)@,
                Some(address) => if !old(devices)@.contains_key(address) {
                    res == Err::<Target, Error>(Error::DeviceNotFound) && final(devices)@ == old(
                        devices)@
                } else {
                    is_found(old(devices)@, final(devices)@, address, closed@, res)
                },
            },
            Route::Repair(name) | Route::Device(name) => {
                ||| {
                    &&& forall|address: IpAddr| #[trigger]
                        old(devices)@.contains_key(address) ==> old(devices)@[address].bnw_id@
                            != name@
                    &&& res == Err::<Target, Error>(Error::DeviceNotFound)
                    &&& final(devices)@ == old(devices)@
                }
                ||| exists|address: IpAddr|
                    {
                        &&& #[trigger] old(devices)@.contains_key(address)
                        &&& old(devices)@[address].bnw_id@ == name@
                        &&& is_found(old(devices)@, final(devices)@, address, closed@, res)
                    }
            },
        },
{
    let found: Option<u64> = match route {
        Route::AllDevices => {
            return Ok(Target::AllDevices);
        },
        Route::Include(_) => match includable {
            None => None,
            Some(address) => devices.find_device(&address, closed),
        },
        Route::Repair(name) | Route::Device(name) => devices.find_device_by_bnw_id(
            name.as_str(),
            closed,
        ),
    };
    match found {
        Some(handle) => Ok(Target::Device(handle)),
        None => Err(Error::DeviceNotFound),
    }
}

/// Whether `res` is the device with a known address. If its task is over it is
/// forgotten instead.
pub open spec fn is_found(
    before: Map<IpAddr, DeviceEntry>,
    after: Map<IpAddr, DeviceEntry>,
    address: IpAddr,
    closed: Seq<u64>,
    res: Result<Target, Error>,
) -> bool {
    if closed.contains(before[address].handle) {
        res == Err::<Target, Error>(Error::DeviceNotFound) && after == before.remove(address)
    } else {
        res == Ok::<Target, Error>(Target::Device(before[address].handle)) && after == before
    }
}

/// What a device answers when all devices are asked for what they offer.
#[derive(Clone, Copy, Debug, PartialEq, Eq, Structural)]
pub enum ListAnswer {
    /// The device is gone, or was gone before it could answer.
    Gone,
    Failed,
    /// The device is not to be listed.
    Hidden,
    Listed,
}

/// Which of the first `count` devices are listed.
pub open spec fn listed(answers: Seq<ListAnswer>, count: int) -> Seq<usize>
    decreases count,
{
    if count <= 0 {
        Seq::empty()
    } else if answers[count - 1] == ListAnswer::Listed {
        listed(answers, count - 1).push((count - 1) as usize)
    } else {
        listed(answers, count - 1)
    }
}

/// Which devices are listed. One that cannot answer does not keep the others
/// from being listed.
pub fn listed_devices(answers: &[ListAnswer]) -> (res: Vec<usize>)
    ensures
        res@ == listed(answers@, answers@.len() as int),
{
    let mut res: Vec<usize> = Vec::new();
    let mut i: usize = 0;
    while i < answers.len()
        invariant
            i <= answers@.len(),
            res@ == listed(answers@, i as int),
        decreases answers@.len() - i,
    {
        match answers[i] {
            ListAnswer::Listed => {
                res.push(i);
            },
            _ => {},
        }
        i += 1;
    }
    res
}

/// What comes of handing a device something that it does not answer.
#[derive(Clone, Copy, Debug, PartialEq, Eq, Structural)]
pub enum NotifyResult {
    Queued,
    /// The task of the device is over.
    Closed,
    /// An answer was missed, though none was waited for.
    NoAnswer,
}

/// Whether a device is forgotten when it is told to delete itself if it is not
/// in use: only if its task is over.
pub fn is_gone(closed: bool, result: NotifyResult) -> (res: bool)
    ensures
        res == (closed || result == NotifyResult::Closed),
{
    if closed {
        return true;
    }
    match result {
        NotifyResult::Closed => true,
        NotifyResult::Queued | NotifyResult::NoAnswer => false,
    }
}

/// Whether the time zone of the process is read from a file: the one that the
/// `TZ` variable names.
pub fn is_timezone_file(tz: Option<&str>) -> (res: bool)
    ensures
        res == (tz matches Some(path) && path@.len() > 0 && path@[0] == '/'),
{
    match tz {
        None => false,
        Some(path) => path.unicode_len() > 0 && path.get_char(0) == '/',
    }
}

/// The address that a directory in the working directory is named after.
/// Anything but the directory of a device is passed over; a directory whose name
/// is no text is an error.
pub fn workdir_entry<'a>(is_dir: bool, name: Option<&'a str>) -> (res: Result<
    Option<&'a str>,
    Error,
>)
    ensures
        match res {
            Err(e) => is_dir && name is None && e == Error::InvalidUtf8,
            Ok(None) => !is_dir || (name matches Some(name) && loadsave::address_in_dir(
                name@,
            ) is None),
            Ok(Some(address)) => {
                &&& is_dir
                &&& name matches Some(name)
                &&& loadsave::address_in_dir(name@) == Some(address@)
            },
        },
{
    if !is_dir {
        return Ok(None);
    }
    match name {
        None => Err(Error::InvalidUtf8),
        Some(name) => Ok(device_dir_address(name)),
    }
}

/// Whether a device that was found in the working directory is started. The
/// gateway itself once was kept there as a device as well.
pub fn is_started(description: &DeviceDescription) -> (res: bool)
    ensures
        res == (description.spec_loadsave_enabled() && !description.spec_is_radio_module()),
{
    description.loadsave_enabled() && !description.is_radio_module()
}

/// Whether data from elsewhere has to be moved to the working directory. It is,
/// unless there is data already, which must not be lost.
pub fn plan_migration(data_exists: bool, workdir_is_empty: bool) -> (res: Result<bool, Error>)
    ensures
        res == (if !data_exists {
            Ok::<bool, Error>(false)
        } else if workdir_is_empty {
            Ok::<bool, Error>(true)
        } else {
            Err::<bool, Error>(Error::WorkdirNotEmpty)
        }),
{
    if !data_exists {
        return Ok(false);
    }
    if !workdir_is_empty {
        return Err(Error::WorkdirNotEmpty);
    }
    Ok(true)
}

/// Takes note of the offset from UTC. Returns whether it has changed, so that
/// all devices have to be told.
pub fn utc_offset_changed(offset: &mut i32, now: i32) -> (res: bool)
    ensures
        res == (*old(offset) != now),
        *final(offset) == now,
{
    let changed: bool = *offset != now;
    *offset = now;
    changed
}

/// Whether a device description is heard depends on nothing but whether it is
/// from a Gardena device, whether the device says that it is included, and
/// whether it was encrypted. A device that is not included yet is always heard:
/// it has no key to encrypt with.
pub proof fn law_whose_descriptions_are_heard(description: DeviceDescription, encrypted: bool)
    ensures
        description.manufacturer == Manufacturer::Gardena && description.product == Product::Device
            && !description.included ==> !is_ignored(description, encrypted),
        description.manufacturer == Manufacturer::Gardena && description.product == Product::Device
            ==> !is_ignored(description, true),
        description.included ==> is_ignored(description, false),
        description.manufacturer != Manufacturer::Gardena ==> is_ignored(description, encrypted),
        description.product == Product::Gateway ==> is_ignored(description, encrypted),
{
}

/// Two descriptions that agree on whose device it is and on whether it is
/// included are treated alike, whatever else they say.
pub proof fn law_descriptions_are_treated_alike(
    a: DeviceDescription,
    b: DeviceDescription,
    encrypted: bool,
)
    requires
        a.manufacturer == b.manufacturer,
        a.product == b.product,
        a.included == b.included,
    ensures
        is_ignored(a, encrypted) == is_ignored(b, encrypted),
{
}

/// The parts of a message that can be used.
pub open spec fn usable_responses(responses: Seq<ValueResponse>) -> Seq<ValueResponse>
    decreases responses.len(),
{
    if responses.len() == 0 {
        responses
    } else if lemonbeat_requests::response_error(responses.last()) is Some {
        usable_responses(responses.drop_last())
    } else {
        usable_responses(responses.drop_last()).push(responses.last())
    }
}

/// A message gives a value for each part that can be used, in their order; the
/// other parts do no harm.
pub proof fn law_usable_parts_are_taken_over(values: Seq<Value>, responses: Seq<ValueResponse>)
    ensures
        usable_values(values, responses) <==> {
            &&& values.len() == usable_responses(responses).len()
            &&& forall|i: int|
                0 <= i < values.len() ==> lemonbeat_requests::is_response(
                    #[trigger] values[i],
                    usable_responses(responses)[i],
                )
        },
        forall|i: int|
            0 <= i < responses.len() && lemonbeat_requests::response_error(
                #[trigger] responses[i],
            ) is None ==> usable_responses(responses).contains(responses[i]),
    decreases responses.len(),
{
    if responses.len() > 0 {
        let rest = responses.drop_last();
        let last = responses.last();
        let all = usable_responses(responses);
        if lemonbeat_requests::response_error(last) is Some {
            law_usable_parts_are_taken_over(values, rest);
        } else if values.len() > 0 {
            law_usable_parts_are_taken_over(values.drop_last(), rest);
            assert(all.drop_last() =~= usable_responses(rest));
            if values.len() == all.len() {
                if usable_values(values, responses) {
                    assert forall|i: int|
                        0 <= i < values.len() implies lemonbeat_requests::is_response(
                        #[trigger] values[i],
                        all[i],
                    ) by {
                        if i < values.len() - 1 {
                            assert(values.drop_last()[i] == values[i]);
                        }
                    }
                }
                if forall|i: int|
                    0 <= i < values.len() ==> lemonbeat_requests::is_response(
                        #[trigger] values[i],
                        all[i],
                    ) {
                    let head = values.drop_last();
                    assert(lemonbeat_requests::is_response(values[values.len() - 1], all[all.len() - 1]));
                    assert forall|i: int|
                        0 <= i < head.len() implies lemonbeat_requests::is_response(
                        #[trigger] head[i],
                        usable_responses(rest)[i],
                    ) by {
                        assert(head[i] == values[i]);
                    }
                }
            }
        } else {
            law_usable_parts_are_taken_over(values, rest);
        }
        assert forall|i: int|
            0 <= i < responses.len() && lemonbeat_requests::response_error(
                #[trigger] responses[i],
            ) is None implies all.contains(responses[i]) by {
            if i < rest.len() {
                assert(rest[i] == responses[i]);
                let k = choose|k: int|
                    0 <= k < usable_responses(rest).len() && usable_responses(rest)[k]
                        == responses[i];
                assert(all[k] == responses[i]);
            } else {
                assert(all[all.len() - 1] == last);
            }
        }
    }
}

proof fn lemma_leading_reports(responses: Seq<StatusResponse>, from: int)
    requires
        0 <= from <= responses.len(),
    ensures
        from <= leading_reports(responses, from) <= responses.len(),
        forall|k: int|
            from <= k < leading_reports(responses, from) ==> #[trigger] responses[k] is Report,
        leading_reports(responses, from) < responses.len() ==> responses[leading_reports(
            responses,
            from,
        )] is Other,
    decreases responses.len() - from,
{
    if from < responses.len() && !(responses[from] is Other) {
        lemma_leading_reports(responses, from + 1);
    }
}

/// A device gets all reports of a status message up to the first part that is
/// none, and all of them if there is no such part.
pub proof fn law_leading_reports_are_delivered(responses: Seq<StatusResponse>)
    ensures
        ({
            let count = leading_reports(responses, 0);
            &&& 0 <= count <= responses.len()
            &&& forall|k: int| 0 <= k < count ==> #[trigger] responses[k] is Report
            &&& count < responses.len() ==> responses[count] is Other
        }),
{
    lemma_leading_reports(responses, 0);
}

/// A path to include a device holds its number, in digits only, and a number
/// that no device can have is an error.
pub proof fn law_include_requests(digits: Seq<char>, service: String, res: Result<Route, Error>)
    requires
        service@ == "lemonbeatd"@,
        digits.len() > 0,
        forall|i: int| 0 <= i < digits.len() ==> '0' <= #[trigger] digits[i] <= '9',
        is_route(
            res,
            EntityKind::Gateway { service },
            Some("includable_device/"@ + digits + "/include"@),
        ),
    ensures
        decimal_value(digits) <= 0xffff ==> res == Ok::<Route, Error>(
            Route::Include(decimal_value(digits) as u16),
        ),
        decimal_value(digits) > 0xffff ==> res == Err::<Route, Error>(Error::OutOfRange),
{
    let path = "includable_device/"@ + digits + "/include"@;
    utils::lemma_inner("includable_device/"@, digits, "/include"@);
    assert(path != "devices"@) by {
        reveal_strlit("includable_device/");
        reveal_strlit("devices");
        assert(path[0] == 'i');
        assert("devices"@[0] == 'd');
    }
}

/// The digits of a number are worth what they say: each digit ten times as much
/// as the one behind it.
pub proof fn law_digits_are_worth(digits: Seq<char>, digit: u8, id: u16)
    requires
        digit < 10,
    ensures
        decimal_value(Seq::empty()) == 0,
        decimal_value(digits.push((48 + digit) as char)) == 10 * decimal_value(digits) + digit,
        decimal_value(utils::decimal(id as nat)) == id,
{
    assert(digits.push((48 + digit) as char).drop_last() =~= digits);
    lemma_decimal_value(id as nat);
}

/// A path to repair a device holds its name, which is made of letters and
/// digits.
pub proof fn law_repair_requests(name: Seq<char>, service: String, res: Result<Route, Error>)
    requires
        service@ == "lemonbeatd"@,
        name.len() > 0,
        forall|i: int|
            0 <= i < name.len() ==> ('a' <= #[trigger] name[i] <= 'z' || 'A' <= name[i] <= 'Z'
                || '0' <= name[i] <= '9'),
        is_route(res, EntityKind::Gateway { service }, Some("device/"@ + name + "/repair"@)),
    ensures
        res matches Ok(Route::Repair(found)) && found@ == name,
{
    let path = "device/"@ + name + "/repair"@;
    utils::lemma_inner("device/"@, name, "/repair"@);
    reveal_strlit("device/");
    reveal_strlit("/repair");
    reveal_strlit("devices");
    reveal_strlit("includable_device/");
    assert(path[0] == 'd');
    assert(path[6] == '/');
    assert("devices"@[6] == 's');
    assert(path != "devices"@);
    utils::law_inner_makes_up_text(path, "includable_device/"@, "/include"@);
    if let Some(middle) = utils::inner(path, "includable_device/"@, "/include"@) {
        assert(("includable_device/"@ + middle + "/include"@)[0] == 'i');
    }
    assert forall|i: int| 0 <= i < name.len() implies is_letter_or_digit(#[trigger] name[i]) by {
    }
}

/// A request for a device is routed to the device that it names, whatever its
/// path. One for the gateway has to be for this service, and only lists the
/// devices, includes one, or repairs one.
pub proof fn law_requests_are_routed(
    res: Result<Route, Error>,
    kind: EntityKind,
    path: Option<Seq<char>>,
)
    requires
        is_route(res, kind, path),
    ensures
        kind matches EntityKind::Device { device } ==> (res matches Ok(Route::Device(name)) && name@
            == device@),
        kind matches EntityKind::Gateway { service } ==> {
            &&& service@ != "lemonbeatd"@ ==> res == Err::<Route, Error>(Error::UnsupportedService)
            &&& service@ == "lemonbeatd"@ && path is None ==> res == Err::<Route, Error>(
                Error::InvalidUtf8,
            )
            &&& service@ == "lemonbeatd"@ && path == Some("devices"@) ==> res == Ok::<Route, Error>(
                Route::AllDevices,
            )
            &&& res matches Ok(route) ==> {
                &&& service@ == "lemonbeatd"@
                &&& path is Some
                &&& match route {
                    Route::AllDevices => path->0 == "devices"@,
                    Route::Include(_) => exists|digits: Seq<char>|
                        {
                            &&& path->0 == #[trigger] ("includable_device/"@ + digits) + "/include"@
                            &&& digits.len() > 0
                            &&& forall|i: int|
                                0 <= i < digits.len() ==> '0' <= #[trigger] digits[i] <= '9'
                        },
                    Route::Repair(name) => {
                        &&& path->0 == "device/"@ + name@ + "/repair"@
                        &&& name@.len() > 0
                        &&& forall|i: int|
                            0 <= i < name@.len() ==> ('a' <= #[trigger] name@[i] <= 'z' || 'A'
                                <= name@[i] <= 'Z' || '0' <= name@[i] <= '9')
                    },
                    Route::Device(_) => false,
                }
            }
        },
{
    if path is Some {
        utils::law_inner_makes_up_text(path->0, "includable_device/"@, "/include"@);
        utils::law_inner_makes_up_text(path->0, "device/"@, "/repair"@);
        if let Some(digits) = utils::inner(path->0, "includable_device/"@, "/include"@) {
            assert(path->0 == ("includable_device/"@ + digits) + "/include"@);
        }
        if let Some(name) = repair_name(path->0) {
            assert forall|i: int| 0 <= i < name.len() implies ('a' <= #[trigger] name[i] <= 'z'
                || 'A' <= name[i] <= 'Z' || '0' <= name[i] <= '9') by {
                assert(is_letter_or_digit(name[i]));
            }
        }
    }
}

/// A request reaches the device as long as its task runs. One whose task is over
/// is forgotten, and no other device is.
pub proof fn law_targets(
    before: Map<IpAddr, DeviceEntry>,
    after: Map<IpAddr, DeviceEntry>,
    address: IpAddr,
    closed: Seq<u64>,
    res: Result<Target, Error>,
    other: IpAddr,
)
    requires
        before.contains_key(address),
        is_found(before, after, address, closed, res),
    ensures
        res == Ok::<Target, Error>(Target::Device(before[address].handle)) <==> !closed.contains(
            before[address].handle,
        ),
        res == Err::<Target, Error>(Error::DeviceNotFound) <==> closed.contains(
            before[address].handle,
        ),
        after.contains_key(address) <==> res is Ok,
        other != address ==> after.contains_key(other) == before.contains_key(other)
            && after[other] == before[other],
{
}

proof fn lemma_listed(answers: Seq<ListAnswer>, count: int)
    requires
        0 <= count <= answers.len() <= usize::MAX,
    ensures
        forall|k: int|
            0 <= k < listed(answers, count).len() ==> {
                &&& 0 <= #[trigger] listed(answers, count)[k] < count
                &&& answers[listed(answers, count)[k] as int] == ListAnswer::Listed
            },
        forall|a: int, b: int|
            0 <= a < b < listed(answers, count).len() ==> #[trigger] listed(answers, count)[a]
                < #[trigger] listed(answers, count)[b],
        forall|i: int|
            0 <= i < count && #[trigger] answers[i] == ListAnswer::Listed ==> listed(
                answers,
                count,
            ).contains(i as usize),
    decreases count,
{
    if count > 0 {
        lemma_listed(answers, count - 1);
        let before = listed(answers, count - 1);
        let all = listed(answers, count);
        assert forall|i: int| 0 <= i < count && #[trigger] answers[i]
            == ListAnswer::Listed implies all.contains(i as usize) by {
            if i < count - 1 {
                let k = choose|k: int| 0 <= k < before.len() && before[k] == i as usize;
                assert(all[k] == i as usize);
            } else {
                assert(all[all.len() - 1] == i as usize);
            }
        }
    }
}

/// Exactly the devices that answer with something to list are listed, each once
/// and in the order in which they were asked.
pub proof fn law_listed_devices(answers: Seq<ListAnswer>, i: int)
    requires
        0 <= i < answers.len() <= usize::MAX,
    ensures
        ({
            let all = listed(answers, answers.len() as int);
            &&& all.contains(i as usize) <==> answers[i] == ListAnswer::Listed
            &&& forall|a: int, b: int|
                0 <= a < b < all.len() ==> #[trigger] all[a] < #[trigger] all[b]
        }),
{
    lemma_listed(answers, answers.len() as int);
}

} // verus!
