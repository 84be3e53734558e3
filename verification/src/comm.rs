//! What a request to a device needs on this side: a source port, a wakeup
//! channel, and the rules for what counts as an answer.

use crate::error::Error;
use crate::net::SocketAddr;
use crate::net::SocketAddrV6;
use crate::random::random_below;
use crate::storage::ChannelMap;
use crate::storage::channel_map;
use vstd::prelude::*;

verus! {

/// The first port of the Lemonbeat source port range.
pub const FIRST_PORT: u16 = 20128;

/// The source ports that are taken, one bit for each.
///
/// Ports outside the range may keep answers from being delivered.
#[derive(Debug)]
pub struct PortPool {
    used: u64,
}

/// A source port that is taken from a pool until it is released.
#[derive(Debug)]
pub struct Port {
    bit: u8,
}

/// Whether bit `i` of `bits` is set.
pub open spec fn has_bit(bits: u64, i: int) -> bool {
    bits & (1u64 << (i as u64)) != 0
}

/// The bits that are set.
pub open spec fn bits_of(bits: u64) -> Set<int> {
    Set::new(|i: int| 0 <= i < 64 && has_bit(bits, i))
}

/// The clear bits below `end`, in ascending order.
pub open spec fn clear_bits(bits: u64, end: int) -> Seq<u8>
    decreases end,
{
    if end <= 0 {
        Seq::empty()
    } else if has_bit(bits, end - 1) {
        clear_bits(bits, end - 1)
    } else {
        clear_bits(bits, end - 1).push((end - 1) as u8)
    }
}

proof fn lemma_set_bit(bits: u64, b: u64)
    requires
        b < 64,
    ensures
        bits_of(bits | (1u64 << b)) == bits_of(bits).insert(b as int),
{
    assert forall|i: int| 0 <= i < 64 implies #[trigger] has_bit(bits | (1u64 << b), i) == (
    has_bit(bits, i) || i == b) by {
        let k = i as u64;
        assert(((bits | (1u64 << b)) & (1u64 << k) != 0) == (bits & (1u64 << k) != 0 || k == b))
            by (bit_vector)
            requires
                k < 64,
                b < 64,
        ;
    }
    assert(bits_of(bits | (1u64 << b)) =~= bits_of(bits).insert(b as int));
}

proof fn lemma_clear_bit(bits: u64, b: u64)
    requires
        b < 64,
    ensures
        bits_of(bits & !(1u64 << b)) == bits_of(bits).remove(b as int),
{
    assert forall|i: int| 0 <= i < 64 implies has_bit(bits & !(1u64 << b), i) == (has_bit(bits, i)
        && i != b) by {
        let k = i as u64;
        assert(((bits & !(1u64 << b)) & (1u64 << k) != 0) == (bits & (1u64 << k) != 0 && k != b))
            by (bit_vector)
            requires
                k < 64,
                b < 64,
        ;
    }
    assert(bits_of(bits & !(1u64 << b)) =~= bits_of(bits).remove(b as int));
}

/// The clear bits are the ones that are not set, and no other.
proof fn lemma_clear_bits(bits: u64, end: int)
    requires
        0 <= end <= 64,
    ensures
        forall|i: int|
            0 <= i < clear_bits(bits, end).len() ==> {
                &&& 0 <= #[trigger] clear_bits(bits, end)[i] < end
                &&& !has_bit(bits, clear_bits(bits, end)[i] as int)
            },
        forall|b: int|
            0 <= b < end && !#[trigger] has_bit(bits, b) ==> clear_bits(bits, end).contains(
                b as u8,
            ),
        clear_bits(bits, end).len() <= end,
    decreases end,
{
    if end > 0 {
        lemma_clear_bits(bits, end - 1);
        let prev = clear_bits(bits, end - 1);
        let all = clear_bits(bits, end);
        assert forall|b: int| 0 <= b < end && !#[trigger] has_bit(bits, b) implies all.contains(
            b as u8,
        ) by {
            if b < end - 1 {
                let k = choose|k: int| 0 <= k < prev.len() && prev[k] == b as u8;
                assert(all[k] == b as u8);
            } else {
                assert(all[all.len() - 1] == b as u8);
            }
        }
    }
}

impl View for PortPool {
    type V = Set<int>;

    closed spec fn view(&self) -> Set<int> {
        bits_of(self.used)
    }
}

impl PortPool {
    pub closed spec fn spec_bits(self) -> u64 {
        self.used
    }

    /// The free ports by their bit, in ascending order.
    pub closed spec fn free(self) -> Seq<u8> {
        clear_bits(self.used, 64)
    }

    /// The pool at start. Its first port is never handed out.
    pub fn new() -> (res: Self)
        ensures
            res.spec_bits() == 1,
            res@ == bits_of(1),
            res@ == set![0int],
    {
        proof {
            assert forall|i: int| 0 <= i < 64 implies #[trigger] has_bit(1, i) == (i == 0) by {
                let k = i as u64;
                assert((1u64 & (1u64 << k) != 0) == (k == 0)) by (bit_vector)
                    requires
                        k < 64,
                ;
            }
            assert(bits_of(1) =~= set![0int]);
        }
        Self { used: 1 }
    }

    pub fn from_bits(bits: u64) -> (res: Self)
        ensures
            res.spec_bits() == bits,
            res@ == bits_of(bits),
    {
        Self { used: bits }
    }

    pub fn bits(&self) -> (res: u64)
        ensures
            res == self.spec_bits(),
            self@ == bits_of(res),
    {
        self.used
    }

    /// The free ports are those that the pool does not hold.
    pub proof fn lemma_free(&self)
        ensures
            forall|i: int|
                0 <= i < self.free().len() ==> {
                    &&& 0 <= #[trigger] self.free()[i] < 64
                    &&& !self@.contains(self.free()[i] as int)
                },
            forall|b: int|
                0 <= b < 64 && !#[trigger] self@.contains(b) ==> self.free().contains(b as u8),
    {
        lemma_clear_bits(self.used, 64);
        assert forall|b: int| 0 <= b < 64 && !#[trigger] self@.contains(b) implies self.free()
            .contains(b as u8) by {
            assert(!has_bit(self.used, b));
        }
    }

    fn free_bits(&self) -> (res: Vec<u8>)
        ensures
            res@ == self.free(),
            res@.len() <= 64,
    {
        let mut res: Vec<u8> = Vec::new();
        let mut i: u8 = 0;
        while i < 64
            invariant
                i <= 64,
                res@ == clear_bits(self.used, i as int),
                res@.len() <= i,
            decreases 64 - i,
        {
            if self.used & (1u64 << (i as u64)) == 0 {
                res.push(i);
            }
            i += 1;
        }
        res
    }
}

impl Port {
    #[verifier::type_invariant]
    spec fn in_range(self) -> bool {
        self.bit < 64
    }

    pub closed spec fn spec_bit(self) -> u8 {
        self.bit
    }

    /// Takes a free port by chance. All free ports are equally likely.
    pub fn allocate(pool: &mut PortPool) -> (res: Result<Self, Error>)
        ensures
            res is Err <==> (forall|b: int| 0 <= b < 64 ==> #[trigger] old(pool)@.contains(b)),
            res matches Err(e) ==> e == Error::NoFreePort && *final(pool) == *old(pool),
            res matches Ok(port) ==> {
                &&& port.spec_bit() < 64
                &&& !old(pool)@.contains(port.spec_bit() as int)
                &&& final(pool)@ == old(pool)@.insert(port.spec_bit() as int)
            },
    {
        let free: Vec<u8> = pool.free_bits();
        proof {
            pool.lemma_free();
        }
        if free.len() == 0 {
            assert forall|b: int| 0 <= b < 64 implies #[trigger] pool@.contains(b) by {
                if !pool@.contains(b) {
                    assert(pool.free().contains(b as u8));
                }
            }
            return Err(Error::NoFreePort);
        }
        let nth: u64 = random_below(free.len() as u64);
        assert(!pool@.contains(pool.free()[nth as int] as int));
        Self::allocate_nth(pool, nth as usize)
    }

    /// Takes the `nth` free port, counted from the lowest.
    pub fn allocate_nth(pool: &mut PortPool, nth: usize) -> (res: Result<Self, Error>)
        ensures
            res is Ok <==> nth < old(pool).free().len(),
            res matches Err(e) ==> e == Error::NoFreePort && *final(pool) == *old(pool),
            res matches Ok(port) ==> {
                &&& port.spec_bit() == old(pool).free()[nth as int]
                &&& port.spec_bit() < 64
                &&& final(pool)@ == old(pool)@.insert(port.spec_bit() as int)
            },
    {
        let free: Vec<u8> = pool.free_bits();
        if nth >= free.len() {
            return Err(Error::NoFreePort);
        }
        let bit: u8 = free[nth];
        proof {
            pool.lemma_free();
            assert(0 <= pool.free()[nth as int] < 64);
            lemma_set_bit(pool.used, bit as u64);
        }
        pool.used = pool.used | (1u64 << (bit as u64));
        Ok(Port { bit })
    }

    pub fn number(&self) -> (res: u16)
        ensures
            res == FIRST_PORT + self.spec_bit(),
            FIRST_PORT <= res < FIRST_PORT + 64,
    {
        proof {
            use_type_invariant(self);
        }
        FIRST_PORT + self.bit as u16
    }

    /// Gives the port back to the pool that it was taken from.
    pub fn release(self, pool: &mut PortPool)
        requires
            old(pool)@.contains(self.spec_bit() as int),
        ensures
            final(pool)@ == old(pool)@.remove(self.spec_bit() as int),
    {
        proof {
            use_type_invariant(&self);
            lemma_clear_bit(pool.used, self.bit as u64);
        }
        pool.used = pool.used & !(1u64 << (self.bit as u64));
    }
}

/// Releasing a port that was just taken gives back the pool as it was before:
/// with `before` the pool before, the pool is `before.insert(bit)` in between.
pub proof fn law_port_release_undoes_allocate(before: PortPool, bit: int)
    requires
        !before@.contains(bit),
    ensures
        before@.insert(bit).remove(bit) == before@,
{
    assert(before@.insert(bit).remove(bit) =~= before@);
}

/// As long as the first port counts as taken, no other port that is taken or
/// released changes that, so it is never handed out.
pub proof fn law_first_port_is_never_handed_out(before: PortPool, bit: int)
    requires
        before@.contains(0),
        !before@.contains(bit),
    ensures
        bit != 0,
        before@.insert(bit).contains(0),
        before@.insert(bit).remove(bit).contains(0),
{
}

/// Two ports that are held at the same time have different numbers.
pub proof fn law_held_ports_differ(before: PortPool, first: u8, second: u8)
    requires
        !before@.contains(first as int),
        !before@.insert(first as int).contains(second as int),
    ensures
        FIRST_PORT + first != FIRST_PORT + second,
{
}

/// How many devices listen on each wakeup channel. There is no channel 0; its
/// slot is there so that a channel is found under its own number.
#[derive(Debug)]
pub struct WakeupChannels {
    users: [u8; 31],
}

/// A wakeup channel that is counted until it is released.
#[derive(Debug)]
pub struct WakeupChannel {
    index: usize,
}

/// A wakeup channel must not be one that the device is reached on anyway: it
/// would wake up during normal communication.
pub open spec fn usable_channel(map: nat, channel: int) -> bool {
    1 <= channel <= 30 && !channel_map::map_contains(map, channel)
}

/// `count` is the lowest number of users among the usable channels.
pub open spec fn is_lowest_use(users: Seq<u8>, map: nat, count: u8) -> bool {
    &&& exists|c: int| #[trigger] usable_channel(map, c) && users[c] == count
    &&& forall|c: int| #[trigger] usable_channel(map, c) ==> count <= users[c]
}

/// The usable channels below `end` with exactly `count` users, in ascending
/// order.
pub open spec fn channels_used(users: Seq<u8>, map: nat, count: u8, end: int) -> Seq<usize>
    decreases end,
{
    if end <= 0 {
        Seq::empty()
    } else if usable_channel(map, end - 1) && users[end - 1] == count {
        channels_used(users, map, count, end - 1).push((end - 1) as usize)
    } else {
        channels_used(users, map, count, end - 1)
    }
}

proof fn lemma_channels_used(users: Seq<u8>, map: nat, count: u8, end: int)
    requires
        0 <= end <= 31,
    ensures
        forall|i: int|
            0 <= i < channels_used(users, map, count, end).len() ==> {
                let c = #[trigger] channels_used(users, map, count, end)[i] as int;
                0 <= c < end && usable_channel(map, c) && users[c] == count
            },
        forall|c: int|
            0 <= c < end && #[trigger] usable_channel(map, c) && users[c] == count
                ==> channels_used(users, map, count, end).len() > 0,
    decreases end,
{
    if end > 0 {
        lemma_channels_used(users, map, count, end - 1);
        let prev = channels_used(users, map, count, end - 1);
        let all = channels_used(users, map, count, end);
        assert forall|i: int| 0 <= i < all.len() implies {
            let c = #[trigger] all[i] as int;
            0 <= c < end && usable_channel(map, c) && users[c] == count
        } by {
            if i < prev.len() {
                assert(all[i] == prev[i]);
            }
        }
    }
}

impl View for WakeupChannels {
    type V = Seq<u8>;

    closed spec fn view(&self) -> Seq<u8> {
        self.users@
    }
}

impl WakeupChannels {
    /// Nobody listens on any channel.
    pub fn new() -> (res: Self)
        ensures
            res@ == Seq::new(31, |i: int| 0u8),
    {
        let res = Self { users: [0u8; 31] };
        assert(res@ =~= Seq::new(31, |i: int| 0u8));
        res
    }

    /// There is a count for each of the 31 slots.
    pub proof fn lemma_slots(&self)
        ensures
            self@.len() == 31,
    {
    }

    pub fn users(&self, channel: usize) -> (res: Option<u8>)
        ensures
            res is Some <==> channel < 31,
            res is Some ==> res->0 == self@[channel as int],
    {
        if channel < 31 {
            Some(self.users[channel])
        } else {
            None
        }
    }

    /// The lowest number of users of a usable channel, if there is a usable
    /// channel at all.
    fn lowest_use(&self, map: &ChannelMap) -> (res: Option<u8>)
        ensures
            match res {
                Some(count) => is_lowest_use(self@, map@, count),
                None => forall|c: int| !#[trigger] usable_channel(map@, c),
            },
    {
        let mut lowest: Option<u8> = None;
        let mut c: usize = 1;
        while c <= 30
            invariant
                1 <= c <= 31,
                match lowest {
                    Some(count) => {
                        &&& exists|k: int|
                            k < c && #[trigger] usable_channel(map@, k) && self@[k] == count
                        &&& forall|k: int|
                            k < c && #[trigger] usable_channel(map@, k) ==> count <= self@[k]
                    },
                    None => forall|k: int| k < c ==> !#[trigger] usable_channel(map@, k),
                },
            decreases 31 - c,
        {
            if !map.contains(c) {
                assert(usable_channel(map@, c as int));
                match lowest {
                    Some(count) => {
                        if self.users[c] < count {
                            lowest = Some(self.users[c]);
                        }
                    },
                    None => {
                        lowest = Some(self.users[c]);
                    },
                }
            }
            c += 1;
        }
        lowest
    }

    /// The usable channels with this number of users, in ascending order.
    fn channels_with(&self, map: &ChannelMap, count: u8) -> (res: Vec<usize>)
        ensures
            res@ == channels_used(self@, map@, count, 31),
            res@.len() <= 31,
    {
        let mut res: Vec<usize> = Vec::new();
        let mut c: usize = 0;
        while c < 31
            invariant
                c <= 31,
                res@ == channels_used(self@, map@, count, c as int),
                res@.len() <= c,
            decreases 31 - c,
        {
            if c >= 1 && c <= 30 && !map.contains(c) && self.users[c] == count {
                res.push(c);
            }
            c += 1;
        }
        res
    }
}

impl WakeupChannel {
    #[verifier::type_invariant]
    spec fn in_range(self) -> bool {
        self.index < 31
    }

    pub closed spec fn spec_channel(self) -> int {
        self.index as int
    }

    /// Takes one of the least used channels that are not in `channel_map`, by
    /// chance, so that neighbouring gateways do not all use the same one.
    pub fn allocate(channels: &mut WakeupChannels, channel_map: &ChannelMap) -> (res: Result<
        Self,
        Error,
    >)
        ensures
            match res {
                Err(Error::NoMatchingChannel) => forall|c: int|
                    !#[trigger] usable_channel(channel_map@, c),
                Err(Error::OutOfChannels) => is_lowest_use(old(channels)@, channel_map@, 255),
                Err(_) => false,
                Ok(channel) => {
                    &&& usable_channel(channel_map@, channel.spec_channel())
                    &&& old(channels)@[channel.spec_channel()] < 255
                    &&& is_lowest_use(
                        old(channels)@,
                        channel_map@,
                        old(channels)@[channel.spec_channel()],
                    )
                    &&& final(channels)@ == old(channels)@.update(
                        channel.spec_channel(),
                        (old(channels)@[channel.spec_channel()] + 1) as u8,
                    )
                },
            },
            res is Err ==> final(channels)@ == old(channels)@,
    {
        let count: u8 = match channels.lowest_use(channel_map) {
            Some(count) => count,
            None => {
                return Err(Error::NoMatchingChannel);
            },
        };
        let candidates: Vec<usize> = channels.channels_with(channel_map, count);
        proof {
            lemma_channels_used(channels@, channel_map@, count, 31);
        }
        let nth: u64 = random_below(candidates.len() as u64);
        assert(usable_channel(
            channel_map@,
            channels_used(channels@, channel_map@, count, 31)[nth as int] as int,
        ));
        Self::allocate_nth(channels, channel_map, nth as usize)
    }

    /// Takes the `nth` of the least used channels that are not in
    /// `channel_map`, counted from the lowest and round about.
    pub fn allocate_nth(
        channels: &mut WakeupChannels,
        channel_map: &ChannelMap,
        nth: usize,
    ) -> (res: Result<Self, Error>)
        ensures
            match res {
                Err(Error::NoMatchingChannel) => forall|c: int|
                    !#[trigger] usable_channel(channel_map@, c),
                Err(Error::OutOfChannels) => is_lowest_use(old(channels)@, channel_map@, 255),
                Err(_) => false,
                Ok(channel) => {
                    let count = old(channels)@[channel.spec_channel()];
                    let candidates = channels_used(old(channels)@, channel_map@, count, 31);
                    &&& count < 255
                    &&& is_lowest_use(old(channels)@, channel_map@, count)
                    &&& candidates.len() > 0
                    &&& channel.spec_channel() == candidates[nth as int % candidates.len() as int]
                    &&& usable_channel(channel_map@, channel.spec_channel())
                    &&& final(channels)@ == old(channels)@.update(
                        channel.spec_channel(),
                        (count + 1) as u8,
                    )
                },
            },
            res is Err ==> final(channels)@ == old(channels)@,
    {
        let count: u8 = match channels.lowest_use(channel_map) {
            Some(count) => count,
            None => {
                return Err(Error::NoMatchingChannel);
            },
        };
        let candidates: Vec<usize> = channels.channels_with(channel_map, count);
        proof {
            lemma_channels_used(channels@, channel_map@, count, 31);
        }
        let index: usize = candidates[nth % candidates.len()];
        assert(usable_channel(channel_map@, index as int) && channels@[index as int] == count) by {
            let used = channels_used(channels@, channel_map@, count, 31);
            assert(used[nth as int % used.len() as int] == index);
        }
        if channels.users[index] == 255 {
            return Err(Error::OutOfChannels);
        }
        let users: u8 = channels.users[index];
        channels.users[index] = users + 1;
        Ok(WakeupChannel { index })
    }

    /// Takes the channel with this number, whoever uses it already.
    pub fn allocate_unchecked(channels: &mut WakeupChannels, index: u64) -> (res: Result<
        Self,
        Error,
    >)
        ensures
            match res {
                Err(Error::ChannelOutOfRange) => index >= 31,
                Err(Error::OutOfChannels) => index < 31 && old(channels)@[index as int] == 255,
                Err(_) => false,
                Ok(channel) => {
                    &&& index < 31
                    &&& channel.spec_channel() == index
                    &&& old(channels)@[index as int] < 255
                    &&& final(channels)@ == old(channels)@.update(
                        index as int,
                        (old(channels)@[index as int] + 1) as u8,
                    )
                },
            },
            res is Err ==> final(channels)@ == old(channels)@,
    {
        if index >= 31 {
            return Err(Error::ChannelOutOfRange);
        }
        let index: usize = index as usize;
        let users: u8 = channels.users[index];
        if users == 255 {
            return Err(Error::OutOfChannels);
        }
        channels.users[index] = users + 1;
        Ok(WakeupChannel { index })
    }

    pub fn channel(&self) -> (res: u64)
        ensures
            res == self.spec_channel(),
            res < 31,
    {
        proof {
            use_type_invariant(self);
        }
        self.index as u64
    }

    /// A second hold on the same channel.
    pub fn duplicate(&self, channels: &mut WakeupChannels) -> (res: Result<Self, Error>)
        ensures
            res is Ok <==> old(channels)@[self.spec_channel()] < 255,
            res matches Ok(channel) ==> {
                &&& channel.spec_channel() == self.spec_channel()
                &&& final(channels)@ == old(channels)@.update(
                    self.spec_channel(),
                    (old(channels)@[self.spec_channel()] + 1) as u8,
                )
            },
            res matches Err(e) ==> e == Error::OutOfChannels && final(channels)@ == old(
                channels,
            )@,
    {
        let channel: u64 = self.channel();
        Self::allocate_unchecked(channels, channel)
    }

    /// Gives the channel back to the count that it was taken from.
    pub fn release(self, channels: &mut WakeupChannels)
        requires
            old(channels)@[self.spec_channel()] > 0,
        ensures
            final(channels)@ == old(channels)@.update(
                self.spec_channel(),
                (old(channels)@[self.spec_channel()] - 1) as u8,
            ),
    {
        proof {
            use_type_invariant(&self);
        }
        let users: u8 = channels.users[self.index];
        channels.users[self.index] = users - 1;
    }
}

/// Releasing a wakeup channel that was just taken gives back the counts as they
/// were before.
pub proof fn law_channel_release_undoes_allocate(before: Seq<u8>, channel: int)
    requires
        0 <= channel < before.len(),
        before[channel] < 255,
    ensures
        ({
            let between = before.update(channel, (before[channel] + 1) as u8);
            &&& between[channel] > 0
            &&& between.update(channel, (between[channel] - 1) as u8) == before
        }),
{
    let between = before.update(channel, (before[channel] + 1) as u8);
    assert(between.update(channel, (between[channel] - 1) as u8) =~= before);
}

/// Channels that are taken one after the other for the same channel map are all
/// different as long as an unused one is left.
pub proof fn law_fresh_channels_differ(before: Seq<u8>, map: nat, first: int, second: int, unused: int)
    requires
        before.len() == 31,
        usable_channel(map, first),
        before[first] == 0,
        usable_channel(map, unused),
        unused != first,
        before[unused] == 0,
        is_lowest_use(before.update(first, 1), map, before.update(first, 1)[second]),
        usable_channel(map, second),
    ensures
        first != second,
{
    let between = before.update(first, 1);
    assert(between[unused] == 0);
}

/// Why a request has no answer.
#[derive(Clone, Copy, Debug, PartialEq, Eq, Structural)]
pub enum RequestError {
    Timeout,
    Internal(Error),
    Udp(crate::udp::Error),
}

/// Takes packets apart into messages. A packet is never kept for later: it is
/// one message, or none.
#[derive(Debug, Default)]
pub struct EXICodec<Item> {
    pd: core::marker::PhantomData<Item>,
}

impl<Item> EXICodec<Item> {
    pub fn new() -> (res: Self) {
        EXICodec { pd: core::marker::PhantomData }
    }

    /// The packet to decode. The buffer is empty afterwards, whatever comes of
    /// the packet, so that a broken one is not looked at again.
    pub fn decode_eof(&self, buf: &mut Vec<u8>) -> (res: Option<Vec<u8>>)
        ensures
            final(buf)@.len() == 0,
            match res {
                Some(packet) => old(buf)@.len() > 0 && packet@ == old(buf)@,
                None => old(buf)@.len() == 0,
            },
    {
        if buf.len() == 0 {
            return None;
        }
        let mut packet: Vec<u8> = Vec::new();
        core::mem::swap(&mut packet, buf);
        Some(packet)
    }
}

/// The addresses of a request: where it comes from and where it goes.
#[derive(Clone, Copy, Debug, PartialEq, Eq, Structural)]
pub struct RequestAddrs {
    pub local: SocketAddr,
    pub device: SocketAddr,
}

/// The addresses of a request to a service of a device, from a source port of
/// our own.
pub fn request_addrs(
    local: SocketAddr,
    device: SocketAddr,
    service_port: u16,
    port: &Port,
) -> (res: RequestAddrs)
    ensures
        res.local == local.with_port((FIRST_PORT + port.spec_bit()) as u16),
        res.device == device.with_port(service_port),
{
    let mut local = local;
    local.set_port(port.number());
    let mut device = device;
    device.set_port(service_port);
    RequestAddrs { local, device }
}

/// What became of an attempt to send a request and to wait for the answer.
#[derive(Debug)]
pub enum AttemptEvent<N> {
    /// Neither came in time.
    TimedOut,
    SendFailed(Error),
    /// The socket was closed.
    StreamEnded,
    /// Something arrived, or the network reported an error.
    Received(Result<(N, SocketAddr), RequestError>),
}

/// The answer to a request, whoever sent it.
pub fn attempt_answer<N>(event: AttemptEvent<N>) -> (res: Result<N, RequestError>)
    ensures
        match event {
            AttemptEvent::TimedOut => res == Err::<N, RequestError>(RequestError::Timeout),
            AttemptEvent::SendFailed(e) => res == Err::<N, RequestError>(
                RequestError::Internal(e),
            ),
            AttemptEvent::StreamEnded => res == Err::<N, RequestError>(
                RequestError::Internal(Error::StreamEnded),
            ),
            AttemptEvent::Received(Ok((network, _))) => res == Ok::<N, RequestError>(network),
            AttemptEvent::Received(Err(e)) => res == Err::<N, RequestError>(e),
        },
{
    match event {
        AttemptEvent::TimedOut => Err(RequestError::Timeout),
        AttemptEvent::SendFailed(e) => Err(RequestError::Internal(e)),
        AttemptEvent::StreamEnded => Err(RequestError::Internal(Error::StreamEnded)),
        AttemptEvent::Received(Ok((network, _))) => Ok(network),
        AttemptEvent::Received(Err(e)) => Err(e),
    }
}

/// Where a service listens: on its port, whatever the address, since most of
/// what it hears is multicast.
pub fn service_addr(interface: SocketAddr, service_port: u16) -> (res: SocketAddr)
    ensures
        match interface {
            SocketAddr::V6(addr) => res == SocketAddr::V6(
                (SocketAddrV6 { ip: 0, port: service_port, ..addr }),
            ),
            SocketAddr::V4(_) => res == SocketAddr::V6(
                (SocketAddrV6 { ip: 0, port: service_port, flowinfo: 0, scope_id: 0 }),
            ),
        },
{
    match interface {
        SocketAddr::V6(addr) => SocketAddr::V6(
            SocketAddrV6 { ip: 0, port: service_port, ..addr },
        ),
        SocketAddr::V4(_) => SocketAddr::V6(
            SocketAddrV6 { ip: 0, port: service_port, flowinfo: 0, scope_id: 0 },
        ),
    }
}

/// What a service does next.
#[derive(Debug)]
pub enum ServiceStep<N> {
    /// Handle a message from this sender.
    Handle(N, SocketAddr),
    /// Skip what could not be received, and listen on.
    Skip,
}

/// Decides what a service does with what its socket gives.
pub fn service_step<N>(received: Option<Result<(N, SocketAddr), RequestError>>) -> (res: Result<
    ServiceStep<N>,
    Error,
>)
    ensures
        match received {
            None => res == Err::<ServiceStep<N>, Error>(Error::StreamEnded),
            Some(Err(_)) => res == Ok::<ServiceStep<N>, Error>(ServiceStep::Skip),
            Some(Ok((message, addr))) => res == Ok::<ServiceStep<N>, Error>(
                ServiceStep::Handle(message, addr),
            ),
        },
{
    match received {
        None => Err(Error::StreamEnded),
        Some(Err(_)) => Ok(ServiceStep::Skip),
        Some(Ok((message, addr))) => Ok(ServiceStep::Handle(message, addr)),
    }
}

/// A bit is set where it counts in the number: bit `i` is worth 2 to the power
/// of `i`.
pub proof fn law_bits_are_worth(bits: u64, i: int)
    requires
        0 <= i < 64,
    ensures
        has_bit(bits, i) <==> (bits as nat / vstd::arithmetic::power2::pow2(i as nat)) % 2 == 1,
        bits_of(bits).contains(i) <==> (bits as nat / vstd::arithmetic::power2::pow2(i as nat)) % 2
            == 1,
        !bits_of(bits).contains(i + 64),
        !bits_of(bits).contains(-1 - i),
{
    let k = i as u64;
    assert((bits & (1u64 << k) != 0) == ((bits >> k) % 2 == 1)) by (bit_vector)
        requires
            k < 64,
    ;
    vstd::bits::lemma_u64_shr_is_div(bits, k);
}

proof fn lemma_clear_bits_ascend(bits: u64, end: int)
    requires
        0 <= end <= 64,
    ensures
        forall|i: int, j: int|
            0 <= i < j < clear_bits(bits, end).len() ==> #[trigger] clear_bits(bits, end)[i]
                < #[trigger] clear_bits(bits, end)[j],
    decreases end,
{
    if end > 0 {
        lemma_clear_bits_ascend(bits, end - 1);
        lemma_clear_bits(bits, end - 1);
    }
}

/// The free ports stand in ascending order, each once, and a port is among them
/// exactly where the pool does not hold it.
pub proof fn law_free_ports(pool: PortPool)
    ensures
        forall|i: int, j: int|
            0 <= i < j < pool.free().len() ==> #[trigger] pool.free()[i]
                < #[trigger] pool.free()[j] < 64,
        forall|b: u8|
            #[trigger] pool.free().contains(b) <==> b < 64 && !pool@.contains(b as int),
        forall|b: int|
            0 <= b < 64 ==> (#[trigger] pool@.contains(b) <==> (pool.spec_bits() as nat
                / vstd::arithmetic::power2::pow2(b as nat)) % 2 == 1),
{
    lemma_clear_bits_ascend(pool.used, 64);
    pool.lemma_free();
    assert forall|b: int| 0 <= b < 64 implies (#[trigger] pool@.contains(b) <==> (
    pool.spec_bits() as nat / vstd::arithmetic::power2::pow2(b as nat)) % 2 == 1) by {
        law_bits_are_worth(pool.used, b);
    }
}

/// A device can be woken up on the channels 1 to 30 that its map does not hold,
/// be the map what it may.
pub proof fn law_usable_channels(map: nat, channel: int)
    ensures
        usable_channel(map, channel) ==> channel >= 1 && channel <= 30,
        1 <= channel <= 30 ==> usable_channel(map, channel) != channel_map::map_contains(
            map,
            channel,
        ),
        !usable_channel(map, 0),
        !usable_channel(map, 31),
{
}

/// The number of users that counts is that of some usable channel, and no usable
/// channel has fewer. There is no other such number.
pub proof fn law_least_used_channels(users: Seq<u8>, map: nat, count: u8, channel: int)
    requires
        1 <= channel <= 30,
        !channel_map::map_contains(map, channel),
    ensures
        is_lowest_use(users, map, count) ==> count <= users[channel],
        users[channel] == count && (forall|c: int|
            1 <= c <= 30 && !#[trigger] channel_map::map_contains(map, c) ==> users[c] >= count)
            ==> is_lowest_use(users, map, count),
        forall|other: u8|
            is_lowest_use(users, map, count) && #[trigger] is_lowest_use(users, map, other)
                ==> other == count,
{
    assert(usable_channel(map, channel));
}

/// The channels to choose from stand in ascending order, each once: exactly the
/// usable ones with that many users.
pub proof fn law_channels_to_choose_from(users: Seq<u8>, map: nat, count: u8, end: int)
    requires
        0 <= end <= 31,
    ensures
        forall|i: int, j: int|
            0 <= i < j < channels_used(users, map, count, end).len() ==> (
            #[trigger] channels_used(users, map, count, end)[i]) < (#[trigger] channels_used(
                users,
                map,
                count,
                end,
            )[j]),
        forall|c: usize|
            #[trigger] channels_used(users, map, count, end).contains(c) <==> 1 <= c < end && c
                <= 30 && !channel_map::map_contains(map, c as int) && users[c as int] == count,
    decreases end,
{
    if end > 0 {
        law_channels_to_choose_from(users, map, count, end - 1);
        let prev = channels_used(users, map, count, end - 1);
        let all = channels_used(users, map, count, end);
        assert forall|i: int| 0 <= i < prev.len() implies #[trigger] prev[i] < end - 1 by {
            assert(prev.contains(prev[i]));
        }
        assert forall|c: usize| #[trigger] all.contains(c) <==> 1 <= c < end && c <= 30
            && !channel_map::map_contains(map, c as int) && users[c as int] == count by {
            if c == end - 1 {
                if usable_channel(map, end - 1) && users[end - 1] == count {
                    assert(all[all.len() - 1] == c);
                }
                if all.contains(c) {
                    assert(!prev.contains(c));
                }
            } else {
                assert(prev.contains(c) == all.contains(c)) by {
                    if prev.contains(c) {
                        let k = prev.index_of(c);
                        assert(all[k] == c);
                    }
                }
            }
        }
    }
}

} // verus!
