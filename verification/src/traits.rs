//! Small types that the rest of the library shares: ranges in pieces, SGTIN
//! fields, the traffic class of an IPv6 packet, and a reader over bytes.

use crate::bigint;
use crate::bigint::BigUint;
use crate::error::Error;
use crate::net::SocketAddr;
use crate::net::SocketAddrV6;
use vstd::arithmetic::div_mod::*;
use vstd::arithmetic::power2::*;
use vstd::prelude::*;

verus! {

/// What a range can run over: the unsigned integers.
pub trait RangeIndex: Copy {
    spec fn as_nat(self) -> nat;

    fn is_below(self, other: Self) -> (res: bool)
        ensures
            res == (self.as_nat() < other.as_nat()),
    ;

    fn minus(self, other: Self) -> (res: Self)
        requires
            other.as_nat() <= self.as_nat(),
        ensures
            res.as_nat() == self.as_nat() - other.as_nat(),
    ;

    /// The sum of two indices. It must not be beyond a third one, so that it is
    /// an index as well.
    fn plus(self, other: Self, limit: Self) -> (res: Self)
        requires
            self.as_nat() + other.as_nat() <= limit.as_nat(),
        ensures
            res.as_nat() == self.as_nat() + other.as_nat(),
    ;
}

impl RangeIndex for u8 {
    open spec fn as_nat(self) -> nat {
        self as nat
    }

    fn is_below(self, other: Self) -> (res: bool) {
        self < other
    }

    fn minus(self, other: Self) -> (res: Self) {
        self - other
    }

    fn plus(self, other: Self, limit: Self) -> (res: Self) {
        self + other
    }
}

impl RangeIndex for u16 {
    open spec fn as_nat(self) -> nat {
        self as nat
    }

    fn is_below(self, other: Self) -> (res: bool) {
        self < other
    }

    fn minus(self, other: Self) -> (res: Self) {
        self - other
    }

    fn plus(self, other: Self, limit: Self) -> (res: Self) {
        self + other
    }
}

impl RangeIndex for u32 {
    open spec fn as_nat(self) -> nat {
        self as nat
    }

    fn is_below(self, other: Self) -> (res: bool) {
        self < other
    }

    fn minus(self, other: Self) -> (res: Self) {
        self - other
    }

    fn plus(self, other: Self, limit: Self) -> (res: Self) {
        self + other
    }
}

impl RangeIndex for u64 {
    open spec fn as_nat(self) -> nat {
        self as nat
    }

    fn is_below(self, other: Self) -> (res: bool) {
        self < other
    }

    fn minus(self, other: Self) -> (res: Self) {
        self - other
    }

    fn plus(self, other: Self, limit: Self) -> (res: Self) {
        self + other
    }
}

impl RangeIndex for u128 {
    open spec fn as_nat(self) -> nat {
        self as nat
    }

    fn is_below(self, other: Self) -> (res: bool) {
        self < other
    }

    fn minus(self, other: Self) -> (res: Self) {
        self - other
    }

    fn plus(self, other: Self, limit: Self) -> (res: Self) {
        self + other
    }
}

impl RangeIndex for usize {
    open spec fn as_nat(self) -> nat {
        self as nat
    }

    fn is_below(self, other: Self) -> (res: bool) {
        self < other
    }

    fn minus(self, other: Self) -> (res: Self) {
        self - other
    }

    fn plus(self, other: Self, limit: Self) -> (res: Self) {
        self + other
    }
}

/// The pieces of at most `size` indices that `start..end` is cut into, each as
/// its first index and the one behind its last.
pub open spec fn range_pieces(start: int, end: int, size: int) -> Seq<(int, int)>
    decreases end - start,
{
    if start >= end || size <= 0 {
        Seq::empty()
    } else {
        let stop = if end - start <= size {
            end
        } else {
            start + size
        };
        seq![(start, stop)] + range_pieces(stop, end, size)
    }
}

/// Cuts a range into consecutive pieces.
pub struct RangeChunks<Idx: RangeIndex> {
    start: Idx,
    end: Idx,
    chunk_size: Idx,
}

impl<Idx: RangeIndex> RangeChunks<Idx> {
    #[verifier::type_invariant]
    spec fn pieces_are_not_empty(self) -> bool {
        self.chunk_size.as_nat() > 0
    }

    /// The pieces that are still to come.
    pub closed spec fn remaining(self) -> Seq<(int, int)> {
        range_pieces(
            self.start.as_nat() as int,
            self.end.as_nat() as int,
            self.chunk_size.as_nat() as int,
        )
    }

    pub fn new(range: core::ops::Range<Idx>, chunk_size: Idx) -> (res: Self)
        requires
            chunk_size.as_nat() > 0,
        ensures
            res.remaining() == range_pieces(
                range.start.as_nat() as int,
                range.end.as_nat() as int,
                chunk_size.as_nat() as int,
            ),
    {
        Self { start: range.start, end: range.end, chunk_size }
    }

    /// The next piece, or nothing once the range is used up.
    pub fn next(&mut self) -> (res: Option<core::ops::Range<Idx>>)
        ensures
            match res {
                None => {
                    &&& old(self).remaining() == Seq::<(int, int)>::empty()
                    &&& *final(self) == *old(self)
                },
                Some(piece) => old(self).remaining() == seq![
                    (piece.start.as_nat() as int, piece.end.as_nat() as int),
                ] + final(self).remaining(),
            },
    {
        proof {
            use_type_invariant(&*self);
        }
        if !self.start.is_below(self.end) {
            return None;
        }
        let start: Idx = self.start;
        let left: Idx = self.end.minus(start);
        let diff: Idx = if self.chunk_size.is_below(left) {
            self.chunk_size
        } else {
            left
        };
        let stop: Idx = start.plus(diff, self.end);
        self.start = stop;
        Some(start..stop)
    }
}

/// The pieces of a range follow one another without a gap from its start to its
/// end, none is empty, none is longer than the chunk size, and only the last
/// may be shorter. There are as many as the chunk size goes into the range,
/// rounded up, and none of an empty range.
pub proof fn law_range_pieces_cover(start: int, end: int, size: int)
    requires
        size > 0,
    ensures
        start >= end ==> range_pieces(start, end, size) == Seq::<(int, int)>::empty(),
        start < end ==> {
            let pieces = range_pieces(start, end, size);
            &&& pieces.len() == (end - start + size - 1) / size
            &&& pieces.len() > 0
            &&& pieces[0].0 == start
            &&& pieces.last().1 == end
            &&& forall|i: int|
                0 <= i < pieces.len() ==> {
                    &&& (#[trigger] pieces[i]).0 < pieces[i].1
                    &&& pieces[i].1 - pieces[i].0 <= size
                    &&& i + 1 < pieces.len() ==> pieces[i].1 - pieces[i].0 == size
                    &&& i + 1 < pieces.len() ==> pieces[i + 1].0 == pieces[i].1
                }
        },
    decreases end - start,
{
    if start >= end {
        assert(range_pieces(start, end, size) =~= Seq::<(int, int)>::empty());
    } else if end - start > size {
        law_range_pieces_cover(start + size, end, size);
        lemma_div_plus_one(end - (start + size) + size - 1, size);
        let rest = range_pieces(start + size, end, size);
        let pieces = range_pieces(start, end, size);
        assert(pieces == seq![(start, start + size)] + rest);
        assert forall|i: int| 0 <= i < pieces.len() implies {
            &&& (#[trigger] pieces[i]).0 < pieces[i].1
            &&& pieces[i].1 - pieces[i].0 <= size
            &&& i + 1 < pieces.len() ==> pieces[i].1 - pieces[i].0 == size
            &&& i + 1 < pieces.len() ==> pieces[i + 1].0 == pieces[i].1
        } by {
            if i > 0 {
                assert(pieces[i] == rest[i - 1]);
                if i + 1 < pieces.len() {
                    assert(pieces[i + 1] == rest[i - 1 + 1]);
                }
            } else if i + 1 < pieces.len() {
                assert(pieces[i + 1] == rest[0]);
            }
        }
        assert(pieces.last() == rest.last());
    } else {
        assert(range_pieces(end, end, size) =~= Seq::<(int, int)>::empty());
        assert(range_pieces(start, end, size) =~= seq![(start, end)]);
        lemma_div_plus_one(end - start - 1, size);
        lemma_basic_div(end - start - 1, size);
    }
}

/// A mask of the lowest `len` bits.
pub fn bitmask(len: usize) -> (res: u64)
    requires
        len <= 64,
    ensures
        res == pow2(len as nat) - 1,
{
    let mut value: u64 = 0;
    let mut i: usize = 0;
    proof {
        lemma2_to64();
    }
    while i < len
        invariant
            i <= len <= 64,
            value == pow2(i as nat) - 1,
        decreases len - i,
    {
        let bit: u64 = 1u64 << i;
        proof {
            let k = i as u64;
            assert(1u64 << i == 1u64 << k);
            vstd::bits::lemma_u64_pow2_no_overflow(i as nat);
            vstd::bits::lemma_u64_shl_is_mul(1, k);
            assert(value | bit == value + bit) by (bit_vector)
                requires
                    k < 64,
                    bit == 1u64 << k,
                    value < bit,
            ;
            lemma_pow2_unfold((i + 1) as nat);
        }
        value = value | bit;
        i += 1;
    }
    value
}

/// The fields of a SGTIN-96, read from its 96 bit number.
pub trait Sgtin96 {
    spec fn number(&self) -> nat;

    fn header(&self) -> (res: u8)
        ensures
            res == (self.number() / pow2(92)) % pow2(4),
    ;

    fn item_reference(&self) -> (res: u32)
        ensures
            res == (self.number() / pow2(38)) % pow2(20),
    ;

    fn serial(&self) -> (res: u64)
        ensures
            res == self.number() % pow2(38),
    ;
}

/// `len` bits of `number`, from bit `first` on.
fn bit_field(number: &BigUint, first: u64, len: usize) -> (res: u64)
    requires
        len < 64,
    ensures
        res == (number@ / pow2(first as nat)) % pow2(len as nat),
        res < pow2(len as nat),
{
    let field: BigUint = number.shift_right(first).bitand(&BigUint::from_u64(bitmask(len)));
    proof {
        bigint::lemma_and_low_bits(number@ / pow2(first as nat), len as nat);
        lemma_pow2_pos(len as nat);
        lemma_pow2_strictly_increases(len as nat, 64);
        lemma2_to64();
        lemma2_to64_rest();
        assert(field@ < pow2(len as nat)) by {
            vstd::arithmetic::div_mod::lemma_mod_bound(
                (number@ / pow2(first as nat)) as int,
                pow2(len as nat) as int,
            );
        }
    }
    match field.to_u64() {
        Some(value) => value,
        None => 0,
    }
}

impl Sgtin96 for BigUint {
    open spec fn number(&self) -> nat {
        self@
    }

    fn header(&self) -> (res: u8) {
        let value: u64 = bit_field(self, 92, 4);
        proof {
            lemma2_to64();
        }
        value as u8
    }

    fn item_reference(&self) -> (res: u32) {
        let value: u64 = bit_field(self, 38, 20);
        proof {
            lemma2_to64();
        }
        value as u32
    }

    fn serial(&self) -> (res: u64) {
        let value: u64 = bit_field(self, 0, 38);
        proof {
            lemma2_to64();
            assert(self@ / 1 == self@);
        }
        value
    }
}

/// Differentiated services flags that Lemonbeat puts into the traffic class.
#[derive(Clone, Copy, Debug, PartialEq, Eq)]
pub struct Ds {
    bits: u8,
}

pub const DS_LOCAL_USE: u8 = 0b0011;

pub const DS_USE_NETWORK_KEY: u8 = 0b0100;

pub const DS_PORTFILTER_ENABLED: u8 = 0b1000;

impl Ds {
    #[verifier::type_invariant]
    spec fn known_flags_only(self) -> bool {
        self.bits < 16
    }

    pub closed spec fn spec_bits(self) -> u8 {
        self.bits
    }

    /// The flags with these bits, where all of them are known.
    pub fn from_bits(bits: u8) -> (res: Option<Self>)
        ensures
            res is Some <==> bits < 16,
            res is Some ==> res->0.spec_bits() == bits,
    {
        if bits < 16 {
            Some(Self { bits })
        } else {
            None
        }
    }

    pub fn bits(&self) -> (res: u8)
        ensures
            res == self.spec_bits(),
            res < 16,
    {
        proof {
            use_type_invariant(self);
        }
        self.bits
    }

    /// Whether all bits of `flags` are set.
    pub fn contains(&self, flags: u8) -> (res: bool)
        ensures
            res == (self.spec_bits() & flags == flags),
    {
        self.bits & flags == flags
    }
}

/// The traffic class octet of an IPv6 packet. Its upper six bits hold the
/// differentiated services field.
#[derive(Clone, Copy, Debug, PartialEq, Eq)]
pub struct TrafficClass(u8);

impl TrafficClass {
    pub closed spec fn spec_raw(self) -> u8 {
        self.0
    }

    pub fn new(ds: Ds) -> (res: Self)
        ensures
            res.spec_raw() == 4 * ds.spec_bits(),
            res.spec_raw() < 64,
    {
        let mut res = Self(0);
        res.set_ds(ds);
        res
    }

    /// The differentiated services flags, where all of them are known.
    pub fn ds(&self) -> (res: Option<Ds>)
        ensures
            res is Some <==> self.spec_raw() / 4 < 16,
            res is Some ==> res->0.spec_bits() == self.spec_raw() / 4,
    {
        Ds::from_bits(self.0 / 4)
    }

    /// Replaces the differentiated services field and keeps the two bits below
    /// it.
    pub fn set_ds(&mut self, ds: Ds)
        ensures
            final(self).spec_raw() == old(self).spec_raw() % 4 + 4 * ds.spec_bits(),
            final(self).spec_raw() < 64,
    {
        let bits: u8 = ds.bits();
        self.0 = self.0 % 4 + 4 * bits;
    }

    pub fn raw(&self) -> (res: u8)
        ensures
            res == self.spec_raw(),
    {
        self.0
    }

    pub fn from_raw(raw: u8) -> (res: Self)
        ensures
            res.spec_raw() == raw,
    {
        Self(raw)
    }
}

/// The order in which a machine keeps the bytes of an integer.
#[derive(Clone, Copy, Debug, PartialEq, Eq, Structural)]
pub enum ByteOrder {
    Big,
    Little,
}

/// The bytes of `x` in reverse.
pub open spec fn swapped(x: u32) -> int {
    (x as int % 0x100) * 0x1000000 + (x as int / 0x100 % 0x100) * 0x10000 + (x as int / 0x10000
        % 0x100) * 0x100 + x as int / 0x1000000
}

/// `x` as it has to be kept on a machine of this byte order so that its bytes
/// lie in memory in network order; the way back is the same.
pub open spec fn network_order(x: u32, order: ByteOrder) -> int {
    match order {
        ByteOrder::Big => x as int,
        ByteOrder::Little => swapped(x),
    }
}

/// `u16::to_be`: nothing happens on a big endian machine, and the bytes are
/// swapped on a little endian one. Which of the two this machine is, is left
/// open.
#[verifier::external_body]
fn one_to_be() -> (res: u16)
    ensures
        res == 1 || res == 0x100,
{
    1u16.to_be()
}

/// The byte order of a machine on which this is what a one looks like once its
/// bytes are in network order.
pub fn byte_order_of(one: u16) -> (res: ByteOrder)
    ensures
        res == (if one == 1 {
            ByteOrder::Big
        } else {
            ByteOrder::Little
        }),
{
    if one == 1 {
        ByteOrder::Big
    } else {
        ByteOrder::Little
    }
}

/// The byte order of this machine. Either can come out, so nothing is stated of
/// it.
pub fn native_byte_order() -> (res: ByteOrder) {
    byte_order_of(one_to_be())
}

/// Exchanges host order and network order.
pub fn to_network_order(x: u32, order: ByteOrder) -> (res: u32)
    ensures
        res == network_order(x, order),
{
    match order {
        ByteOrder::Big => x,
        ByteOrder::Little => (x % 0x100) * 0x1000000 + (x / 0x100 % 0x100) * 0x10000 + (x / 0x10000
            % 0x100) * 0x100 + x / 0x1000000,
    }
}

/// The flow information of an IPv6 socket address, in network order.
#[derive(Clone, Copy, Debug, PartialEq, Eq)]
pub struct Flowinfo(u32);

/// The flow information of a traffic class and an empty flow label.
pub open spec fn flowinfo_of(class: u8, order: ByteOrder) -> int {
    network_order((class as int * 0x100000) as u32, order)
}

/// The traffic class inside flow information.
pub open spec fn class_of(flowinfo: u32, order: ByteOrder) -> int {
    network_order(flowinfo, order) / 0x100000 % 0x100
}

impl Flowinfo {
    pub closed spec fn spec_raw(self) -> u32 {
        self.0
    }

    /// Flow information with this traffic class on a machine of a given byte
    /// order.
    pub fn new_ordered(traffic_class: TrafficClass, order: ByteOrder) -> (res: Self)
        ensures
            res.spec_raw() == flowinfo_of(traffic_class.spec_raw(), order),
    {
        Self(to_network_order(traffic_class.0 as u32 * 0x100000, order))
    }

    /// Flow information with this traffic class and an empty flow label.
    pub fn new(traffic_class: TrafficClass) -> (res: Self)
        ensures
            exists|order: ByteOrder|
                res.spec_raw() == #[trigger] flowinfo_of(traffic_class.spec_raw(), order),
    {
        let order = native_byte_order();
        Self::new_ordered(traffic_class, order)
    }

    /// The traffic class, on a machine of a given byte order.
    pub fn traffic_class_ordered(self, order: ByteOrder) -> (res: TrafficClass)
        ensures
            res.spec_raw() == class_of(self.spec_raw(), order),
    {
        TrafficClass((to_network_order(self.0, order) / 0x100000 % 0x100) as u8)
    }

    pub fn traffic_class(self) -> (res: TrafficClass)
        ensures
            exists|order: ByteOrder| res.spec_raw() == #[trigger] class_of(self.spec_raw(), order),
    {
        let order = native_byte_order();
        self.traffic_class_ordered(order)
    }

    pub fn raw(&self) -> (res: u32)
        ensures
            res == self.spec_raw(),
    {
        self.0
    }

    pub fn from_raw(raw: u32) -> (res: Self)
        ensures
            res.spec_raw() == raw,
    {
        Self(raw)
    }
}

/// Reading the traffic class gives back the one that the flow information was
/// made of.
pub proof fn law_flowinfo_round_trip(class: u8, order: ByteOrder)
    ensures
        0 <= flowinfo_of(class, order) <= u32::MAX,
        class_of(flowinfo_of(class, order) as u32, order) == class,
{
    let host = (class as int * 0x100000) as u32;
    assert(host == class * 0x100000);
    law_network_order_inverse(host, order);
}

/// The bytes of a number that is given by its bytes.
proof fn lemma_bytes_of(y: int, b3: int, b2: int, b1: int, b0: int)
    requires
        0 <= b0 < 0x100,
        0 <= b1 < 0x100,
        0 <= b2 < 0x100,
        0 <= b3 < 0x100,
        y == b3 * 0x1000000 + b2 * 0x10000 + b1 * 0x100 + b0,
    ensures
        y / 0x1000000 == b3,
        y / 0x10000 % 0x100 == b2,
        y / 0x100 % 0x100 == b1,
        y % 0x100 == b0,
{
    assert(y / 0x10000 == b3 * 0x100 + b2);
    assert((b3 * 0x100 + b2) % 0x100 == b2);
    assert(y / 0x100 == b3 * 0x10000 + b2 * 0x100 + b1);
    assert((b3 * 0x10000 + b2 * 0x100 + b1) % 0x100 == b1);
}

/// Exchanging host and network order twice changes nothing.
pub proof fn law_network_order_inverse(x: u32, order: ByteOrder)
    ensures
        0 <= network_order(x, order) <= u32::MAX,
        network_order(network_order(x, order) as u32, order) == x,
{
    if order == ByteOrder::Little {
        let b0 = x as int % 0x100;
        let b1 = x as int / 0x100 % 0x100;
        let b2 = x as int / 0x10000 % 0x100;
        let b3 = x as int / 0x1000000;
        assert(x == b3 * 0x1000000 + b2 * 0x10000 + b1 * 0x100 + b0) by {
            assert(x as int / 0x100 == (x as int / 0x10000) * 0x100 + b1);
            assert(x as int / 0x10000 == b3 * 0x100 + b2);
        }
        lemma_bytes_of(swapped(x), b0, b1, b2, b3);
    }
}

/// Whether flow information marks a packet that was encrypted with the network
/// key.
pub open spec fn marks_encrypted(flowinfo: u32, order: ByteOrder) -> bool {
    let ds = (class_of(flowinfo, order) / 4) as u8;
    &&& ds < 16
    &&& ds & DS_LOCAL_USE == DS_LOCAL_USE
    &&& ds & DS_USE_NETWORK_KEY == DS_USE_NETWORK_KEY
}

impl SocketAddr {
    pub open spec fn spec_flowinfo(self) -> u32 {
        match self {
            SocketAddr::V4(_) => 0,
            SocketAddr::V6(addr) => addr.flowinfo,
        }
    }

    /// The flow information; an IPv4 address has none and counts as zero.
    pub fn flowinfo(&self) -> (res: Flowinfo)
        ensures
            res.spec_raw() == self.spec_flowinfo(),
    {
        match self {
            SocketAddr::V4(_) => Flowinfo(0),
            SocketAddr::V6(addr) => Flowinfo(addr.flowinfo),
        }
    }

    /// Sets the flow information. It is an error, and nothing is changed, for
    /// an IPv4 address.
    pub fn set_flowinfo(&mut self, flowinfo: u32) -> (res: Result<(), Error>)
        ensures
            match *old(self) {
                SocketAddr::V4(_) => {
                    &&& res == Err::<(), Error>(Error::NoFlowinfo)
                    &&& *final(self) == *old(self)
                },
                SocketAddr::V6(addr) => {
                    &&& res is Ok
                    &&& *final(self) == SocketAddr::V6((SocketAddrV6 { flowinfo, ..addr }))
                },
            },
    {
        match *self {
            SocketAddr::V4(_) => Err(Error::NoFlowinfo),
            SocketAddr::V6(addr) => {
                *self = SocketAddr::V6(SocketAddrV6 { flowinfo, ..addr });
                Ok(())
            },
        }
    }

    /// Whether an incoming packet with this sender address was encrypted with
    /// the network key, on a machine of a given byte order.
    pub fn encrypted_ordered(&self, order: ByteOrder) -> (res: bool)
        ensures
            res == marks_encrypted(self.spec_flowinfo(), order),
    {
        let class = self.flowinfo().traffic_class_ordered(order);
        match class.ds() {
            None => false,
            Some(ds) => ds.contains(DS_LOCAL_USE) && ds.contains(DS_USE_NETWORK_KEY),
        }
    }

    /// Whether an incoming packet with this sender address was encrypted with
    /// the network key.
    pub fn encrypted(&self) -> (res: bool)
        ensures
            exists|order: ByteOrder|
                res == #[trigger] marks_encrypted(self.spec_flowinfo(), order),
    {
        let order = native_byte_order();
        self.encrypted_ordered(order)
    }
}

/// The little endian number in the two bytes from `at` on.
pub open spec fn le_u16_at(data: Seq<u8>, at: int) -> int {
    data[at] + 0x100 * data[at + 1]
}

/// The little endian number in the four bytes from `at` on.
pub open spec fn le_u32_at(data: Seq<u8>, at: int) -> int {
    data[at] + 0x100 * data[at + 1] + 0x10000 * data[at + 2] + 0x1000000 * data[at + 3]
}

/// Reads bytes one after the other. A read that would go past the end is an
/// error and leaves the position as it is.
pub struct Cursor<'a> {
    data: &'a [u8],
    pos: usize,
}

impl<'a> Cursor<'a> {
    #[verifier::type_invariant]
    spec fn inside(self) -> bool {
        self.pos <= self.data@.len()
    }

    pub closed spec fn data(self) -> Seq<u8> {
        self.data@
    }

    pub closed spec fn pos(self) -> int {
        self.pos as int
    }

    pub fn new(data: &'a [u8]) -> (res: Self)
        ensures
            res.data() == data@,
            res.pos() == 0,
    {
        Self { data, pos: 0 }
    }

    pub fn position_usize(&self) -> (res: usize)
        ensures
            res == self.pos(),
            res <= self.data().len(),
    {
        proof {
            use_type_invariant(self);
        }
        self.pos
    }

    pub fn remaining(&self) -> (res: usize)
        ensures
            res == self.data().len() - self.pos(),
    {
        proof {
            use_type_invariant(self);
        }
        self.data.len() - self.pos
    }

    /// Hands out the next `len` bytes.
    pub fn take(&mut self, len: usize) -> (res: Result<&'a [u8], Error>)
        ensures
            final(self).data() == old(self).data(),
            res is Ok <==> old(self).pos() + len <= old(self).data().len(),
            res matches Ok(bytes) ==> {
                &&& bytes@ == old(self).data().subrange(old(self).pos(), old(self).pos() + len)
                &&& final(self).pos() == old(self).pos() + len
            },
            res matches Err(e) ==> e == Error::ShortRead && final(self).pos() == old(self).pos(),
    {
        proof {
            use_type_invariant(&*self);
        }
        if len > self.data.len() - self.pos {
            return Err(Error::ShortRead);
        }
        let start: usize = self.pos;
        let bytes = vstd::slice::slice_subrange(self.data, start, start + len);
        self.pos = start + len;
        Ok(bytes)
    }

    pub fn read_u8(&mut self) -> (res: Result<u8, Error>)
        ensures
            final(self).data() == old(self).data(),
            res is Ok <==> old(self).pos() + 1 <= old(self).data().len(),
            res matches Ok(value) ==> {
                &&& value == old(self).data()[old(self).pos()]
                &&& final(self).pos() == old(self).pos() + 1
            },
            res matches Err(e) ==> e == Error::ShortRead && final(self).pos() == old(self).pos(),
    {
        match self.take(1) {
            Err(e) => Err(e),
            Ok(bytes) => Ok(bytes[0]),
        }
    }

    pub fn read_u16_le(&mut self) -> (res: Result<u16, Error>)
        ensures
            final(self).data() == old(self).data(),
            res is Ok <==> old(self).pos() + 2 <= old(self).data().len(),
            res matches Ok(value) ==> {
                &&& value == le_u16_at(old(self).data(), old(self).pos())
                &&& final(self).pos() == old(self).pos() + 2
            },
            res matches Err(e) ==> e == Error::ShortRead && final(self).pos() == old(self).pos(),
    {
        match self.take(2) {
            Err(e) => Err(e),
            Ok(bytes) => Ok(bytes[0] as u16 + 0x100 * bytes[1] as u16),
        }
    }

    pub fn read_u32_le(&mut self) -> (res: Result<u32, Error>)
        ensures
            final(self).data() == old(self).data(),
            res is Ok <==> old(self).pos() + 4 <= old(self).data().len(),
            res matches Ok(value) ==> {
                &&& value == le_u32_at(old(self).data(), old(self).pos())
                &&& final(self).pos() == old(self).pos() + 4
            },
            res matches Err(e) ==> e == Error::ShortRead && final(self).pos() == old(self).pos(),
    {
        match self.take(4) {
            Err(e) => Err(e),
            Ok(bytes) => Ok(
                bytes[0] as u32 + 0x100 * bytes[1] as u32 + 0x10000 * bytes[2] as u32 + 0x1000000
                    * bytes[3] as u32,
            ),
        }
    }
}

/// On a little endian machine the four bytes are swapped end for end, and on a
/// big endian one a number stays as it is.
pub proof fn law_bytes_in_network_order(b3: u8, b2: u8, b1: u8, b0: u8)
    ensures
        network_order(
            (b3 * 0x1000000 + b2 * 0x10000 + b1 * 0x100 + b0) as u32,
            ByteOrder::Little,
        ) == b0 * 0x1000000 + b1 * 0x10000 + b2 * 0x100 + b3,
        network_order((b3 * 0x1000000 + b2 * 0x10000 + b1 * 0x100 + b0) as u32, ByteOrder::Big)
            == b3 * 0x1000000 + b2 * 0x10000 + b1 * 0x100 + b0,
{
    let x = b3 * 0x1000000 + b2 * 0x10000 + b1 * 0x100 + b0;
    lemma_bytes_of(x, b3 as int, b2 as int, b1 as int, b0 as int);
}

/// The eight bits above the lowest twenty.
proof fn lemma_middle_bits(high: int, middle: int, low: int)
    requires
        0 <= middle < 0x100,
        0 <= low < 0x100000,
    ensures
        (high * 0x10000000 + middle * 0x100000 + low) / 0x100000 % 0x100 == middle,
{
    let x = high * 0x10000000 + middle * 0x100000 + low;
    assert(x / 0x100000 == high * 0x100 + middle);
}

/// The class inside a number that is given in host order.
proof fn lemma_class_in_host_order(host: u32, order: ByteOrder)
    ensures
        class_of(network_order(host, order) as u32, order) == host as int / 0x100000 % 0x100,
{
    law_network_order_inverse(host, order);
}

/// In network order, the traffic class follows four bits, and twenty bits of flow
/// label follow it. Neither of them matters when it is read, and both are zero
/// when it is written.
pub proof fn law_place_of_the_class(version: u8, class: u8, label: u32, order: ByteOrder)
    requires
        version < 16,
        label < 0x100000,
    ensures
        class_of(
            network_order((version * 0x10000000 + class * 0x100000 + label) as u32, order) as u32,
            order,
        ) == class,
        network_order(flowinfo_of(class, order) as u32, order) == class * 0x100000,
{
    let host = version * 0x10000000 + class * 0x100000 + label;
    assert(host <= u32::MAX);
    lemma_middle_bits(version as int, class as int, label as int);
    lemma_class_in_host_order(host as u32, order);
    law_network_order_inverse((class as int * 0x100000) as u32, order);
}

/// A packet counts as encrypted exactly if its differentiated services field has
/// all of its three lowest bits set and none above the fourth.
pub proof fn law_who_is_encrypted(flowinfo: u32, order: ByteOrder)
    ensures
        marks_encrypted(flowinfo, order) <==> {
            let ds = class_of(flowinfo, order) / 4;
            ds == 7 || ds == 15
        },
{
    let ds = (class_of(flowinfo, order) / 4) as u8;
    assert((ds < 16 && ds & 3 == 3 && ds & 4 == 4) == (ds == 7 || ds == 15)) by (bit_vector);
}

/// An IPv6 address has the flow information that was set, and an IPv4 address has
/// none.
pub proof fn law_flowinfo_of_an_address(addr: SocketAddr, other: SocketAddrV6, flowinfo: u32)
    ensures
        SocketAddr::V6(SocketAddrV6 { flowinfo, ..other }).spec_flowinfo() == flowinfo,
        addr is V4 ==> addr.spec_flowinfo() == 0,
{
}

/// The lowest byte of a number comes first, wherever the number stands.
pub proof fn law_little_endian_numbers(
    before: Seq<u8>,
    b0: u8,
    b1: u8,
    b2: u8,
    b3: u8,
    after: Seq<u8>,
)
    ensures
        le_u16_at(before + seq![b0, b1] + after, before.len() as int) == b0 + 0x100 * b1,
        le_u32_at(before + seq![b0, b1, b2, b3] + after, before.len() as int) == b0 + 0x100 * (b1
            + 0x100 * (b2 + 0x100 * b3)),
{
}

} // verus!
