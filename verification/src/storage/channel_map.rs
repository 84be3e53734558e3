//! Channel maps.

use crate::bigint;
use crate::bigint::BigUint;
use vstd::arithmetic::power2::*;
use vstd::prelude::*;

verus! {

/// The radio channels that a device uses, one bit for each.
#[derive(Clone, Debug)]
pub struct ChannelMap {
    inner: BigUint,
}

/// Whether a channel is in a channel map. Bit 0 stands for channel 1; there are
/// 32 channels.
pub open spec fn map_contains(map: nat, channel: int) -> bool {
    1 <= channel <= 32 && bigint::nat_bit(map, (channel - 1) as nat)
}

impl View for ChannelMap {
    type V = nat;

    closed spec fn view(&self) -> nat {
        self.inner@
    }
}

impl ChannelMap {
    pub fn new(num: BigUint) -> (res: Self)
        ensures
            res@ == num@,
    {
        Self { inner: num }
    }

    pub fn from_bytes_be(bytes: &[u8]) -> (res: Self)
        ensures
            res@ == bigint::be_value(bytes@),
    {
        Self::new(BigUint::from_bytes_be(bytes))
    }

    /// Whether the channel is in use by whatever this map stands for.
    pub fn contains(&self, n: usize) -> (res: bool)
        ensures
            res == map_contains(self@, n as int),
    {
        if n == 0 || n > 32 {
            return false;
        }
        let bit: u64 = (n - 1) as u64;
        proof {
            vstd::bits::lemma_u64_pow2_no_overflow(bit as nat);
            vstd::bits::lemma_u64_shl_is_mul(1, bit);
            bigint::lemma_and_bit(self@, bit as nat);
            lemma_pow2_pos(bit as nat);
            lemma_pow2_strictly_increases(bit as nat, 64);
            lemma2_to64();
        }
        let masked: BigUint = self.inner.bitand(&BigUint::from_u64(1u64 << bit));
        match masked.to_u64() {
            Some(value) => value != 0,
            None => true,
        }
    }
}

/// The bits of a channel map stand for the channels 1 to 32, from the lowest on,
/// and there are no others.
pub proof fn law_channels_of_a_map(map: nat, channel: int)
    ensures
        map_contains(map, 1) <==> map % 2 == 1,
        1 <= channel < 32 ==> map_contains(map, channel + 1) == map_contains(map / 2, channel),
        channel < 1 || channel > 32 ==> !map_contains(map, channel),
{
    bigint::law_bits(map, 0);
    if 1 <= channel < 32 {
        bigint::law_bits(map, (channel - 1) as nat);
    }
}

} // verus!
