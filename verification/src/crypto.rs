//! The keys of a network, and the message that hands the network key to a
//! device.
//!
//! An inclusion message is made of a controller key for AES-128, the network key
//! encrypted with it, and a checksum over both. It is encrypted with the public
//! RSA key that all devices share.

use block_modes::BlockMode;
use crate::bigint;
use crate::bigint::BigUint;
use crate::digest;
use crate::digest::xmodem_checksum;
use crate::error::Error;
use crate::hexcode;
use crate::hexcode::decode_key;
use crate::hexcode::encode;
use crate::random::random_key;
use vstd::arithmetic::power::*;
use vstd::prelude::*;
use vstd::string::*;

verus! {

/// The public exponent of the key that all devices share.
pub const DEFAULT_EXPONENT: u64 = 65537;

/// What AES-128 makes of sixteen bytes, or of several times sixteen one after
/// the other.
pub uninterp spec fn aes128_ecb(key: Seq<u8>, data: Seq<u8>) -> Seq<u8>;

/// `block_modes::BlockMode::new_from_slices` and `encrypt_vec` of
/// `Ecb<Aes128, NoPadding>`: the encrypted block, for a key of sixteen bytes. A
/// key of any other length is refused.
#[verifier::external_body]
fn aes128_encrypt(key: &[u8], block: &[u8; 16]) -> (res: Option<Vec<u8>>)
    ensures
        match res {
            Some(encrypted) => key@.len() == 16 && encrypted@ == aes128_ecb(key@, block@)
                && encrypted@.len() == 16,
            None => key@.len() != 16,
        },
{
    block_modes::Ecb::<aes::Aes128, block_modes::block_padding::NoPadding>::new_from_slices(key, &[])
        .ok()
        .map(|cipher| cipher.encrypt_vec(block))
}

/// Whether a modulus and an exponent make up a public key: at most 4096 bits,
/// both odd, and an exponent between 2 and 2^33 that is below the modulus.
pub open spec fn is_public_key(modulus: nat, exponent: nat) -> bool {
    &&& bigint::shortest_bytes(modulus).len() <= 512
    &&& modulus % 2 == 1
    &&& exponent % 2 == 1
    &&& 2 <= exponent < 0x2_0000_0000
    &&& exponent < modulus
}

/// `rsa::RsaPublicKey::new`: whether it accepts a modulus, given as bytes with
/// the highest one first, and an exponent.
#[verifier::external_body]
fn rsa_accepts(modulus: &[u8], exponent: u64) -> (res: bool)
    ensures
        res == is_public_key(bigint::be_value(modulus@), exponent as nat),
{
    rsa::RsaPublicKey::new(rsa::BigUint::from_bytes_be(modulus), exponent.into()).is_ok()
}

/// A message as it is padded before it is encrypted: a zero byte, a two, nothing
/// but bytes that are not zero, a zero byte, and the message.
pub open spec fn padded(padding: Seq<u8>, message: Seq<u8>) -> Seq<u8> {
    seq![0u8, 2u8] + padding + seq![0u8] + message
}

/// Whether `encrypted` is a message, padded to the size of the modulus by some
/// bytes of which none is zero, to the power of the exponent.
pub open spec fn is_encryption(
    encrypted: Seq<u8>,
    message: Seq<u8>,
    modulus: nat,
    exponent: nat,
    padding: Seq<u8>,
) -> bool {
    &&& encrypted.len() == bigint::shortest_bytes(modulus).len()
    &&& padded(padding, message).len() == encrypted.len()
    &&& !padding.contains(0)
    &&& bigint::be_value(encrypted) as int == pow(
        bigint::be_value(padded(padding, message)) as int,
        exponent,
    ) % modulus as int
}

/// `rsa::RsaPublicKey::encrypt` with `Pkcs1v15Encrypt` and the random numbers of
/// the operating system: the padded message to the power of the exponent, which
/// is a different one each time. A message that leaves less than eleven bytes
/// for the padding is refused. It stops the program if the operating system has
/// no random numbers.
#[verifier::external_body]
fn rsa_encrypt(modulus: &[u8], exponent: u64, message: &[u8]) -> (res: Option<Vec<u8>>)
    requires
        is_public_key(bigint::be_value(modulus@), exponent as nat),
    ensures
        match res {
            Some(encrypted) => exists|padding: Seq<u8>| #[trigger]
                is_encryption(
                    encrypted@,
                    message@,
                    bigint::be_value(modulus@),
                    exponent as nat,
                    padding,
                ),
            None => message@.len() + 11 > bigint::shortest_bytes(
                bigint::be_value(modulus@),
            ).len(),
        },
        res is Some ==> message@.len() + 11 <= bigint::shortest_bytes(
            bigint::be_value(modulus@),
        ).len(),
{
    rsa::RsaPublicKey::new(rsa::BigUint::from_bytes_be(modulus), exponent.into())
        .ok()?
        .encrypt(&mut rand::rngs::OsRng, rsa::Pkcs1v15Encrypt, message)
        .ok()
}

/// A public RSA key.
#[derive(Debug)]
pub struct PublicKey {
    modulus: BigUint,
    exponent: u64,
}

impl PublicKey {
    #[verifier::type_invariant]
    spec fn is_valid(self) -> bool {
        is_public_key(self.modulus@, self.exponent as nat)
    }

    pub closed spec fn spec_modulus(self) -> nat {
        self.modulus@
    }

    pub closed spec fn spec_exponent(self) -> nat {
        self.exponent as nat
    }

    pub fn new(modulus: BigUint, exponent: u64) -> (res: Result<Self, Error>)
        ensures
            match res {
                Ok(key) => {
                    &&& is_public_key(modulus@, exponent as nat)
                    &&& key.spec_modulus() == modulus@
                    &&& key.spec_exponent() == exponent
                },
                Err(e) => !is_public_key(modulus@, exponent as nat) && e == Error::InvalidPublicKey,
            },
    {
        let bytes = modulus.to_bytes_be();
        if rsa_accepts(bytes.as_slice(), exponent) {
            Ok(Self { modulus, exponent })
        } else {
            Err(Error::InvalidPublicKey)
        }
    }

    /// Encrypts a message. The result is a different one each time.
    fn encrypt(&self, message: &[u8]) -> (res: Option<Vec<u8>>)
        ensures
            res is Some <==> message@.len() + 11 <= bigint::shortest_bytes(
                self.spec_modulus(),
            ).len(),
            res matches Some(encrypted) ==> exists|padding: Seq<u8>| #[trigger]
                is_encryption(
                    encrypted@,
                    message@,
                    self.spec_modulus(),
                    self.spec_exponent(),
                    padding,
                ),
    {
        proof {
            use_type_invariant(self);
        }
        let modulus = self.modulus.to_bytes_be();
        assert(self.spec_modulus() == bigint::be_value(modulus@));
        assert(self.spec_exponent() == self.exponent as nat);
        rsa_encrypt(modulus.as_slice(), self.exponent, message)
    }
}

/// The key that all devices of a network share.
#[derive(Clone, Debug)]
pub struct NetworkKey {
    network_key: [u8; 16],
}

/// What to do with a stored network key.
#[derive(Debug)]
pub enum StoredKey {
    Key(NetworkKey),
    /// The key cannot be used: move the file out of the way where that is told,
    /// and generate a new key.
    Regenerate { rename: bool },
}

/// Whether a text has an upper case letter.
pub open spec fn has_upper_case(text: Seq<char>) -> bool {
    exists|i: int| 0 <= i < text.len() && 'A' <= #[trigger] text[i] <= 'Z'
}

fn find_upper_case(text: &str) -> (res: bool)
    ensures
        res == has_upper_case(text@),
{
    let len: usize = text.unicode_len();
    let mut i: usize = 0;
    while i < len
        invariant
            i <= len,
            len == text@.len(),
            forall|k: int| 0 <= k < i ==> !('A' <= #[trigger] text@[k] <= 'Z'),
        decreases len - i,
    {
        let c = text.get_char(i);
        if 'A' <= c && c <= 'Z' {
            assert('A' <= text@[i as int] <= 'Z');
            return true;
        }
        i += 1;
    }
    false
}

impl View for NetworkKey {
    type V = Seq<u8>;

    closed spec fn view(&self) -> Seq<u8> {
        self.network_key@
    }
}

impl NetworkKey {
    /// A key by chance.
    pub fn generate() -> (res: Self)
        ensures
            res@.len() == 16,
    {
        Self::from_bytes(random_key())
    }

    pub fn from_bytes(bytes: [u8; 16]) -> (res: Self)
        ensures
            res@ == bytes@,
    {
        Self { network_key: bytes }
    }

    /// The text that is stored for the key.
    pub fn to_stored(&self) -> (res: String)
        ensures
            res@ == hexcode::hex_text(self@, false),
    {
        encode(&self.network_key)
    }

    /// Whether a file can hold a key at all. There is nothing to be saved of an
    /// empty one: it is deleted, and a new key generated.
    pub fn is_usable_file(len: u64) -> (res: bool)
        ensures
            res == (len > 0),
    {
        len > 0
    }

    /// The key that a stored text gives. Keys in upper case were stored by
    /// mistake and are not used; the file is kept under another name, but only
    /// once.
    pub fn from_stored(text: &str, backup_exists: bool) -> (res: Result<StoredKey, Error>)
        ensures
            match res {
                Ok(StoredKey::Regenerate { rename }) => has_upper_case(text@) && rename
                    == !backup_exists,
                Ok(StoredKey::Key(key)) => {
                    &&& !has_upper_case(text@)
                    &&& hexcode::is_hex_text(text@)
                    &&& text@.len() == 32
                    &&& key@ == hexcode::hex_bytes(text@)
                },
                Err(e) => {
                    &&& !has_upper_case(text@)
                    &&& !(hexcode::is_hex_text(text@) && text@.len() == 32)
                    &&& e == Error::InvalidHex
                },
            },
    {
        if find_upper_case(text) {
            return Ok(StoredKey::Regenerate { rename: !backup_exists });
        }
        match decode_key(text) {
            Ok(network_key) => Ok(StoredKey::Key(Self { network_key })),
            Err(_) => Err(Error::InvalidHex),
        }
    }
}

/// Every key has sixteen bytes.
pub proof fn law_network_key_length(key: NetworkKey)
    ensures
        key@.len() == 16,
{
}

/// A key that was stored is read back as it was.
pub proof fn law_network_key_persists(key: NetworkKey)
    ensures
        !has_upper_case(hexcode::hex_text(key@, false)),
        hexcode::is_hex_text(hexcode::hex_text(key@, false)),
        hexcode::hex_text(key@, false).len() == 32,
        hexcode::hex_bytes(hexcode::hex_text(key@, false)) == key@,
{
    law_network_key_length(key);
    hexcode::law_hex_round_trip(key@, false);
    let text = hexcode::hex_text(key@, false);
    assert forall|i: int| 0 <= i < text.len() implies !('A' <= #[trigger] text[i] <= 'Z') by {
        assert(0 <= key@[i / 2] as int / 16 < 16);
    }
}

/// The controller key and the network key encrypted with it.
pub open spec fn inclusion_keys(controller_key: Seq<u8>, network_key: Seq<u8>) -> Seq<u8> {
    controller_key + aes128_ecb(controller_key, network_key)
}

/// An inclusion message before it is encrypted: both keys, and their checksum
/// with the higher byte first.
pub open spec fn inclusion_plain(controller_key: Seq<u8>, network_key: Seq<u8>) -> Seq<u8> {
    let keys = inclusion_keys(controller_key, network_key);
    let checksum = digest::crc16_xmodem(keys);
    keys + seq![(checksum / 256) as u8, (checksum % 256) as u8]
}

/// An inclusion message before it is encrypted, of a controller key, the network
/// key encrypted with it, and the checksum over both.
pub fn assemble_inclusion(controller_key: &[u8], encrypted: &[u8], checksum: u16) -> (res: Vec<u8>)
    ensures
        res@ == controller_key@ + encrypted@ + seq![
            (checksum / 256) as u8,
            (checksum % 256) as u8,
        ],
{
    let mut message: Vec<u8> = Vec::new();
    message.extend_from_slice(controller_key);
    message.extend_from_slice(encrypted);
    message.push((checksum / 256) as u8);
    message.push((checksum % 256) as u8);
    assert(message@ =~= controller_key@ + encrypted@ + seq![
        (checksum / 256) as u8,
        (checksum % 256) as u8,
    ]);
    message
}

/// A network: everything that is needed to include a device in it.
#[derive(Debug)]
pub struct Network {
    network_key: NetworkKey,
    public_key: PublicKey,
}

impl Network {
    pub closed spec fn spec_network_key(self) -> Seq<u8> {
        self.network_key@
    }

    pub closed spec fn spec_public_key(self) -> PublicKey {
        self.public_key
    }

    /// The network with this key. Where no public key is given, the one with the
    /// default modulus is used.
    pub fn new(
        network_key: NetworkKey,
        public_key: Option<PublicKey>,
        default_modulus: &[u8],
    ) -> (res: Result<Self, Error>)
        ensures
            match (public_key, res) {
                (Some(key), Ok(network)) => {
                    &&& network.spec_network_key() == network_key@
                    &&& network.spec_public_key() == key
                },
                (None, Ok(network)) => {
                    &&& is_public_key(bigint::be_value(default_modulus@), 65537)
                    &&& network.spec_network_key() == network_key@
                    &&& network.spec_public_key().spec_modulus() == bigint::be_value(
                        default_modulus@,
                    )
                    &&& network.spec_public_key().spec_exponent() == 65537
                },
                (None, Err(e)) => {
                    &&& !is_public_key(bigint::be_value(default_modulus@), 65537)
                    &&& e == Error::InvalidPublicKey
                },
                (Some(_), Err(_)) => false,
            },
    {
        let public_key = match public_key {
            Some(public_key) => public_key,
            None => PublicKey::new(BigUint::from_bytes_be(default_modulus), DEFAULT_EXPONENT)?,
        };
        Ok(Self { network_key, public_key })
    }

    /// What an inclusion message with this controller key says.
    pub fn inclusion_plaintext(&self, controller_key: &[u8]) -> (res: Result<Vec<u8>, Error>)
        ensures
            match res {
                Ok(message) => {
                    &&& controller_key@.len() == 16
                    &&& message@ == inclusion_plain(controller_key@, self.spec_network_key())
                    &&& message@.len() == 34
                },
                Err(e) => controller_key@.len() != 16 && e == Error::InvalidSize,
            },
    {
        match aes128_encrypt(controller_key, &self.network_key.network_key) {
            None => Err(Error::InvalidSize),
            Some(encrypted) => {
                let mut keys: Vec<u8> = Vec::new();
                keys.extend_from_slice(controller_key);
                keys.extend_from_slice(encrypted.as_slice());
                assert(keys@ =~= inclusion_keys(controller_key@, self.spec_network_key()));
                let checksum: u16 = xmodem_checksum(keys.as_slice());
                Ok(assemble_inclusion(controller_key, encrypted.as_slice(), checksum))
            },
        }
    }

    /// Whether `message` is the inclusion message with this controller key, up
    /// to the padding.
    pub open spec fn is_inclusion_message(
        self,
        message: Seq<u8>,
        controller_key: Seq<u8>,
        padding: Seq<u8>,
    ) -> bool {
        is_encryption(
            message,
            inclusion_plain(controller_key, self.spec_network_key()),
            self.spec_public_key().spec_modulus(),
            self.spec_public_key().spec_exponent(),
            padding,
        )
    }

    /// Whether the public key is big enough for an inclusion message.
    pub open spec fn can_encrypt(self) -> bool {
        bigint::shortest_bytes(self.spec_public_key().spec_modulus()).len() >= 45
    }

    /// The inclusion message with this controller key.
    pub fn inclusion_message_withkey(&self, controller_key: &[u8]) -> (res: Result<Vec<u8>, Error>)
        ensures
            res is Ok <==> controller_key@.len() == 16 && self.can_encrypt(),
            res matches Ok(message) ==> exists|padding: Seq<u8>| #[trigger]
                self.is_inclusion_message(message@, controller_key@, padding),
            res matches Err(e) ==> e == (if controller_key@.len() != 16 {
                Error::InvalidSize
            } else {
                Error::EncryptionFailed
            }),
    {
        let message = self.inclusion_plaintext(controller_key)?;
        let encrypted = match self.public_key.encrypt(message.as_slice()) {
            None => {
                return Err(Error::EncryptionFailed);
            },
            Some(encrypted) => encrypted,
        };
        let res: Result<Vec<u8>, Error> = Ok(encrypted);
        proof {
            assert(self.spec_public_key() == self.public_key);
            let padding = choose|padding: Seq<u8>| #[trigger]
                is_encryption(
                    (res->Ok_0)@,
                    message@,
                    self.spec_public_key().spec_modulus(),
                    self.spec_public_key().spec_exponent(),
                    padding,
                );
            assert(self.is_inclusion_message((res->Ok_0)@, controller_key@, padding));
        }
        res
    }

    /// A new inclusion message. Its controller key is used just once.
    pub fn inclusion_message(&self) -> (res: Result<Vec<u8>, Error>)
        ensures
            res is Ok <==> self.can_encrypt(),
            res matches Ok(message) ==> exists|controller_key: Seq<u8>, padding: Seq<u8>|
                controller_key.len() == 16 && #[trigger] self.is_inclusion_message(
                    message@,
                    controller_key,
                    padding,
                ),
            res matches Err(e) ==> e == Error::EncryptionFailed,
    {
        let controller_key = random_key();
        self.inclusion_message_withkey(&controller_key)
    }

    pub fn raw_network_key(&self) -> (res: &[u8])
        ensures
            res@ == self.spec_network_key(),
            res@.len() == 16,
    {
        &self.network_key.network_key
    }
}

/// A public key has an odd modulus of at most 512 bytes and an odd exponent that
/// is greater than 1, below 2^33 and below the modulus.
pub proof fn law_public_keys(modulus: nat, exponent: nat)
    ensures
        is_public_key(modulus, exponent) ==> modulus % 2 != 0 && exponent % 2 != 0 && exponent > 1
            && exponent < 8_589_934_592 && modulus > exponent,
        bigint::shortest_bytes(modulus).len() > 512 ==> !is_public_key(modulus, exponent),
        modulus % 2 != 0 && exponent % 2 != 0 && 1 < exponent < 8_589_934_592 && exponent < modulus
            && bigint::shortest_bytes(modulus).len() <= 512 ==> is_public_key(modulus, exponent),
{
}

/// A padded message begins with a zero and a two, ends with the message, and has
/// one zero right before it.
pub proof fn law_padded_message(padding: Seq<u8>, message: Seq<u8>)
    ensures
        padded(padding, message).len() == 3 + padding.len() + message.len(),
        padded(padding, message)[0] == 0,
        padded(padding, message)[1] == 2,
        padded(padding, message).subrange(2, 2 + padding.len() as int) == padding,
        padded(padding, message)[2 + padding.len() as int] == 0,
        padded(padding, message).skip(3 + padding.len() as int) == message,
{
    assert(padded(padding, message).subrange(2, 2 + padding.len() as int) =~= padding);
    assert(padded(padding, message).skip(3 + padding.len() as int) =~= message);
}

/// What is encrypted has the size of the modulus and is, as a number, the padded
/// message to the power of the exponent. No byte of the padding is zero, so that
/// the message is found behind it.
pub proof fn law_encryption(
    encrypted: Seq<u8>,
    message: Seq<u8>,
    modulus: nat,
    exponent: nat,
    padding: Seq<u8>,
)
    ensures
        is_encryption(encrypted, message, modulus, exponent, padding) <==> {
            &&& encrypted.len() == bigint::shortest_bytes(modulus).len()
            &&& encrypted.len() == 3 + padding.len() + message.len()
            &&& forall|i: int| 0 <= i < padding.len() ==> #[trigger] padding[i] != 0
            &&& bigint::be_value(encrypted) as int == pow(
                bigint::be_value(seq![0u8, 2u8] + padding + seq![0u8] + message) as int,
                exponent,
            ) % modulus as int
        },
{
    if is_encryption(encrypted, message, modulus, exponent, padding) {
        assert forall|i: int| 0 <= i < padding.len() implies #[trigger] padding[i] != 0 by {
            assert(padding.contains(padding[i]));
        }
    }
}

/// A text has an upper case letter where one of its letters is 'A' to 'Z', and
/// nowhere else.
pub proof fn law_upper_case(before: Seq<char>, c: char, after: Seq<char>)
    ensures
        'A' <= c <= 'Z' ==> has_upper_case(before + seq![c] + after),
        !('A' <= c <= 'Z') ==> has_upper_case(before + seq![c] + after) == (has_upper_case(before)
            || has_upper_case(after)),
        !has_upper_case(Seq::<char>::empty()),
{
    let all = before + seq![c] + after;
    let n = before.len() as int;
    assert(all[n] == c);
    if has_upper_case(before) {
        let i = choose|i: int| 0 <= i < before.len() && 'A' <= #[trigger] before[i] <= 'Z';
        assert(all[i] == before[i]);
    }
    if has_upper_case(after) {
        let i = choose|i: int| 0 <= i < after.len() && 'A' <= #[trigger] after[i] <= 'Z';
        assert(all[n + 1 + i] == after[i]);
    }
    if has_upper_case(all) && !('A' <= c <= 'Z') {
        let i = choose|i: int| 0 <= i < all.len() && 'A' <= #[trigger] all[i] <= 'Z';
        if i < n {
            assert(before[i] == all[i]);
        } else {
            assert(after[i - n - 1] == all[i]);
        }
    }
}

/// An inclusion message begins with the controller key. The network key follows,
/// encrypted with it, and then the checksum over both, its higher byte first.
pub proof fn law_inclusion_message(controller_key: Seq<u8>, network_key: Seq<u8>)
    ensures
        ({
            let plain = inclusion_plain(controller_key, network_key);
            let encrypted = aes128_ecb(controller_key, network_key);
            let end = (controller_key.len() + encrypted.len()) as int;
            &&& plain.len() == end + 2
            &&& plain.take(controller_key.len() as int) == controller_key
            &&& plain.subrange(controller_key.len() as int, end) == encrypted
            &&& 0x100 * plain[end] + plain[end + 1] == digest::crc16_xmodem(
                plain.take(end),
            )
        }),
{
    let plain = inclusion_plain(controller_key, network_key);
    let encrypted = aes128_ecb(controller_key, network_key);
    let end = (controller_key.len() + encrypted.len()) as int;
    assert(plain.take(controller_key.len() as int) =~= controller_key);
    assert(plain.subrange(controller_key.len() as int, end) =~= encrypted);
    assert(plain.take(end) =~= controller_key + encrypted);
}

/// A network can send inclusion messages if they fit in its public key together
/// with eleven bytes of padding, that is 16 bytes for each key and 2 for the
/// checksum. They are encrypted with that public key.
pub proof fn law_inclusion_messages_of_a_network(
    network: Network,
    message: Seq<u8>,
    controller_key: Seq<u8>,
    padding: Seq<u8>,
)
    ensures
        network.can_encrypt() <==> 16 + 16 + 2 + 11 <= bigint::shortest_bytes(
            network.spec_public_key().spec_modulus(),
        ).len(),
        network.is_inclusion_message(message, controller_key, padding) ==> {
            &&& message.len() == bigint::shortest_bytes(
                network.spec_public_key().spec_modulus(),
            ).len()
            &&& bigint::be_value(message) as int == pow(
                bigint::be_value(
                    seq![0u8, 2u8] + padding + seq![0u8] + inclusion_plain(
                        controller_key,
                        network.spec_network_key(),
                    ),
                ) as int,
                network.spec_public_key().spec_exponent(),
            ) % network.spec_public_key().spec_modulus() as int
        },
{
}

} // verus!
