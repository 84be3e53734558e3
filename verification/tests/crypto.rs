use lemonbeatd::bigint::BigUint;
use lemonbeatd::crypto::assemble_inclusion;
use lemonbeatd::crypto::Network;
use lemonbeatd::crypto::NetworkKey;
use lemonbeatd::crypto::PublicKey;
use lemonbeatd::crypto::StoredKey;
use lemonbeatd::error::Error;

fn sample_modulus() -> BigUint {
    let modulus = rsa::BigUint::parse_bytes(
        b"\
        544707154624265008293115003105252727119040163562\
        9791278140655528742410706173351390976387790096626\
        006719426326380478518736481632727890811931080151\
        17548459",
        10,
    )
    .unwrap();
    BigUint::from_bytes_be(&modulus.to_bytes_be())
}

fn sample_key() -> NetworkKey {
    let key_binary = hex::decode("00112233445566778899AABBCCDDEEFF").unwrap();
    NetworkKey::from_bytes(key_binary.try_into().unwrap())
}

#[test]
fn basic() {
    let public_key = PublicKey::new(sample_modulus(), 65537).unwrap();

    let network = Network::new(sample_key(), Some(public_key), &[]).unwrap();

    let controller_key = hex::decode("0102030405060708090A0B0C0D0E0F00").unwrap();
    let inclusion_message = network.inclusion_message_withkey(&controller_key).unwrap();

    assert_eq!(inclusion_message.len(), 64);
}

#[test]
fn network_key_persistency() {
    let generated_key = NetworkKey::generate();
    let stored = generated_key.to_stored();

    if let Ok(StoredKey::Key(loaded_key)) = NetworkKey::from_stored(&stored, false) {
        let modulus = sample_modulus().to_bytes_be();
        let generated = Network::new(generated_key, None, &modulus).unwrap();
        let loaded = Network::new(loaded_key, None, &modulus).unwrap();
        assert_eq!(generated.raw_network_key(), loaded.raw_network_key());
    } else {
        unreachable!();
    }
}

#[test]
fn stored_keys() {
    assert_eq!(sample_key().to_stored(), "00112233445566778899aabbccddeeff");
    assert!(matches!(
        NetworkKey::from_stored("00112233445566778899AABBCCDDEEFF", false),
        Ok(StoredKey::Regenerate { rename: true })
    ));
    assert!(matches!(
        NetworkKey::from_stored("00112233445566778899AABBCCDDEEFF", true),
        Ok(StoredKey::Regenerate { rename: false })
    ));
    assert!(matches!(NetworkKey::from_stored("0011", false), Err(Error::InvalidHex)));
    assert!(matches!(
        NetworkKey::from_stored("0011223344556677889gaabbccddeeff", false),
        Err(Error::InvalidHex)
    ));
    assert!(!NetworkKey::is_usable_file(0));
    assert!(NetworkKey::is_usable_file(1));
}

#[test]
fn generated_keys_differ() {
    assert_ne!(NetworkKey::generate().to_stored(), NetworkKey::generate().to_stored());
}

#[test]
fn inclusion_plaintext() {
    let network =
        Network::new(sample_key(), None, &sample_modulus().to_bytes_be()).unwrap();
    let controller_key = hex::decode("000102030405060708090a0b0c0d0e0f").unwrap();
    let message = network.inclusion_plaintext(&controller_key).unwrap();
    assert_eq!(message.len(), 34);
    assert_eq!(&message[..16], &controller_key[..]);
    assert_eq!(hex::encode(&message[16..32]), "69c4e0d86a7b0430d8cdb78070b4c55a");
    assert_eq!(&message[32..], &[0x02, 0x0d]);
    assert_eq!(
        network.inclusion_plaintext(&controller_key[..15]).unwrap_err(),
        Error::InvalidSize
    );
    assert_eq!(
        network.inclusion_message_withkey(&[0; 17]).unwrap_err(),
        Error::InvalidSize
    );
    assert_eq!(assemble_inclusion(&[1], &[2], 0x1234), vec![1, 2, 0x12, 0x34]);
}

#[test]
fn public_keys() {
    assert_eq!(
        PublicKey::new(BigUint::from_u64(100), 65537).unwrap_err(),
        Error::InvalidPublicKey
    );
    assert_eq!(
        PublicKey::new(sample_modulus(), 65536).unwrap_err(),
        Error::InvalidPublicKey
    );
    assert_eq!(
        PublicKey::new(sample_modulus(), 1).unwrap_err(),
        Error::InvalidPublicKey
    );
    assert_eq!(
        PublicKey::new(sample_modulus(), (1 << 33) + 1).unwrap_err(),
        Error::InvalidPublicKey
    );
    assert_eq!(
        PublicKey::new(sample_modulus().bitand(&BigUint::from_u64(0)), 3).unwrap_err(),
        Error::InvalidPublicKey
    );
    assert!(PublicKey::new(BigUint::from_bytes_be(&[0xff; 512]), 3).is_ok());
    assert_eq!(
        PublicKey::new(BigUint::from_bytes_be(&[0xff; 513]), 3).unwrap_err(),
        Error::InvalidPublicKey
    );
    assert_eq!(
        Network::new(sample_key(), None, &[4]).unwrap_err(),
        Error::InvalidPublicKey
    );
}

#[test]
fn messages_need_a_big_key() {
    // 44 bytes leave no room for the padding, 45 do
    let small = PublicKey::new(BigUint::from_bytes_be(&[0xff; 44]), 3).unwrap();
    let network = Network::new(sample_key(), Some(small), &[]).unwrap();
    assert_eq!(network.inclusion_message().unwrap_err(), Error::EncryptionFailed);
    let big = PublicKey::new(BigUint::from_bytes_be(&[0xff; 45]), 3).unwrap();
    let network = Network::new(sample_key(), Some(big), &[]).unwrap();
    assert_eq!(network.inclusion_message().unwrap().len(), 45);
    // padding and controller key are new each time
    assert_ne!(network.inclusion_message().unwrap(), network.inclusion_message().unwrap());
}
