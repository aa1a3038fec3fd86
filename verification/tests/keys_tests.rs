use wallet713::base58::{checked_payload, to_base58, to_base58_check};
use wallet713::config::Wallet713Config;
use wallet713::error::Wallet713Error;
use wallet713::hex::{from_hex, to_hex};
use wallet713::keys::{generate_private_key, public_key_from_private_key, public_key_or_error};
use wallet713::welcome::{address_version, relay_address, welcome};

const KEY_ONE: &str = "0000000000000000000000000000000000000000000000000000000000000001";
const GENERATOR: &str = "0279be667ef9dcbbac55a06295ce870b07029bfcdb2dce28d959f2815b16f81798";

fn config_with_key(key: &str) -> Wallet713Config {
    Wallet713Config {
        wallet713_data_path: "/data".to_string(),
        grinbox_uri: "ws://relay".to_string(),
        grinbox_private_key: key.to_string(),
        grin_node_uri: "http://node".to_string(),
        grin_node_secret: None,
    }
}

#[test]
fn public_key_of_the_key_one_is_the_generator() {
    assert_eq!(public_key_from_private_key(KEY_ONE).map(|k| to_hex(&k)), Ok(GENERATOR.to_string()));
}

#[test]
fn public_key_of_the_key_two() {
    let key = "00".repeat(31) + "02";
    assert_eq!(
        public_key_from_private_key(&key).map(|k| to_hex(&k)),
        Ok("02c6047f9441ed7d6d3045406e95c07cd85c778e4b8cef3ca7abac09b95c709ee5".to_string())
    );
}

#[test]
fn deriving_twice_gives_the_same_public_key() {
    let key = generate_private_key();
    let first = public_key_from_private_key(&key);
    let second = public_key_from_private_key(&key);
    assert!(first.is_ok());
    assert_eq!(first, second);
    assert_eq!(first.unwrap().len(), 33);
}

#[test]
fn upper_case_key_is_the_same_key() {
    let key = "00".repeat(31) + "0a";
    assert_eq!(
        public_key_from_private_key(&key),
        public_key_from_private_key(&key.to_uppercase())
    );
}

#[test]
fn what_is_no_private_key() {
    let zero = "00".repeat(32);
    let order = "fffffffffffffffffffffffffffffffebaaedce6af48a03bbfd25e8cd0364141";
    let short = "00".repeat(31);
    let long = "00".repeat(32) + "01";
    for text in [zero.as_str(), order, short.as_str(), long.as_str(), "", "xyz", "0"] {
        assert_eq!(
            public_key_from_private_key(text),
            Err(Wallet713Error::InvalidPrivateKey),
            "{:?}",
            text
        );
    }
}

#[test]
fn largest_private_key() {
    let key = "fffffffffffffffffffffffffffffffebaaedce6af48a03bbfd25e8cd0364140";
    assert_eq!(
        public_key_from_private_key(key).map(|k| to_hex(&k)),
        Ok("0379be667ef9dcbbac55a06295ce870b07029bfcdb2dce28d959f2815b16f81798".to_string())
    );
}

#[test]
fn public_key_from_what_the_curve_derived() {
    assert_eq!(public_key_or_error(Some(vec![2, 3])), Ok(vec![2, 3]));
    assert_eq!(public_key_or_error(None), Err(Wallet713Error::InvalidPrivateKey));
}

#[test]
fn generated_key_is_lower_case_hexadecimal_of_32_bytes() {
    let key = generate_private_key();
    assert_eq!(key.len(), 64);
    let bytes = from_hex(&key).unwrap();
    assert_eq!(bytes.len(), 32);
    assert_eq!(to_hex(&bytes), key);
}

#[test]
fn base58_of_known_bytes() {
    assert_eq!(to_base58(&vec![]), "");
    assert_eq!(to_base58(&vec![0]), "1");
    assert_eq!(to_base58(&vec![0, 0, 0]), "111");
    assert_eq!(to_base58(&vec![57]), "z");
    assert_eq!(to_base58(&vec![58]), "21");
    assert_eq!(to_base58(&b"Hello World!".to_vec()), "2NEpo7TZRRrLZSi2U");
    assert_eq!(to_base58(&vec![0x00, 0x00, 0x28, 0x7f, 0xb4, 0xcd]), "11233QC4");
    assert_eq!(
        to_base58(&b"The quick brown fox jumps over the lazy dog.".to_vec()),
        "USm3fpXnKG5EUBx2ndxBDMPVciP5hGey2Jh4NDv6gmeo1LkMeiKrLJUUBk6Z"
    );
}

#[test]
fn base58_check_of_a_known_address() {
    let hash = from_hex("010966776006953d5567439e5e39f86a0d273bee").unwrap();
    assert_eq!(to_base58_check(&hash, &vec![0]), "16UwLL9Risc3QfPqBUvKofHmBQ7wMtjvM");
}

#[test]
fn base58_check_of_nothing() {
    assert_eq!(to_base58_check(&vec![], &vec![]), "3QJmnh");
}

#[test]
fn relay_address_of_the_key_one() {
    let public = from_hex(GENERATOR).unwrap();
    let expected = to_base58_check(&public, &vec![1, 120]);
    assert_eq!(relay_address(KEY_ONE, &vec![1, 120]), Ok(expected.clone()));
    assert_eq!(expected.len(), 52);
    assert!(expected.starts_with('x'));
}

#[test]
fn relay_address_of_no_key_fails() {
    assert_eq!(relay_address("", &vec![1, 120]), Err(Wallet713Error::InvalidPrivateKey));
}

#[test]
fn welcome_with_a_stored_configuration_keeps_it() {
    let stored = config_with_key(KEY_ONE);
    let greeted = welcome(Some(stored.clone()), config_with_key("")).unwrap();
    assert_eq!(greeted.config, stored);
    assert_eq!(Ok(greeted.address), relay_address(KEY_ONE, &vec![1, 120]));
}

#[test]
fn welcome_on_the_first_run_makes_a_key() {
    let defaults = config_with_key("");
    let greeted = welcome(None, defaults.clone()).unwrap();
    let key = greeted.config.grinbox_private_key.clone();
    assert_eq!(key.len(), 64);
    assert_eq!(greeted.config, config_with_key(&key));
    assert_eq!(Ok(greeted.address), relay_address(&key, &vec![1, 120]));
}

#[test]
fn welcome_with_a_stored_key_that_is_none_fails() {
    assert_eq!(
        welcome(Some(config_with_key("")), config_with_key("")),
        Err(Wallet713Error::InvalidPrivateKey)
    );
    assert_eq!(
        welcome(Some(config_with_key("zz")), config_with_key("")),
        Err(Wallet713Error::InvalidPrivateKey)
    );
}

#[test]
fn payload_takes_four_bytes_of_the_hash() {
    assert_eq!(
        checked_payload(&vec![7, 8], &vec![1], &vec![10, 11, 12, 13, 14, 15]),
        vec![1, 7, 8, 10, 11, 12, 13]
    );
    assert_eq!(checked_payload(&vec![], &vec![], &vec![1, 2, 3, 4]), vec![1, 2, 3, 4]);
}

#[test]
fn key_of_another_length_is_no_private_key() {
    for bytes in [0usize, 1, 16, 31, 33, 64] {
        let text = "01".repeat(bytes);
        assert_eq!(
            public_key_from_private_key(&text),
            Err(Wallet713Error::InvalidPrivateKey),
            "{} bytes",
            bytes
        );
    }
}

#[test]
fn relay_addresses_have_their_version() {
    assert_eq!(address_version(), vec![1, 120]);
    let greeted = welcome(Some(config_with_key(KEY_ONE)), config_with_key("")).unwrap();
    assert_eq!(Ok(greeted.address), relay_address(KEY_ONE, &address_version()));
}
