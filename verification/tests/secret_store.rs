use whitenoise::error::Error;
use whitenoise::hexcode::{from_hex, to_hex};
use whitenoise::secret_store::SecretStore;

const SECRET_A: &str = "5c0c523f52a5b6fad39ed2403092df8cebc36318b39383bca6c00808626fab3a";
const SECRET_B: &str = "4b22aa260e4acb7021e32f38a6cdf4b673c6a277755bfce287e370c924dc936d";

#[test]
fn hex_round_trip() {
    let bytes = vec![0u8, 1, 15, 16, 171, 255];
    assert_eq!(to_hex(&bytes), "00010f10abff");
    assert_eq!(from_hex("00010F10abFF"), Some(bytes));
    assert_eq!(from_hex("abc"), None);
    assert_eq!(from_hex("zz"), None);
    assert_eq!(from_hex(""), Some(vec![]));
}

#[test]
fn store_is_idempotent_and_refuses_another_value() {
    let mut store = SecretStore::new();
    let group = vec![1u8, 2, 3];
    assert_eq!(store.store(&group, 0, &SECRET_A.to_string()), Ok(()));
    assert_eq!(store.store(&group, 0, &SECRET_A.to_string()), Ok(()));
    assert_eq!(store.len(), 1);
    assert_eq!(store.store(&group, 0, &SECRET_B.to_string()), Err(Error::Conflict));
    assert_eq!(store.get_secret(&group, 0), Some(SECRET_A.to_string()));
    assert_eq!(store.store(&group, 1, &SECRET_B.to_string()), Ok(()));
    assert_eq!(store.len(), 2);
    assert_eq!(store.get_secret(&group, 1), Some(SECRET_B.to_string()));
    assert_eq!(store.get_secret(&vec![9u8], 0), None);
}

#[test]
fn store_then_get_keypair_derives_from_the_secret() {
    let mut store = SecretStore::new();
    let group = vec![7u8; 32];
    store.store(&group, 3, &SECRET_A.to_string()).unwrap();
    let pair = store.get_keypair(&group, 3).unwrap();
    assert_eq!(to_hex(&pair.secret_key), SECRET_A);
    let expected = nostr_sdk::Keys::parse(SECRET_A).unwrap().public_key().to_hex();
    assert_eq!(to_hex(&pair.public_key), expected);
    assert!(matches!(store.get_keypair(&group, 4), Err(Error::NotFound)));
}

#[test]
fn a_secret_that_is_no_key_is_invalid_input() {
    let mut store = SecretStore::new();
    let group = vec![7u8; 32];
    store.store(&group, 0, &"not a key".to_string()).unwrap();
    assert!(matches!(store.get_keypair(&group, 0), Err(Error::InvalidInput)));
}
