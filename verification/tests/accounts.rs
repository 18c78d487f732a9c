use nostr_sdk::ToBech32;
use whitenoise::commands::accounts::{
    create_identity, get_accounts, get_active_account, login, logout, set_active_account,
    update_account_onboarding,
};
use whitenoise::error::Error;
use whitenoise::whitenoise::Whitenoise;

const SECRET_A: &str = "5c0c523f52a5b6fad39ed2403092df8cebc36318b39383bca6c00808626fab3a";
const SECRET_B: &str = "4b22aa260e4acb7021e32f38a6cdf4b673c6a277755bfce287e370c924dc936d";

fn pubkey_of(secret: &str) -> String {
    nostr_sdk::Keys::parse(secret).unwrap().public_key().to_hex()
}

fn nsec_of(secret: &str) -> String {
    nostr_sdk::Keys::parse(secret).unwrap().secret_key().to_bech32().unwrap()
}

fn npub_of(secret: &str) -> String {
    nostr_sdk::Keys::parse(secret).unwrap().public_key().to_bech32().unwrap()
}

#[test]
fn a_new_core_has_no_active_account() {
    let wn = Whitenoise::new(vec![], false);
    assert_eq!(get_active_account(&wn).err(), Some(Error::NotFound));
    assert!(get_accounts(&wn).is_empty());
}

#[test]
fn login_adds_the_identity_and_makes_it_active() {
    let mut wn = Whitenoise::new(vec![], false);
    let account = login(&mut wn, SECRET_A).unwrap();
    assert_eq!(account.pubkey, pubkey_of(SECRET_A));
    assert!(!account.onboarding.inbox_relays);
    assert!(!account.onboarding.key_package_relays);
    assert!(!account.onboarding.publish_key_package);
    assert!(account.mls_group_ids.is_empty());
    assert_eq!(get_active_account(&wn).unwrap().pubkey, pubkey_of(SECRET_A));
}

#[test]
fn login_twice_yields_the_same_identity_and_no_second_account() {
    let mut wn = Whitenoise::new(vec![], false);
    let first = login(&mut wn, &nsec_of(SECRET_A)).unwrap();
    let second = login(&mut wn, &nsec_of(SECRET_A)).unwrap();
    assert_eq!(first.pubkey, second.pubkey);
    assert_eq!(get_accounts(&wn).len(), 1);
    let third = login(&mut wn, SECRET_A).unwrap();
    assert_eq!(third.pubkey, first.pubkey);
    assert_eq!(get_accounts(&wn).len(), 1);
    assert_eq!(get_active_account(&wn).unwrap().pubkey, first.pubkey);
}

#[test]
fn login_with_text_that_is_no_key_is_invalid_input() {
    let mut wn = Whitenoise::new(vec![], false);
    assert_eq!(login(&mut wn, "not a key").err(), Some(Error::InvalidInput));
    assert_eq!(login(&mut wn, "").err(), Some(Error::InvalidInput));
    assert!(get_accounts(&wn).is_empty());
}

#[test]
fn create_identity_logs_in_with_the_new_key() {
    let mut wn = Whitenoise::new(vec![], false);
    let secret = nostr_sdk::Keys::generate().secret_key().to_secret_hex();
    let account = create_identity(&mut wn, &secret).unwrap();
    assert_eq!(account.pubkey, pubkey_of(&secret));
    assert_eq!(get_active_account(&wn).unwrap().pubkey, account.pubkey);
}

#[test]
fn set_active_account_switches_between_known_accounts() {
    let mut wn = Whitenoise::new(vec![], false);
    login(&mut wn, SECRET_A).unwrap();
    login(&mut wn, SECRET_B).unwrap();
    assert_eq!(get_active_account(&wn).unwrap().pubkey, pubkey_of(SECRET_B));
    let account = set_active_account(&mut wn, &pubkey_of(SECRET_A)).unwrap();
    assert_eq!(account.pubkey, pubkey_of(SECRET_A));
    assert_eq!(get_active_account(&wn).unwrap().pubkey, pubkey_of(SECRET_A));
    let account = set_active_account(&mut wn, &npub_of(SECRET_B)).unwrap();
    assert_eq!(account.pubkey, pubkey_of(SECRET_B));
    assert_eq!(get_accounts(&wn).len(), 2);
}

#[test]
fn set_active_account_refuses_bad_and_unknown_keys() {
    let mut wn = Whitenoise::new(vec![], false);
    login(&mut wn, SECRET_A).unwrap();
    assert_eq!(set_active_account(&mut wn, "xyz").err(), Some(Error::InvalidInput));
    assert_eq!(set_active_account(&mut wn, &pubkey_of(SECRET_B)).err(), Some(Error::NotFound));
    assert_eq!(get_active_account(&wn).unwrap().pubkey, pubkey_of(SECRET_A));
}

#[test]
fn logout_removes_the_account_and_moves_the_active_one() {
    let mut wn = Whitenoise::new(vec![], false);
    login(&mut wn, SECRET_A).unwrap();
    login(&mut wn, SECRET_B).unwrap();
    assert_eq!(logout(&mut wn, &pubkey_of(SECRET_B)), Ok(()));
    assert_eq!(get_accounts(&wn).len(), 1);
    assert_eq!(get_active_account(&wn).unwrap().pubkey, pubkey_of(SECRET_A));
    assert_eq!(logout(&mut wn, &pubkey_of(SECRET_B)), Err(Error::NotFound));
    assert_eq!(logout(&mut wn, "nonsense"), Err(Error::InvalidInput));
    assert_eq!(logout(&mut wn, &pubkey_of(SECRET_A)), Ok(()));
    assert!(get_accounts(&wn).is_empty());
    assert_eq!(get_active_account(&wn).err(), Some(Error::NotFound));
}

#[test]
fn logout_of_an_inactive_account_keeps_the_active_one() {
    let mut wn = Whitenoise::new(vec![], false);
    login(&mut wn, SECRET_A).unwrap();
    login(&mut wn, SECRET_B).unwrap();
    assert_eq!(logout(&mut wn, &pubkey_of(SECRET_A)), Ok(()));
    assert_eq!(get_active_account(&wn).unwrap().pubkey, pubkey_of(SECRET_B));
}

#[test]
fn update_account_onboarding_sets_the_three_flags() {
    let mut wn = Whitenoise::new(vec![], false);
    login(&mut wn, SECRET_A).unwrap();
    let account = update_account_onboarding(&mut wn, &pubkey_of(SECRET_A), true, false, true).unwrap();
    assert!(account.onboarding.inbox_relays);
    assert!(!account.onboarding.key_package_relays);
    assert!(account.onboarding.publish_key_package);
    let stored = get_active_account(&wn).unwrap();
    assert!(stored.onboarding.inbox_relays);
    assert!(!stored.onboarding.key_package_relays);
    assert!(stored.onboarding.publish_key_package);
    assert_eq!(
        update_account_onboarding(&mut wn, &pubkey_of(SECRET_B), true, true, true).err(),
        Some(Error::NotFound)
    );
    assert_eq!(
        update_account_onboarding(&mut wn, "??", true, true, true).err(),
        Some(Error::InvalidInput)
    );
}
