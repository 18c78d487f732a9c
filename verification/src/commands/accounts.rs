//! Operations on accounts.

use crate::accounts::{
    has_account, index_of_account, logged_in, logged_out, with_onboarding, Account, Onboarding,
};
use crate::error::Error;
use crate::hexcode::to_hex;
use crate::protocol::{identity_spec, keys_parse, public_identity_spec, public_key_parse};
use crate::whitenoise::Whitenoise;
use vstd::prelude::*;

verus! {

/// The active account.
pub fn get_active_account(wn: &Whitenoise) -> (result: Result<Account, Error>)
    requires
        wn.wf(),
    ensures
        result is Ok <==> wn.accounts@.active is Some,
        result matches Ok(account) ==> account@ == wn.accounts@.accounts[index_of_account(
            wn.accounts@.accounts,
            wn.accounts@.active->0,
        )],
        result matches Err(e) ==> e == Error::NotFound,
{
    wn.accounts.get_active()
}

/// All accounts, in the order they were added.
pub fn get_accounts(wn: &Whitenoise) -> (accounts: Vec<Account>)
    ensures
        accounts.deep_view() == wn.accounts@.accounts,
{
    wn.accounts.all()
}

/// Logs in with a secret key in hexadecimal or in its human-readable form.
/// The identity becomes the active account; it is added if it was unknown.
pub fn login(wn: &mut Whitenoise, nsec_or_hex_privkey: &str) -> (result: Result<Account, Error>)
    requires
        old(wn).wf(),
    ensures
        final(wn).wf(),
        final(wn).groups == old(wn).groups,
        final(wn).secrets == old(wn).secrets,
        final(wn).relays == old(wn).relays,
        final(wn).dev_mode == old(wn).dev_mode,
        result is Ok <==> identity_spec(nsec_or_hex_privkey@) is Some,
        result matches Err(e) ==> e == Error::InvalidInput && final(wn).accounts@ == old(wn).accounts@,
        result matches Ok(account) ==> {
            let pubkey = identity_spec(nsec_or_hex_privkey@)->0;
            &&& final(wn).accounts@ == logged_in(old(wn).accounts@, pubkey)
            &&& has_account(final(wn).accounts@.accounts, pubkey)
            &&& account@ == final(wn).accounts@.accounts[index_of_account(
                final(wn).accounts@.accounts,
                pubkey,
            )]
        },
{
    match keys_parse(nsec_or_hex_privkey) {
        None => Err(Error::InvalidInput),
        Some(pair) => {
            let pubkey = to_hex(&pair.public_key);
            Ok(wn.accounts.activate(&pubkey))
        },
    }
}

/// Makes an identity of a secret key that the host has just generated, and
/// logs in with it.
pub fn create_identity(wn: &mut Whitenoise, secret_key: &str) -> (result: Result<Account, Error>)
    requires
        old(wn).wf(),
    ensures
        final(wn).wf(),
        final(wn).groups == old(wn).groups,
        final(wn).secrets == old(wn).secrets,
        final(wn).relays == old(wn).relays,
        final(wn).dev_mode == old(wn).dev_mode,
        result is Ok <==> identity_spec(secret_key@) is Some,
        result matches Err(e) ==> e == Error::InvalidInput && final(wn).accounts@ == old(wn).accounts@,
        result matches Ok(account) ==> {
            let pubkey = identity_spec(secret_key@)->0;
            &&& final(wn).accounts@ == logged_in(old(wn).accounts@, pubkey)
            &&& has_account(final(wn).accounts@.accounts, pubkey)
            &&& account@ == final(wn).accounts@.accounts[index_of_account(
                final(wn).accounts@.accounts,
                pubkey,
            )]
        },
{
    login(wn, secret_key)
}

/// Makes a known account the active one. The key may be written in any form
/// that the key parser reads.
pub fn set_active_account(wn: &mut Whitenoise, hex_pubkey: &str) -> (result: Result<Account, Error>)
    requires
        old(wn).wf(),
    ensures
        final(wn).wf(),
        final(wn).groups == old(wn).groups,
        final(wn).secrets == old(wn).secrets,
        final(wn).relays == old(wn).relays,
        final(wn).dev_mode == old(wn).dev_mode,
        result is Ok <==> public_identity_spec(hex_pubkey@) is Some && has_account(
            old(wn).accounts@.accounts,
            public_identity_spec(hex_pubkey@)->0,
        ),
        result matches Err(e) ==> final(wn).accounts@ == old(wn).accounts@ && e == (
        if public_identity_spec(hex_pubkey@) is Some {
            Error::NotFound
        } else {
            Error::InvalidInput
        }),
        result matches Ok(account) ==> {
            let pubkey = public_identity_spec(hex_pubkey@)->0;
            &&& final(wn).accounts@.accounts == old(wn).accounts@.accounts
            &&& final(wn).accounts@.active == Some(pubkey)
            &&& account@ == final(wn).accounts@.accounts[index_of_account(
                final(wn).accounts@.accounts,
                pubkey,
            )]
        },
{
    match public_key_parse(hex_pubkey) {
        None => Err(Error::InvalidInput),
        Some(key) => {
            let pubkey = to_hex(&key);
            match wn.accounts.find_by_pubkey(&pubkey) {
                Err(e) => Err(e),
                Ok(_) => Ok(wn.accounts.activate(&pubkey)),
            }
        },
    }
}

/// Removes an account. Where it was the active one, the first of the
/// remaining accounts becomes active.
pub fn logout(wn: &mut Whitenoise, hex_pubkey: &str) -> (result: Result<(), Error>)
    requires
        old(wn).wf(),
    ensures
        final(wn).wf(),
        final(wn).groups == old(wn).groups,
        final(wn).secrets == old(wn).secrets,
        final(wn).relays == old(wn).relays,
        final(wn).dev_mode == old(wn).dev_mode,
        result is Ok <==> public_identity_spec(hex_pubkey@) is Some && has_account(
            old(wn).accounts@.accounts,
            public_identity_spec(hex_pubkey@)->0,
        ),
        result matches Err(e) ==> final(wn).accounts@ == old(wn).accounts@ && e == (
        if public_identity_spec(hex_pubkey@) is Some {
            Error::NotFound
        } else {
            Error::InvalidInput
        }),
        result is Ok ==> final(wn).accounts@ == logged_out(
            old(wn).accounts@,
            index_of_account(
                old(wn).accounts@.accounts,
                public_identity_spec(hex_pubkey@)->0,
            ),
        ),
{
    match public_key_parse(hex_pubkey) {
        None => Err(Error::InvalidInput),
        Some(key) => {
            let pubkey = to_hex(&key);
            wn.accounts.remove(&pubkey)
        },
    }
}

/// Sets the three onboarding flags of an account and returns the account.
pub fn update_account_onboarding(
    wn: &mut Whitenoise,
    pubkey: &str,
    inbox_relays: bool,
    key_package_relays: bool,
    publish_key_package: bool,
) -> (result: Result<Account, Error>)
    requires
        old(wn).wf(),
    ensures
        final(wn).wf(),
        final(wn).groups == old(wn).groups,
        final(wn).secrets == old(wn).secrets,
        final(wn).relays == old(wn).relays,
        final(wn).dev_mode == old(wn).dev_mode,
        result is Ok <==> public_identity_spec(pubkey@) is Some && has_account(
            old(wn).accounts@.accounts,
            public_identity_spec(pubkey@)->0,
        ),
        result matches Err(e) ==> final(wn).accounts@ == old(wn).accounts@ && e == (
        if public_identity_spec(pubkey@) is Some {
            Error::NotFound
        } else {
            Error::InvalidInput
        }),
        result matches Ok(account) ==> {
            let index = index_of_account(
                old(wn).accounts@.accounts,
                public_identity_spec(pubkey@)->0,
            );
            let flags = Onboarding { inbox_relays, key_package_relays, publish_key_package };
            &&& final(wn).accounts@ == with_onboarding(old(wn).accounts@, index, flags)
            &&& account@ == final(wn).accounts@.accounts[index]
        },
{
    match public_key_parse(pubkey) {
        None => Err(Error::InvalidInput),
        Some(key) => {
            let hex = to_hex(&key);
            let flags = Onboarding { inbox_relays, key_package_relays, publish_key_package };
            wn.accounts.set_onboarding(&hex, flags)
        },
    }
}

} // verus!
