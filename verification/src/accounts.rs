//! The catalog of accounts and the choice of the active one.

use crate::error::Error;
use crate::event::{copy_byte_lists, copy_texts};
use vstd::prelude::*;

verus! {

/// How far an account has come in setting itself up.
#[derive(Clone, Copy, Debug, PartialEq, Eq, Structural)]
pub struct Onboarding {
    pub inbox_relays: bool,
    pub key_package_relays: bool,
    pub publish_key_package: bool,
}

/// An identity, its onboarding flags and the groups it knows.
pub struct Account {
    /// The public key in lowercase hexadecimal.
    pub pubkey: String,
    pub onboarding: Onboarding,
    pub mls_group_ids: Vec<Vec<u8>>,
    pub nostr_group_ids: Vec<String>,
}

/// What an [`Account`] holds.
pub struct AccountView {
    pub pubkey: Seq<char>,
    pub onboarding: Onboarding,
    pub mls_group_ids: Seq<Seq<u8>>,
    pub nostr_group_ids: Seq<Seq<char>>,
}

impl View for Account {
    type V = AccountView;

    open spec fn view(&self) -> AccountView {
        AccountView {
            pubkey: self.pubkey@,
            onboarding: self.onboarding,
            mls_group_ids: self.mls_group_ids.deep_view(),
            nostr_group_ids: self.nostr_group_ids.deep_view(),
        }
    }
}

impl DeepView for Account {
    type V = AccountView;

    open spec fn deep_view(&self) -> AccountView {
        self.view()
    }
}

impl Account {
    /// A copy of this account.
    pub fn duplicate(&self) -> (copy: Account)
        ensures
            copy@ == self@,
    {
        Account {
            pubkey: self.pubkey.clone(),
            onboarding: self.onboarding,
            mls_group_ids: copy_byte_lists(&self.mls_group_ids),
            nostr_group_ids: copy_texts(&self.nostr_group_ids),
        }
    }
}

/// The accounts in the order they were added, and the public key of the
/// active one.
pub struct AccountsView {
    pub accounts: Seq<AccountView>,
    pub active: Option<Seq<char>>,
}

/// Whether an account with the public key `pubkey` is in the list.
pub open spec fn has_account(accounts: Seq<AccountView>, pubkey: Seq<char>) -> bool {
    exists|i: int| 0 <= i < accounts.len() && (#[trigger] accounts[i]).pubkey == pubkey
}

/// Where the account with the public key `pubkey` stands.
pub open spec fn index_of_account(accounts: Seq<AccountView>, pubkey: Seq<char>) -> int {
    choose|i: int| 0 <= i < accounts.len() && (#[trigger] accounts[i]).pubkey == pubkey
}

/// The invariant: no public key occurs twice, and the active account is one
/// of the list.
pub open spec fn accounts_wf(v: AccountsView) -> bool {
    &&& forall|i: int, j: int|
        0 <= i < j < v.accounts.len() ==> (#[trigger] v.accounts[i]).pubkey != (
        #[trigger] v.accounts[j]).pubkey
    &&& v.active matches Some(pubkey) ==> has_account(v.accounts, pubkey)
}

/// An account as it is first added: nothing set up, no group known.
pub open spec fn fresh_account(pubkey: Seq<char>) -> AccountView {
    AccountView {
        pubkey,
        onboarding: Onboarding {
            inbox_relays: false,
            key_package_relays: false,
            publish_key_package: false,
        },
        mls_group_ids: Seq::empty(),
        nostr_group_ids: Seq::empty(),
    }
}

/// The accounts after the identity `pubkey` logged in: it is added if it was
/// unknown, and it is the active one.
pub open spec fn logged_in(v: AccountsView, pubkey: Seq<char>) -> AccountsView {
    AccountsView {
        accounts: if has_account(v.accounts, pubkey) {
            v.accounts
        } else {
            v.accounts.push(fresh_account(pubkey))
        },
        active: Some(pubkey),
    }
}

/// The accounts after the one at `index` was removed. Where it was the
/// active one, the first of those that remain takes its place.
pub open spec fn logged_out(v: AccountsView, index: int) -> AccountsView {
    let rest = v.accounts.remove(index);
    AccountsView {
        accounts: rest,
        active: if v.active == Some(v.accounts[index].pubkey) {
            if rest.len() > 0 {
                Some(rest[0].pubkey)
            } else {
                None
            }
        } else {
            v.active
        },
    }
}

/// The accounts after the one at `index` got the flags `onboarding`.
pub open spec fn with_onboarding(v: AccountsView, index: int, onboarding: Onboarding) -> AccountsView {
    AccountsView {
        accounts: v.accounts.update(index, AccountView { onboarding, ..v.accounts[index] }),
        ..v
    }
}

/// The accounts after the one at `index` learned of a group.
pub open spec fn with_group_ids(
    v: AccountsView,
    index: int,
    mls_group_id: Seq<u8>,
    nostr_group_id: Seq<char>,
) -> AccountsView {
    AccountsView {
        accounts: v.accounts.update(
            index,
            AccountView {
                mls_group_ids: v.accounts[index].mls_group_ids.push(mls_group_id),
                nostr_group_ids: v.accounts[index].nostr_group_ids.push(nostr_group_id),
                ..v.accounts[index]
            },
        ),
        ..v
    }
}

/// The accounts of this installation. At most one is active.
pub struct AccountManager {
    accounts: Vec<Account>,
    active: Option<String>,
}

impl View for AccountManager {
    type V = AccountsView;

    closed spec fn view(&self) -> AccountsView {
        AccountsView { accounts: self.accounts.deep_view(), active: self.active.deep_view() }
    }
}

impl AccountManager {
    /// The invariant holds of this manager.
    pub open spec fn wf(&self) -> bool {
        accounts_wf(self@)
    }

    /// No account, none active.
    pub fn new() -> (manager: AccountManager)
        ensures
            manager.wf(),
            manager@.accounts == Seq::<AccountView>::empty(),
            manager@.active is None,
    {
        let manager = AccountManager { accounts: Vec::new(), active: None };
        assert(manager@.accounts =~= Seq::<AccountView>::empty());
        manager
    }

    /// Where the account with the public key `pubkey` stands.
    fn position(&self, pubkey: &String) -> (found: Option<usize>)
        ensures
            found is Some <==> has_account(self@.accounts, pubkey@),
            found matches Some(i) ==> i < self@.accounts.len() && self@.accounts[i as int].pubkey
                == pubkey@,
            self.wf() ==> (found matches Some(i) ==> i == index_of_account(self@.accounts, pubkey@)),
    {
        let mut i: usize = 0;
        while i < self.accounts.len()
            invariant
                i <= self.accounts.len(),
                self@.accounts.len() == self.accounts.len(),
                forall|j: int| 0 <= j < i ==> (#[trigger] self@.accounts[j]).pubkey != pubkey@,
            decreases self.accounts.len() - i,
        {
            if self.accounts[i].pubkey == *pubkey {
                assert(self@.accounts[i as int].pubkey == pubkey@);
                return Some(i);
            }
            i += 1;
        }
        None
    }

    /// Copies of all accounts, in the order they were added.
    pub fn all(&self) -> (accounts: Vec<Account>)
        ensures
            accounts.deep_view() == self@.accounts,
    {
        let mut accounts: Vec<Account> = Vec::new();
        let mut i: usize = 0;
        while i < self.accounts.len()
            invariant
                i <= self.accounts.len(),
                accounts.len() == i,
                forall|j: int| 0 <= j < i ==> accounts[j]@ == self.accounts[j]@,
            decreases self.accounts.len() - i,
        {
            accounts.push(self.accounts[i].duplicate());
            i += 1;
        }
        assert(accounts.deep_view() =~= self.accounts.deep_view());
        accounts
    }

    /// The account with the public key `pubkey`.
    pub fn find_by_pubkey(&self, pubkey: &String) -> (result: Result<Account, Error>)
        requires
            self.wf(),
        ensures
            result is Ok <==> has_account(self@.accounts, pubkey@),
            result matches Ok(account) ==> account@ == self@.accounts[index_of_account(
                self@.accounts,
                pubkey@,
            )],
            result matches Err(e) ==> e == Error::NotFound,
    {
        match self.position(pubkey) {
            Some(i) => Ok(self.accounts[i].duplicate()),
            None => Err(Error::NotFound),
        }
    }

    /// The active account.
    pub fn get_active(&self) -> (result: Result<Account, Error>)
        requires
            self.wf(),
        ensures
            result is Ok <==> self@.active is Some,
            result matches Ok(account) ==> account@ == self@.accounts[index_of_account(
                self@.accounts,
                self@.active->0,
            )],
            result matches Err(e) ==> e == Error::NotFound,
    {
        match &self.active {
            Some(pubkey) => self.find_by_pubkey(pubkey),
            None => Err(Error::NotFound),
        }
    }

    /// Adds the account `pubkey` with nothing set up, leaving the active
    /// account as it is. Refused where the account is known.
    pub fn add(&mut self, pubkey: &String) -> (result: Result<Account, Error>)
        requires
            old(self).wf(),
        ensures
            final(self).wf(),
            result is Ok <==> !has_account(old(self)@.accounts, pubkey@),
            result matches Err(e) ==> e == Error::Duplicate && final(self)@ == old(self)@,
            result matches Ok(account) ==> {
                &&& account@ == fresh_account(pubkey@)
                &&& final(self)@.accounts == old(self)@.accounts.push(fresh_account(pubkey@))
                &&& final(self)@.active == old(self)@.active
            },
    {
        let ghost before = self@;
        if self.position(pubkey).is_some() {
            return Err(Error::Duplicate);
        }
        let account = Account {
            pubkey: pubkey.clone(),
            onboarding: Onboarding {
                inbox_relays: false,
                key_package_relays: false,
                publish_key_package: false,
            },
            mls_group_ids: Vec::new(),
            nostr_group_ids: Vec::new(),
        };
        assert(account@.mls_group_ids =~= Seq::empty());
        assert(account@.nostr_group_ids =~= Seq::empty());
        let copy = account.duplicate();
        self.accounts.push(account);
        assert(self@.accounts =~= before.accounts.push(fresh_account(pubkey@)));
        proof {
            lemma_logged_in_wf(before, pubkey@);
            let after = self@;
            if after.active is Some {
                let active = after.active->0;
                let k = index_of_account(before.accounts, active);
                assert(before.accounts[k].pubkey == active);
                assert(after.accounts[k].pubkey == active);
            }
        }
        Ok(copy)
    }

    /// Makes the account `pubkey` the active one, adding it first if it is
    /// unknown, and returns it.
    pub fn activate(&mut self, pubkey: &String) -> (account: Account)
        requires
            old(self).wf(),
        ensures
            final(self).wf(),
            final(self)@ == logged_in(old(self)@, pubkey@),
            has_account(final(self)@.accounts, pubkey@),
            account@ == final(self)@.accounts[index_of_account(final(self)@.accounts, pubkey@)],
    {
        let ghost before = self@;
        let index = match self.position(pubkey) {
            Some(i) => i,
            None => {
                let account = Account {
                    pubkey: pubkey.clone(),
                    onboarding: Onboarding {
                        inbox_relays: false,
                        key_package_relays: false,
                        publish_key_package: false,
                    },
                    mls_group_ids: Vec::new(),
                    nostr_group_ids: Vec::new(),
                };
                assert(account@.mls_group_ids =~= Seq::empty());
                assert(account@.nostr_group_ids =~= Seq::empty());
                self.accounts.push(account);
                assert(self@.accounts =~= before.accounts.push(fresh_account(pubkey@)));
                self.accounts.len() - 1
            },
        };
        self.active = Some(pubkey.clone());
        assert(self@.accounts[index as int].pubkey == pubkey@);
        assert(self@ == logged_in(before, pubkey@));
        proof {
            lemma_logged_in_wf(before, pubkey@);
        }
        self.accounts[index].duplicate()
    }

    /// Removes the account `pubkey`. Where it was the active one, the first
    /// of the remaining accounts becomes active.
    pub fn remove(&mut self, pubkey: &String) -> (result: Result<(), Error>)
        requires
            old(self).wf(),
        ensures
            final(self).wf(),
            result is Ok <==> has_account(old(self)@.accounts, pubkey@),
            result is Ok ==> final(self)@ == logged_out(
                old(self)@,
                index_of_account(old(self)@.accounts, pubkey@),
            ),
            result matches Err(e) ==> e == Error::NotFound && final(self)@ == old(self)@,
    {
        let ghost before = self@;
        match self.position(pubkey) {
            None => Err(Error::NotFound),
            Some(i) => {
                let was_active = match &self.active {
                    Some(active) => *active == *pubkey,
                    None => false,
                };
                self.accounts.remove(i);
                assert(self@.accounts =~= before.accounts.remove(i as int));
                if was_active {
                    if self.accounts.len() > 0 {
                        self.active = Some(self.accounts[0].pubkey.clone());
                    } else {
                        self.active = None;
                    }
                }
                assert(self@ == logged_out(before, i as int));
                proof {
                    lemma_logged_out_wf(before, i as int);
                }
                Ok(())
            },
        }
    }

    /// Sets the onboarding flags of the account `pubkey` and returns it.
    pub fn set_onboarding(&mut self, pubkey: &String, onboarding: Onboarding) -> (result: Result<
        Account,
        Error,
    >)
        requires
            old(self).wf(),
        ensures
            final(self).wf(),
            result is Ok <==> has_account(old(self)@.accounts, pubkey@),
            result matches Ok(account) ==> {
                let index = index_of_account(old(self)@.accounts, pubkey@);
                &&& final(self)@ == with_onboarding(old(self)@, index, onboarding)
                &&& account@ == final(self)@.accounts[index]
            },
            result matches Err(e) ==> e == Error::NotFound && final(self)@ == old(self)@,
    {
        let ghost before = self@;
        match self.position(pubkey) {
            None => Err(Error::NotFound),
            Some(i) => {
                let mut account = self.accounts.remove(i);
                account.onboarding = onboarding;
                self.accounts.insert(i, account);
                assert(self@.accounts =~= with_onboarding(before, i as int, onboarding).accounts);
                proof {
                    lemma_same_keys_wf(before, self@);
                }
                Ok(self.accounts[i].duplicate())
            },
        }
    }

    /// Adds a group to those that the account `pubkey` knows.
    pub fn add_group_ids(&mut self, pubkey: &String, mls_group_id: Vec<u8>, nostr_group_id: String) -> (result:
        Result<(), Error>)
        requires
            old(self).wf(),
        ensures
            final(self).wf(),
            result is Ok <==> has_account(old(self)@.accounts, pubkey@),
            result is Ok ==> final(self)@ == with_group_ids(
                old(self)@,
                index_of_account(old(self)@.accounts, pubkey@),
                mls_group_id@,
                nostr_group_id@,
            ),
            result matches Err(e) ==> e == Error::NotFound && final(self)@ == old(self)@,
    {
        let ghost before = self@;
        match self.position(pubkey) {
            None => Err(Error::NotFound),
            Some(i) => {
                let mut account = self.accounts.remove(i);
                let ghost known_mls = account.mls_group_ids.deep_view();
                let ghost known_nostr = account.nostr_group_ids.deep_view();
                assert(mls_group_id.deep_view() =~= mls_group_id@);
                account.mls_group_ids.push(mls_group_id);
                account.nostr_group_ids.push(nostr_group_id);
                assert(account.mls_group_ids.deep_view() =~= known_mls.push(mls_group_id@));
                assert(account.nostr_group_ids.deep_view() =~= known_nostr.push(nostr_group_id@));
                self.accounts.insert(i, account);
                assert(self@.accounts =~= with_group_ids(
                    before,
                    i as int,
                    mls_group_id@,
                    nostr_group_id@,
                ).accounts);
                proof {
                    lemma_same_keys_wf(before, self@);
                }
                Ok(())
            },
        }
    }
}

/// Logging in keeps the invariant.
pub proof fn lemma_logged_in_wf(v: AccountsView, pubkey: Seq<char>)
    requires
        accounts_wf(v),
    ensures
        accounts_wf(logged_in(v, pubkey)),
        has_account(logged_in(v, pubkey).accounts, pubkey),
{
    let after = logged_in(v, pubkey);
    if has_account(v.accounts, pubkey) {
    } else {
        assert(after.accounts[v.accounts.len() as int].pubkey == pubkey);
        assert forall|i: int, j: int| 0 <= i < j < after.accounts.len() implies (
        #[trigger] after.accounts[i]).pubkey != (#[trigger] after.accounts[j]).pubkey by {
            if j == v.accounts.len() {
                assert(v.accounts[i].pubkey != pubkey);
            } else {
                assert(v.accounts[i].pubkey != v.accounts[j].pubkey);
            }
        }
    }
}

/// Logging out keeps the invariant.
pub proof fn lemma_logged_out_wf(v: AccountsView, index: int)
    requires
        accounts_wf(v),
        0 <= index < v.accounts.len(),
    ensures
        accounts_wf(logged_out(v, index)),
{
    let after = logged_out(v, index);
    assert forall|i: int, j: int| 0 <= i < j < after.accounts.len() implies (
    #[trigger] after.accounts[i]).pubkey != (#[trigger] after.accounts[j]).pubkey by {
        let a = if i < index { i } else { i + 1 };
        let b = if j < index { j } else { j + 1 };
        assert(v.accounts[a].pubkey != v.accounts[b].pubkey);
    }
    if after.active is Some {
        let pubkey = after.active->0;
        if v.active == Some(v.accounts[index].pubkey) {
            assert(after.accounts[0].pubkey == pubkey);
        } else {
            let k = index_of_account(v.accounts, pubkey);
            assert(v.accounts[k].pubkey == pubkey);
            assert(k != index);
            let m = if k < index { k } else { k - 1 };
            assert(after.accounts[m].pubkey == pubkey);
        }
    }
}

/// A change that keeps every account's public key and the active one keeps
/// the invariant.
pub proof fn lemma_same_keys_wf(before: AccountsView, after: AccountsView)
    requires
        accounts_wf(before),
        after.active == before.active,
        after.accounts.len() == before.accounts.len(),
        forall|i: int|
            0 <= i < before.accounts.len() ==> (#[trigger] after.accounts[i]).pubkey
                == before.accounts[i].pubkey,
    ensures
        accounts_wf(after),
{
    assert forall|i: int, j: int| 0 <= i < j < after.accounts.len() implies (
    #[trigger] after.accounts[i]).pubkey != (#[trigger] after.accounts[j]).pubkey by {
        assert(before.accounts[i].pubkey != before.accounts[j].pubkey);
    }
    if after.active is Some {
        let pubkey = after.active->0;
        let k = index_of_account(before.accounts, pubkey);
        assert(before.accounts[k].pubkey == pubkey);
        assert(after.accounts[k].pubkey == pubkey);
    }
}

/// Logging in a second time with the same identity changes nothing: the
/// account is not added again, and it stays the active one.
pub proof fn lemma_login_twice(v: AccountsView, pubkey: Seq<char>)
    requires
        accounts_wf(v),
    ensures
        logged_in(logged_in(v, pubkey), pubkey) == logged_in(v, pubkey),
        logged_in(v, pubkey).active == Some(pubkey),
        accounts_wf(logged_in(v, pubkey)),
{
    lemma_logged_in_wf(v, pubkey);
}

} // verus!
