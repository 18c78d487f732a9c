//! The store of export secrets, one per group and epoch.

use crate::error::Error;
use crate::event::{copy_bytes, same_bytes};
use crate::protocol::{keypair_spec, keys_parse, KeyPair};
use vstd::prelude::*;

verus! {

/// What identifies a secret: the group's id and the epoch.
pub type SecretKeyId = (Seq<u8>, u64);

/// The store as a map from (group id, epoch) to the secret's text.
pub type SecretMap = Map<SecretKeyId, Seq<char>>;

/// One stored secret.
pub struct SecretEntry {
    pub group_id: Vec<u8>,
    pub epoch: u64,
    pub secret: String,
}

impl SecretEntry {
    /// The pair under which this entry is found.
    pub open spec fn key(&self) -> SecretKeyId {
        (self.group_id@, self.epoch)
    }
}

/// The secrets of all groups and epochs. An entry is written once and never
/// changed or removed.
pub struct SecretStore {
    entries: Vec<SecretEntry>,
}

/// The map that a list of entries stands for; a later entry would win.
pub open spec fn entries_map(entries: Seq<SecretEntry>) -> SecretMap
    decreases entries.len(),
{
    if entries.len() == 0 {
        Map::empty()
    } else {
        entries_map(entries.drop_last()).insert(entries.last().key(), entries.last().secret@)
    }
}

/// No two entries share a key.
pub open spec fn distinct_keys(entries: Seq<SecretEntry>) -> bool {
    forall|i: int, j: int|
        0 <= i < j < entries.len() ==> (#[trigger] entries[i]).key() != (#[trigger] entries[j]).key()
}

/// Whether writing `secret` under `id` is refused: another value is there.
pub open spec fn conflicts(m: SecretMap, id: SecretKeyId, secret: Seq<char>) -> bool {
    m.contains_key(id) && m[id] != secret
}

/// The store after an attempt to write `secret` under `id`.
pub open spec fn stored(m: SecretMap, id: SecretKeyId, secret: Seq<char>) -> SecretMap {
    if conflicts(m, id, secret) {
        m
    } else {
        m.insert(id, secret)
    }
}

/// The key pair found under `id`, or why there is none.
pub open spec fn keypair_lookup(m: SecretMap, id: SecretKeyId) -> Result<(Seq<u8>, Seq<u8>), Error> {
    if !m.contains_key(id) {
        Err(Error::NotFound)
    } else {
        match keypair_spec(m[id]) {
            Some(pair) => Ok(pair),
            None => Err(Error::InvalidInput),
        }
    }
}

/// `m` holds nothing that `other` does not hold with the same value.
pub open spec fn agrees_with(m: SecretMap, other: SecretMap) -> bool {
    forall|id: SecretKeyId| #[trigger] m.contains_key(id) ==> other.contains_key(id) && other[id] == m[id]
}

/// The map of a list holds exactly the keys of its entries, and under a key
/// that occurs once the secret of that entry.
pub proof fn lemma_entries_map(entries: Seq<SecretEntry>)
    ensures
        forall|id: SecretKeyId|
            entries_map(entries).contains_key(id) <==> exists|i: int|
                0 <= i < entries.len() && (#[trigger] entries[i]).key() == id,
        distinct_keys(entries) ==> forall|i: int|
            0 <= i < entries.len() ==> entries_map(entries)[(#[trigger] entries[i]).key()]
                == entries[i].secret@,
    decreases entries.len(),
{
    if entries.len() > 0 {
        let rest = entries.drop_last();
        lemma_entries_map(rest);
        assert forall|id: SecretKeyId|
            entries_map(entries).contains_key(id) <==> exists|i: int|
                0 <= i < entries.len() && (#[trigger] entries[i]).key() == id by {
            assert(entries_map(entries) == entries_map(rest).insert(
                entries.last().key(),
                entries.last().secret@,
            ));
            if entries_map(entries).contains_key(id) {
                if id == entries.last().key() {
                    assert(entries[entries.len() - 1].key() == id);
                } else {
                    assert(entries_map(rest).contains_key(id));
                    let i = choose|i: int| 0 <= i < rest.len() && (#[trigger] rest[i]).key() == id;
                    assert(entries[i].key() == id);
                }
            }
            if exists|i: int| 0 <= i < entries.len() && (#[trigger] entries[i]).key() == id {
                let i = choose|i: int| 0 <= i < entries.len() && (#[trigger] entries[i]).key() == id;
                if i < rest.len() {
                    assert(rest[i].key() == id);
                }
            }
        }
        if distinct_keys(entries) {
            assert(distinct_keys(rest)) by {
                assert forall|i: int, j: int| 0 <= i < j < rest.len() implies (#[trigger] rest[i]).key()
                    != (#[trigger] rest[j]).key() by {
                    assert(entries[i].key() != entries[j].key());
                }
            }
            assert forall|i: int| 0 <= i < entries.len() implies entries_map(entries)[(
            #[trigger] entries[i]).key()] == entries[i].secret@ by {
                if i < rest.len() {
                    assert(entries[i].key() != entries[entries.len() - 1].key());
                    assert(rest[i].key() == entries[i].key());
                }
            }
        }
    }
}

impl View for SecretStore {
    type V = SecretMap;

    closed spec fn view(&self) -> SecretMap {
        entries_map(self.entries@)
    }
}

impl SecretStore {
    /// The store's invariant: each (group, epoch) is written at most once.
    pub closed spec fn wf(&self) -> bool {
        distinct_keys(self.entries@)
    }

    /// An empty store.
    pub fn new() -> (store: SecretStore)
        ensures
            store.wf(),
            store@ == SecretMap::empty(),
    {
        SecretStore { entries: Vec::new() }
    }

    /// Where the entry for (`group_id`, `epoch`) stands, if there is one.
    fn position(&self, group_id: &Vec<u8>, epoch: u64) -> (found: Option<usize>)
        requires
            self.wf(),
        ensures
            match found {
                Some(i) => i < self.entries.len() && self.entries[i as int].key() == (
                    group_id@,
                    epoch,
                ) && self@.contains_key((group_id@, epoch)) && self@[(group_id@, epoch)]
                    == self.entries[i as int].secret@,
                None => !self@.contains_key((group_id@, epoch)),
            },
    {
        let mut i: usize = 0;
        while i < self.entries.len()
            invariant
                i <= self.entries.len(),
                self.wf(),
                forall|j: int| 0 <= j < i ==> (#[trigger] self.entries[j]).key() != (group_id@, epoch),
            decreases self.entries.len() - i,
        {
            if self.entries[i].epoch == epoch && same_bytes(&self.entries[i].group_id, group_id) {
                proof {
                    lemma_entries_map(self.entries@);
                    assert(self.entries@[i as int].key() == (group_id@, epoch));
                }
                return Some(i);
            }
            i += 1;
        }
        proof {
            lemma_entries_map(self.entries@);
        }
        None
    }

    /// Writes `secret` under (`group_id`, `epoch`). Writing the value that is
    /// already there changes nothing; writing another one is refused.
    pub fn store(&mut self, group_id: &Vec<u8>, epoch: u64, secret: &String) -> (result: Result<
        (),
        Error,
    >)
        requires
            old(self).wf(),
        ensures
            final(self).wf(),
            final(self)@ == stored(old(self)@, (group_id@, epoch), secret@),
            result is Err <==> conflicts(old(self)@, (group_id@, epoch), secret@),
            result matches Err(e) ==> e == Error::Conflict,
    {
        match self.position(group_id, epoch) {
            Some(i) => {
                if self.entries[i].secret == *secret {
                    assert(self@.insert((group_id@, epoch), secret@) =~= self@);
                    Ok(())
                } else {
                    Err(Error::Conflict)
                }
            },
            None => {
                proof {
                    lemma_entries_map(self.entries@);
                }
                let entry = SecretEntry {
                    group_id: copy_bytes(group_id),
                    epoch,
                    secret: secret.clone(),
                };
                let ghost before = self.entries@;
                self.entries.push(entry);
                assert(self.entries@.drop_last() =~= before);
                assert forall|i: int, j: int| 0 <= i < j < self.entries@.len() implies (
                #[trigger] self.entries@[i]).key() != (#[trigger] self.entries@[j]).key() by {
                    assert(self.entries@[i] == before[i]);
                    if j < before.len() {
                        assert(self.entries@[j] == before[j]);
                    }
                }
                Ok(())
            },
        }
    }

    /// The secret written under (`group_id`, `epoch`).
    pub fn get_secret(&self, group_id: &Vec<u8>, epoch: u64) -> (secret: Option<String>)
        requires
            self.wf(),
        ensures
            secret is Some <==> self@.contains_key((group_id@, epoch)),
            secret matches Some(s) ==> s@ == self@[(group_id@, epoch)],
    {
        match self.position(group_id, epoch) {
            Some(i) => Some(self.entries[i].secret.clone()),
            None => None,
        }
    }

    /// The key pair derived from the secret under (`group_id`, `epoch`), the
    /// secret being read as a secret key.
    pub fn get_keypair(&self, group_id: &Vec<u8>, epoch: u64) -> (result: Result<KeyPair, Error>)
        requires
            self.wf(),
        ensures
            match result {
                Ok(pair) => keypair_lookup(self@, (group_id@, epoch)) == Ok::<_, Error>(
                    (pair.secret_key@, pair.public_key@),
                ),
                Err(e) => keypair_lookup(self@, (group_id@, epoch)) == Err::<(Seq<u8>, Seq<u8>), _>(e),
            },
    {
        match self.position(group_id, epoch) {
            Some(i) => match keys_parse(self.entries[i].secret.as_str()) {
                Some(pair) => Ok(pair),
                None => Err(Error::InvalidInput),
            },
            None => Err(Error::NotFound),
        }
    }

    /// How many secrets are stored.
    pub fn len(&self) -> (n: usize)
        requires
            self.wf(),
        ensures
            n == self@.dom().len(),
            self@.dom().finite(),
    {
        proof {
            lemma_entries_count(self.entries@);
        }
        self.entries.len()
    }

    /// The `index`-th secret in the order of writing, for writing the store down.
    pub fn entry(&self, index: usize) -> (entry: SecretEntry)
        requires
            self.wf(),
            index < self@.dom().len(),
        ensures
            self@.contains_key(entry.key()),
            self@[entry.key()] == entry.secret@,
    {
        proof {
            lemma_entries_count(self.entries@);
            lemma_entries_map(self.entries@);
        }
        let e = &self.entries[index];
        SecretEntry { group_id: copy_bytes(&e.group_id), epoch: e.epoch, secret: e.secret.clone() }
    }
}

/// A list without a repeated key stands for a map of as many entries.
pub proof fn lemma_entries_count(entries: Seq<SecretEntry>)
    requires
        distinct_keys(entries),
    ensures
        entries_map(entries).dom().finite(),
        entries_map(entries).dom().len() == entries.len(),
    decreases entries.len(),
{
    if entries.len() > 0 {
        let rest = entries.drop_last();
        assert(distinct_keys(rest)) by {
            assert forall|i: int, j: int| 0 <= i < j < rest.len() implies (#[trigger] rest[i]).key()
                != (#[trigger] rest[j]).key() by {
                assert(entries[i].key() != entries[j].key());
            }
        }
        lemma_entries_count(rest);
        lemma_entries_map(rest);
        assert(!entries_map(rest).contains_key(entries.last().key())) by {
            if entries_map(rest).contains_key(entries.last().key()) {
                let i = choose|i: int|
                    0 <= i < rest.len() && (#[trigger] rest[i]).key() == entries.last().key();
                assert(entries[i].key() != entries[entries.len() - 1].key());
            }
        }
    }
}

/// A secret, once written, is never changed by a later write.
pub proof fn lemma_store_keeps_entries(m: SecretMap, id: SecretKeyId, secret: Seq<char>)
    ensures
        agrees_with(m, stored(m, id, secret)),
{
}

/// While every stored secret is the one the engine exports for its group and
/// epoch, writing an exported secret is never refused and keeps it so.
pub proof fn lemma_store_agrees_with_exports(
    m: SecretMap,
    exported: SecretMap,
    id: SecretKeyId,
    secret: Seq<char>,
)
    requires
        agrees_with(m, exported),
        exported.contains_key(id),
        exported[id] == secret,
    ensures
        !conflicts(m, id, secret),
        agrees_with(stored(m, id, secret), exported),
{
}

/// After a write that was not refused, the key pair found under the same
/// group and epoch is the one derived from the secret written.
pub proof fn lemma_store_then_keypair(m: SecretMap, id: SecretKeyId, secret: Seq<char>)
    requires
        !conflicts(m, id, secret),
    ensures
        keypair_lookup(stored(m, id, secret), id) == match keypair_spec(secret) {
            Some(pair) => Ok::<_, Error>(pair),
            None => Err(Error::InvalidInput),
        },
{
}

} // verus!
