//! The catalog of known groups: their ids, epoch, relays and transcript.

use crate::error::Error;
use crate::event::{
    can_identify, copy_bytes, copy_events, copy_texts, identified, same_bytes, UnsignedEvent,
    UnsignedEventView,
};
use crate::hexcode::{decoded, from_hex, is_hex_text};
use vstd::prelude::*;

verus! {

/// Whether a group is a conversation of two or of more.
#[derive(Clone, Copy, Debug, PartialEq, Eq, Structural)]
pub enum GroupType {
    DirectMessage,
    Group,
}

/// What the group engine derives for a new group on the overlay's side.
pub struct NostrGroupData {
    pub nostr_group_id: String,
    pub name: String,
    pub description: String,
    pub admin_pubkeys: Vec<String>,
    pub relays: Vec<String>,
}

/// A snapshot of one group's record.
pub struct Group {
    pub mls_group_id: Vec<u8>,
    pub nostr_group_id: String,
    pub epoch: u64,
    pub group_type: GroupType,
    pub name: String,
    pub description: String,
    pub admin_pubkeys: Vec<String>,
    pub relay_urls: Vec<String>,
    pub transcript: Vec<UnsignedEvent>,
}

/// What a [`Group`] holds.
pub struct GroupView {
    pub mls_group_id: Seq<u8>,
    pub nostr_group_id: Seq<char>,
    pub epoch: u64,
    pub group_type: GroupType,
    pub name: Seq<char>,
    pub description: Seq<char>,
    pub admin_pubkeys: Seq<Seq<char>>,
    pub relay_urls: Seq<Seq<char>>,
    pub transcript: Seq<UnsignedEventView>,
}

impl View for Group {
    type V = GroupView;

    open spec fn view(&self) -> GroupView {
        GroupView {
            mls_group_id: self.mls_group_id@,
            nostr_group_id: self.nostr_group_id@,
            epoch: self.epoch,
            group_type: self.group_type,
            name: self.name@,
            description: self.description@,
            admin_pubkeys: self.admin_pubkeys.deep_view(),
            relay_urls: self.relay_urls.deep_view(),
            transcript: self.transcript.deep_view(),
        }
    }
}

impl DeepView for Group {
    type V = GroupView;

    open spec fn deep_view(&self) -> GroupView {
        self.view()
    }
}

impl Group {
    /// A copy of this snapshot.
    pub fn duplicate(&self) -> (copy: Group)
        ensures
            copy@ == self@,
    {
        Group {
            mls_group_id: copy_bytes(&self.mls_group_id),
            nostr_group_id: self.nostr_group_id.clone(),
            epoch: self.epoch,
            group_type: self.group_type,
            name: self.name.clone(),
            description: self.description.clone(),
            admin_pubkeys: copy_texts(&self.admin_pubkeys),
            relay_urls: copy_texts(&self.relay_urls),
            transcript: copy_events(&self.transcript),
        }
    }
}

/// The catalog as a list of records, in the order of registration.
pub type Catalog = Seq<GroupView>;

/// Whether some entry of a transcript has the id `id`.
pub open spec fn contains_id(transcript: Seq<UnsignedEventView>, id: Seq<u8>) -> bool {
    exists|i: int| 0 <= i < transcript.len() && (#[trigger] transcript[i]).id == Some(id)
}

/// A transcript's invariant: every entry has an id, and no id occurs twice.
pub open spec fn transcript_wf(transcript: Seq<UnsignedEventView>) -> bool {
    &&& forall|i: int| 0 <= i < transcript.len() ==> (#[trigger] transcript[i]).id is Some
    &&& forall|i: int, j: int|
        0 <= i < j < transcript.len() ==> (#[trigger] transcript[i]).id != (#[trigger] transcript[j]).id
}

/// The transcript after `event` was offered to it: appended, unless an entry
/// with the same id is there.
pub open spec fn appended(transcript: Seq<UnsignedEventView>, event: UnsignedEventView) -> Seq<
    UnsignedEventView,
> {
    if event.id matches Some(id) && !contains_id(transcript, id) {
        transcript.push(event)
    } else {
        transcript
    }
}

/// Whether a group with the engine's id `id` is in the catalog.
pub open spec fn has_mls_id(catalog: Catalog, id: Seq<u8>) -> bool {
    exists|i: int| 0 <= i < catalog.len() && (#[trigger] catalog[i]).mls_group_id == id
}

/// Whether a group with the overlay's id `id` is in the catalog.
pub open spec fn has_nostr_id(catalog: Catalog, id: Seq<char>) -> bool {
    exists|i: int| 0 <= i < catalog.len() && (#[trigger] catalog[i]).nostr_group_id == id
}

/// Where the group with the engine's id `id` stands.
pub open spec fn index_of_mls_id(catalog: Catalog, id: Seq<u8>) -> int {
    choose|i: int| 0 <= i < catalog.len() && (#[trigger] catalog[i]).mls_group_id == id
}

/// Where the group with the overlay's id `id` stands.
pub open spec fn index_of_nostr_id(catalog: Catalog, id: Seq<char>) -> int {
    choose|i: int| 0 <= i < catalog.len() && (#[trigger] catalog[i]).nostr_group_id == id
}

/// The catalog's invariant: both ids are unique among the groups, and every
/// transcript is well formed.
pub open spec fn catalog_wf(catalog: Catalog) -> bool {
    &&& forall|i: int, j: int|
        0 <= i < j < catalog.len() ==> (#[trigger] catalog[i]).mls_group_id != (
        #[trigger] catalog[j]).mls_group_id
    &&& forall|i: int, j: int|
        0 <= i < j < catalog.len() ==> (#[trigger] catalog[i]).nostr_group_id != (
        #[trigger] catalog[j]).nostr_group_id
    &&& forall|i: int| 0 <= i < catalog.len() ==> transcript_wf((#[trigger] catalog[i]).transcript)
}

/// The record of a group as it is registered: at the given epoch, with an
/// empty transcript.
pub open spec fn new_record(
    mls_group_id: Seq<u8>,
    epoch: u64,
    group_type: GroupType,
    nostr_group_id: Seq<char>,
    name: Seq<char>,
    description: Seq<char>,
    admin_pubkeys: Seq<Seq<char>>,
    relays: Seq<Seq<char>>,
) -> GroupView {
    GroupView {
        mls_group_id,
        nostr_group_id,
        epoch,
        group_type,
        name,
        description,
        admin_pubkeys,
        relay_urls: relays,
        transcript: Seq::empty(),
    }
}

/// The catalog after `event` was offered to the transcript of the group at `index`.
pub open spec fn with_message(catalog: Catalog, index: int, event: UnsignedEventView) -> Catalog {
    catalog.update(
        index,
        GroupView { transcript: appended(catalog[index].transcript, event), ..catalog[index] },
    )
}

/// The catalog after the group at `index` moved to `epoch`.
pub open spec fn with_epoch(catalog: Catalog, index: int, epoch: u64) -> Catalog {
    catalog.update(index, GroupView { epoch, ..catalog[index] })
}

/// `later` can follow `earlier` in time: every group is still there under the
/// same ids and type, at an epoch that is no lower, with a transcript that
/// starts with the earlier one.
pub open spec fn extends(earlier: Catalog, later: Catalog) -> bool {
    &&& earlier.len() <= later.len()
    &&& forall|i: int|
        0 <= i < earlier.len() ==> {
            &&& (#[trigger] later[i]).mls_group_id == earlier[i].mls_group_id
            &&& later[i].nostr_group_id == earlier[i].nostr_group_id
            &&& later[i].group_type == earlier[i].group_type
            &&& later[i].epoch >= earlier[i].epoch
            &&& earlier[i].transcript.is_prefix_of(later[i].transcript)
        }
}

/// The catalog of known groups. It is the only writer of group records;
/// readers get snapshots.
pub struct GroupManager {
    groups: Vec<Group>,
}

impl View for GroupManager {
    type V = Catalog;

    closed spec fn view(&self) -> Catalog {
        self.groups.deep_view()
    }
}

impl GroupManager {
    /// The catalog's invariant holds of this manager.
    pub open spec fn wf(&self) -> bool {
        catalog_wf(self@)
    }

    /// An empty catalog.
    pub fn new() -> (manager: GroupManager)
        ensures
            manager.wf(),
            manager@ == Catalog::empty(),
    {
        let manager = GroupManager { groups: Vec::new() };
        assert(manager@ =~= Catalog::empty());
        manager
    }

    /// How many groups are known.
    pub fn len(&self) -> (n: usize)
        ensures
            n == self@.len(),
    {
        self.groups.len()
    }

    /// Snapshots of all groups, in the order of registration.
    pub fn get_groups(&self) -> (groups: Vec<Group>)
        ensures
            groups.deep_view() == self@,
    {
        let mut groups: Vec<Group> = Vec::new();
        let mut i: usize = 0;
        while i < self.groups.len()
            invariant
                i <= self.groups.len(),
                groups.len() == i,
                forall|j: int| 0 <= j < i ==> groups[j]@ == self.groups[j]@,
            decreases self.groups.len() - i,
        {
            groups.push(self.groups[i].duplicate());
            i += 1;
        }
        assert(groups.deep_view() =~= self.groups.deep_view());
        groups
    }

    /// Where the group with the engine's id `id` stands.
    fn position_of_mls_id(&self, id: &Vec<u8>) -> (found: Option<usize>)
        ensures
            found is Some <==> has_mls_id(self@, id@),
            found matches Some(i) ==> i < self@.len() && self@[i as int].mls_group_id == id@,
            self.wf() ==> (found matches Some(i) ==> i == index_of_mls_id(self@, id@)),
    {
        let mut i: usize = 0;
        while i < self.groups.len()
            invariant
                i <= self.groups.len(),
                self@.len() == self.groups.len(),
                forall|j: int| 0 <= j < i ==> (#[trigger] self@[j]).mls_group_id != id@,
            decreases self.groups.len() - i,
        {
            if same_bytes(&self.groups[i].mls_group_id, id) {
                assert(self@[i as int].mls_group_id == id@);
                return Some(i);
            }
            i += 1;
        }
        None
    }

    /// Where the group with the overlay's id `id` stands.
    fn position_of_nostr_id(&self, id: &String) -> (found: Option<usize>)
        ensures
            found is Some <==> has_nostr_id(self@, id@),
            found matches Some(i) ==> i < self@.len() && self@[i as int].nostr_group_id == id@,
            self.wf() ==> (found matches Some(i) ==> i == index_of_nostr_id(self@, id@)),
    {
        let mut i: usize = 0;
        while i < self.groups.len()
            invariant
                i <= self.groups.len(),
                self@.len() == self.groups.len(),
                forall|j: int| 0 <= j < i ==> (#[trigger] self@[j]).nostr_group_id != id@,
            decreases self.groups.len() - i,
        {
            if self.groups[i].nostr_group_id == *id {
                assert(self@[i as int].nostr_group_id == id@);
                return Some(i);
            }
            i += 1;
        }
        None
    }

    /// The group with the engine's id `id`.
    pub fn get_group_by_mls_id(&self, id: &Vec<u8>) -> (result: Result<Group, Error>)
        requires
            self.wf(),
        ensures
            result is Ok <==> has_mls_id(self@, id@),
            result matches Ok(group) ==> group@ == self@[index_of_mls_id(self@, id@)],
            result matches Err(e) ==> e == Error::NotFound,
    {
        match self.position_of_mls_id(id) {
            Some(i) => Ok(self.groups[i].duplicate()),
            None => Err(Error::NotFound),
        }
    }

    /// The group with the overlay's id `id`.
    pub fn get_group_by_nostr_id(&self, id: &String) -> (result: Result<Group, Error>)
        requires
            self.wf(),
        ensures
            result is Ok <==> has_nostr_id(self@, id@),
            result matches Ok(group) ==> group@ == self@[index_of_nostr_id(self@, id@)],
            result matches Err(e) ==> e == Error::NotFound,
    {
        match self.position_of_nostr_id(id) {
            Some(i) => Ok(self.groups[i].duplicate()),
            None => Err(Error::NotFound),
        }
    }

    /// The group whose engine id is written in hexadecimal in `group_id`.
    pub fn get_group(&self, group_id: &str) -> (result: Result<Group, Error>)
        requires
            self.wf(),
        ensures
            result is Ok <==> is_hex_text(group_id@) && has_mls_id(self@, decoded(group_id@)),
            result matches Ok(group) ==> group@ == self@[index_of_mls_id(self@, decoded(group_id@))],
            result matches Err(e) ==> e == (if is_hex_text(group_id@) {
                Error::NotFound
            } else {
                Error::InvalidInput
            }),
    {
        match from_hex(group_id) {
            Some(id) => self.get_group_by_mls_id(&id),
            None => Err(Error::InvalidInput),
        }
    }

    /// Registers a group at `epoch` with an empty transcript. Refused where
    /// either of its ids is already known.
    pub fn add_group(
        &mut self,
        mls_group_id: Vec<u8>,
        epoch: u64,
        group_type: GroupType,
        group_data: NostrGroupData,
    ) -> (result: Result<Group, Error>)
        requires
            old(self).wf(),
        ensures
            final(self).wf(),
            extends(old(self)@, final(self)@),
            result is Err <==> has_mls_id(old(self)@, mls_group_id@) || has_nostr_id(
                old(self)@,
                group_data.nostr_group_id@,
            ),
            result matches Err(e) ==> e == Error::Duplicate && final(self)@ == old(self)@,
            result matches Ok(group) ==> group@ == new_record(
                mls_group_id@,
                epoch,
                group_type,
                group_data.nostr_group_id@,
                group_data.name@,
                group_data.description@,
                group_data.admin_pubkeys.deep_view(),
                group_data.relays.deep_view(),
            ) && final(self)@ == old(self)@.push(group@),
    {
        if self.position_of_mls_id(&mls_group_id).is_some() {
            return Err(Error::Duplicate);
        }
        if self.position_of_nostr_id(&group_data.nostr_group_id).is_some() {
            return Err(Error::Duplicate);
        }
        let group = Group {
            mls_group_id,
            nostr_group_id: group_data.nostr_group_id,
            epoch,
            group_type,
            name: group_data.name,
            description: group_data.description,
            admin_pubkeys: group_data.admin_pubkeys,
            relay_urls: group_data.relays,
            transcript: Vec::new(),
        };
        let snapshot = group.duplicate();
        let ghost before = self@;
        assert(group@.transcript =~= Seq::empty());
        self.groups.push(group);
        assert(self@ =~= before.push(snapshot@));
        Ok(snapshot)
    }

    /// Offers `event` to the transcript of the group `mls_group_id` and says
    /// whether it was appended: it is, unless an entry with the same id is
    /// there. An event without an id gets one first.
    pub fn receive_message(&mut self, mls_group_id: &Vec<u8>, event: UnsignedEvent) -> (result:
        Result<bool, Error>)
        requires
            old(self).wf(),
        ensures
            final(self).wf(),
            extends(old(self)@, final(self)@),
            result is Ok <==> has_mls_id(old(self)@, mls_group_id@) && can_identify(event@),
            result matches Err(e) ==> final(self)@ == old(self)@ && e == (if has_mls_id(
                old(self)@,
                mls_group_id@,
            ) {
                Error::InvalidInput
            } else {
                Error::NotFound
            }),
            result matches Ok(fresh) ==> {
                let index = index_of_mls_id(old(self)@, mls_group_id@);
                &&& final(self)@ == with_message(old(self)@, index, identified(event@))
                &&& fresh == !contains_id(old(self)@[index].transcript, identified(event@).id->0)
            },
    {
        let mut event = event;
        match self.position_of_mls_id(mls_group_id) {
            None => Err(Error::NotFound),
            Some(i) => {
                if !event.ensure_id() {
                    return Err(Error::InvalidInput);
                }
                let ghost before = self@;
                let known = has_event(&self.groups[i].transcript, &event);
                if !known {
                    let mut group = self.groups.remove(i);
                    let ghost old_transcript = group.transcript.deep_view();
                    group.transcript.push(event);
                    assert(group.transcript.deep_view() =~= old_transcript.push(event@));
                    proof {
                        lemma_appended_wf(old_transcript, event@);
                    }
                    self.groups.insert(i, group);
                    assert(self@ =~= with_message(before, i as int, event@));
                } else {
                    assert(self@ =~= with_message(before, i as int, event@));
                }
                proof {
                    lemma_with_message(before, i as int, event@);
                }
                Ok(!known)
            },
        }
    }

    /// Offers `event` to the transcript of the group `mls_group_id`: it is
    /// appended unless an entry with the same id is there, in which case it
    /// is dropped in silence. Returns the group as it is afterwards.
    pub fn add_message_to_group(&mut self, mls_group_id: &Vec<u8>, event: UnsignedEvent) -> (result:
        Result<Group, Error>)
        requires
            old(self).wf(),
        ensures
            final(self).wf(),
            extends(old(self)@, final(self)@),
            result is Ok <==> has_mls_id(old(self)@, mls_group_id@) && can_identify(event@),
            result matches Err(e) ==> final(self)@ == old(self)@ && e == (if has_mls_id(
                old(self)@,
                mls_group_id@,
            ) {
                Error::InvalidInput
            } else {
                Error::NotFound
            }),
            result matches Ok(group) ==> {
                let index = index_of_mls_id(old(self)@, mls_group_id@);
                &&& final(self)@ == with_message(old(self)@, index, identified(event@))
                &&& group@ == final(self)@[index]
            },
    {
        match self.receive_message(mls_group_id, event) {
            Err(e) => Err(e),
            Ok(_) => {
                match self.position_of_mls_id(mls_group_id) {
                    Some(i) => Ok(self.groups[i].duplicate()),
                    None => Err(Error::NotFound),
                }
            },
        }
    }

    /// Moves the group `mls_group_id` to `new_epoch`, which must be greater
    /// than the epoch it is at.
    pub fn advance_epoch(&mut self, mls_group_id: &Vec<u8>, new_epoch: u64) -> (result: Result<
        (),
        Error,
    >)
        requires
            old(self).wf(),
        ensures
            final(self).wf(),
            extends(old(self)@, final(self)@),
            result is Ok <==> has_mls_id(old(self)@, mls_group_id@) && new_epoch > old(
                self,
            )@[index_of_mls_id(old(self)@, mls_group_id@)].epoch,
            result matches Err(e) ==> final(self)@ == old(self)@ && e == (if has_mls_id(
                old(self)@,
                mls_group_id@,
            ) {
                Error::MonotonicityViolation
            } else {
                Error::NotFound
            }),
            result is Ok ==> final(self)@ == with_epoch(
                old(self)@,
                index_of_mls_id(old(self)@, mls_group_id@),
                new_epoch,
            ),
    {
        match self.position_of_mls_id(mls_group_id) {
            None => Err(Error::NotFound),
            Some(i) => {
                if new_epoch <= self.groups[i].epoch {
                    return Err(Error::MonotonicityViolation);
                }
                let ghost before = self@;
                let mut group = self.groups.remove(i);
                group.epoch = new_epoch;
                self.groups.insert(i, group);
                assert(self@ =~= with_epoch(before, i as int, new_epoch));
                proof {
                    lemma_with_epoch(before, i as int, new_epoch);
                }
                Ok(())
            },
        }
    }
}

/// Whether an entry of `transcript` has the id of `event`.
pub fn has_event(transcript: &Vec<UnsignedEvent>, event: &UnsignedEvent) -> (known: bool)
    requires
        event@.id is Some,
    ensures
        known == contains_id(transcript.deep_view(), event@.id->0),
{
    let id = match &event.id {
        Some(id) => id,
        None => {
            return false;
        },
    };
    proof {
        crate::event::lemma_optional_bytes_view(event.id);
    }
    let mut i: usize = 0;
    while i < transcript.len()
        invariant
            i <= transcript.len(),
            event@.id == Some(id@),
            forall|j: int| 0 <= j < i ==> (#[trigger] transcript.deep_view()[j]).id != Some(id@),
        decreases transcript.len() - i,
    {
        proof {
            crate::event::lemma_optional_bytes_view(transcript[i as int].id);
        }
        let same = match &transcript[i].id {
            Some(other) => same_bytes(other, id),
            None => false,
        };
        if same {
            assert(transcript.deep_view()[i as int].id == Some(id@));
            return true;
        }
        i += 1;
    }
    false
}

/// Offering an event with an id to a well-formed transcript leaves it well formed.
pub proof fn lemma_appended_wf(transcript: Seq<UnsignedEventView>, event: UnsignedEventView)
    requires
        transcript_wf(transcript),
    ensures
        transcript_wf(appended(transcript, event)),
        transcript.is_prefix_of(appended(transcript, event)),
{
    let after = appended(transcript, event);
    if event.id is Some && !contains_id(transcript, event.id->0) {
        assert forall|i: int, j: int| 0 <= i < j < after.len() implies (#[trigger] after[i]).id != (
        #[trigger] after[j]).id by {
            if j == transcript.len() {
                assert(transcript[i].id != Some(event.id->0));
            }
        }
    }
}

/// Offering the same event a second time changes nothing.
pub proof fn lemma_append_twice(transcript: Seq<UnsignedEventView>, event: UnsignedEventView)
    ensures
        appended(appended(transcript, event), event) == appended(transcript, event),
{
    if event.id is Some && !contains_id(transcript, event.id->0) {
        let once = appended(transcript, event);
        assert(once[transcript.len() as int].id == Some(event.id->0));
    }
}

/// Offering the same event to the same group a second time leaves the
/// catalog as the first offer left it.
pub proof fn lemma_message_twice(catalog: Catalog, index: int, event: UnsignedEventView)
    requires
        0 <= index < catalog.len(),
    ensures
        with_message(with_message(catalog, index, event), index, event) == with_message(
            catalog,
            index,
            event,
        ),
{
    lemma_append_twice(catalog[index].transcript, event);
    assert(with_message(with_message(catalog, index, event), index, event) =~= with_message(
        catalog,
        index,
        event,
    ));
}

/// In a well-formed catalog no two entries of a transcript have the same id.
pub proof fn lemma_transcript_ids_distinct(catalog: Catalog, group: int, i: int, j: int)
    requires
        catalog_wf(catalog),
        0 <= group < catalog.len(),
        0 <= i < catalog[group].transcript.len(),
        0 <= j < catalog[group].transcript.len(),
        i != j,
    ensures
        catalog[group].transcript[i].id != catalog[group].transcript[j].id,
{
    let transcript = catalog[group].transcript;
    assert(transcript_wf(transcript));
    if i < j {
        assert(transcript[i].id != transcript[j].id);
    } else {
        assert(transcript[j].id != transcript[i].id);
    }
}

/// A catalog can follow itself.
pub proof fn lemma_extends_reflexive(catalog: Catalog)
    ensures
        extends(catalog, catalog),
{
}

/// What can follow a later catalog can follow every earlier one.
pub proof fn lemma_extends_transitive(first: Catalog, second: Catalog, third: Catalog)
    requires
        extends(first, second),
        extends(second, third),
    ensures
        extends(first, third),
{
    assert forall|i: int| 0 <= i < first.len() implies {
        &&& (#[trigger] third[i]).mls_group_id == first[i].mls_group_id
        &&& third[i].nostr_group_id == first[i].nostr_group_id
        &&& third[i].group_type == first[i].group_type
        &&& third[i].epoch >= first[i].epoch
        &&& first[i].transcript.is_prefix_of(third[i].transcript)
    } by {
        assert(second[i].mls_group_id == first[i].mls_group_id);
        assert(third[i].mls_group_id == second[i].mls_group_id);
        assert(first[i].transcript.is_prefix_of(second[i].transcript));
        assert(second[i].transcript.is_prefix_of(third[i].transcript));
    }
}

/// Across any number of operations a group keeps its ids and its type, its
/// epoch never decreases, and its transcript only grows at the end.
pub proof fn lemma_group_over_time(earlier: Catalog, later: Catalog, index: int)
    requires
        extends(earlier, later),
        0 <= index < earlier.len(),
    ensures
        later[index].epoch >= earlier[index].epoch,
        later[index].mls_group_id == earlier[index].mls_group_id,
        later[index].nostr_group_id == earlier[index].nostr_group_id,
        later[index].group_type == earlier[index].group_type,
        earlier[index].transcript.is_prefix_of(later[index].transcript),
{
    assert(later[index].mls_group_id == earlier[index].mls_group_id);
}

/// Offering an event to one group's transcript keeps the catalog well formed
/// and moves no group backwards.
pub proof fn lemma_with_message(catalog: Catalog, index: int, event: UnsignedEventView)
    requires
        catalog_wf(catalog),
        0 <= index < catalog.len(),
    ensures
        catalog_wf(with_message(catalog, index, event)),
        extends(catalog, with_message(catalog, index, event)),
{
    lemma_appended_wf(catalog[index].transcript, event);
    let after = with_message(catalog, index, event);
    assert forall|i: int, j: int| 0 <= i < j < after.len() implies (#[trigger] after[i]).mls_group_id
        != (#[trigger] after[j]).mls_group_id by {
        assert(catalog[i].mls_group_id != catalog[j].mls_group_id);
    }
    assert forall|i: int, j: int| 0 <= i < j < after.len() implies (
    #[trigger] after[i]).nostr_group_id != (#[trigger] after[j]).nostr_group_id by {
        assert(catalog[i].nostr_group_id != catalog[j].nostr_group_id);
    }
    assert forall|i: int| 0 <= i < after.len() implies transcript_wf(
        (#[trigger] after[i]).transcript,
    ) by {
        assert(transcript_wf(catalog[i].transcript));
    }
}

/// Moving one group to a greater epoch keeps the catalog well formed and
/// moves no group backwards.
pub proof fn lemma_with_epoch(catalog: Catalog, index: int, epoch: u64)
    requires
        catalog_wf(catalog),
        0 <= index < catalog.len(),
        epoch >= catalog[index].epoch,
    ensures
        catalog_wf(with_epoch(catalog, index, epoch)),
        extends(catalog, with_epoch(catalog, index, epoch)),
{
    let after = with_epoch(catalog, index, epoch);
    assert forall|i: int, j: int| 0 <= i < j < after.len() implies (#[trigger] after[i]).mls_group_id
        != (#[trigger] after[j]).mls_group_id by {
        assert(catalog[i].mls_group_id != catalog[j].mls_group_id);
    }
    assert forall|i: int, j: int| 0 <= i < j < after.len() implies (
    #[trigger] after[i]).nostr_group_id != (#[trigger] after[j]).nostr_group_id by {
        assert(catalog[i].nostr_group_id != catalog[j].nostr_group_id);
    }
    assert forall|i: int| 0 <= i < after.len() implies transcript_wf(
        (#[trigger] after[i]).transcript,
    ) by {
        assert(transcript_wf(catalog[i].transcript));
    }
}

/// How often an id occurs in a transcript.
pub open spec fn occurrences(transcript: Seq<UnsignedEventView>, id: Seq<u8>) -> nat
    decreases transcript.len(),
{
    if transcript.len() == 0 {
        0
    } else {
        occurrences(transcript.drop_last(), id) + if transcript.last().id == Some(id) {
            1nat
        } else {
            0nat
        }
    }
}

/// In a well-formed transcript an id occurs once if at all.
pub proof fn lemma_occurrences(transcript: Seq<UnsignedEventView>, id: Seq<u8>)
    requires
        transcript_wf(transcript),
    ensures
        occurrences(transcript, id) == (if contains_id(transcript, id) {
            1nat
        } else {
            0nat
        }),
    decreases transcript.len(),
{
    if transcript.len() > 0 {
        let rest = transcript.drop_last();
        assert(transcript_wf(rest)) by {
            assert forall|i: int, j: int| 0 <= i < j < rest.len() implies (#[trigger] rest[i]).id != (
            #[trigger] rest[j]).id by {
                assert(transcript[i].id != transcript[j].id);
            }
            assert forall|i: int| 0 <= i < rest.len() implies (#[trigger] rest[i]).id is Some by {
                assert(transcript[i].id is Some);
            }
        }
        lemma_occurrences(rest, id);
        if contains_id(rest, id) {
            let i = choose|i: int| 0 <= i < rest.len() && (#[trigger] rest[i]).id == Some(id);
            assert(transcript[i].id == Some(id));
            assert(transcript[i].id != transcript[transcript.len() - 1].id);
        } else if transcript.last().id == Some(id) {
            assert(transcript[transcript.len() - 1].id == Some(id));
        } else {
            if contains_id(transcript, id) {
                let i = choose|i: int|
                    0 <= i < transcript.len() && (#[trigger] transcript[i]).id == Some(id);
                assert(rest[i].id == Some(id));
            }
        }
    }
}

/// After an event with an id was offered to a transcript, the transcript
/// holds that id.
pub proof fn lemma_appended_contains(transcript: Seq<UnsignedEventView>, event: UnsignedEventView)
    requires
        event.id is Some,
    ensures
        contains_id(appended(transcript, event), event.id->0),
{
    let after = appended(transcript, event);
    if !contains_id(transcript, event.id->0) {
        assert(after[transcript.len() as int].id == Some(event.id->0));
    }
}

/// Whatever happens to a catalog later, an event that is in a group's
/// transcript stays there, once: later fetches do not add it again.
pub proof fn lemma_sent_stays_once(earlier: Catalog, later: Catalog, index: int, id: Seq<u8>)
    requires
        catalog_wf(later),
        extends(earlier, later),
        0 <= index < earlier.len(),
        contains_id(earlier[index].transcript, id),
    ensures
        occurrences(later[index].transcript, id) == 1,
{
    let i = choose|i: int|
        0 <= i < earlier[index].transcript.len() && (#[trigger] earlier[index].transcript[i]).id
            == Some(id);
    assert(earlier[index].transcript.is_prefix_of(later[index].transcript));
    assert(later[index].transcript[i] == earlier[index].transcript[i]);
    assert(transcript_wf(later[index].transcript));
    lemma_occurrences(later[index].transcript, id);
}

} // verus!
