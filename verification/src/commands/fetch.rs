//! Fetching the messages of all groups.
//!
//! The host queries the relays and owns the group engine. Between its calls
//! the decisions are made here: which events belong to which group and in
//! what order they are processed, which key opens an event, and what becomes
//! of the messages that the engine returns.

use crate::error::Error;
use crate::event::{copy_bytes, identified, RelayEvent, UnsignedEventView};
use crate::groups::{
    catalog_wf, contains_id, extends, has_mls_id, index_of_mls_id, lemma_with_message, with_message,
    Catalog, Group, GroupView,
};
use crate::inbox::{
    is_stray, lemma_work_items, ordered, resolve, sort_items, work_items, WorkItem, WorkItemView,
};
use crate::protocol::{
    json_text, json_text_spec, keypair_spec, keys_parse, nip44_decrypt, nip44_decrypt_spec,
    unsigned_event_from_json, unsigned_event_parse_spec,
};
use crate::secret_store::{conflicts, keypair_lookup, stored, SecretMap};
use crate::whitenoise::{Emission, EmissionView, Whitenoise};
use vstd::prelude::*;

verus! {

/// The overlay ids of all known groups: what the host asks the relays for.
pub fn fetch_mls_messages(wn: &Whitenoise) -> (group_ids: Vec<String>)
    ensures
        group_ids.deep_view() == wn.groups@.map_values(|g: GroupView| g.nostr_group_id),
{
    let groups = wn.groups.get_groups();
    let mut group_ids: Vec<String> = Vec::new();
    let mut i: usize = 0;
    while i < groups.len()
        invariant
            i <= groups.len(),
            groups.deep_view() == wn.groups@,
            group_ids.len() == i,
            forall|j: int| 0 <= j < i ==> group_ids[j]@ == (#[trigger] groups.deep_view()[j]).nostr_group_id,
        decreases groups.len() - i,
    {
        assert(groups.deep_view()[i as int].nostr_group_id == groups[i as int].nostr_group_id@);
        group_ids.push(groups[i].nostr_group_id.clone());
        i += 1;
    }
    assert(group_ids.deep_view() =~= wn.groups@.map_values(|g: GroupView| g.nostr_group_id));
    group_ids
}

/// What the host does next.
pub enum FetchStep {
    /// Nothing is left to process.
    Done,
    /// No secret is stored for the epoch of this group: export it from the
    /// engine and hand it over.
    ExportSecret { mls_group_id: Vec<u8> },
    /// Hand this ciphertext to the engine and report what it returns.
    Process { mls_group_id: Vec<u8>, ciphertext: Vec<u8> },
}

/// What a [`FetchStep`] holds.
pub enum FetchStepView {
    Done,
    ExportSecret { mls_group_id: Seq<u8> },
    Process { mls_group_id: Seq<u8>, ciphertext: Seq<u8> },
}

impl View for FetchStep {
    type V = FetchStepView;

    open spec fn view(&self) -> FetchStepView {
        match self {
            FetchStep::Done => FetchStepView::Done,
            FetchStep::ExportSecret { mls_group_id } => FetchStepView::ExportSecret {
                mls_group_id: mls_group_id@,
            },
            FetchStep::Process { mls_group_id, ciphertext } => FetchStepView::Process {
                mls_group_id: mls_group_id@,
                ciphertext: ciphertext@,
            },
        }
    }
}

/// The events of one fetch in the order of processing, and how far the
/// processing has come.
pub struct FetchBatch {
    groups: Vec<Group>,
    items: Vec<WorkItem>,
    cursor: usize,
}

/// What a [`FetchBatch`] holds.
pub struct FetchBatchView {
    /// The catalog as it was when the batch was made.
    pub groups: Catalog,
    pub items: Seq<WorkItemView>,
    /// How many items are dealt with.
    pub cursor: int,
}

impl FetchBatchView {
    /// The id and epoch under which the secret for the item at `k` is looked up.
    pub open spec fn secret_id(self, k: int) -> (Seq<u8>, u64) {
        let group = self.groups[self.items[k].group_index];
        (group.mls_group_id, group.epoch)
    }

    /// The engine's id of the group of the item at `k`.
    pub open spec fn group_id(self, k: int) -> Seq<u8> {
        self.groups[self.items[k].group_index].mls_group_id
    }

    /// The ciphertext inside the item at `k`, if `pair` opens it.
    pub open spec fn opened(self, pair: (Seq<u8>, Seq<u8>), k: int) -> Option<Seq<u8>> {
        nip44_decrypt_spec(pair.0, pair.1, self.items[k].event.content)
    }

    /// An item that is passed over: the key pair stored for its group's
    /// epoch does not open it.
    pub open spec fn unreadable(self, secrets: SecretMap, k: int) -> bool {
        keypair_lookup(secrets, self.secret_id(k)) matches Ok(pair) && self.opened(pair, k) is None
    }

    /// Every item from `from` up to `to` is passed over.
    pub open spec fn skipped(self, secrets: SecretMap, from: int, to: int) -> bool {
        forall|k: int| from <= k < to ==> #[trigger] self.unreadable(secrets, k)
    }

    /// `step` is what the item at the cursor calls for.
    pub open spec fn calls_for(self, secrets: SecretMap, step: FetchStepView) -> bool {
        match step {
            FetchStepView::Done => self.cursor == self.items.len(),
            FetchStepView::ExportSecret { mls_group_id } => {
                &&& self.cursor < self.items.len()
                &&& keypair_lookup(secrets, self.secret_id(self.cursor)) is Err
                &&& mls_group_id == self.group_id(self.cursor)
            },
            FetchStepView::Process { mls_group_id, ciphertext } => {
                &&& self.cursor < self.items.len()
                &&& keypair_lookup(secrets, self.secret_id(self.cursor)) matches Ok(pair)
                &&& self.opened(pair, self.cursor) == Some(ciphertext)
                &&& mls_group_id == self.group_id(self.cursor)
            },
        }
    }
}

/// The message in a payload of the engine: the payload read as JSON, written
/// back as text and read as an unsigned event, its id set.
pub open spec fn payload_event(payload: Seq<u8>) -> Option<UnsignedEventView> {
    match json_text_spec(payload) {
        None => None,
        Some(text) => match unsigned_event_parse_spec(text) {
            None => None,
            Some(event) => Some(identified(event)),
        },
    }
}

/// The catalog after the message of `payload`, if it holds one, was offered
/// to the group at `index`.
pub open spec fn received(catalog: Catalog, index: int, payload: Seq<u8>) -> Catalog {
    match payload_event(payload) {
        Some(event) => with_message(catalog, index, event),
        None => catalog,
    }
}

/// The catalog after the messages of `payloads` were offered in turn.
pub open spec fn received_all(catalog: Catalog, index: int, payloads: Seq<Seq<u8>>) -> Catalog
    decreases payloads.len(),
{
    if payloads.len() == 0 {
        catalog
    } else {
        received(received_all(catalog, index, payloads.drop_last()), index, payloads.last())
    }
}

/// The messages of `payloads` that were new to the group at `index` when
/// their turn came, in that order.
pub open spec fn fresh_events(catalog: Catalog, index: int, payloads: Seq<Seq<u8>>) -> Seq<
    UnsignedEventView,
>
    decreases payloads.len(),
{
    if payloads.len() == 0 {
        Seq::empty()
    } else {
        let before = received_all(catalog, index, payloads.drop_last());
        let rest = fresh_events(catalog, index, payloads.drop_last());
        match payload_event(payloads.last()) {
            Some(event) => if contains_id(before[index].transcript, event.id->0) {
                rest
            } else {
                rest.push(event)
            },
            None => rest,
        }
    }
}

/// Whether any of `payloads` holds a message.
pub open spec fn any_message(payloads: Seq<Seq<u8>>) -> bool {
    exists|i: int| 0 <= i < payloads.len() && payload_event(#[trigger] payloads[i]) is Some
}

/// How the handling of one engine result ended: what to announce, and
/// whether the fetch can go on.
pub struct FetchOutcome {
    pub emissions: Vec<Emission>,
    pub result: Result<(), Error>,
}

/// Offering messages keeps the catalog well formed, keeps its groups, and
/// moves no group backwards.
pub proof fn lemma_received_all(catalog: Catalog, index: int, payloads: Seq<Seq<u8>>)
    requires
        catalog_wf(catalog),
        0 <= index < catalog.len(),
    ensures
        catalog_wf(received_all(catalog, index, payloads)),
        extends(catalog, received_all(catalog, index, payloads)),
        received_all(catalog, index, payloads).len() == catalog.len(),
    decreases payloads.len(),
{
    if payloads.len() > 0 {
        lemma_received_all(catalog, index, payloads.drop_last());
        let before = received_all(catalog, index, payloads.drop_last());
        match payload_event(payloads.last()) {
            Some(event) => {
                lemma_with_message(before, index, event);
                let after = with_message(before, index, event);
                assert forall|i: int| 0 <= i < catalog.len() implies catalog[i].transcript.is_prefix_of(
                    (#[trigger] after[i]).transcript,
                ) by {
                    assert(catalog[i].transcript.is_prefix_of(before[i].transcript));
                    assert(before[i].transcript.is_prefix_of(after[i].transcript));
                }
            },
            None => {},
        }
    }
}

/// After the messages of `payloads` were offered, the transcript holds the
/// id of every one of them.
pub proof fn lemma_received_holds_messages(catalog: Catalog, index: int, payloads: Seq<Seq<u8>>)
    requires
        catalog_wf(catalog),
        0 <= index < catalog.len(),
    ensures
        forall|k: int|
            0 <= k < payloads.len() && payload_event(#[trigger] payloads[k]) is Some ==> contains_id(
                received_all(catalog, index, payloads)[index].transcript,
                payload_event(payloads[k])->0.id->0,
            ),
    decreases payloads.len(),
{
    if payloads.len() > 0 {
        let rest = payloads.drop_last();
        let before = received_all(catalog, index, rest);
        let after = received_all(catalog, index, payloads);
        lemma_received_holds_messages(catalog, index, rest);
        lemma_received_all(catalog, index, rest);
        assert forall|k: int|
            0 <= k < payloads.len() && payload_event(#[trigger] payloads[k]) is Some implies contains_id(
            after[index].transcript,
            payload_event(payloads[k])->0.id->0,
        ) by {
            let id = payload_event(payloads[k])->0.id->0;
            if k < rest.len() {
                assert(rest[k] == payloads[k]);
                assert(contains_id(before[index].transcript, id));
                let at = choose|at: int|
                    0 <= at < before[index].transcript.len() && (
                    #[trigger] before[index].transcript[at]).id == Some(id);
                if payload_event(payloads.last()) is Some {
                    let event = payload_event(payloads.last())->0;
                    crate::groups::lemma_appended_wf(before[index].transcript, event);
                    assert(before[index].transcript.is_prefix_of(after[index].transcript));
                    assert(after[index].transcript[at] == before[index].transcript[at]);
                } else {
                    assert(after[index].transcript[at].id == Some(id));
                }
            } else {
                let event = payload_event(payloads.last())->0;
                crate::groups::lemma_appended_contains(before[index].transcript, event);
            }
        }
    }
}

/// Offering messages whose ids the transcript holds changes nothing and
/// gives nothing to announce.
pub proof fn lemma_known_messages_add_nothing(catalog: Catalog, index: int, payloads: Seq<Seq<u8>>)
    requires
        0 <= index < catalog.len(),
        forall|k: int|
            0 <= k < payloads.len() && payload_event(#[trigger] payloads[k]) is Some ==> contains_id(
                catalog[index].transcript,
                payload_event(payloads[k])->0.id->0,
            ),
    ensures
        received_all(catalog, index, payloads) == catalog,
        fresh_events(catalog, index, payloads) == Seq::<UnsignedEventView>::empty(),
    decreases payloads.len(),
{
    if payloads.len() > 0 {
        let rest = payloads.drop_last();
        assert forall|k: int|
            0 <= k < rest.len() && payload_event(#[trigger] rest[k]) is Some implies contains_id(
            catalog[index].transcript,
            payload_event(rest[k])->0.id->0,
        ) by {
            assert(rest[k] == payloads[k]);
        }
        lemma_known_messages_add_nothing(catalog, index, rest);
        if payload_event(payloads.last()) is Some {
            let event = payload_event(payloads.last())->0;
            assert(payloads[payloads.len() - 1] == payloads.last());
            assert(contains_id(catalog[index].transcript, event.id->0));
            assert(with_message(catalog, index, event) =~= catalog);
        }
    }
}

/// Fetching the same messages a second time leaves every transcript as the
/// first fetch left it, and announces nothing.
pub proof fn lemma_refetch_adds_nothing(catalog: Catalog, index: int, payloads: Seq<Seq<u8>>)
    requires
        catalog_wf(catalog),
        0 <= index < catalog.len(),
    ensures
        received_all(received_all(catalog, index, payloads), index, payloads) == received_all(
            catalog,
            index,
            payloads,
        ),
        fresh_events(received_all(catalog, index, payloads), index, payloads) == Seq::<
            UnsignedEventView,
        >::empty(),
{
    lemma_received_all(catalog, index, payloads);
    lemma_received_holds_messages(catalog, index, payloads);
    lemma_known_messages_add_nothing(received_all(catalog, index, payloads), index, payloads);
}

/// What was sealed under an epoch's secret is opened by a batch that finds
/// that secret in the store: the event is not passed over, and the engine is
/// handed the ciphertext that was sealed.
pub proof fn lemma_sealed_is_opened(
    batch: FetchBatchView,
    secrets: SecretMap,
    secret: Seq<char>,
    ciphertext: Seq<u8>,
)
    requires
        0 <= batch.cursor < batch.items.len(),
        secrets.contains_key(batch.secret_id(batch.cursor)),
        secrets[batch.secret_id(batch.cursor)] == secret,
        keypair_spec(secret) is Some,
        batch.opened(keypair_spec(secret)->0, batch.cursor) == Some(ciphertext),
    ensures
        !batch.unreadable(secrets, batch.cursor),
        batch.calls_for(
            secrets,
            FetchStepView::Process { mls_group_id: batch.group_id(batch.cursor), ciphertext },
        ),
{
}

impl View for FetchBatch {
    type V = FetchBatchView;

    closed spec fn view(&self) -> FetchBatchView {
        FetchBatchView {
            groups: self.groups.deep_view(),
            items: self.items.deep_view(),
            cursor: self.cursor as int,
        }
    }
}

impl FetchBatch {
    /// The cursor is within the items, the catalog of the batch is well
    /// formed, and every item names a group of it.
    pub open spec fn wf(&self) -> bool {
        &&& 0 <= self@.cursor <= self@.items.len()
        &&& catalog_wf(self@.groups)
        &&& forall|k: int|
            0 <= k < self@.items.len() ==> 0 <= (#[trigger] self@.items[k]).group_index
                < self@.groups.len()
    }

    /// Sorts the events that the relays returned into a batch: events that
    /// name no group are dropped, the others are ordered by group, and
    /// within a group by time of creation and then by id. An event that
    /// names an unknown group fails the fetch.
    pub fn new(wn: &Whitenoise, events: &Vec<RelayEvent>) -> (result: Result<FetchBatch, Error>)
        requires
            wn.wf(),
        ensures
            result is Err <==> exists|i: int|
                0 <= i < events.len() && is_stray(wn.groups@, #[trigger] events.deep_view()[i]),
            result matches Err(e) ==> e == Error::NotFound,
            result matches Ok(batch) ==> {
                &&& batch.wf()
                &&& batch@.groups == wn.groups@
                &&& batch@.cursor == 0
                &&& ordered(batch@.items)
                &&& batch@.items.to_multiset() == work_items(
                    wn.groups@,
                    events.deep_view(),
                ).to_multiset()
            },
    {
        let groups = wn.groups.get_groups();
        let unsorted = match resolve(&groups, events) {
            Err(e) => {
                return Err(e);
            },
            Ok(items) => items,
        };
        let items = sort_items(unsorted);
        proof {
            lemma_work_items(wn.groups@, events.deep_view());
            assert forall|k: int| 0 <= k < items.deep_view().len() implies 0 <= (
            #[trigger] items.deep_view()[k]).group_index < groups.deep_view().len() by {
                let item = items.deep_view()[k];
                assert(unsorted.deep_view().contains(item));
                let j = choose|j: int|
                    0 <= j < unsorted.deep_view().len() && unsorted.deep_view()[j] == item;
                assert(work_items(wn.groups@, events.deep_view())[j] == item);
            }
        }
        Ok(FetchBatch { groups, items, cursor: 0 })
    }

    /// How many events are still to be dealt with.
    pub fn remaining(&self) -> (n: usize)
        requires
            self.wf(),
        ensures
            n == self@.items.len() - self@.cursor,
    {
        self.items.len() - self.cursor
    }

    /// Moves on to the next event that can be handed to the engine or that
    /// needs a secret first, passing over those that the stored key does not
    /// open, and says what the host is to do.
    pub fn next(&mut self, wn: &Whitenoise) -> (step: FetchStep)
        requires
            old(self).wf(),
            wn.wf(),
        ensures
            final(self).wf(),
            final(self)@.groups == old(self)@.groups,
            final(self)@.items == old(self)@.items,
            old(self)@.cursor <= final(self)@.cursor,
            final(self)@.skipped(wn.secrets@, old(self)@.cursor, final(self)@.cursor),
            final(self)@.calls_for(wn.secrets@, step@),
    {
        let ghost start = self@;
        while self.cursor < self.items.len()
            invariant
                self.wf(),
                wn.wf(),
                start == old(self)@,
                self@.groups == start.groups,
                self@.items == start.items,
                start.cursor <= self@.cursor,
                self@.skipped(wn.secrets@, start.cursor, self@.cursor),
            decreases self.items.len() - self.cursor,
        {
            let ghost k = self.cursor as int;
            let item = &self.items[self.cursor];
            assert(self@.items[k] == item@);
            let group = &self.groups[item.group_index];
            assert(self@.groups[item.group_index as int] == group@);
            match wn.secrets.get_keypair(&group.mls_group_id, group.epoch) {
                Err(_) => {
                    return FetchStep::ExportSecret { mls_group_id: copy_bytes(&group.mls_group_id) };
                },
                Ok(pair) => {
                    match nip44_decrypt(
                        pair.secret_key.as_slice(),
                        pair.public_key.as_slice(),
                        item.event.content.as_str(),
                    ) {
                        Some(ciphertext) => {
                            return FetchStep::Process {
                                mls_group_id: copy_bytes(&group.mls_group_id),
                                ciphertext,
                            };
                        },
                        None => {
                            let ghost passed = self@;
                            assert(passed.unreadable(wn.secrets@, k));
                            self.cursor = self.cursor + 1;
                            proof {
                                let now = self@;
                                assert forall|j: int| start.cursor <= j < now.cursor implies #[trigger] now.unreadable(
                                    wn.secrets@,
                                    j,
                                ) by {
                                    assert(passed.unreadable(wn.secrets@, j));
                                }
                            }
                        },
                    }
                },
            }
        }
        FetchStep::Done
    }

    /// Takes the secret that the engine exports for the group of the
    /// current event, with the engine's epoch: writes it to the store and
    /// opens the event with the key pair derived from it.
    pub fn on_export_secret(&mut self, wn: &mut Whitenoise, export_secret_hex: &String, epoch: u64) -> (result:
        Result<FetchStep, Error>)
        requires
            old(self).wf(),
            old(wn).wf(),
        ensures
            final(self).wf(),
            final(wn).wf(),
            final(wn).accounts == old(wn).accounts,
            final(wn).groups == old(wn).groups,
            final(wn).relays == old(wn).relays,
            final(wn).dev_mode == old(wn).dev_mode,
            final(self)@.groups == old(self)@.groups,
            final(self)@.items == old(self)@.items,
            old(self)@.cursor <= final(self)@.cursor,
            old(self)@.cursor == old(self)@.items.len() ==> {
                &&& result matches Ok(step)
                &&& step@ == FetchStepView::Done
                &&& final(wn).secrets@ == old(wn).secrets@
                &&& final(self)@.cursor == old(self)@.cursor
            },
            old(self)@.cursor < old(self)@.items.len() ==> {
                let k = old(self)@.cursor;
                let id = (old(self)@.group_id(k), epoch);
                &&& final(wn).secrets@ == stored(old(wn).secrets@, id, export_secret_hex@)
                &&& if conflicts(old(wn).secrets@, id, export_secret_hex@) {
                    result == Err::<FetchStep, _>(Error::Conflict) && final(self)@.cursor == k
                } else {
                    match keypair_spec(export_secret_hex@) {
                        None => {
                            &&& result == Err::<FetchStep, _>(Error::InvalidInput)
                            &&& final(self)@.cursor == k
                        },
                        Some(pair) => match old(self)@.opened(pair, k) {
                            Some(ciphertext) => {
                                &&& result matches Ok(step)
                                &&& step@ == (FetchStepView::Process {
                                    mls_group_id: old(self)@.group_id(k),
                                    ciphertext,
                                })
                                &&& final(self)@.cursor == k
                            },
                            None => {
                                &&& result matches Ok(step)
                                &&& final(self)@.cursor > k
                                &&& final(self)@.skipped(final(wn).secrets@, k + 1, final(self)@.cursor)
                                &&& final(self)@.calls_for(final(wn).secrets@, step@)
                            },
                        },
                    }
                }
            },
    {
        if self.cursor >= self.items.len() {
            return Ok(FetchStep::Done);
        }
        let ghost k = self.cursor as int;
        let item = &self.items[self.cursor];
        assert(self@.items[k] == item@);
        let group = &self.groups[item.group_index];
        assert(self@.groups[item.group_index as int] == group@);
        match wn.secrets.store(&group.mls_group_id, epoch, export_secret_hex) {
            Err(e) => {
                return Err(e);
            },
            Ok(()) => {},
        }
        let pair = match keys_parse(export_secret_hex.as_str()) {
            Some(pair) => pair,
            None => {
                return Err(Error::InvalidInput);
            },
        };
        match nip44_decrypt(
            pair.secret_key.as_slice(),
            pair.public_key.as_slice(),
            item.event.content.as_str(),
        ) {
            Some(ciphertext) => Ok(
                FetchStep::Process { mls_group_id: copy_bytes(&group.mls_group_id), ciphertext },
            ),
            None => {
                self.cursor = self.cursor + 1;
                Ok(self.next(wn))
            },
        }
    }

    /// Takes what the engine returned for the current event and moves past
    /// the event. A refusal of the engine is passed over; of the payloads it
    /// returned, every message that is new to the group's transcript is
    /// appended and announced.
    pub fn on_processed(&mut self, wn: &mut Whitenoise, processed: Result<Vec<Vec<u8>>, Error>) -> (outcome:
        FetchOutcome)
        requires
            old(self).wf(),
            old(wn).wf(),
        ensures
            final(self).wf(),
            final(wn).wf(),
            extends(old(wn).groups@, final(wn).groups@),
            final(wn).accounts == old(wn).accounts,
            final(wn).secrets == old(wn).secrets,
            final(wn).relays == old(wn).relays,
            final(wn).dev_mode == old(wn).dev_mode,
            final(self)@.groups == old(self)@.groups,
            final(self)@.items == old(self)@.items,
            final(self)@.cursor == (if old(self)@.cursor < old(self)@.items.len() {
                old(self)@.cursor + 1
            } else {
                old(self)@.cursor
            }),
            processed is Err || old(self)@.cursor == old(self)@.items.len() ==> {
                &&& outcome.result is Ok
                &&& outcome.emissions.deep_view() == Seq::<EmissionView>::empty()
                &&& final(wn).groups@ == old(wn).groups@
            },
            processed matches Ok(payloads) ==> old(self)@.cursor < old(self)@.items.len() ==> {
                let k = old(self)@.cursor;
                let id = old(self)@.group_id(k);
                let snapshot = old(self)@.groups[old(self)@.items[k].group_index];
                if has_mls_id(old(wn).groups@, id) {
                    let index = index_of_mls_id(old(wn).groups@, id);
                    &&& outcome.result is Ok
                    &&& final(wn).groups@ == received_all(old(wn).groups@, index, payloads.deep_view())
                    &&& outcome.emissions.deep_view() == fresh_events(
                        old(wn).groups@,
                        index,
                        payloads.deep_view(),
                    ).map_values(|e: UnsignedEventView| EmissionView::MessageReceived(snapshot, e))
                } else {
                    &&& final(wn).groups@ == old(wn).groups@
                    &&& outcome.emissions.deep_view() == Seq::<EmissionView>::empty()
                    &&& outcome.result == (if any_message(payloads.deep_view()) {
                        Err::<(), _>(Error::NotFound)
                    } else {
                        Ok(())
                    })
                }
            },
    {
        let mut emissions: Vec<Emission> = Vec::new();
        assert(emissions.deep_view() =~= Seq::<EmissionView>::empty());
        if self.cursor >= self.items.len() {
            return FetchOutcome { emissions, result: Ok(()) };
        }
        let ghost k = self.cursor as int;
        let group_index = self.items[self.cursor].group_index;
        assert(self@.items[k].group_index == group_index);
        self.cursor = self.cursor + 1;
        let payloads = match processed {
            Err(_) => {
                return FetchOutcome { emissions, result: Ok(()) };
            },
            Ok(payloads) => payloads,
        };
        let group = &self.groups[group_index];
        assert(self@.groups[group_index as int] == group@);
        let ghost before = wn.groups@;
        let ghost id = group.mls_group_id@;
        let ghost all = payloads.deep_view();
        let ghost known = has_mls_id(before, id);
        let ghost index = index_of_mls_id(before, id);
        let ghost wrap = |e: UnsignedEventView| EmissionView::MessageReceived(group@, e);
        let mut i: usize = 0;
        proof {
            assert(all.take(0) =~= Seq::<Seq<u8>>::empty());
            assert(Seq::<UnsignedEventView>::empty().map_values(wrap) =~= Seq::<EmissionView>::empty());
        }
        while i < payloads.len()
            invariant
                i <= payloads.len(),
                all == payloads.deep_view(),
                processed == Ok::<Vec<Vec<u8>>, Error>(payloads),
                self.wf(),
                self@.groups == old(self)@.groups,
                self@.items == old(self)@.items,
                self@.cursor == old(self)@.cursor + 1,
                old(self)@.cursor < old(self)@.items.len(),
                k == old(self)@.cursor,
                group_index == old(self)@.items[k].group_index,
                group@ == old(self)@.groups[group_index as int],
                wn.wf(),
                wn.accounts == old(wn).accounts,
                wn.secrets == old(wn).secrets,
                wn.relays == old(wn).relays,
                wn.dev_mode == old(wn).dev_mode,
                before == old(wn).groups@,
                catalog_wf(before),
                id == group.mls_group_id@,
                known == has_mls_id(before, id),
                index == index_of_mls_id(before, id),
                wrap == (|e: UnsignedEventView| EmissionView::MessageReceived(group@, e)),
                known ==> wn.groups@ == received_all(before, index, all.take(i as int)),
                known ==> emissions.deep_view() == fresh_events(before, index, all.take(i as int)).map_values(wrap),
                !known ==> wn.groups@ == before && emissions.deep_view() == Seq::<EmissionView>::empty(),
                !known ==> forall|j: int| 0 <= j < i ==> payload_event(#[trigger] all[j]) is None,
            decreases payloads.len() - i,
        {
            proof {
                assert(all.take(i + 1).drop_last() =~= all.take(i as int));
                assert(all.take(i + 1).last() == all[i as int]);
                assert(payloads[i as int].deep_view() =~= payloads[i as int]@);
                assert(all[i as int] == payloads[i as int]@);
                if known {
                    assert(before[index].mls_group_id == id);
                    lemma_received_all(before, index, all.take(i as int));
                }
            }
            let parsed = match json_text(payloads[i].as_slice()) {
                None => None,
                Some(text) => unsigned_event_from_json(text.as_str()),
            };
            match parsed {
                None => {},
                Some(event) => {
                    let mut event = event;
                    let identified = event.ensure_id();
                    assert(identified);
                    let copy = event.duplicate();
                    let ghost current = wn.groups@;
                    match wn.groups.receive_message(&group.mls_group_id, event) {
                        Err(e) => {
                            proof {
                                assert(payload_event(all[i as int]) is Some);
                                if known {
                                    assert(current[index].mls_group_id == id);
                                }
                                assert(!known);
                            }
                            return FetchOutcome { emissions, result: Err(e) };
                        },
                        Ok(fresh) => {
                            proof {
                                if !known {
                                    let j = index_of_mls_id(current, id);
                                    assert(current[j].mls_group_id == id);
                                }
                                assert(current[index].mls_group_id == id);
                                assert(index_of_mls_id(current, id) == index);
                            }
                            if fresh {
                                let ghost emitted = emissions.deep_view();
                                emissions.push(Emission::MessageReceived(group.duplicate(), copy));
                                assert(emissions.deep_view() =~= emitted.push(wrap(copy@)));
                                assert(emissions.deep_view() =~= fresh_events(
                                    before,
                                    index,
                                    all.take(i + 1),
                                ).map_values(wrap));
                            }
                        },
                    }
                },
            }
            i += 1;
        }
        proof {
            assert(all.take(i as int) =~= all);
            if known {
                assert(before[index].mls_group_id == id);
                lemma_received_all(before, index, all);
            }
            if !known {
                if any_message(all) {
                    let j = choose|j: int| 0 <= j < all.len() && payload_event(#[trigger] all[j]) is Some;
                    assert(payload_event(all[j]) is None);
                }
            }
        }
        FetchOutcome { emissions, result: Ok(()) }
    }
}

} // verus!
