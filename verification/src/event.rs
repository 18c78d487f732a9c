//! Events of the relay overlay, held as plain values.

use crate::protocol::{event_id, event_id_spec};
use vstd::prelude::*;

verus! {

/// Kind of an application chat message, carried inside the group's ciphertext.
pub const KIND_CHAT: u16 = 9;

/// Kind of the payload of a welcome envelope.
pub const KIND_MLS_WELCOME: u16 = 444;

/// Kind of a published group message.
pub const KIND_MLS_GROUP_MESSAGE: u16 = 445;

/// Length in bytes of an event id and of a public key.
pub const ID_LEN: usize = 32;

/// An event without a signature. Its id, once set, is meant to be the hash of
/// the other fields.
pub struct UnsignedEvent {
    pub id: Option<Vec<u8>>,
    pub pubkey: Vec<u8>,
    pub created_at: u64,
    pub kind: u16,
    pub tags: Vec<Vec<String>>,
    pub content: String,
}

/// What an [`UnsignedEvent`] holds.
pub struct UnsignedEventView {
    pub id: Option<Seq<u8>>,
    pub pubkey: Seq<u8>,
    pub created_at: u64,
    pub kind: u16,
    pub tags: Seq<Seq<Seq<char>>>,
    pub content: Seq<char>,
}

impl View for UnsignedEvent {
    type V = UnsignedEventView;

    open spec fn view(&self) -> UnsignedEventView {
        UnsignedEventView {
            id: self.id.deep_view(),
            pubkey: self.pubkey@,
            created_at: self.created_at,
            kind: self.kind,
            tags: self.tags.deep_view(),
            content: self.content@,
        }
    }
}

impl DeepView for UnsignedEvent {
    type V = UnsignedEventView;

    open spec fn deep_view(&self) -> UnsignedEventView {
        self.view()
    }
}

/// What the core reads of a signed event that a relay returned.
pub struct RelayEvent {
    pub id: Vec<u8>,
    pub created_at: u64,
    pub tags: Vec<Vec<String>>,
    pub content: String,
}

/// What a [`RelayEvent`] holds.
pub struct RelayEventView {
    pub id: Seq<u8>,
    pub created_at: u64,
    pub tags: Seq<Seq<Seq<char>>>,
    pub content: Seq<char>,
}

impl View for RelayEvent {
    type V = RelayEventView;

    open spec fn view(&self) -> RelayEventView {
        RelayEventView {
            id: self.id@,
            created_at: self.created_at,
            tags: self.tags.deep_view(),
            content: self.content@,
        }
    }
}

impl DeepView for RelayEvent {
    type V = RelayEventView;

    open spec fn deep_view(&self) -> RelayEventView {
        self.view()
    }
}

/// A copy of `bytes`.
pub fn copy_bytes(bytes: &Vec<u8>) -> (copy: Vec<u8>)
    ensures
        copy@ == bytes@,
{
    let mut copy: Vec<u8> = Vec::new();
    let mut i: usize = 0;
    while i < bytes.len()
        invariant
            i <= bytes.len(),
            copy@ == bytes@.take(i as int),
        decreases bytes.len() - i,
    {
        copy.push(bytes[i]);
        i += 1;
    }
    copy
}

/// Whether two byte strings are equal.
pub fn same_bytes(a: &Vec<u8>, b: &Vec<u8>) -> (same: bool)
    ensures
        same == (a@ == b@),
{
    if a.len() != b.len() {
        return false;
    }
    let mut i: usize = 0;
    while i < a.len()
        invariant
            i <= a.len(),
            a.len() == b.len(),
            a@.take(i as int) == b@.take(i as int),
        decreases a.len() - i,
    {
        if a[i] != b[i] {
            return false;
        }
        assert(a@.take(i + 1) == a@.take(i as int).push(a[i as int]));
        assert(b@.take(i + 1) == b@.take(i as int).push(b[i as int]));
        i += 1;
    }
    assert(a@ == a@.take(a.len() as int));
    assert(b@ == b@.take(b.len() as int));
    true
}

/// A copy of a list of texts.
pub fn copy_texts(texts: &Vec<String>) -> (copy: Vec<String>)
    ensures
        copy.deep_view() == texts.deep_view(),
{
    let mut copy: Vec<String> = Vec::new();
    let mut i: usize = 0;
    while i < texts.len()
        invariant
            i <= texts.len(),
            copy.len() == i,
            forall|j: int| 0 <= j < i ==> copy[j]@ == texts[j]@,
        decreases texts.len() - i,
    {
        copy.push(texts[i].clone());
        i += 1;
    }
    assert(copy.deep_view() =~= texts.deep_view());
    copy
}

/// A copy of a list of byte strings.
pub fn copy_byte_lists(lists: &Vec<Vec<u8>>) -> (copy: Vec<Vec<u8>>)
    ensures
        copy.deep_view() == lists.deep_view(),
{
    let mut copy: Vec<Vec<u8>> = Vec::new();
    let mut i: usize = 0;
    while i < lists.len()
        invariant
            i <= lists.len(),
            copy.len() == i,
            forall|j: int| 0 <= j < i ==> copy[j]@ == lists[j]@,
        decreases lists.len() - i,
    {
        copy.push(copy_bytes(&lists[i]));
        i += 1;
    }
    assert forall|j: int| 0 <= j < copy.len() implies copy[j].deep_view() == lists[j].deep_view() by {
        assert(copy[j].deep_view() =~= copy[j]@);
        assert(lists[j].deep_view() =~= lists[j]@);
    }
    assert(copy.deep_view() =~= lists.deep_view());
    copy
}

/// A copy of a list of tags.
pub fn copy_tags(tags: &Vec<Vec<String>>) -> (copy: Vec<Vec<String>>)
    ensures
        copy.deep_view() == tags.deep_view(),
{
    let mut copy: Vec<Vec<String>> = Vec::new();
    let mut i: usize = 0;
    while i < tags.len()
        invariant
            i <= tags.len(),
            copy.len() == i,
            forall|j: int| 0 <= j < i ==> copy[j].deep_view() == tags[j].deep_view(),
        decreases tags.len() - i,
    {
        copy.push(copy_texts(&tags[i]));
        i += 1;
    }
    assert(copy.deep_view() =~= tags.deep_view());
    copy
}

/// The view of an optional byte string is the option of its bytes.
pub proof fn lemma_optional_bytes_view(id: Option<Vec<u8>>)
    ensures
        id is Some <==> id.deep_view() is Some,
        id matches Some(v) ==> id.deep_view() == Some(v@),
{
    match id {
        Some(v) => {
            assert(v.deep_view() =~= v@);
        },
        None => {},
    }
}

/// Whether an id is there or can be computed: the outside hash takes a
/// 32-byte author and no tag without a first element.
pub open spec fn can_identify(e: UnsignedEventView) -> bool {
    e.id is Some || (e.pubkey.len() == 32 && forall|i: int|
        0 <= i < e.tags.len() ==> (#[trigger] e.tags[i]).len() > 0)
}

/// An event of the given fields that has no id yet.
pub open spec fn raw_event(
    pubkey: Seq<u8>,
    created_at: u64,
    kind: u16,
    tags: Seq<Seq<Seq<char>>>,
    content: Seq<char>,
) -> UnsignedEventView {
    UnsignedEventView { id: None, pubkey, created_at, kind, tags, content }
}

/// The event with its id set: the one it has, else the hash of its fields.
pub open spec fn identified(e: UnsignedEventView) -> UnsignedEventView {
    if e.id is Some {
        e
    } else {
        UnsignedEventView {
            id: Some(event_id_spec(e.pubkey, e.created_at, e.kind, e.tags, e.content)),
            ..e
        }
    }
}

/// Every tag has a first element exactly if every tag's view has one.
pub proof fn lemma_tag_lengths(tags: Vec<Vec<String>>)
    ensures
        (forall|i: int| 0 <= i < tags.deep_view().len() ==> (#[trigger] tags.deep_view()[i]).len() > 0)
            <==> (forall|i: int| 0 <= i < tags.len() ==> (#[trigger] tags[i]).len() > 0),
{
    let deep = tags.deep_view();
    assert forall|i: int| 0 <= i < tags.len() implies (#[trigger] deep[i]).len() == tags[i].len() by {}
    if forall|i: int| 0 <= i < tags.len() ==> (#[trigger] tags[i]).len() > 0 {
        assert forall|i: int| 0 <= i < deep.len() implies (#[trigger] deep[i]).len() > 0 by {
            assert(tags[i].len() > 0);
        }
    }
    if forall|i: int| 0 <= i < deep.len() ==> (#[trigger] deep[i]).len() > 0 {
        assert forall|i: int| 0 <= i < tags.len() implies (#[trigger] tags[i]).len() > 0 by {
            assert(deep[i].len() > 0);
        }
    }
}

impl UnsignedEvent {
    /// An event of the given fields, its id computed where the fields allow.
    pub fn new(pubkey: Vec<u8>, created_at: u64, kind: u16, tags: Vec<Vec<String>>, content: String) -> (event:
        UnsignedEvent)
        ensures
            event@ == (if can_identify(
                raw_event(pubkey@, created_at, kind, tags.deep_view(), content@),
            ) {
                identified(raw_event(pubkey@, created_at, kind, tags.deep_view(), content@))
            } else {
                raw_event(pubkey@, created_at, kind, tags.deep_view(), content@)
            }),
            event@.id matches Some(id) ==> id.len() == 32,
    {
        let mut event = UnsignedEvent { id: None, pubkey, created_at, kind, tags, content };
        event.ensure_id();
        event
    }

    /// Sets the id where it is missing. Returns whether the event has an id
    /// afterwards; it has none only where none can be computed.
    pub fn ensure_id(&mut self) -> (done: bool)
        ensures
            done == can_identify(old(self)@),
            done ==> final(self)@ == identified(old(self)@),
            !done ==> final(self)@ == old(self)@,
            done && old(self)@.id is None ==> final(self)@.id->0.len() == 32,
    {
        if self.id.is_some() {
            return true;
        }
        proof {
            lemma_tag_lengths(self.tags);
        }
        match event_id(&self.pubkey, self.created_at, self.kind, &self.tags, &self.content) {
            Some(id) => {
                proof {
                    lemma_optional_bytes_view(Some(id));
                }
                self.id = Some(id);
                true
            },
            None => false,
        }
    }

    /// A copy of this event.
    pub fn duplicate(&self) -> (copy: UnsignedEvent)
        ensures
            copy@ == self@,
    {
        let id = match &self.id {
            Some(v) => Some(copy_bytes(v)),
            None => None,
        };
        proof {
            lemma_optional_bytes_view(id);
            lemma_optional_bytes_view(self.id);
        }
        UnsignedEvent {
            id,
            pubkey: copy_bytes(&self.pubkey),
            created_at: self.created_at,
            kind: self.kind,
            tags: copy_tags(&self.tags),
            content: self.content.clone(),
        }
    }
}

impl RelayEvent {
    /// A copy of this event.
    pub fn duplicate(&self) -> (copy: RelayEvent)
        ensures
            copy@ == self@,
    {
        RelayEvent {
            id: copy_bytes(&self.id),
            created_at: self.created_at,
            tags: copy_tags(&self.tags),
            content: self.content.clone(),
        }
    }
}

/// A copy of a list of events.
pub fn copy_events(events: &Vec<UnsignedEvent>) -> (copy: Vec<UnsignedEvent>)
    ensures
        copy.deep_view() == events.deep_view(),
{
    let mut copy: Vec<UnsignedEvent> = Vec::new();
    let mut i: usize = 0;
    while i < events.len()
        invariant
            i <= events.len(),
            copy.len() == i,
            forall|j: int| 0 <= j < i ==> copy[j]@ == events[j]@,
        decreases events.len() - i,
    {
        copy.push(events[i].duplicate());
        i += 1;
    }
    assert(copy.deep_view() =~= events.deep_view());
    copy
}

} // verus!
