//! Sending a message to a group.
//!
//! The host has the group engine encrypt the message and export the epoch's
//! secret, then signs the sealed message with a throwaway key and publishes
//! it. What is encrypted, how it is sealed, where it is published and what
//! the transcript records is decided here.

use crate::error::Error;
use crate::event::{
    can_identify, copy_bytes, copy_texts, identified, raw_event, UnsignedEvent, UnsignedEventView,
    KIND_CHAT, KIND_MLS_GROUP_MESSAGE,
};
use crate::groups::{
    extends, has_mls_id, index_of_mls_id, lemma_appended_contains, lemma_occurrences, occurrences,
    transcript_wf, with_message, Group,
};
use crate::inbox::group_tag_name;
use crate::protocol::{
    keypair_spec, keys_parse, nip44_decrypt_spec, nip44_encrypt, unsigned_event_json_spec,
    unsigned_event_to_json, MAX_ENVELOPE_CONTENT,
};
use crate::secret_store::{conflicts, stored};
use crate::welcome::{publish_relays, publish_relays_spec};
use crate::whitenoise::{Emission, EmissionView, Whitenoise};
use vstd::prelude::*;

verus! {

/// A message that is ready for the group engine: the inner event that the
/// transcript will hold, and its JSON text, which the engine encrypts.
pub struct OutgoingMessage {
    pub mls_group_id: Vec<u8>,
    pub nostr_group_id: String,
    pub relay_urls: Vec<String>,
    pub inner_event: UnsignedEvent,
    pub json: String,
}

/// A message as it goes to the relays, still to be signed.
pub struct SealedMessage {
    pub kind: u16,
    /// The engine's ciphertext in the symmetric envelope of the epoch.
    pub content: String,
    pub tags: Vec<Vec<String>>,
    /// Where to publish.
    pub relays: Vec<String>,
    pub mls_group_id: Vec<u8>,
    pub inner_event: UnsignedEvent,
}

/// A message that is out and in the transcript.
pub struct SentMessage {
    pub event: UnsignedEvent,
    pub emission: Emission,
}

/// The inner event of a message: a chat event by `author` at `now` without
/// tags, its id computed.
pub open spec fn inner_event_spec(author: Seq<u8>, now: u64, message: Seq<char>) -> UnsignedEventView {
    identified(raw_event(author, now, KIND_CHAT, Seq::empty(), message))
}

/// The one tag of a sealed message: the routing tag with the group's id.
pub open spec fn routing_tags(nostr_group_id: Seq<char>) -> Seq<Seq<Seq<char>>> {
    seq![seq![group_tag_name(), nostr_group_id]]
}

/// Begins sending `message` to `group`. `author` is the public key of the
/// client's signer, 32 bytes, and `now` the time in seconds.
pub fn send_mls_message(group: &Group, message: String, author: &Vec<u8>, now: u64) -> (result:
    Result<OutgoingMessage, Error>)
    ensures
        result is Ok <==> author@.len() == 32,
        result matches Err(e) ==> e == Error::InvalidInput,
        result matches Ok(outgoing) ==> {
            &&& outgoing.inner_event@ == inner_event_spec(author@, now, message@)
            &&& outgoing.inner_event@.id is Some
            &&& outgoing.json@ == unsigned_event_json_spec(outgoing.inner_event@)
            &&& outgoing.mls_group_id@ == group.mls_group_id@
            &&& outgoing.nostr_group_id@ == group.nostr_group_id@
            &&& outgoing.relay_urls.deep_view() == group.relay_urls.deep_view()
        },
{
    let tags: Vec<Vec<String>> = Vec::new();
    assert(tags.deep_view() =~= Seq::<Seq<Seq<char>>>::empty());
    let inner_event = UnsignedEvent::new(copy_bytes(author), now, KIND_CHAT, tags, message);
    match unsigned_event_to_json(&inner_event) {
        None => Err(Error::InvalidInput),
        Some(json) => Ok(
            OutgoingMessage {
                mls_group_id: copy_bytes(&group.mls_group_id),
                nostr_group_id: group.nostr_group_id.clone(),
                relay_urls: copy_texts(&group.relay_urls),
                inner_event,
                json,
            },
        ),
    }
}

impl OutgoingMessage {
    /// Takes the engine's ciphertext and the secret it exports for its
    /// epoch: writes the secret to the store, and seals the ciphertext with
    /// the key pair derived from the secret, used as both ends. Refused
    /// where the store holds another secret for the epoch, where the secret
    /// is no key, and where the ciphertext is empty or too long to seal.
    pub fn seal(self, wn: &mut Whitenoise, ciphertext: &Vec<u8>, export_secret_hex: &String, epoch: u64) -> (result:
        Result<SealedMessage, Error>)
        requires
            old(wn).wf(),
        ensures
            final(wn).wf(),
            final(wn).accounts == old(wn).accounts,
            final(wn).groups == old(wn).groups,
            final(wn).relays == old(wn).relays,
            final(wn).dev_mode == old(wn).dev_mode,
            final(wn).secrets@ == stored(
                old(wn).secrets@,
                (self.mls_group_id@, epoch),
                export_secret_hex@,
            ),
            result is Ok <==> {
                &&& !conflicts(old(wn).secrets@, (self.mls_group_id@, epoch), export_secret_hex@)
                &&& keypair_spec(export_secret_hex@) is Some
                &&& 1 <= ciphertext@.len() <= MAX_ENVELOPE_CONTENT
            },
            result matches Err(e) ==> e == (if conflicts(
                old(wn).secrets@,
                (self.mls_group_id@, epoch),
                export_secret_hex@,
            ) {
                Error::Conflict
            } else {
                Error::InvalidInput
            }),
            result matches Ok(sealed) ==> {
                let pair = keypair_spec(export_secret_hex@)->0;
                &&& nip44_decrypt_spec(pair.0, pair.1, sealed.content@) == Some(ciphertext@)
                &&& sealed.kind == KIND_MLS_GROUP_MESSAGE
                &&& sealed.tags.deep_view() == routing_tags(self.nostr_group_id@)
                &&& sealed.relays.deep_view() == publish_relays_spec(
                    self.relay_urls.deep_view(),
                    old(wn).dev_mode,
                )
                &&& sealed.mls_group_id@ == self.mls_group_id@
                &&& sealed.inner_event@ == self.inner_event@
            },
    {
        match wn.secrets.store(&self.mls_group_id, epoch, export_secret_hex) {
            Err(e) => {
                return Err(e);
            },
            Ok(()) => {},
        }
        let pair = match keys_parse(export_secret_hex.as_str()) {
            Some(pair) => pair,
            None => {
                return Err(Error::InvalidInput);
            },
        };
        let content = match nip44_encrypt(
            pair.secret_key.as_slice(),
            pair.public_key.as_slice(),
            ciphertext.as_slice(),
        ) {
            Some(content) => content,
            None => {
                return Err(Error::InvalidInput);
            },
        };
        let mut tag: Vec<String> = Vec::new();
        tag.push(String::from_str("h"));
        tag.push(self.nostr_group_id.clone());
        let mut tags: Vec<Vec<String>> = Vec::new();
        proof {
            reveal_strlit("h");
            assert("h"@ =~= group_tag_name());
            assert(tag.deep_view() =~= seq![group_tag_name(), self.nostr_group_id@]);
        }
        tags.push(tag);
        assert(tags.deep_view() =~= routing_tags(self.nostr_group_id@));
        Ok(
            SealedMessage {
                kind: KIND_MLS_GROUP_MESSAGE,
                content,
                tags,
                relays: publish_relays(&self.relay_urls, wn.dev_mode),
                mls_group_id: self.mls_group_id,
                inner_event: self.inner_event,
            },
        )
    }
}

impl SealedMessage {
    /// Records that the message is published: the inner event goes into the
    /// group's transcript, and the host is told to announce it.
    pub fn on_published(self, wn: &mut Whitenoise) -> (result: Result<SentMessage, Error>)
        requires
            old(wn).wf(),
        ensures
            final(wn).wf(),
            extends(old(wn).groups@, final(wn).groups@),
            final(wn).accounts == old(wn).accounts,
            final(wn).secrets == old(wn).secrets,
            final(wn).relays == old(wn).relays,
            final(wn).dev_mode == old(wn).dev_mode,
            result is Ok <==> has_mls_id(old(wn).groups@, self.mls_group_id@) && can_identify(
                self.inner_event@,
            ),
            result matches Err(e) ==> final(wn).groups@ == old(wn).groups@ && e == (if has_mls_id(
                old(wn).groups@,
                self.mls_group_id@,
            ) {
                Error::InvalidInput
            } else {
                Error::NotFound
            }),
            result matches Ok(sent) ==> {
                let index = index_of_mls_id(old(wn).groups@, self.mls_group_id@);
                let event = identified(self.inner_event@);
                &&& final(wn).groups@ == with_message(old(wn).groups@, index, event)
                &&& sent.event@ == self.inner_event@
                &&& sent.emission@ == EmissionView::MessageSent(final(wn).groups@[index], sent.event@)
                &&& occurrences(final(wn).groups@[index].transcript, event.id->0) == 1
            },
    {
        let event = self.inner_event.duplicate();
        let ghost before = wn.groups@;
        match wn.groups.add_message_to_group(&self.mls_group_id, self.inner_event) {
            Err(e) => Err(e),
            Ok(group) => {
                proof {
                    let index = index_of_mls_id(before, self.mls_group_id@);
                    let added = identified(event@);
                    assert(before[index].mls_group_id == self.mls_group_id@);
                    lemma_appended_contains(before[index].transcript, added);
                    assert(transcript_wf(wn.groups@[index].transcript));
                    lemma_occurrences(wn.groups@[index].transcript, added.id->0);
                }
                Ok(SentMessage { event: event.duplicate(), emission: Emission::MessageSent(group, event) })
            },
        }
    }
}

} // verus!
