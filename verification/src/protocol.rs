//! What the overlay's protocol computes: keys, the symmetric envelope, event
//! ids and the JSON forms of events. The computations are those of the
//! `nostr-sdk` and `serde_json` crates; each is reached through one function
//! of this module whose contract is taken on trust.

use crate::event::{UnsignedEvent, UnsignedEventView};
use crate::hexcode::{decoded, digit_value, encoded};
use vstd::prelude::*;

verus! {

/// A secret key and the public key that belongs to it, 32 bytes each.
pub struct KeyPair {
    pub secret_key: Vec<u8>,
    pub public_key: Vec<u8>,
}

/// The key pair that `Keys::parse` derives from a secret key written in
/// hexadecimal or in its human-readable form, as (secret, public) bytes.
pub uninterp spec fn keypair_spec(secret: Seq<char>) -> Option<(Seq<u8>, Seq<u8>)>;

/// The public key that `PublicKey::parse` reads from text.
pub uninterp spec fn public_key_spec(text: Seq<char>) -> Option<Seq<u8>>;

/// What `nip44::decrypt_to_bytes` returns for a key pair and a payload.
pub uninterp spec fn nip44_decrypt_spec(
    secret_key: Seq<u8>,
    public_key: Seq<u8>,
    payload: Seq<char>,
) -> Option<Seq<u8>>;

/// The id that `EventId::new` computes from the fields of an event.
pub uninterp spec fn event_id_spec(
    pubkey: Seq<u8>,
    created_at: u64,
    kind: u16,
    tags: Seq<Seq<Seq<char>>>,
    content: Seq<char>,
) -> Seq<u8>;

/// The JSON text that `serde_json::to_string` writes for an unsigned event.
pub uninterp spec fn unsigned_event_json_spec(event: UnsignedEventView) -> Seq<char>;

/// The unsigned event that `UnsignedEvent::from_json` reads from JSON text.
pub uninterp spec fn unsigned_event_parse_spec(json: Seq<char>) -> Option<UnsignedEventView>;

/// The text that `serde_json` writes back for the JSON value it reads from bytes.
pub uninterp spec fn json_text_spec(bytes: Seq<u8>) -> Option<Seq<char>>;

/// The text of the relay address that `RelayUrl::parse` reads from text.
pub uninterp spec fn relay_url_spec(text: Seq<char>) -> Option<Seq<char>>;

/// The public key, in hexadecimal, of the identity that a secret key stands for.
pub open spec fn identity_spec(secret: Seq<char>) -> Option<Seq<char>> {
    match keypair_spec(secret) {
        Some(pair) => Some(encoded(pair.1)),
        None => None,
    }
}

/// The public key, in hexadecimal, that a key written in any accepted form stands for.
pub open spec fn public_identity_spec(text: Seq<char>) -> Option<Seq<char>> {
    match public_key_spec(text) {
        Some(key) => Some(encoded(key)),
        None => None,
    }
}

/// The longest content, in bytes, that the symmetric envelope takes; the
/// shortest is one byte.
pub const MAX_ENVELOPE_CONTENT: usize = 65_408;

/// A secret key together with the public key that belongs to it: the pair
/// that some secret key's text parses to.
pub open spec fn is_own_pair(secret_key: Seq<u8>, public_key: Seq<u8>) -> bool {
    exists|text: Seq<char>| #[trigger] keypair_spec(text) == Some((secret_key, public_key))
}

/// Text of exactly 64 hexadecimal digits: a 32-byte value.
pub open spec fn is_key_hex(text: Seq<char>) -> bool {
    &&& text.len() == 64
    &&& forall|i: int| 0 <= i < text.len() ==> digit_value(#[trigger] text[i]) is Some
}

/// Fields that the outside event type accepts: a 32-byte author, a 32-byte
/// id where there is one, and no tag without a first element.
pub open spec fn convertible(event: UnsignedEventView) -> bool {
    &&& event.pubkey.len() == 32
    &&& event.id matches Some(id) ==> id.len() == 32
    &&& forall|i: int| 0 <= i < event.tags.len() ==> (#[trigger] event.tags[i]).len() > 0
}

/// Calls `Keys::parse`. The result is a function of the text alone; both
/// keys that it holds are 32 bytes long.
#[verifier::external_body]
pub(crate) fn keys_parse(secret: &str) -> (pair: Option<KeyPair>)
    ensures
        pair is Some <==> keypair_spec(secret@) is Some,
        pair matches Some(p) ==> keypair_spec(secret@) == Some((p.secret_key@, p.public_key@))
            && p.secret_key@.len() == 32 && p.public_key@.len() == 32,
{
    let keys = nostr_sdk::Keys::parse(secret).ok()?;
    Some(KeyPair {
        secret_key: keys.secret_key().to_secret_bytes().to_vec(),
        public_key: keys.public_key().to_bytes().to_vec(),
    })
}

/// Calls `PublicKey::parse`, which tries hexadecimal first: 64 hexadecimal
/// digits always parse, to the bytes they stand for. Every key is 32 bytes.
#[verifier::external_body]
pub(crate) fn public_key_parse(text: &str) -> (parsed: Option<Vec<u8>>)
    ensures
        parsed is Some <==> public_key_spec(text@) is Some,
        parsed matches Some(k) ==> public_key_spec(text@) == Some(k@) && k@.len() == 32,
        parsed matches Some(k) ==> is_key_hex(text@) ==> k@ == decoded(text@),
        parsed is None ==> !is_key_hex(text@),
{
    nostr_sdk::PublicKey::parse(text).ok().map(|k| k.to_bytes().to_vec())
}

/// Calls `PublicKey::from_hex`, which decodes exactly 64 hexadecimal digits
/// and checks nothing else.
#[verifier::external_body]
pub(crate) fn public_key_from_hex(text: &str) -> (key: Option<Vec<u8>>)
    ensures
        key is Some <==> is_key_hex(text@),
        key matches Some(k) ==> k@ == decoded(text@),
{
    nostr_sdk::PublicKey::from_hex(text).ok().map(|k| k.to_bytes().to_vec())
}

/// Calls `nip44::encrypt` at version 2. The nonce is random, so nothing is
/// said of the payload but that `nip44::decrypt_to_bytes`, with the same two
/// keys, gives the content back. Content of no byte or of more than
/// [`MAX_ENVELOPE_CONTENT`] bytes is refused; with a secret key and its own
/// public key nothing else is.
#[verifier::external_body]
pub(crate) fn nip44_encrypt(secret_key: &[u8], public_key: &[u8], content: &[u8]) -> (payload:
    Option<String>)
    ensures
        payload matches Some(p) ==> nip44_decrypt_spec(secret_key@, public_key@, p@) == Some(
            content@,
        ),
        payload is Some ==> 1 <= content@.len() <= MAX_ENVELOPE_CONTENT,
        payload is None ==> !(is_own_pair(secret_key@, public_key@) && 1 <= content@.len()
            <= MAX_ENVELOPE_CONTENT),
{
    let sk = nostr_sdk::SecretKey::from_slice(secret_key).ok()?;
    let pk = nostr_sdk::PublicKey::from_slice(public_key).ok()?;
    nostr_sdk::nips::nip44::encrypt(&sk, &pk, content, nostr_sdk::nips::nip44::Version::V2).ok()
}

/// Calls `nip44::decrypt_to_bytes`. The result is a function of the keys and
/// the payload alone.
#[verifier::external_body]
pub(crate) fn nip44_decrypt(secret_key: &[u8], public_key: &[u8], payload: &str) -> (content:
    Option<Vec<u8>>)
    ensures
        content is Some <==> nip44_decrypt_spec(secret_key@, public_key@, payload@) is Some,
        content matches Some(c) ==> nip44_decrypt_spec(secret_key@, public_key@, payload@) == Some(
            c@,
        ),
{
    let sk = nostr_sdk::SecretKey::from_slice(secret_key).ok()?;
    let pk = nostr_sdk::PublicKey::from_slice(public_key).ok()?;
    nostr_sdk::nips::nip44::decrypt_to_bytes(&sk, &pk, payload).ok()
}

/// Calls `EventId::new`, after turning the fields into the outside types,
/// which takes a 32-byte author and no empty tag. The id is a hash of the
/// fields alone, 32 bytes long.
#[verifier::external_body]
pub(crate) fn event_id(
    pubkey: &Vec<u8>,
    created_at: u64,
    kind: u16,
    tags: &Vec<Vec<String>>,
    content: &String,
) -> (id: Option<Vec<u8>>)
    ensures
        id is Some <==> pubkey@.len() == 32 && forall|i: int|
            0 <= i < tags.len() ==> (#[trigger] tags[i]).len() > 0,
        id matches Some(v) ==> v@ == event_id_spec(
            pubkey@,
            created_at,
            kind,
            tags.deep_view(),
            content@,
        ) && v@.len() == 32,
{
    let pk = nostr_sdk::PublicKey::from_slice(pubkey).ok()?;
    let list: Result<Vec<_>, _> = tags.iter().map(|t| nostr_sdk::Tag::parse(t.clone())).collect();
    let id = nostr_sdk::EventId::new(
        &pk,
        &nostr_sdk::Timestamp::from(created_at),
        &nostr_sdk::Kind::from(kind),
        &nostr_sdk::Tags::from_list(list.ok()?),
        content,
    );
    Some(id.to_bytes().to_vec())
}

/// Calls `serde_json::to_string` on the outside form of the event. The text
/// is a function of the fields alone.
#[verifier::external_body]
pub(crate) fn unsigned_event_to_json(event: &UnsignedEvent) -> (json: Option<String>)
    ensures
        json is Some <==> convertible(event@),
        json matches Some(text) ==> text@ == unsigned_event_json_spec(event@),
{
    let list: Result<Vec<_>, _> = event.tags.iter().map(|t| nostr_sdk::Tag::parse(t.clone())).collect();
    let id = match &event.id {
        Some(bytes) => Some(nostr_sdk::EventId::from_slice(bytes).ok()?),
        None => None,
    };
    let outside = nostr_sdk::UnsignedEvent {
        id,
        pubkey: nostr_sdk::PublicKey::from_slice(&event.pubkey).ok()?,
        created_at: nostr_sdk::Timestamp::from(event.created_at),
        kind: nostr_sdk::Kind::from(event.kind),
        tags: nostr_sdk::Tags::from_list(list.ok()?),
        content: event.content.clone(),
    };
    serde_json::to_string(&outside).ok()
}

/// Calls `UnsignedEvent::from_json`. The event is a function of the text
/// alone, and holds what the outside type can hold.
#[verifier::external_body]
pub(crate) fn unsigned_event_from_json(json: &str) -> (event: Option<UnsignedEvent>)
    ensures
        event is Some <==> unsigned_event_parse_spec(json@) is Some,
        event matches Some(e) ==> unsigned_event_parse_spec(json@) == Some(e@) && convertible(e@),
{
    let e = <nostr_sdk::UnsignedEvent as nostr_sdk::JsonUtil>::from_json(json).ok()?;
    Some(UnsignedEvent {
        id: e.id.map(|i| i.to_bytes().to_vec()),
        pubkey: e.pubkey.to_bytes().to_vec(),
        created_at: e.created_at.as_secs(),
        kind: e.kind.as_u16(),
        tags: e.tags.into_iter().map(|t| t.to_vec()).collect(),
        content: e.content,
    })
}

/// Calls `serde_json::from_slice` for a JSON value and writes the value back
/// as text. The text is a function of the bytes alone.
#[verifier::external_body]
pub(crate) fn json_text(bytes: &[u8]) -> (text: Option<String>)
    ensures
        text is Some <==> json_text_spec(bytes@) is Some,
        text matches Some(t) ==> json_text_spec(bytes@) == Some(t@),
{
    serde_json::from_slice::<serde_json::Value>(bytes).ok().map(|v| v.to_string())
}

/// Calls `RelayUrl::parse` and writes the address back as text. The text is
/// a function of the input alone.
#[verifier::external_body]
pub(crate) fn relay_url(text: &str) -> (address: Option<String>)
    ensures
        address is Some <==> relay_url_spec(text@) is Some,
        address matches Some(a) ==> relay_url_spec(text@) == Some(a@),
{
    nostr_sdk::RelayUrl::parse(text).ok().map(|u| u.to_string())
}

} // verus!
