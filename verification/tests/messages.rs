use whitenoise::commands::accounts::login;
use whitenoise::commands::fetch::{fetch_mls_messages, FetchBatch, FetchStep};
use whitenoise::commands::send::{send_mls_message, SealedMessage};
use whitenoise::error::Error;
use whitenoise::event::RelayEvent;
use whitenoise::groups::{Group, GroupType, NostrGroupData};
use whitenoise::hexcode::from_hex;
use whitenoise::whitenoise::{Emission, Whitenoise};

const ALICE: &str = "5c0c523f52a5b6fad39ed2403092df8cebc36318b39383bca6c00808626fab3a";
const BOB: &str = "4b22aa260e4acb7021e32f38a6cdf4b673c6a277755bfce287e370c924dc936d";
const EXPORT_SECRET: &str = "9a1b6f3c5d7e8f90112233445566778899aabbccddeeff00112233445566778f";
const OTHER_SECRET: &str = "0102030405060708090a0b0c0d0e0f101112131415161718191a1b1c1d1e1f20";

fn pubkey_bytes(secret: &str) -> Vec<u8> {
    nostr_sdk::Keys::parse(secret).unwrap().public_key().to_bytes().to_vec()
}

fn core_with_group(secret: &str) -> (Whitenoise, Group) {
    let mut wn = Whitenoise::new(vec!["wss://relay.example.com".to_string()], false);
    login(&mut wn, secret).unwrap();
    let data = NostrGroupData {
        nostr_group_id: "f00d".to_string(),
        name: "friends".to_string(),
        description: "a group".to_string(),
        admin_pubkeys: vec![],
        relays: vec!["wss://group.example.com".to_string()],
    };
    let group = wn.groups.add_group(vec![0xaa, 0xbb], 0, GroupType::DirectMessage, data).unwrap();
    (wn, group)
}

// Stands for the group engine: the ciphertext it makes of a message is the
// message itself.
fn seal_at(wn: &mut Whitenoise, group: &Group, text: &str, now: u64) -> SealedMessage {
    let outgoing = send_mls_message(group, text.to_string(), &pubkey_bytes(ALICE), now).unwrap();
    let ciphertext = outgoing.json.clone().into_bytes();
    outgoing.seal(wn, &ciphertext, &EXPORT_SECRET.to_string(), 0).unwrap()
}

fn published(sealed: &SealedMessage, id: u8, created_at: u64) -> RelayEvent {
    RelayEvent {
        id: vec![id; 32],
        created_at,
        tags: sealed.tags.clone(),
        content: sealed.content.clone(),
    }
}

// Runs a whole fetch with an engine that returns each ciphertext as the one payload.
fn fetch_all(wn: &mut Whitenoise, events: &Vec<RelayEvent>) -> Vec<Emission> {
    let mut emissions = Vec::new();
    let mut batch = FetchBatch::new(wn, events).unwrap();
    let mut step = batch.next(wn);
    loop {
        step = match step {
            FetchStep::Done => return emissions,
            FetchStep::ExportSecret { .. } => {
                batch.on_export_secret(wn, &EXPORT_SECRET.to_string(), 0).unwrap()
            }
            FetchStep::Process { ciphertext, .. } => {
                let outcome = batch.on_processed(wn, Ok(vec![ciphertext]));
                assert_eq!(outcome.result, Ok(()));
                emissions.extend(outcome.emissions);
                batch.next(wn)
            }
        };
    }
}

#[test]
fn the_inner_event_is_a_chat_message_by_the_signer() {
    let (_, group) = core_with_group(ALICE);
    let outgoing = send_mls_message(&group, "hello".to_string(), &pubkey_bytes(ALICE), 1_700_000_000).unwrap();
    assert_eq!(outgoing.inner_event.kind, 9);
    assert_eq!(outgoing.inner_event.content, "hello");
    assert_eq!(outgoing.inner_event.pubkey, pubkey_bytes(ALICE));
    assert_eq!(outgoing.inner_event.created_at, 1_700_000_000);
    assert!(outgoing.inner_event.tags.is_empty());
    let mut outside = nostr_sdk::UnsignedEvent::new(
        nostr_sdk::Keys::parse(ALICE).unwrap().public_key(),
        nostr_sdk::Timestamp::from(1_700_000_000),
        nostr_sdk::Kind::from(9),
        Vec::<nostr_sdk::Tag>::new(),
        "hello",
    );
    outside.ensure_id();
    assert_eq!(outgoing.inner_event.id, outside.id.map(|id| id.to_bytes().to_vec()));
    assert_eq!(outgoing.json, nostr_sdk::serde_json::to_string(&outside).unwrap());
    assert_eq!(outgoing.mls_group_id, vec![0xaa, 0xbb]);
    assert_eq!(outgoing.nostr_group_id, "f00d");
    assert_eq!(outgoing.relay_urls, vec!["wss://group.example.com".to_string()]);
}

#[test]
fn a_signer_key_of_another_length_is_invalid_input() {
    let (_, group) = core_with_group(ALICE);
    let result = send_mls_message(&group, "hello".to_string(), &vec![1, 2, 3], 1);
    assert_eq!(result.err(), Some(Error::InvalidInput));
}

#[test]
fn sealing_stores_the_secret_and_tags_the_group() {
    let (mut wn, group) = core_with_group(ALICE);
    let sealed = seal_at(&mut wn, &group, "hello", 1_700_000_000);
    assert_eq!(sealed.kind, 445);
    assert_eq!(sealed.tags, vec![vec!["h".to_string(), "f00d".to_string()]]);
    assert_eq!(sealed.relays, vec!["wss://group.example.com".to_string()]);
    assert_eq!(wn.secrets.get_secret(&vec![0xaa, 0xbb], 0), Some(EXPORT_SECRET.to_string()));
    assert_ne!(sealed.content.as_bytes(), sealed.inner_event.content.as_bytes());
}

#[test]
fn in_a_development_build_the_message_goes_to_the_development_relay() {
    let (mut wn, group) = core_with_group(ALICE);
    wn.dev_mode = true;
    let sealed = seal_at(&mut wn, &group, "hello", 1_700_000_000);
    assert_eq!(sealed.relays, vec!["ws://localhost:8080".to_string()]);
}

#[test]
fn encrypt_then_decrypt_with_the_epoch_secret_gives_the_ciphertext_back() {
    let (mut wn, group) = core_with_group(ALICE);
    let outgoing = send_mls_message(&group, "hello".to_string(), &pubkey_bytes(ALICE), 1).unwrap();
    let ciphertext = vec![1u8, 2, 3, 4, 5, 250, 251, 252];
    let sealed = outgoing.seal(&mut wn, &ciphertext, &EXPORT_SECRET.to_string(), 0).unwrap();
    let keys = nostr_sdk::Keys::parse(EXPORT_SECRET).unwrap();
    let opened = nostr_sdk::nips::nip44::decrypt_to_bytes(
        keys.secret_key(),
        &keys.public_key(),
        &sealed.content,
    )
    .unwrap();
    assert_eq!(opened, ciphertext);
    let event = published(&sealed, 1, 1);
    let mut batch = FetchBatch::new(&wn, &vec![event]).unwrap();
    match batch.next(&wn) {
        FetchStep::Process { mls_group_id, ciphertext: returned } => {
            assert_eq!(mls_group_id, vec![0xaa, 0xbb]);
            assert_eq!(returned, ciphertext);
        }
        _ => panic!("the stored secret did not open the event"),
    }
}

#[test]
fn a_different_secret_for_the_same_epoch_is_a_conflict() {
    let (mut wn, group) = core_with_group(ALICE);
    seal_at(&mut wn, &group, "hello", 1);
    let outgoing = send_mls_message(&group, "again".to_string(), &pubkey_bytes(ALICE), 2).unwrap();
    let result = outgoing.seal(&mut wn, &vec![1], &OTHER_SECRET.to_string(), 0);
    assert_eq!(result.err(), Some(Error::Conflict));
    assert_eq!(wn.secrets.get_secret(&vec![0xaa, 0xbb], 0), Some(EXPORT_SECRET.to_string()));
}

#[test]
fn a_secret_that_is_no_key_cannot_seal() {
    let (mut wn, group) = core_with_group(ALICE);
    let outgoing = send_mls_message(&group, "hello".to_string(), &pubkey_bytes(ALICE), 1).unwrap();
    let result = outgoing.seal(&mut wn, &vec![1], &"zz".to_string(), 0);
    assert_eq!(result.err(), Some(Error::InvalidInput));
}

#[test]
fn a_sent_message_is_in_the_senders_transcript_once_whatever_is_fetched() {
    let (mut wn, group) = core_with_group(ALICE);
    let sealed = seal_at(&mut wn, &group, "hello", 1_700_000_000);
    let event = published(&sealed, 1, 1_700_000_001);
    let sent = sealed.on_published(&mut wn).unwrap();
    assert_eq!(sent.event.content, "hello");
    match &sent.emission {
        Emission::MessageSent(group, event) => {
            assert_eq!(group.transcript.len(), 1);
            assert_eq!(event.id, sent.event.id);
        }
        _ => panic!("another announcement than mls_message_sent"),
    }
    for _ in 0..3 {
        let emissions = fetch_all(&mut wn, &vec![event.duplicate()]);
        assert!(emissions.is_empty());
        let transcript = wn.groups.get_group_by_mls_id(&vec![0xaa, 0xbb]).unwrap().transcript;
        assert_eq!(transcript.len(), 1);
        assert_eq!(transcript[0].id, sent.event.id);
    }
}

#[test]
fn publishing_to_a_group_that_is_gone_is_not_found() {
    let (mut wn, group) = core_with_group(ALICE);
    let sealed = seal_at(&mut wn, &group, "hello", 1);
    let mut other = Whitenoise::new(vec![], false);
    assert_eq!(sealed.on_published(&mut other).err(), Some(Error::NotFound));
}

#[test]
fn the_query_names_every_known_group() {
    let (mut wn, _) = core_with_group(BOB);
    assert_eq!(fetch_mls_messages(&wn), vec!["f00d".to_string()]);
    let data = NostrGroupData {
        nostr_group_id: "beef".to_string(),
        name: "n".to_string(),
        description: "d".to_string(),
        admin_pubkeys: vec![],
        relays: vec![],
    };
    wn.groups.add_group(vec![1], 0, GroupType::Group, data).unwrap();
    assert_eq!(fetch_mls_messages(&wn), vec!["f00d".to_string(), "beef".to_string()]);
    assert!(fetch_mls_messages(&Whitenoise::new(vec![], false)).is_empty());
}

#[test]
fn bob_receives_what_alice_sent() {
    let (mut alice, group) = core_with_group(ALICE);
    let sealed = seal_at(&mut alice, &group, "hello", 1_700_000_000);
    let event = published(&sealed, 1, 1_700_000_001);
    sealed.on_published(&mut alice).unwrap();

    let (mut bob, _) = core_with_group(BOB);
    let mut batch = FetchBatch::new(&bob, &vec![event]).unwrap();
    assert_eq!(batch.remaining(), 1);
    let step = match batch.next(&bob) {
        FetchStep::ExportSecret { mls_group_id } => {
            assert_eq!(mls_group_id, vec![0xaa, 0xbb]);
            batch.on_export_secret(&mut bob, &EXPORT_SECRET.to_string(), 0).unwrap()
        }
        _ => panic!("no secret was stored, so one has to be exported"),
    };
    let ciphertext = match step {
        FetchStep::Process { ciphertext, .. } => ciphertext,
        _ => panic!("the exported secret did not open the event"),
    };
    let outcome = batch.on_processed(&mut bob, Ok(vec![ciphertext]));
    assert_eq!(outcome.result, Ok(()));
    assert_eq!(outcome.emissions.len(), 1);
    match &outcome.emissions[0] {
        Emission::MessageReceived(group, event) => {
            assert_eq!(group.mls_group_id, vec![0xaa, 0xbb]);
            assert_eq!(event.content, "hello");
        }
        _ => panic!("another announcement than mls_message_received"),
    }
    assert!(matches!(batch.next(&bob), FetchStep::Done));
    let transcript = bob.groups.get_group_by_mls_id(&vec![0xaa, 0xbb]).unwrap().transcript;
    assert_eq!(transcript.len(), 1);
    assert_eq!(transcript[0].content, "hello");
    assert_eq!(transcript[0].kind, 9);
    assert_eq!(transcript[0].pubkey, pubkey_bytes(ALICE));
    assert_eq!(bob.secrets.get_secret(&vec![0xaa, 0xbb], 0), Some(EXPORT_SECRET.to_string()));
}

#[test]
fn fetching_twice_changes_nothing_and_announces_nothing() {
    let (mut alice, group) = core_with_group(ALICE);
    let sealed = seal_at(&mut alice, &group, "hello", 1_700_000_000);
    let events = vec![published(&sealed, 1, 1_700_000_001)];
    let (mut bob, _) = core_with_group(BOB);
    assert_eq!(fetch_all(&mut bob, &events).len(), 1);
    assert!(fetch_all(&mut bob, &events).is_empty());
    let transcript = bob.groups.get_group_by_mls_id(&vec![0xaa, 0xbb]).unwrap().transcript;
    assert_eq!(transcript.len(), 1);
}

#[test]
fn the_same_message_from_two_relays_is_announced_once() {
    let (mut alice, group) = core_with_group(ALICE);
    let sealed = seal_at(&mut alice, &group, "hello", 1_700_000_000);
    let events = vec![published(&sealed, 1, 5), published(&sealed, 1, 5)];
    let (mut bob, _) = core_with_group(BOB);
    assert_eq!(fetch_all(&mut bob, &events).len(), 1);
    assert_eq!(bob.groups.get_group_by_mls_id(&vec![0xaa, 0xbb]).unwrap().transcript.len(), 1);
}

#[test]
fn messages_delivered_out_of_order_are_processed_in_order() {
    let (mut alice, group) = core_with_group(ALICE);
    let first = seal_at(&mut alice, &group, "one", 100);
    let second = seal_at(&mut alice, &group, "two", 101);
    let third = seal_at(&mut alice, &group, "three", 102);
    let fourth = seal_at(&mut alice, &group, "four", 103);
    let events = vec![
        published(&third, 9, 20),
        published(&fourth, 3, 30),
        published(&first, 5, 10),
        published(&second, 2, 20),
    ];
    let (mut bob, _) = core_with_group(BOB);
    let emissions = fetch_all(&mut bob, &events);
    assert_eq!(emissions.len(), 4);
    let transcript = bob.groups.get_group_by_mls_id(&vec![0xaa, 0xbb]).unwrap().transcript;
    let contents: Vec<&str> = transcript.iter().map(|e| e.content.as_str()).collect();
    assert_eq!(contents, vec!["one", "two", "three", "four"]);
}

#[test]
fn a_corrupted_ciphertext_does_not_stop_the_batch() {
    let (mut alice, group) = core_with_group(ALICE);
    let good = seal_at(&mut alice, &group, "good", 100);
    let other = seal_at(&mut alice, &group, "refused", 101);
    let mut corrupted = published(&good, 1, 10);
    corrupted.content = "AgAAAA".to_string();
    let events = vec![corrupted, published(&other, 2, 20), published(&good, 3, 30)];
    let (mut bob, _) = core_with_group(BOB);
    let mut batch = FetchBatch::new(&bob, &events).unwrap();
    let mut received = Vec::new();
    let mut step = batch.next(&bob);
    loop {
        step = match step {
            FetchStep::Done => break,
            FetchStep::ExportSecret { .. } => {
                batch.on_export_secret(&mut bob, &EXPORT_SECRET.to_string(), 0).unwrap()
            }
            FetchStep::Process { ciphertext, .. } => {
                let text = String::from_utf8(ciphertext.clone()).unwrap();
                let outcome = if text.contains("refused") {
                    batch.on_processed(&mut bob, Err(Error::ProcessMessage))
                } else {
                    batch.on_processed(&mut bob, Ok(vec![ciphertext]))
                };
                assert_eq!(outcome.result, Ok(()));
                received.extend(outcome.emissions);
                batch.next(&bob)
            }
        };
    }
    assert_eq!(batch.remaining(), 0);
    assert_eq!(received.len(), 1);
    let transcript = bob.groups.get_group_by_mls_id(&vec![0xaa, 0xbb]).unwrap().transcript;
    assert_eq!(transcript.len(), 1);
    assert_eq!(transcript[0].content, "good");
}

#[test]
fn payloads_that_are_no_events_are_passed_over() {
    let (mut alice, group) = core_with_group(ALICE);
    let sealed = seal_at(&mut alice, &group, "hello", 100);
    let (mut bob, _) = core_with_group(BOB);
    let mut batch = FetchBatch::new(&bob, &vec![published(&sealed, 1, 10)]).unwrap();
    batch.next(&bob);
    let step = batch.on_export_secret(&mut bob, &EXPORT_SECRET.to_string(), 0).unwrap();
    let ciphertext = match step {
        FetchStep::Process { ciphertext, .. } => ciphertext,
        _ => panic!("the exported secret did not open the event"),
    };
    let payloads = vec![
        b"not json".to_vec(),
        b"{\"some\":\"json\"}".to_vec(),
        ciphertext.clone(),
        vec![],
        ciphertext,
    ];
    let outcome = batch.on_processed(&mut bob, Ok(payloads));
    assert_eq!(outcome.result, Ok(()));
    assert_eq!(outcome.emissions.len(), 1);
    assert_eq!(bob.groups.get_group_by_mls_id(&vec![0xaa, 0xbb]).unwrap().transcript.len(), 1);
}

#[test]
fn events_without_a_group_tag_are_dropped_and_unknown_groups_fail_the_fetch() {
    let (bob, _) = core_with_group(BOB);
    let untagged = RelayEvent { id: vec![1; 32], created_at: 1, tags: vec![], content: "x".to_string() };
    let no_value = RelayEvent {
        id: vec![2; 32],
        created_at: 1,
        tags: vec![vec!["h".to_string()], vec!["h".to_string(), "f00d".to_string()]],
        content: "x".to_string(),
    };
    let other_tag = RelayEvent {
        id: vec![3; 32],
        created_at: 1,
        tags: vec![vec!["e".to_string(), "f00d".to_string()]],
        content: "x".to_string(),
    };
    let batch = FetchBatch::new(&bob, &vec![untagged, no_value, other_tag]).unwrap();
    assert_eq!(batch.remaining(), 0);
    let stray = RelayEvent {
        id: vec![4; 32],
        created_at: 1,
        tags: vec![vec!["p".to_string()], vec!["h".to_string(), "beef".to_string()]],
        content: "x".to_string(),
    };
    assert_eq!(FetchBatch::new(&bob, &vec![stray]).err(), Some(Error::NotFound));
}

#[test]
fn an_exported_secret_that_conflicts_or_is_no_key_ends_the_fetch() {
    let (mut alice, group) = core_with_group(ALICE);
    let sealed = seal_at(&mut alice, &group, "hello", 100);
    let (mut bob, _) = core_with_group(BOB);
    bob.secrets.store(&vec![0xaa, 0xbb], 7, &OTHER_SECRET.to_string()).unwrap();
    let mut batch = FetchBatch::new(&bob, &vec![published(&sealed, 1, 10)]).unwrap();
    assert!(matches!(batch.next(&bob), FetchStep::ExportSecret { .. }));
    assert_eq!(
        batch.on_export_secret(&mut bob, &EXPORT_SECRET.to_string(), 7).err(),
        Some(Error::Conflict)
    );
    assert_eq!(
        batch.on_export_secret(&mut bob, &"junk".to_string(), 8).err(),
        Some(Error::InvalidInput)
    );
    assert_eq!(batch.remaining(), 1);
}

#[test]
fn a_stored_key_that_does_not_open_an_event_passes_it_over() {
    let (mut alice, group) = core_with_group(ALICE);
    let sealed = seal_at(&mut alice, &group, "hello", 100);
    let (mut bob, _) = core_with_group(BOB);
    bob.secrets.store(&vec![0xaa, 0xbb], 0, &OTHER_SECRET.to_string()).unwrap();
    let mut batch = FetchBatch::new(&bob, &vec![published(&sealed, 1, 10)]).unwrap();
    assert!(matches!(batch.next(&bob), FetchStep::Done));
    assert_eq!(batch.remaining(), 0);
    assert!(bob.groups.get_group_by_mls_id(&vec![0xaa, 0xbb]).unwrap().transcript.is_empty());
    let _ = from_hex("00");
}

#[test]
fn a_payload_is_read_as_a_json_value_before_it_is_read_as_an_event() {
    let (mut alice, group) = core_with_group(ALICE);
    let sealed = seal_at(&mut alice, &group, "hello", 100);
    let (mut bob, _) = core_with_group(BOB);
    let mut batch = FetchBatch::new(&bob, &vec![published(&sealed, 1, 10)]).unwrap();
    batch.next(&bob);
    batch.on_export_secret(&mut bob, &EXPORT_SECRET.to_string(), 0).unwrap();
    // A field that occurs twice is no event as it stands; as a JSON value,
    // the later occurrence stands for both.
    let payload = format!(
        "{{ \"pubkey\": \"{}\", \"created_at\": 5, \"kind\": 9, \"tags\": [], \"content\": \"first\", \"content\": \"second\" }}",
        nostr_sdk::Keys::parse(ALICE).unwrap().public_key().to_hex()
    );
    let outcome = batch.on_processed(&mut bob, Ok(vec![payload.into_bytes()]));
    assert_eq!(outcome.result, Ok(()));
    assert_eq!(outcome.emissions.len(), 1);
    let transcript = bob.groups.get_group_by_mls_id(&vec![0xaa, 0xbb]).unwrap().transcript;
    assert_eq!(transcript.len(), 1);
    assert_eq!(transcript[0].content, "second");
    assert_eq!(transcript[0].created_at, 5);
    assert_eq!(transcript[0].id.as_ref().map(|id| id.len()), Some(32));
}

#[test]
fn the_envelope_takes_one_byte_up_to_its_limit_and_no_more() {
    let (mut wn, group) = core_with_group(ALICE);
    let secret = EXPORT_SECRET.to_string();
    let author = pubkey_bytes(ALICE);
    let empty = send_mls_message(&group, "a".to_string(), &author, 1).unwrap();
    assert_eq!(empty.seal(&mut wn, &vec![], &secret, 0).err(), Some(Error::InvalidInput));
    let one = send_mls_message(&group, "b".to_string(), &author, 2).unwrap();
    assert!(one.seal(&mut wn, &vec![7u8], &secret, 0).is_ok());
    let most = send_mls_message(&group, "c".to_string(), &author, 3).unwrap();
    assert!(most.seal(&mut wn, &vec![7u8; 65_408], &secret, 0).is_ok());
    let more = send_mls_message(&group, "d".to_string(), &author, 4).unwrap();
    assert_eq!(more.seal(&mut wn, &vec![7u8; 65_409], &secret, 0).err(), Some(Error::InvalidInput));
}
