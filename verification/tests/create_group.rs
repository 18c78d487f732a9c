use whitenoise::commands::accounts::{get_active_account, login};
use whitenoise::commands::groups::{
    create_group, get_group, get_groups, group_type_for, CreatedGroup, GroupDraft, WelcomeFanout,
};
use whitenoise::error::Error;
use whitenoise::groups::{GroupType, NostrGroupData};
use whitenoise::hexcode::{from_hex, to_hex};
use whitenoise::welcome::{
    group_relays, publish_relays, relays_tag, validate_group_members, welcome_expiration,
    welcome_relays, DeliveryStep,
};
use whitenoise::whitenoise::{Emission, Whitenoise};

const ALICE: &str = "5c0c523f52a5b6fad39ed2403092df8cebc36318b39383bca6c00808626fab3a";
const BOB: &str = "4b22aa260e4acb7021e32f38a6cdf4b673c6a277755bfce287e370c924dc936d";
const CAROL: &str = "7f3b02c9d3704396ff5d7a3b4e2a5a8ff90bd8c4f6d0a3e2d1c0b9a897867564";

fn pubkey_of(secret: &str) -> String {
    nostr_sdk::Keys::parse(secret).unwrap().public_key().to_hex()
}

fn texts(list: &[&str]) -> Vec<String> {
    list.iter().map(|s| s.to_string()).collect()
}

fn alice_core() -> Whitenoise {
    let mut wn = Whitenoise::new(texts(&["wss://relay.example.com"]), false);
    login(&mut wn, ALICE).unwrap();
    wn
}

fn draft_for(wn: &Whitenoise, members: &[&str]) -> GroupDraft {
    let alice = pubkey_of(ALICE);
    let members: Vec<String> = members.iter().map(|s| pubkey_of(s)).collect();
    create_group(
        wn,
        alice.clone(),
        members,
        vec![alice.clone()],
        "friends".to_string(),
        "a group".to_string(),
        &alice,
    )
    .unwrap()
}

fn created(member_count: usize) -> CreatedGroup {
    CreatedGroup {
        mls_group_id: vec![0xaa, 0xbb],
        epoch: 0,
        member_count,
        serialized_welcome_message: vec![0xde, 0xad, 0xbe, 0xef],
        nostr_group_data: NostrGroupData {
            nostr_group_id: "f00d".to_string(),
            name: "friends".to_string(),
            description: "a group".to_string(),
            admin_pubkeys: vec![pubkey_of(ALICE)],
            relays: texts(&["wss://relay.example.com"]),
        },
    }
}

fn deliver_all(fanout: &mut WelcomeFanout) {
    while fanout.pending_member().is_some() {
        assert_eq!(fanout.on_publish_result(true), DeliveryStep::Delivered);
    }
}

#[test]
fn membership_rules() {
    let creator = "c".to_string();
    let ok = validate_group_members(&creator, &texts(&["a", "b"]), &texts(&["c", "a"]));
    assert_eq!(ok, Ok(()));
    assert_eq!(validate_group_members(&creator, &texts(&["a"]), &texts(&[])), Ok(()));
    assert_eq!(
        validate_group_members(&creator, &texts(&[]), &texts(&["c"])),
        Err(Error::InvalidInput)
    );
    assert_eq!(
        validate_group_members(&creator, &texts(&["a", "c"]), &texts(&["c"])),
        Err(Error::InvalidInput)
    );
    assert_eq!(
        validate_group_members(&creator, &texts(&["a", "b", "a"]), &texts(&["c"])),
        Err(Error::InvalidInput)
    );
    assert_eq!(
        validate_group_members(&creator, &texts(&["a", "b"]), &texts(&["c", "d"])),
        Err(Error::InvalidInput)
    );
}

#[test]
fn create_group_needs_the_active_account_to_be_creator_and_signer() {
    let alice = pubkey_of(ALICE);
    let bob = pubkey_of(BOB);
    let empty = Whitenoise::new(vec![], false);
    let none = create_group(
        &empty,
        alice.clone(),
        vec![bob.clone()],
        vec![alice.clone()],
        "n".to_string(),
        "d".to_string(),
        &alice,
    );
    assert_eq!(none.err(), Some(Error::NotFound));
    let wn = alice_core();
    let other_creator = create_group(
        &wn,
        bob.clone(),
        vec![alice.clone()],
        vec![bob.clone()],
        "n".to_string(),
        "d".to_string(),
        &alice,
    );
    assert_eq!(other_creator.err(), Some(Error::Unauthorized));
    let other_signer = create_group(
        &wn,
        alice.clone(),
        vec![bob.clone()],
        vec![alice.clone()],
        "n".to_string(),
        "d".to_string(),
        &bob,
    );
    assert_eq!(other_signer.err(), Some(Error::Unauthorized));
    let bad_members = create_group(
        &wn,
        alice.clone(),
        vec![],
        vec![alice.clone()],
        "n".to_string(),
        "d".to_string(),
        &alice,
    );
    assert_eq!(bad_members.err(), Some(Error::InvalidInput));
}

#[test]
fn the_draft_carries_the_request_and_the_relays() {
    let wn = alice_core();
    let draft = draft_for(&wn, &[BOB]);
    assert_eq!(draft.creator_pubkey, pubkey_of(ALICE));
    assert_eq!(draft.member_pubkeys, vec![pubkey_of(BOB)]);
    assert_eq!(draft.admin_pubkeys, vec![pubkey_of(ALICE)]);
    assert_eq!(draft.group_name, "friends");
    assert_eq!(draft.description, "a group");
    assert_eq!(draft.group_relays, texts(&["wss://relay.example.com"]));
}

#[test]
fn a_development_build_adds_its_relay() {
    let relays = texts(&["wss://a.example.com"]);
    assert_eq!(group_relays(&relays, false), relays);
    assert_eq!(group_relays(&relays, true), texts(&["wss://a.example.com", "ws://localhost:8080"]));
    assert_eq!(publish_relays(&relays, false), relays);
    assert_eq!(publish_relays(&relays, true), texts(&["ws://localhost:8080"]));
}

#[test]
fn welcome_relays_fall_back_from_inbox_to_general_to_default() {
    let inbox = texts(&["wss://inbox.example.com"]);
    let general = texts(&["wss://general.example.com"]);
    let default = texts(&["wss://default.example.com"]);
    assert_eq!(welcome_relays(&inbox, &general, &default), inbox);
    assert_eq!(welcome_relays(&vec![], &general, &default), general);
    assert_eq!(welcome_relays(&vec![], &vec![], &default), default);
}

#[test]
fn a_welcome_expires_thirty_days_later() {
    assert_eq!(welcome_expiration(0), 2_592_000);
    assert_eq!(welcome_expiration(1_700_000_000), 1_702_592_000);
    assert_eq!(welcome_expiration(u64::MAX - 5), u64::MAX);
}

#[test]
fn group_type_is_direct_message_for_exactly_two_members() {
    assert_eq!(group_type_for(2), GroupType::DirectMessage);
    assert_eq!(group_type_for(1), GroupType::Group);
    assert_eq!(group_type_for(3), GroupType::Group);
    assert_eq!(group_type_for(0), GroupType::Group);
}

#[test]
fn alice_creates_a_group_with_bob() {
    let mut wn = alice_core();
    let draft = draft_for(&wn, &[BOB]);
    let mut fanout = draft.on_group_created(created(2));
    assert_eq!(fanout.pending_member(), Some(pubkey_of(BOB)));
    let author = from_hex(&pubkey_of(ALICE)).unwrap();
    let inbox = texts(&["wss://inbox.bob.example.com", "not a relay"]);
    let welcome = fanout
        .prepare_welcome(&author, 1_700_000_000, &inbox, &texts(&["wss://bob.example.com"]), &vec![])
        .unwrap();
    assert_eq!(to_hex(&welcome.recipient), pubkey_of(BOB));
    assert_eq!(welcome.relay_urls, inbox);
    assert_eq!(welcome.expiration, 1_702_592_000);
    assert_eq!(welcome.rumor.kind, 444);
    assert_eq!(welcome.rumor.content, "deadbeef");
    assert_eq!(welcome.rumor.pubkey, author);
    assert_eq!(welcome.rumor.created_at, 1_700_000_000);
    assert_eq!(welcome.rumor.tags, vec![texts(&["relays", "wss://inbox.bob.example.com"])]);
    assert_eq!(welcome.rumor.id.as_ref().map(|id| id.len()), Some(32));
    assert_eq!(fanout.on_publish_result(true), DeliveryStep::Delivered);
    assert_eq!(fanout.pending_member(), None);
    let outcome = fanout.finish(&mut wn);
    let group = outcome.result.unwrap();
    assert_eq!(group.group_type, GroupType::DirectMessage);
    assert_eq!(group.mls_group_id, vec![0xaa, 0xbb]);
    assert_eq!(group.nostr_group_id, "f00d");
    assert_eq!(group.epoch, 0);
    assert_eq!(outcome.emissions.len(), 1);
    match &outcome.emissions[0] {
        Emission::GroupAdded(added) => assert_eq!(added.mls_group_id, vec![0xaa, 0xbb]),
        _ => panic!("another announcement than group_added"),
    }
    let account = get_active_account(&wn).unwrap();
    assert_eq!(account.mls_group_ids, vec![vec![0xaa, 0xbb]]);
    assert_eq!(account.nostr_group_ids, texts(&["f00d"]));
    assert_eq!(get_groups(&wn).len(), 1);
    assert_eq!(get_group(&wn, "aabb").unwrap().nostr_group_id, "f00d");
}

#[test]
fn a_group_of_three_is_no_direct_message() {
    let mut wn = alice_core();
    let draft = draft_for(&wn, &[BOB, CAROL]);
    let mut fanout = draft.on_group_created(created(3));
    deliver_all(&mut fanout);
    let group = fanout.finish(&mut wn).result.unwrap();
    assert_eq!(group.group_type, GroupType::Group);
}

#[test]
fn publishing_is_retried_after_a_second_up_to_five_times() {
    let wn = alice_core();
    let draft = draft_for(&wn, &[BOB]);
    let mut fanout = draft.on_group_created(created(2));
    assert_eq!(fanout.on_publish_result(false), DeliveryStep::RetryAfter(1));
    assert_eq!(fanout.on_publish_result(false), DeliveryStep::RetryAfter(1));
    assert_eq!(fanout.on_publish_result(false), DeliveryStep::RetryAfter(1));
    assert_eq!(fanout.on_publish_result(false), DeliveryStep::RetryAfter(1));
    assert_eq!(fanout.pending_member(), Some(pubkey_of(BOB)));
    assert_eq!(fanout.on_publish_result(true), DeliveryStep::Delivered);
    assert_eq!(fanout.pending_member(), None);
    assert_eq!(fanout.on_publish_result(true), DeliveryStep::Delivered);
}

#[test]
fn failures_of_one_member_do_not_count_for_the_next() {
    let wn = alice_core();
    let draft = draft_for(&wn, &[BOB, CAROL]);
    let mut fanout = draft.on_group_created(created(3));
    for _ in 0..4 {
        assert_eq!(fanout.on_publish_result(false), DeliveryStep::RetryAfter(1));
    }
    assert_eq!(fanout.on_publish_result(true), DeliveryStep::Delivered);
    assert_eq!(fanout.pending_member(), Some(pubkey_of(CAROL)));
    for _ in 0..4 {
        assert_eq!(fanout.on_publish_result(false), DeliveryStep::RetryAfter(1));
    }
    assert_eq!(fanout.on_publish_result(true), DeliveryStep::Delivered);
    assert_eq!(fanout.pending_member(), None);
}

#[test]
fn welcome_delivery_fails_on_all_five_attempts() {
    let mut wn = alice_core();
    let draft = draft_for(&wn, &[BOB, CAROL]);
    let mut fanout = draft.on_group_created(created(3));
    assert_eq!(fanout.on_publish_result(true), DeliveryStep::Delivered);
    assert_eq!(fanout.pending_member(), Some(pubkey_of(CAROL)));
    for _ in 0..4 {
        assert_eq!(fanout.on_publish_result(false), DeliveryStep::RetryAfter(1));
    }
    assert_eq!(fanout.on_publish_result(false), DeliveryStep::GiveUp);
    assert_eq!(fanout.pending_member(), None);
    assert_eq!(fanout.on_publish_result(true), DeliveryStep::GiveUp);
    let author = from_hex(&pubkey_of(ALICE)).unwrap();
    assert_eq!(
        fanout.prepare_welcome(&author, 1, &vec![], &vec![], &vec![]).err(),
        Some(Error::NotFound)
    );
    let outcome = fanout.finish(&mut wn);
    assert_eq!(outcome.result.err(), Some(Error::WelcomeDeliveryFailed));
    assert!(outcome.emissions.is_empty());
    assert!(get_groups(&wn).is_empty());
    assert!(get_active_account(&wn).unwrap().mls_group_ids.is_empty());
}

#[test]
fn finishing_before_every_welcome_is_out_registers_nothing() {
    let mut wn = alice_core();
    let draft = draft_for(&wn, &[BOB]);
    let fanout = draft.on_group_created(created(2));
    let outcome = fanout.finish(&mut wn);
    assert_eq!(outcome.result.err(), Some(Error::WelcomeDeliveryFailed));
    assert!(get_groups(&wn).is_empty());
}

#[test]
fn a_member_whose_key_is_not_hexadecimal_gets_no_welcome() {
    let wn = alice_core();
    let alice = pubkey_of(ALICE);
    let draft = create_group(
        &wn,
        alice.clone(),
        vec!["bob".to_string()],
        vec![alice.clone()],
        "n".to_string(),
        "d".to_string(),
        &alice,
    )
    .unwrap();
    let fanout = draft.on_group_created(created(2));
    let author = from_hex(&alice).unwrap();
    assert_eq!(
        fanout.prepare_welcome(&author, 1, &vec![], &vec![], &vec![]).err(),
        Some(Error::InvalidInput)
    );
}

#[test]
fn registering_the_same_group_twice_is_a_duplicate() {
    let mut wn = alice_core();
    let mut first = draft_for(&wn, &[BOB]).on_group_created(created(2));
    deliver_all(&mut first);
    assert!(first.finish(&mut wn).result.is_ok());
    let mut second = draft_for(&wn, &[BOB]).on_group_created(created(2));
    deliver_all(&mut second);
    let outcome = second.finish(&mut wn);
    assert_eq!(outcome.result.err(), Some(Error::Duplicate));
    assert!(outcome.emissions.is_empty());
    assert_eq!(get_groups(&wn).len(), 1);
    assert_eq!(get_active_account(&wn).unwrap().mls_group_ids.len(), 1);
}

#[test]
fn the_relays_tag_lists_the_addresses_that_parse_as_the_parser_writes_them() {
    let urls = texts(&[
        "wss://Relay.Example.COM",
        "https://not-a-relay.example.com",
        "ws://localhost:8080/",
        "nonsense",
        "wss://relay.example.com/path",
    ]);
    let expected = texts(&[
        "relays",
        "wss://relay.example.com",
        "ws://localhost:8080/",
        "wss://relay.example.com/path",
    ]);
    assert_eq!(relays_tag(&urls), expected);
    assert_eq!(relays_tag(&vec![]), texts(&["relays"]));
}
