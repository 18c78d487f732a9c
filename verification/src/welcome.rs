//! The rules of inviting members into a new group: who may be invited, where
//! a welcome is sent, what it says, and how often sending is tried.

use crate::error::Error;
use crate::event::{copy_texts, UnsignedEvent, KIND_MLS_WELCOME};
use crate::hexcode::to_hex;
use crate::protocol::{relay_url, relay_url_spec};
use vstd::prelude::*;

verus! {

/// How often the welcome for one member is sent before giving up.
pub const MAX_WELCOME_ATTEMPTS: u32 = 5;

/// Seconds to wait between two attempts.
pub const RETRY_DELAY_SECS: u64 = 1;

/// Seconds after which a welcome envelope expires: thirty days.
pub const WELCOME_LIFETIME_SECS: u64 = 2_592_000;

/// The relay that a development build adds.
pub open spec fn dev_relay() -> Seq<char> {
    "ws://localhost:8080"@
}

/// The name of the tag that lists relays.
pub open spec fn relays_tag_name() -> Seq<char> {
    "relays"@
}

/// Who may be invited: at least one member, none twice, the creator not
/// among them, and every admin a member or the creator.
pub open spec fn valid_membership(
    creator: Seq<char>,
    members: Seq<Seq<char>>,
    admins: Seq<Seq<char>>,
) -> bool {
    &&& members.len() >= 1
    &&& !members.contains(creator)
    &&& members.no_duplicates()
    &&& forall|i: int|
        0 <= i < admins.len() ==> (#[trigger] admins[i]) == creator || members.contains(admins[i])
}

/// Whether `text` is among the first `count` entries of `list`.
fn contains_before(list: &Vec<String>, count: usize, text: &String) -> (found: bool)
    requires
        count <= list.len(),
    ensures
        found == list.deep_view().take(count as int).contains(text@),
{
    let ghost all = list.deep_view();
    let mut i: usize = 0;
    while i < count
        invariant
            i <= count <= list.len(),
            all == list.deep_view(),
            forall|j: int| 0 <= j < i ==> all[j] != text@,
        decreases count - i,
    {
        if list[i] == *text {
            assert(all.take(count as int)[i as int] == text@);
            return true;
        }
        i += 1;
    }
    false
}

/// Whether `text` is in `list`.
pub fn contains_text(list: &Vec<String>, text: &String) -> (found: bool)
    ensures
        found == list.deep_view().contains(text@),
{
    assert(list.deep_view().take(list.len() as int) =~= list.deep_view());
    contains_before(list, list.len(), text)
}

/// Checks the members and admins of a group that is to be created.
pub fn validate_group_members(creator_pubkey: &String, member_pubkeys: &Vec<String>, admin_pubkeys: &Vec<
    String,
>) -> (result: Result<(), Error>)
    ensures
        result is Ok <==> valid_membership(
            creator_pubkey@,
            member_pubkeys.deep_view(),
            admin_pubkeys.deep_view(),
        ),
        result matches Err(e) ==> e == Error::InvalidInput,
{
    let ghost members = member_pubkeys.deep_view();
    let ghost admins = admin_pubkeys.deep_view();
    if member_pubkeys.len() == 0 {
        return Err(Error::InvalidInput);
    }
    if contains_text(member_pubkeys, creator_pubkey) {
        return Err(Error::InvalidInput);
    }
    let mut i: usize = 0;
    while i < member_pubkeys.len()
        invariant
            i <= member_pubkeys.len(),
            members == member_pubkeys.deep_view(),
            members.take(i as int).no_duplicates(),
        decreases member_pubkeys.len() - i,
    {
        if contains_before(member_pubkeys, i, &member_pubkeys[i]) {
            proof {
                let k = choose|k: int| 0 <= k < i && members.take(i as int)[k] == members[i as int];
                assert(members[k] == members[i as int]);
            }
            return Err(Error::InvalidInput);
        }
        proof {
            let shorter = members.take(i as int);
            let longer = members.take(i + 1);
            assert forall|a: int, b: int| 0 <= a < longer.len() && 0 <= b < longer.len() && a
                != b implies #[trigger] longer[a] != #[trigger] longer[b] by {
                if a == i {
                    assert(shorter[b] == members[b]);
                } else if b == i {
                    assert(shorter[a] == members[a]);
                } else {
                    assert(shorter[a] != shorter[b]);
                }
            }
        }
        i += 1;
    }
    assert(members.take(i as int) =~= members);
    let mut j: usize = 0;
    while j < admin_pubkeys.len()
        invariant
            j <= admin_pubkeys.len(),
            members == member_pubkeys.deep_view(),
            admins == admin_pubkeys.deep_view(),
            forall|k: int| 0 <= k < j ==> (#[trigger] admins[k]) == creator_pubkey@ || members.contains(admins[k]),
        decreases admin_pubkeys.len() - j,
    {
        let admin = &admin_pubkeys[j];
        assert(admins[j as int] == admin@);
        if !(*admin == *creator_pubkey) && !contains_text(member_pubkeys, admin) {
            return Err(Error::InvalidInput);
        }
        j += 1;
    }
    Ok(())
}

/// The relays of a new group: the client's relays, and the development relay
/// behind them in a development build.
pub open spec fn group_relays_spec(relays: Seq<Seq<char>>, dev_mode: bool) -> Seq<Seq<char>> {
    if dev_mode {
        relays.push(dev_relay())
    } else {
        relays
    }
}

/// The relays of a new group.
pub fn group_relays(relays: &Vec<String>, dev_mode: bool) -> (list: Vec<String>)
    ensures
        list.deep_view() == group_relays_spec(relays.deep_view(), dev_mode),
{
    let mut list = copy_texts(relays);
    if dev_mode {
        let ghost before = list.deep_view();
        list.push(String::from_str("ws://localhost:8080"));
        assert(list.deep_view() =~= before.push(dev_relay()));
    }
    list
}

/// The relays on which a message to a group is published: the group's own,
/// or the development relay alone in a development build.
pub open spec fn publish_relays_spec(relay_urls: Seq<Seq<char>>, dev_mode: bool) -> Seq<Seq<char>> {
    if dev_mode {
        seq![dev_relay()]
    } else {
        relay_urls
    }
}

/// The relays on which a message to a group is published.
pub fn publish_relays(relay_urls: &Vec<String>, dev_mode: bool) -> (list: Vec<String>)
    ensures
        list.deep_view() == publish_relays_spec(relay_urls.deep_view(), dev_mode),
{
    if dev_mode {
        let mut list: Vec<String> = Vec::new();
        list.push(String::from_str("ws://localhost:8080"));
        assert(list.deep_view() =~= seq![dev_relay()]);
        list
    } else {
        copy_texts(relay_urls)
    }
}

/// Where a member's welcome is sent: the member's inbox relays; without any,
/// the member's general relays; without any, the client's own.
pub open spec fn welcome_relays_spec(
    inbox_relays: Seq<Seq<char>>,
    nostr_relays: Seq<Seq<char>>,
    default_relays: Seq<Seq<char>>,
) -> Seq<Seq<char>> {
    if inbox_relays.len() > 0 {
        inbox_relays
    } else if nostr_relays.len() > 0 {
        nostr_relays
    } else {
        default_relays
    }
}

/// Where a member's welcome is sent.
pub fn welcome_relays(inbox_relays: &Vec<String>, nostr_relays: &Vec<String>, default_relays: &Vec<
    String,
>) -> (list: Vec<String>)
    ensures
        list.deep_view() == welcome_relays_spec(
            inbox_relays.deep_view(),
            nostr_relays.deep_view(),
            default_relays.deep_view(),
        ),
{
    if inbox_relays.len() > 0 {
        copy_texts(inbox_relays)
    } else if nostr_relays.len() > 0 {
        copy_texts(nostr_relays)
    } else {
        copy_texts(default_relays)
    }
}

/// The addresses among `urls` that parse as relay addresses, each as the
/// parser writes it back.
pub open spec fn parsed_relays(urls: Seq<Seq<char>>) -> Seq<Seq<char>>
    decreases urls.len(),
{
    if urls.len() == 0 {
        Seq::empty()
    } else {
        let rest = parsed_relays(urls.drop_last());
        match relay_url_spec(urls.last()) {
            Some(address) => rest.push(address),
            None => rest,
        }
    }
}

/// The tag that lists the relays of a welcome.
pub open spec fn relays_tag_spec(urls: Seq<Seq<char>>) -> Seq<Seq<char>> {
    seq![relays_tag_name()] + parsed_relays(urls)
}

/// The tag that lists the relays of a welcome.
pub fn relays_tag(urls: &Vec<String>) -> (tag: Vec<String>)
    ensures
        tag.deep_view() == relays_tag_spec(urls.deep_view()),
{
    let ghost all = urls.deep_view();
    let mut tag: Vec<String> = Vec::new();
    tag.push(String::from_str("relays"));
    assert(all.take(0) =~= Seq::<Seq<char>>::empty());
    assert(tag.deep_view() =~= seq![relays_tag_name()] + parsed_relays(all.take(0)));
    let mut i: usize = 0;
    while i < urls.len()
        invariant
            i <= urls.len(),
            all == urls.deep_view(),
            tag.deep_view() == seq![relays_tag_name()] + parsed_relays(all.take(i as int)),
        decreases urls.len() - i,
    {
        proof {
            assert(all.take(i + 1).drop_last() =~= all.take(i as int));
            assert(all.take(i + 1).last() == urls[i as int]@);
        }
        match relay_url(urls[i].as_str()) {
            Some(address) => {
                let ghost before = tag.deep_view();
                tag.push(address);
                assert(tag.deep_view() =~= before.push(address@));
                assert(tag.deep_view() =~= seq![relays_tag_name()] + parsed_relays(all.take(i + 1)));
            },
            None => {},
        }
        i += 1;
    }
    assert(all.take(i as int) =~= all);
    tag
}

/// When a welcome sealed at `now` expires.
pub fn welcome_expiration(now: u64) -> (expiration: u64)
    ensures
        expiration == if now + WELCOME_LIFETIME_SECS > u64::MAX {
            u64::MAX
        } else {
            (now + WELCOME_LIFETIME_SECS) as u64
        },
{
    now.saturating_add(WELCOME_LIFETIME_SECS)
}

/// The welcome before it is wrapped: an unsigned event of the welcome kind
/// by `author`, whose content is the welcome in hexadecimal and whose one
/// tag lists the relays.
pub fn welcome_rumor(author: &Vec<u8>, now: u64, welcome: &Vec<u8>, relay_urls: &Vec<String>) -> (rumor:
    UnsignedEvent)
    ensures
        rumor@.pubkey == author@,
        rumor@.created_at == now,
        rumor@.kind == KIND_MLS_WELCOME,
        rumor@.content == crate::hexcode::encoded(welcome@),
        rumor@.tags == seq![relays_tag_spec(relay_urls.deep_view())],
        rumor@.id == if author@.len() == 32 {
            Some(
                crate::protocol::event_id_spec(
                    author@,
                    now,
                    KIND_MLS_WELCOME,
                    seq![relays_tag_spec(relay_urls.deep_view())],
                    crate::hexcode::encoded(welcome@),
                ),
            )
        } else {
            None
        },
{
    let mut tags: Vec<Vec<String>> = Vec::new();
    tags.push(relays_tag(relay_urls));
    assert(tags.deep_view() =~= seq![relays_tag_spec(relay_urls.deep_view())]);
    assert(tags.deep_view()[0].len() > 0);
    assert forall|i: int| 0 <= i < tags.deep_view().len() implies (#[trigger] tags.deep_view()[i]).len()
        > 0 by {}
    UnsignedEvent::new(crate::event::copy_bytes(author), now, KIND_MLS_WELCOME, tags, to_hex(welcome))
}

/// What to do after an attempt to publish a welcome.
#[derive(Clone, Copy, Debug, PartialEq, Eq, Structural)]
pub enum DeliveryStep {
    /// The welcome is out.
    Delivered,
    /// Wait this many seconds, then publish the same envelope again.
    RetryAfter(u64),
    /// The budget is spent.
    GiveUp,
}

/// The step after an attempt, given how many attempts had failed before it.
pub open spec fn delivery_step(failures: u32, published: bool) -> DeliveryStep {
    if published {
        DeliveryStep::Delivered
    } else if failures + 1 < MAX_WELCOME_ATTEMPTS {
        DeliveryStep::RetryAfter(RETRY_DELAY_SECS)
    } else {
        DeliveryStep::GiveUp
    }
}

/// The step after an attempt to publish a welcome.
pub fn next_delivery_step(failures: u32, published: bool) -> (step: DeliveryStep)
    requires
        failures < MAX_WELCOME_ATTEMPTS,
    ensures
        step == delivery_step(failures, published),
{
    if published {
        DeliveryStep::Delivered
    } else if failures + 1 < MAX_WELCOME_ATTEMPTS {
        DeliveryStep::RetryAfter(RETRY_DELAY_SECS)
    } else {
        DeliveryStep::GiveUp
    }
}

} // verus!
