//! Operations on groups: reading the catalog, creating a group, and, from
//! their own modules, sending and fetching messages.
//!
//! Creating a group takes several steps with work of the host between them:
//! the host asks the signer, fetches key packages and has the group engine
//! create the group; it then wraps and publishes one welcome per member. The
//! decisions between those steps are made here.

pub use crate::commands::fetch::fetch_mls_messages;
pub use crate::commands::send::send_mls_message;

use crate::accounts::{has_account, index_of_account, with_group_ids, AccountsView};
use crate::error::Error;
use crate::event::{copy_bytes, UnsignedEvent};
use crate::groups::{
    extends, has_mls_id, has_nostr_id, index_of_mls_id, new_record, Group, GroupType, GroupView,
    NostrGroupData,
};
use crate::hexcode::{decoded, is_hex_text};
use crate::protocol::{is_key_hex, public_key_from_hex};
use crate::welcome::{
    delivery_step, group_relays, group_relays_spec, next_delivery_step, valid_membership,
    validate_group_members, welcome_expiration, welcome_relays, welcome_relays_spec, welcome_rumor,
    DeliveryStep, MAX_WELCOME_ATTEMPTS,
};
use crate::whitenoise::{Emission, EmissionView, Whitenoise};
use vstd::prelude::*;

verus! {

/// Snapshots of all groups, in the order of registration.
pub fn get_groups(wn: &Whitenoise) -> (groups: Vec<Group>)
    ensures
        groups.deep_view() == wn.groups@,
{
    wn.groups.get_groups()
}

/// The group whose engine id is written in hexadecimal in `group_id`.
pub fn get_group(wn: &Whitenoise, group_id: &str) -> (result: Result<Group, Error>)
    requires
        wn.wf(),
    ensures
        result is Ok <==> is_hex_text(group_id@) && has_mls_id(wn.groups@, decoded(group_id@)),
        result matches Ok(group) ==> group@ == wn.groups@[index_of_mls_id(
            wn.groups@,
            decoded(group_id@),
        )],
        result matches Err(e) ==> e == (if is_hex_text(group_id@) {
            Error::NotFound
        } else {
            Error::InvalidInput
        }),
{
    wn.groups.get_group(group_id)
}

/// Why a request to create a group is refused, if it is: no account is
/// active; the active account is not the creator, or not the signer; or the
/// members and admins are not as they must be.
pub open spec fn create_group_refusal(
    accounts: AccountsView,
    creator: Seq<char>,
    signer: Seq<char>,
    members: Seq<Seq<char>>,
    admins: Seq<Seq<char>>,
) -> Option<Error> {
    if accounts.active is None {
        Some(Error::NotFound)
    } else if accounts.active != Some(creator) || accounts.active != Some(signer) {
        Some(Error::Unauthorized)
    } else if !valid_membership(creator, members, admins) {
        Some(Error::InvalidInput)
    } else {
        None
    }
}

/// The type of a group: a direct message where it has two members, the
/// creator counted.
pub open spec fn group_type_spec(member_count: usize) -> GroupType {
    if member_count == 2 {
        GroupType::DirectMessage
    } else {
        GroupType::Group
    }
}

/// The type of a group with `member_count` members.
pub fn group_type_for(member_count: usize) -> (group_type: GroupType)
    ensures
        group_type == group_type_spec(member_count),
        group_type == GroupType::DirectMessage <==> member_count == 2,
{
    if member_count == 2 {
        GroupType::DirectMessage
    } else {
        GroupType::Group
    }
}

/// A request to create a group that was found in order, with the relays the
/// group will use. The host hands its fields to the group engine.
pub struct GroupDraft {
    pub creator_pubkey: String,
    pub member_pubkeys: Vec<String>,
    pub admin_pubkeys: Vec<String>,
    pub group_name: String,
    pub description: String,
    pub group_relays: Vec<String>,
}

/// Begins the creation of a group. `signer_pubkey` is the public key of the
/// client's signer, in hexadecimal.
pub fn create_group(
    wn: &Whitenoise,
    creator_pubkey: String,
    member_pubkeys: Vec<String>,
    admin_pubkeys: Vec<String>,
    group_name: String,
    description: String,
    signer_pubkey: &String,
) -> (result: Result<GroupDraft, Error>)
    requires
        wn.wf(),
    ensures
        match result {
            Err(e) => create_group_refusal(
                wn.accounts@,
                creator_pubkey@,
                signer_pubkey@,
                member_pubkeys.deep_view(),
                admin_pubkeys.deep_view(),
            ) == Some(e),
            Ok(draft) => {
                &&& create_group_refusal(
                    wn.accounts@,
                    creator_pubkey@,
                    signer_pubkey@,
                    member_pubkeys.deep_view(),
                    admin_pubkeys.deep_view(),
                ) is None
                &&& draft.creator_pubkey@ == creator_pubkey@
                &&& draft.member_pubkeys.deep_view() == member_pubkeys.deep_view()
                &&& draft.admin_pubkeys.deep_view() == admin_pubkeys.deep_view()
                &&& draft.group_name@ == group_name@
                &&& draft.description@ == description@
                &&& draft.group_relays.deep_view() == group_relays_spec(
                    wn.relays.deep_view(),
                    wn.dev_mode,
                )
            },
        },
{
    let active = match wn.accounts.get_active() {
        Ok(account) => account,
        Err(e) => {
            return Err(e);
        },
    };
    if !(active.pubkey == creator_pubkey) || !(active.pubkey == *signer_pubkey) {
        return Err(Error::Unauthorized);
    }
    match validate_group_members(&creator_pubkey, &member_pubkeys, &admin_pubkeys) {
        Err(e) => {
            return Err(e);
        },
        Ok(()) => {},
    }
    let relays = group_relays(&wn.relays, wn.dev_mode);
    Ok(
        GroupDraft {
            creator_pubkey,
            member_pubkeys,
            admin_pubkeys,
            group_name,
            description,
            group_relays: relays,
        },
    )
}

/// What the group engine returns for a new group.
pub struct CreatedGroup {
    pub mls_group_id: Vec<u8>,
    pub epoch: u64,
    /// How many members the group has, the creator counted.
    pub member_count: usize,
    pub serialized_welcome_message: Vec<u8>,
    pub nostr_group_data: NostrGroupData,
}

/// One welcome, ready to be wrapped for its recipient and published.
pub struct Welcome {
    /// The recipient's public key.
    pub recipient: Vec<u8>,
    /// Where to publish the envelope.
    pub relay_urls: Vec<String>,
    /// What the envelope wraps.
    pub rumor: UnsignedEvent,
    /// When the envelope expires.
    pub expiration: u64,
}

/// A group that the engine has created and whose members are being
/// welcomed, one after the other.
pub struct WelcomeFanout {
    creator_pubkey: String,
    member_pubkeys: Vec<String>,
    created: CreatedGroup,
    delivered: usize,
    failures: u32,
    gave_up: bool,
}

/// What a [`WelcomeFanout`] holds.
pub struct WelcomeFanoutView {
    pub creator: Seq<char>,
    pub members: Seq<Seq<char>>,
    pub mls_group_id: Seq<u8>,
    pub epoch: u64,
    pub member_count: usize,
    pub welcome: Seq<u8>,
    pub nostr_group_id: Seq<char>,
    pub name: Seq<char>,
    pub description: Seq<char>,
    pub admins: Seq<Seq<char>>,
    pub relays: Seq<Seq<char>>,
    /// How many members have their welcome.
    pub delivered: int,
    /// How often publishing the pending welcome has failed.
    pub failures: int,
    /// Whether the budget for one member was spent.
    pub gave_up: bool,
}

impl WelcomeFanoutView {
    /// Whether a member is waiting for a welcome.
    pub open spec fn pending(self) -> bool {
        !self.gave_up && self.delivered < self.members.len()
    }

    /// Whether every member has a welcome.
    pub open spec fn complete(self) -> bool {
        !self.gave_up && self.delivered == self.members.len()
    }

    /// The record under which the group is registered.
    pub open spec fn record(self) -> GroupView {
        new_record(
            self.mls_group_id,
            self.epoch,
            group_type_spec(self.member_count),
            self.nostr_group_id,
            self.name,
            self.description,
            self.admins,
            self.relays,
        )
    }

    /// The state after an attempt to publish the pending welcome.
    pub open spec fn after_attempt(self, published: bool) -> WelcomeFanoutView {
        if !self.pending() {
            self
        } else if published {
            WelcomeFanoutView { delivered: self.delivered + 1, failures: 0, ..self }
        } else {
            WelcomeFanoutView {
                failures: self.failures + 1,
                gave_up: self.failures + 1 >= MAX_WELCOME_ATTEMPTS,
                ..self
            }
        }
    }
}

impl View for WelcomeFanout {
    type V = WelcomeFanoutView;

    closed spec fn view(&self) -> WelcomeFanoutView {
        WelcomeFanoutView {
            creator: self.creator_pubkey@,
            members: self.member_pubkeys.deep_view(),
            mls_group_id: self.created.mls_group_id@,
            epoch: self.created.epoch,
            member_count: self.created.member_count,
            welcome: self.created.serialized_welcome_message@,
            nostr_group_id: self.created.nostr_group_data.nostr_group_id@,
            name: self.created.nostr_group_data.name@,
            description: self.created.nostr_group_data.description@,
            admins: self.created.nostr_group_data.admin_pubkeys.deep_view(),
            relays: self.created.nostr_group_data.relays.deep_view(),
            delivered: self.delivered as int,
            failures: self.failures as int,
            gave_up: self.gave_up,
        }
    }
}

/// How a creation ended: what to announce, and the group or the failure.
pub struct CreateGroupOutcome {
    pub emissions: Vec<Emission>,
    pub result: Result<Group, Error>,
}

impl GroupDraft {
    /// Takes what the group engine returned and begins to welcome the members.
    pub fn on_group_created(self, created: CreatedGroup) -> (fanout: WelcomeFanout)
        ensures
            fanout.wf(),
            fanout@.creator == self.creator_pubkey@,
            fanout@.members == self.member_pubkeys.deep_view(),
            fanout@.mls_group_id == created.mls_group_id@,
            fanout@.epoch == created.epoch,
            fanout@.member_count == created.member_count,
            fanout@.welcome == created.serialized_welcome_message@,
            fanout@.nostr_group_id == created.nostr_group_data.nostr_group_id@,
            fanout@.name == created.nostr_group_data.name@,
            fanout@.description == created.nostr_group_data.description@,
            fanout@.admins == created.nostr_group_data.admin_pubkeys.deep_view(),
            fanout@.relays == created.nostr_group_data.relays.deep_view(),
            fanout@.delivered == 0,
            fanout@.failures == 0,
            !fanout@.gave_up,
    {
        WelcomeFanout {
            creator_pubkey: self.creator_pubkey,
            member_pubkeys: self.member_pubkeys,
            created,
            delivered: 0,
            failures: 0,
            gave_up: false,
        }
    }
}

impl WelcomeFanout {
    /// The progress is within bounds: no more welcomes out than members, and
    /// fewer failures than the budget unless it is spent.
    pub closed spec fn wf(&self) -> bool {
        &&& self.delivered <= self.member_pubkeys.len()
        &&& self.failures <= MAX_WELCOME_ATTEMPTS
        &&& self.gave_up <==> self.failures == MAX_WELCOME_ATTEMPTS
    }

    /// The member whose welcome is to be sent next.
    pub fn pending_member(&self) -> (member: Option<String>)
        requires
            self.wf(),
        ensures
            member is Some <==> self@.pending(),
            member matches Some(m) ==> m@ == self@.members[self@.delivered],
    {
        if !self.gave_up && self.delivered < self.member_pubkeys.len() {
            Some(self.member_pubkeys[self.delivered].clone())
        } else {
            None
        }
    }

    /// The welcome for the pending member, given the relays that the member
    /// is known by and the client's own. `author` is the signer's public key.
    pub fn prepare_welcome(
        &self,
        author: &Vec<u8>,
        now: u64,
        inbox_relays: &Vec<String>,
        nostr_relays: &Vec<String>,
        default_relays: &Vec<String>,
    ) -> (result: Result<Welcome, Error>)
        requires
            self.wf(),
        ensures
            result is Ok <==> self@.pending() && is_key_hex(self@.members[self@.delivered]),
            result matches Err(e) ==> e == (if self@.pending() {
                Error::InvalidInput
            } else {
                Error::NotFound
            }),
            result matches Ok(welcome) ==> {
                &&& welcome.recipient@ == decoded(self@.members[self@.delivered])
                &&& welcome.relay_urls.deep_view() == welcome_relays_spec(
                    inbox_relays.deep_view(),
                    nostr_relays.deep_view(),
                    default_relays.deep_view(),
                )
                &&& welcome.expiration == (if now + crate::welcome::WELCOME_LIFETIME_SECS > u64::MAX {
                    u64::MAX
                } else {
                    (now + crate::welcome::WELCOME_LIFETIME_SECS) as u64
                })
                &&& welcome.rumor@.pubkey == author@
                &&& welcome.rumor@.created_at == now
                &&& welcome.rumor@.kind == crate::event::KIND_MLS_WELCOME
                &&& welcome.rumor@.content == crate::hexcode::encoded(self@.welcome)
                &&& welcome.rumor@.tags == seq![
                    crate::welcome::relays_tag_spec(welcome.relay_urls.deep_view()),
                ]
                &&& welcome.rumor@.id == (if author@.len() == 32 {
                    Some(
                        crate::protocol::event_id_spec(
                            author@,
                            now,
                            crate::event::KIND_MLS_WELCOME,
                            welcome.rumor@.tags,
                            welcome.rumor@.content,
                        ),
                    )
                } else {
                    None
                })
            },
    {
        if self.gave_up || self.delivered >= self.member_pubkeys.len() {
            return Err(Error::NotFound);
        }
        let member = &self.member_pubkeys[self.delivered];
        let recipient = match public_key_from_hex(member.as_str()) {
            Some(key) => key,
            None => {
                return Err(Error::InvalidInput);
            },
        };
        let relay_urls = welcome_relays(inbox_relays, nostr_relays, default_relays);
        let rumor = welcome_rumor(
            author,
            now,
            &self.created.serialized_welcome_message,
            &relay_urls,
        );
        Ok(Welcome { recipient, relay_urls, rumor, expiration: welcome_expiration(now) })
    }

    /// Records an attempt to publish the pending welcome and says what to do next.
    pub fn on_publish_result(&mut self, published: bool) -> (step: DeliveryStep)
        requires
            old(self).wf(),
        ensures
            final(self).wf(),
            final(self)@ == old(self)@.after_attempt(published),
            step == (if old(self)@.pending() {
                delivery_step(old(self)@.failures as u32, published)
            } else if old(self)@.gave_up {
                DeliveryStep::GiveUp
            } else {
                DeliveryStep::Delivered
            }),
    {
        if self.gave_up {
            return DeliveryStep::GiveUp;
        }
        if self.delivered >= self.member_pubkeys.len() {
            return DeliveryStep::Delivered;
        }
        let step = next_delivery_step(self.failures, published);
        match step {
            DeliveryStep::Delivered => {
                self.delivered = self.delivered + 1;
                self.failures = 0;
            },
            DeliveryStep::RetryAfter(_) => {
                self.failures = self.failures + 1;
            },
            DeliveryStep::GiveUp => {
                self.failures = self.failures + 1;
                self.gave_up = true;
            },
        }
        step
    }

    /// Registers the group once every member has a welcome, announces it,
    /// and adds it to the groups that the creator's account knows.
    pub fn finish(self, wn: &mut Whitenoise) -> (outcome: CreateGroupOutcome)
        requires
            self.wf(),
            old(wn).wf(),
        ensures
            final(wn).wf(),
            extends(old(wn).groups@, final(wn).groups@),
            final(wn).secrets == old(wn).secrets,
            final(wn).relays == old(wn).relays,
            final(wn).dev_mode == old(wn).dev_mode,
            !self@.complete() ==> {
                &&& outcome.result == Err::<Group, _>(Error::WelcomeDeliveryFailed)
                &&& outcome.emissions.deep_view() == Seq::<EmissionView>::empty()
                &&& final(wn).groups@ == old(wn).groups@
                &&& final(wn).accounts@ == old(wn).accounts@
            },
            self@.complete() && (has_mls_id(old(wn).groups@, self@.mls_group_id) || has_nostr_id(
                old(wn).groups@,
                self@.nostr_group_id,
            )) ==> {
                &&& outcome.result == Err::<Group, _>(Error::Duplicate)
                &&& outcome.emissions.deep_view() == Seq::<EmissionView>::empty()
                &&& final(wn).groups@ == old(wn).groups@
                &&& final(wn).accounts@ == old(wn).accounts@
            },
            self@.complete() && !has_mls_id(old(wn).groups@, self@.mls_group_id) && !has_nostr_id(
                old(wn).groups@,
                self@.nostr_group_id,
            ) ==> {
                &&& final(wn).groups@ == old(wn).groups@.push(self@.record())
                &&& outcome.emissions.deep_view() == seq![EmissionView::GroupAdded(self@.record())]
                &&& if has_account(old(wn).accounts@.accounts, self@.creator) {
                    &&& outcome.result matches Ok(group)
                    &&& group@ == self@.record()
                    &&& final(wn).accounts@ == with_group_ids(
                        old(wn).accounts@,
                        index_of_account(old(wn).accounts@.accounts, self@.creator),
                        self@.mls_group_id,
                        self@.nostr_group_id,
                    )
                } else {
                    &&& outcome.result == Err::<Group, _>(Error::NotFound)
                    &&& final(wn).accounts@ == old(wn).accounts@
                }
            },
            outcome.result matches Ok(group) ==> (group@.group_type == GroupType::DirectMessage
                <==> self@.member_count == 2),
    {
        let mut emissions: Vec<Emission> = Vec::new();
        assert(emissions.deep_view() =~= Seq::<EmissionView>::empty());
        if self.gave_up || self.delivered < self.member_pubkeys.len() {
            return CreateGroupOutcome { emissions, result: Err(Error::WelcomeDeliveryFailed) };
        }
        let group_type = group_type_for(self.created.member_count);
        let group_id = copy_bytes(&self.created.mls_group_id);
        let nostr_group_id = self.created.nostr_group_data.nostr_group_id.clone();
        let group = match wn.groups.add_group(
            self.created.mls_group_id,
            self.created.epoch,
            group_type,
            self.created.nostr_group_data,
        ) {
            Ok(group) => group,
            Err(e) => {
                return CreateGroupOutcome { emissions, result: Err(e) };
            },
        };
        emissions.push(Emission::GroupAdded(group.duplicate()));
        assert(emissions.deep_view() =~= seq![EmissionView::GroupAdded(group@)]);
        match wn.accounts.add_group_ids(&self.creator_pubkey, group_id, nostr_group_id) {
            Ok(()) => CreateGroupOutcome { emissions, result: Ok(group) },
            Err(e) => CreateGroupOutcome { emissions, result: Err(e) },
        }
    }
}

} // verus!
