//! The state of the core, and what it asks its host to announce.

use crate::accounts::AccountManager;
use crate::event::{UnsignedEvent, UnsignedEventView};
use crate::groups::{Group, GroupManager, GroupView};
use crate::secret_store::SecretStore;
use vstd::prelude::*;

verus! {

/// Everything the core keeps: the accounts, the groups, the export secrets,
/// and the settings it reads.
pub struct Whitenoise {
    pub accounts: AccountManager,
    pub groups: GroupManager,
    pub secrets: SecretStore,
    /// The relays of the client's settings.
    pub relays: Vec<String>,
    /// Whether this is a development build.
    pub dev_mode: bool,
}

impl Whitenoise {
    /// The invariants of the three catalogs hold.
    pub open spec fn wf(&self) -> bool {
        &&& self.accounts.wf()
        &&& self.groups.wf()
        &&& self.secrets.wf()
    }

    /// A core that knows no account, no group and no secret.
    pub fn new(relays: Vec<String>, dev_mode: bool) -> (wn: Whitenoise)
        ensures
            wn.wf(),
            wn.accounts@.accounts.len() == 0,
            wn.accounts@.active is None,
            wn.groups@.len() == 0,
            wn.secrets@ == crate::secret_store::SecretMap::empty(),
            wn.relays == relays,
            wn.dev_mode == dev_mode,
    {
        Whitenoise {
            accounts: AccountManager::new(),
            groups: GroupManager::new(),
            secrets: SecretStore::new(),
            relays,
            dev_mode,
        }
    }
}

/// Something to announce to whoever listens; announcing never fails the
/// operation that caused it.
pub enum Emission {
    /// `group_added`, with the new group's record.
    GroupAdded(Group),
    /// `mls_message_sent`, with the group after the append and the message.
    MessageSent(Group, UnsignedEvent),
    /// `mls_message_received`, with the group the batch started from and the message.
    MessageReceived(Group, UnsignedEvent),
}

/// What an [`Emission`] holds.
pub enum EmissionView {
    GroupAdded(GroupView),
    MessageSent(GroupView, UnsignedEventView),
    MessageReceived(GroupView, UnsignedEventView),
}

impl View for Emission {
    type V = EmissionView;

    open spec fn view(&self) -> EmissionView {
        match self {
            Emission::GroupAdded(group) => EmissionView::GroupAdded(group@),
            Emission::MessageSent(group, event) => EmissionView::MessageSent(group@, event@),
            Emission::MessageReceived(group, event) => EmissionView::MessageReceived(group@, event@),
        }
    }
}

impl DeepView for Emission {
    type V = EmissionView;

    open spec fn deep_view(&self) -> EmissionView {
        self.view()
    }
}

} // verus!
