//! The core of a group-messaging client that runs the Messaging Layer
//! Security protocol over a relay overlay.
//!
//! The core keeps three catalogs, of accounts, of groups with their
//! transcripts, and of the export secrets of past epochs, and it makes the
//! decisions of the three operations on groups: creating a group and
//! welcoming its members, sending a message, and fetching messages. The
//! relays, the group engine and the disk belong to the host; the core hands
//! the host what to do next and takes back what came of it.
//!
//! - [`commands`]: the operations, under the names the host calls them by
//! - [`accounts`], [`groups`], [`secret_store`]: the catalogs
//! - [`welcome`], [`inbox`]: the rules of inviting members and of ordering
//!   inbound events
//! - [`event`], [`hexcode`], [`protocol`]: events as plain values, and what
//!   the overlay's protocol computes of them
//! - [`whitenoise`]: the state as a whole; [`error`]: the kinds of failure

pub mod accounts;
pub mod commands;
pub mod error;
pub mod event;
pub mod groups;
pub mod hexcode;
pub mod inbox;
pub mod protocol;
pub mod secret_store;
pub mod welcome;
pub mod whitenoise;
