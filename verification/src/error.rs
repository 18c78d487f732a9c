//! The kinds of failure that the core reports.

use vstd::prelude::*;

verus! {

/// Why an operation failed.
#[derive(Clone, Copy, Debug, PartialEq, Eq, Structural)]
pub enum Error {
    /// A malformed public key, secret key, hexadecimal text or event.
    InvalidInput,
    /// The caller is not the active account, or not the stated creator.
    Unauthorized,
    /// An unknown group, account or secret.
    NotFound,
    /// A group id that is already known.
    Duplicate,
    /// A secret that differs from the one stored for the same epoch.
    Conflict,
    /// An epoch that does not move forward.
    MonotonicityViolation,
    /// An invitee without a published key package.
    MissingKeyPackage,
    /// The retry budget for one invitee's welcome is spent.
    WelcomeDeliveryFailed,
    /// The group engine refused a message.
    ProcessMessage,
    /// The group engine failed for another reason.
    Engine,
    /// A relay could not be published to or queried.
    Transport,
    /// The state could not be written down.
    Storage,
}

} // verus!
