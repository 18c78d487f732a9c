//! The operations that the core offers, under the names its host calls them by.

pub mod accounts;
pub mod groups;
pub mod send;
pub mod fetch;
