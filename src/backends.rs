//! Records shared with the host's storage and mail backends.

use vstd::prelude::*;

verus! {

/// What a mail backend needs to sign in.
#[derive(Debug, Clone, PartialEq, Eq)]
pub struct Creds {}

/// Where a queue of items lives.
#[derive(Debug, Clone, PartialEq, Eq)]
pub struct Address {}

/// Identifies an item of a queue.
#[derive(Debug, Clone, Copy, PartialEq, Eq, Hash, Structural)]
pub struct ItemId(pub u64);

/// An item of a queue.
#[derive(Debug, Clone, Copy, PartialEq, Eq, Structural)]
pub struct Item {
    pub id: ItemId,
}

} // verus!
