//! Model of the server-pushed update envelopes.
//!
//! Each incoming message is a tagged envelope over account, transaction and
//! slot payloads. The tag set is open on the wire: tags outside the modeled
//! set are carried as `Unknown` and ignored by the dispatcher. The inner
//! payload is optional at the wire level even when the tag indicates a
//! category, so the account and transaction envelopes hold an `Option`.

use vstd::prelude::*;

verus! {

/// The categories of updates the pipeline recognizes and dispatches.
#[derive(Clone, Copy, Debug, PartialEq, Eq, Structural)]
pub enum UpdateCategory {
    Account,
    Transaction,
    Slot,
}

/// Snapshot of one account's state, as carried inside an account update.
#[derive(Debug)]
pub struct AccountInfo {
    /// Address of the account.
    pub pubkey: Vec<u8>,
    /// Balance of the account, in the chain's smallest unit.
    pub lamports: u64,
    /// Address of the program that owns the account.
    pub owner: Vec<u8>,
    /// Monotonic version of this write.
    pub write_version: u64,
}

/// Envelope of one account update.
#[derive(Debug)]
pub struct AccountUpdate {
    /// The snapshot itself; absent payloads are tolerated and skipped.
    pub account: Option<AccountInfo>,
    /// Slot in which the change was observed.
    pub slot: u64,
    /// Whether the update belongs to the initial startup snapshot.
    pub is_startup: bool,
}

/// Record of one transaction, as carried inside a transaction update.
#[derive(Debug)]
pub struct TransactionInfo {
    /// First signature of the transaction.
    pub signature: Vec<u8>,
    /// Whether the transaction is a consensus vote.
    pub is_vote: bool,
    /// Position of the transaction within its slot.
    pub index: u64,
}

/// Envelope of one transaction update.
#[derive(Debug)]
pub struct TransactionUpdate {
    /// The record itself; absent payloads are tolerated and skipped.
    pub transaction: Option<TransactionInfo>,
    /// Slot in which the transaction was included.
    pub slot: u64,
}

/// Envelope of one slot-progression update.
#[derive(Debug)]
pub struct SlotUpdate {
    /// The slot that progressed.
    pub slot: u64,
    /// Parent of that slot, when the server reports it.
    pub parent: Option<u64>,
    /// Commitment status code as reported on the wire.
    pub status: u32,
}

/// One server-pushed update, classified by its wire tag. Tags outside the
/// modeled set decode to `Unknown`, which the dispatcher ignores by design.
#[derive(Debug)]
pub enum Update {
    Account(AccountUpdate),
    Transaction(TransactionUpdate),
    Slot(SlotUpdate),
    Unknown,
}

/// The category a dispatcher run on `u` actually hands to a handler:
/// the tag's category when the required payload is present, and `None`
/// for unknown tags or envelopes whose inner payload is absent.
pub open spec fn recognized_category(u: Update) -> Option<UpdateCategory> {
    match u {
        Update::Account(a) => match a.account {
            Option::Some(_) => Option::Some(UpdateCategory::Account),
            Option::None => Option::None,
        },
        Update::Transaction(t) => match t.transaction {
            Option::Some(_) => Option::Some(UpdateCategory::Transaction),
            Option::None => Option::None,
        },
        Update::Slot(_) => Option::Some(UpdateCategory::Slot),
        Update::Unknown => Option::None,
    }
}

/// Whether the tag of `u` indicates a category whose inner payload is
/// nonetheless absent on the wire.
pub open spec fn payload_absent(u: Update) -> bool {
    match u {
        Update::Account(a) => a.account is None,
        Update::Transaction(t) => t.transaction is None,
        Update::Slot(_) => false,
        Update::Unknown => false,
    }
}

} // verus!
