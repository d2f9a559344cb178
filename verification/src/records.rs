//! The records that the contract keeps, and their mathematical views.

use vstd::prelude::*;

verus! {

/// What a ledger record says: which group, which user, the hash of the
/// file's content, and where the payload lies.
#[verifier::ext_equal]
pub struct TransactionView {
    pub group_id: Seq<char>,
    pub user_id: Seq<char>,
    pub file_hash: Seq<char>,
    pub ipfs_hash: Seq<char>,
}

/// A ledger record.
#[derive(Clone, Debug, PartialEq, Eq)]
pub struct Transaction {
    pub group_id: String,
    pub user_id: String,
    pub file_hash: String,
    pub ipfs_hash: String,
}

impl View for Transaction {
    type V = TransactionView;

    open spec fn view(&self) -> TransactionView {
        TransactionView {
            group_id: self.group_id@,
            user_id: self.user_id@,
            file_hash: self.file_hash@,
            ipfs_hash: self.ipfs_hash@,
        }
    }
}

impl Transaction {
    /// A copy with the same fields.
    pub fn duplicate(&self) -> (r: Transaction)
        ensures
            r@ == self@,
    {
        Transaction {
            group_id: self.group_id.clone(),
            user_id: self.user_id.clone(),
            file_hash: self.file_hash.clone(),
            ipfs_hash: self.ipfs_hash.clone(),
        }
    }
}

/// The view of each record of a sequence.
pub open spec fn views(v: Seq<Transaction>) -> Seq<TransactionView> {
    v.map_values(|t: Transaction| t@)
}

/// The view of an optional record.
pub open spec fn optional_view(t: Option<Transaction>) -> Option<TransactionView> {
    match t {
        Some(t) => Some(t@),
        None => None,
    }
}

/// A group: who owns it, and its current key once one was stored.
#[verifier::ext_equal]
pub struct GroupView {
    pub owner: Seq<char>,
    pub group_key: Option<Seq<char>>,
}

/// A group.
#[derive(Clone, Debug, PartialEq, Eq)]
pub struct Group {
    pub owner: String,
    pub group_key: Option<String>,
}

/// The characters of an optional string.
pub open spec fn optional_text(s: Option<String>) -> Option<Seq<char>> {
    match s {
        Some(s) => Some(s@),
        None => None,
    }
}

/// A copy of an optional string.
pub fn duplicate_optional(s: &Option<String>) -> (r: Option<String>)
    ensures
        optional_text(r) == optional_text(*s),
{
    match s {
        Some(s) => Some(s.clone()),
        None => None,
    }
}

impl View for Group {
    type V = GroupView;

    open spec fn view(&self) -> GroupView {
        GroupView { owner: self.owner@, group_key: optional_text(self.group_key) }
    }
}

impl Group {
    /// A copy with the same fields.
    pub fn duplicate(&self) -> (r: Group)
        ensures
            r@ == self@,
    {
        Group { owner: self.owner.clone(), group_key: duplicate_optional(&self.group_key) }
    }
}

/// One row of the ledger: an identifier and the record under it.
#[verifier::ext_equal]
pub struct EntryView {
    pub id: Seq<char>,
    pub record: TransactionView,
}

} // verus!
