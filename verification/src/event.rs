//! What a successful call reports. The host writes an event's message to
//! its log.

use vstd::prelude::*;
use vstd::string::StringExecFns;

verus! {

/// An event, over sequences of characters.
pub enum EventView {
    GroupRegistered { group_id: Seq<char>, owner: Seq<char> },
    TransactionRecorded { trans_id: Seq<char> },
    MemberAdded { user_id: Seq<char>, group_id: Seq<char> },
    AlreadyMember { user_id: Seq<char>, group_id: Seq<char> },
    MemberRevoked { user_id: Seq<char>, group_id: Seq<char> },
    NotMember { user_id: Seq<char>, group_id: Seq<char> },
    GroupKeyStored { group_id: Seq<char> },
    GroupKeyRotated { group_id: Seq<char> },
    FilesUpdated { group_id: Seq<char> },
    MetadataStored { trans_id: Seq<char> },
}

impl EventView {
    /// The log line of an event.
    pub open spec fn message_text(self) -> Seq<char> {
        match self {
            EventView::GroupRegistered { group_id, owner } => "Group "@ + group_id
                + " registered by "@ + owner,
            EventView::TransactionRecorded { trans_id } => "Transaction recorded: "@ + trans_id,
            EventView::MemberAdded { user_id, group_id } => "User "@ + user_id
                + " added to group "@ + group_id,
            EventView::AlreadyMember { user_id, group_id } => "User "@ + user_id
                + " is already a member of group "@ + group_id,
            EventView::MemberRevoked { user_id, group_id } => "User "@ + user_id
                + " revoked from group "@ + group_id,
            EventView::NotMember { user_id, group_id } => "User "@ + user_id
                + " is not a member of group "@ + group_id,
            EventView::GroupKeyStored { group_id } => "Group key stored for group "@ + group_id,
            EventView::GroupKeyRotated { group_id } => "Group key rotated for group "@ + group_id,
            EventView::FilesUpdated { group_id } => "IPFS hashes updated for group "@ + group_id,
            EventView::MetadataStored { trans_id } => "Metadata stored for transaction "@
                + trans_id,
        }
    }
}

/// An event of the contract.
#[derive(Clone, Debug, PartialEq, Eq)]
pub enum Event {
    /// A group was created, with its owner.
    GroupRegistered { group_id: String, owner: String },
    /// A record entered the ledger under this identifier.
    TransactionRecorded { trans_id: String },
    /// A user joined a group.
    MemberAdded { user_id: String, group_id: String },
    /// An admission found the user in the group already.
    AlreadyMember { user_id: String, group_id: String },
    /// A user left a group.
    MemberRevoked { user_id: String, group_id: String },
    /// A revocation found the user outside the group.
    NotMember { user_id: String, group_id: String },
    /// A group's key was stored.
    GroupKeyStored { group_id: String },
    /// A group's key was replaced.
    GroupKeyRotated { group_id: String },
    /// The records of a group point to new payloads.
    FilesUpdated { group_id: String },
    /// Metadata was attached to a transaction.
    MetadataStored { trans_id: String },
}

impl View for Event {
    type V = EventView;

    open spec fn view(&self) -> EventView {
        match self {
            Event::GroupRegistered { group_id, owner } => EventView::GroupRegistered {
                group_id: group_id@,
                owner: owner@,
            },
            Event::TransactionRecorded { trans_id } => EventView::TransactionRecorded {
                trans_id: trans_id@,
            },
            Event::MemberAdded { user_id, group_id } => EventView::MemberAdded {
                user_id: user_id@,
                group_id: group_id@,
            },
            Event::AlreadyMember { user_id, group_id } => EventView::AlreadyMember {
                user_id: user_id@,
                group_id: group_id@,
            },
            Event::MemberRevoked { user_id, group_id } => EventView::MemberRevoked {
                user_id: user_id@,
                group_id: group_id@,
            },
            Event::NotMember { user_id, group_id } => EventView::NotMember {
                user_id: user_id@,
                group_id: group_id@,
            },
            Event::GroupKeyStored { group_id } => EventView::GroupKeyStored { group_id: group_id@ },
            Event::GroupKeyRotated { group_id } => EventView::GroupKeyRotated {
                group_id: group_id@,
            },
            Event::FilesUpdated { group_id } => EventView::FilesUpdated { group_id: group_id@ },
            Event::MetadataStored { trans_id } => EventView::MetadataStored { trans_id: trans_id@ },
        }
    }
}

/// `head`, then `a`.
fn one_part(head: &str, a: &String) -> (r: String)
    ensures
        r@ == head@ + a@,
{
    String::from_str(head).concat(a.as_str())
}

/// `head`, then `a`, then `middle`, then `b`.
fn two_parts(head: &str, a: &String, middle: &str, b: &String) -> (r: String)
    ensures
        r@ == head@ + a@ + middle@ + b@,
{
    String::from_str(head).concat(a.as_str()).concat(middle).concat(b.as_str())
}

impl Event {
    /// The log line of this event.
    pub fn message(&self) -> (r: String)
        ensures
            r@ == self@.message_text(),
    {
        match self {
            Event::GroupRegistered { group_id, owner } => two_parts(
                "Group ",
                group_id,
                " registered by ",
                owner,
            ),
            Event::TransactionRecorded { trans_id } => one_part("Transaction recorded: ", trans_id),
            Event::MemberAdded { user_id, group_id } => two_parts(
                "User ",
                user_id,
                " added to group ",
                group_id,
            ),
            Event::AlreadyMember { user_id, group_id } => two_parts(
                "User ",
                user_id,
                " is already a member of group ",
                group_id,
            ),
            Event::MemberRevoked { user_id, group_id } => two_parts(
                "User ",
                user_id,
                " revoked from group ",
                group_id,
            ),
            Event::NotMember { user_id, group_id } => two_parts(
                "User ",
                user_id,
                " is not a member of group ",
                group_id,
            ),
            Event::GroupKeyStored { group_id } => one_part("Group key stored for group ", group_id),
            Event::GroupKeyRotated { group_id } => one_part(
                "Group key rotated for group ",
                group_id,
            ),
            Event::FilesUpdated { group_id } => one_part(
                "IPFS hashes updated for group ",
                group_id,
            ),
            Event::MetadataStored { trans_id } => one_part(
                "Metadata stored for transaction ",
                trans_id,
            ),
        }
    }
}

} // verus!
