//! The contract as a mathematical state machine: the state, the policy
//! predicates, and for each operation what it answers and what state it
//! leaves. The executable contract is specified against this model.

use crate::admission::{AdmissionRequestView, GroupClaimView, OutcomeView};
use crate::digest::transaction_id_of;
use crate::error::ContractError;
use crate::event::EventView;
use crate::policy::{group_owner_or_privileged, privileged, root_or_privileged};
use crate::records::{EntryView, GroupView, TransactionView};
use vstd::prelude::*;

verus! {

/// The state of the contract.
#[verifier::ext_equal]
pub struct State {
    /// The root owner.
    pub owner: Seq<char>,
    /// The suffix by which privileged agents are recognised.
    pub agent_suffix: Seq<char>,
    /// The registered groups, by identifier.
    pub groups: Map<Seq<char>, GroupView>,
    /// The members of each group, in the order in which they joined.
    pub members: Map<Seq<char>, Seq<Seq<char>>>,
    /// The ledger, in the order in which identifiers first entered it.
    pub ledger: Seq<EntryView>,
    /// The metadata attached to transactions, by identifier.
    pub metadata: Map<Seq<char>, Seq<char>>,
}

/// The records of `ledger` that belong to `group_id`, in ledger order.
pub open spec fn records_of(ledger: Seq<EntryView>, group_id: Seq<char>) -> Seq<TransactionView>
    decreases ledger.len(),
{
    if ledger.len() == 0 {
        Seq::empty()
    } else if ledger.last().record.group_id == group_id {
        records_of(ledger.drop_last(), group_id).push(ledger.last().record)
    } else {
        records_of(ledger.drop_last(), group_id)
    }
}

/// `record` with another locator.
pub open spec fn with_locator(record: TransactionView, locator: Seq<char>) -> TransactionView {
    TransactionView { ipfs_hash: locator, ..record }
}

/// The ledger after the records of `group_id` took the locators of
/// `locators`, the first such record the first locator, and so on. Other
/// rows stay as they are.
pub open spec fn relocated(
    ledger: Seq<EntryView>,
    group_id: Seq<char>,
    locators: Seq<Seq<char>>,
) -> Seq<EntryView> {
    Seq::new(
        ledger.len(),
        |i: int|
            if ledger[i].record.group_id == group_id {
                EntryView {
                    id: ledger[i].id,
                    record: with_locator(
                        ledger[i].record,
                        locators[records_of(ledger.take(i), group_id).len() as int],
                    ),
                }
            } else {
                ledger[i]
            },
    )
}

/// A row with this identifier is in `ledger`.
pub open spec fn has_row(ledger: Seq<EntryView>, trans_id: Seq<char>) -> bool {
    exists|i: int| 0 <= i < ledger.len() && ledger[i].id == trans_id
}

/// Where the row with this identifier stands in `ledger`.
pub open spec fn row_position(ledger: Seq<EntryView>, trans_id: Seq<char>) -> int {
    choose|i: int| 0 <= i < ledger.len() && ledger[i].id == trans_id
}

/// `members` without `user_id`.
pub open spec fn without(members: Seq<Seq<char>>, user_id: Seq<char>) -> Seq<Seq<char>> {
    if members.contains(user_id) {
        members.remove(members.index_of(user_id))
    } else {
        members
    }
}

impl State {
    /// The state of a fresh contract.
    pub open spec fn init(owner: Seq<char>, agent_suffix: Seq<char>) -> State {
        State {
            owner,
            agent_suffix,
            groups: Map::empty(),
            members: Map::empty(),
            ledger: Seq::empty(),
            metadata: Map::empty(),
        }
    }

    /// A transaction with this identifier is in the ledger.
    pub open spec fn has_transaction(self, trans_id: Seq<char>) -> bool {
        has_row(self.ledger, trans_id)
    }

    /// Where the transaction with this identifier stands in the ledger.
    pub open spec fn position(self, trans_id: Seq<char>) -> int {
        row_position(self.ledger, trans_id)
    }

    /// What holds of every state that the contract reaches: membership and
    /// groups exist together, nobody is a member twice, identifiers are
    /// unique, every record belongs to a registered group, and metadata is
    /// attached to transactions of the ledger only.
    pub open spec fn wf(self) -> bool {
        &&& self.groups.dom() == self.members.dom()
        &&& forall|g: Seq<char>| #[trigger]
            self.members.contains_key(g) ==> self.members[g].no_duplicates()
        &&& forall|i: int, j: int|
            0 <= i < j < self.ledger.len() ==> self.ledger[i].id != self.ledger[j].id
        &&& forall|i: int|
            0 <= i < self.ledger.len() ==> self.groups.contains_key(
                #[trigger] self.ledger[i].record.group_id,
            )
        &&& forall|id: Seq<char>| #[trigger]
            self.metadata.contains_key(id) ==> self.has_transaction(id)
    }

    /// The state after a call that answered `step`: the next state where
    /// the call went through, this state where it was refused.
    pub open spec fn after(self, step: Result<(State, EventView), ContractError>) -> State {
        match step {
            Ok((next, _)) => next,
            Err(_) => self,
        }
    }

    /// Nothing of this state is lost in `later`: the configuration is the
    /// same, every group is there with its owner and still has a key if it
    /// had one, every row stands where it stood under its identifier, and
    /// every transaction that had metadata has some.
    pub open spec fn persists_in(self, later: State) -> bool {
        &&& later.owner == self.owner
        &&& later.agent_suffix == self.agent_suffix
        &&& forall|g: Seq<char>| #[trigger]
            self.groups.contains_key(g) ==> later.groups.contains_key(g)
                && later.groups[g].owner == self.groups[g].owner && (self.groups[g].group_key
                is Some ==> later.groups[g].group_key is Some)
        &&& self.ledger.len() <= later.ledger.len()
        &&& forall|i: int|
            0 <= i < self.ledger.len() ==> (#[trigger] later.ledger[i]).id == self.ledger[i].id
        &&& forall|id: Seq<char>| #[trigger]
            self.metadata.contains_key(id) ==> later.metadata.contains_key(id)
    }

    /// The caller is a privileged agent.
    pub open spec fn is_privileged(self, caller: Seq<char>) -> bool {
        privileged(caller, self.agent_suffix)
    }

    /// The caller is the root owner or a privileged agent.
    pub open spec fn is_root_or_privileged(self, caller: Seq<char>) -> bool {
        root_or_privileged(caller, self.owner, self.agent_suffix)
    }

    /// The caller owns the group, or is the root owner or a privileged
    /// agent.
    pub open spec fn is_group_owner_or_privileged(
        self,
        caller: Seq<char>,
        group_id: Seq<char>,
    ) -> bool
        recommends
            self.groups.contains_key(group_id),
    {
        group_owner_or_privileged(
            caller,
            self.groups[group_id].owner,
            self.owner,
            self.agent_suffix,
        )
    }

    /// The user is a member of the group.
    pub open spec fn is_member(self, group_id: Seq<char>, user_id: Seq<char>) -> bool {
        self.members.contains_key(group_id) && self.members[group_id].contains(user_id)
    }

    /// The ledger after `record` was put under `trans_id`: in the place of
    /// the row with that identifier, or at the end where there is none.
    pub open spec fn ledger_with(self, trans_id: Seq<char>, record: TransactionView) -> Seq<
        EntryView,
    > {
        if self.has_transaction(trans_id) {
            self.ledger.update(self.position(trans_id), EntryView { id: trans_id, record })
        } else {
            self.ledger.push(EntryView { id: trans_id, record })
        }
    }

    /// Registers a group with the caller as its owner.
    pub open spec fn register_group(self, group_id: Seq<char>, caller: Seq<char>) -> Result<
        (State, EventView),
        ContractError,
    > {
        if self.groups.contains_key(group_id) {
            Err(ContractError::GroupAlreadyExists)
        } else if !self.is_root_or_privileged(caller) {
            Err(ContractError::RegisterGroupDenied)
        } else {
            Ok(
                (
                    State {
                        groups: self.groups.insert(
                            group_id,
                            GroupView { owner: caller, group_key: None },
                        ),
                        members: self.members.insert(group_id, Seq::empty()),
                        ..self
                    },
                    EventView::GroupRegistered { group_id, owner: caller },
                ),
            )
        }
    }

    /// Puts a record under a given identifier.
    pub open spec fn record_transaction_with_id(
        self,
        trans_id: Seq<char>,
        record: TransactionView,
        caller: Seq<char>,
    ) -> Result<(State, EventView), ContractError> {
        if !self.groups.contains_key(record.group_id) {
            Err(ContractError::GroupNotFound)
        } else if !self.is_member(record.group_id, record.user_id) {
            Err(ContractError::UserNotAuthorized)
        } else if !self.is_root_or_privileged(caller) {
            Err(ContractError::RecordTransactionDenied)
        } else {
            Ok(
                (
                    State { ledger: self.ledger_with(trans_id, record), ..self },
                    EventView::TransactionRecorded { trans_id },
                ),
            )
        }
    }

    /// Records a transaction under the identifier that its fields and the
    /// timestamp give.
    pub open spec fn record_transaction(
        self,
        record: TransactionView,
        caller: Seq<char>,
        timestamp: u64,
    ) -> Result<(State, EventView), ContractError> {
        self.record_transaction_with_id(
            transaction_id_of(
                record.group_id,
                record.user_id,
                record.file_hash,
                record.ipfs_hash,
                timestamp,
            ),
            record,
            caller,
        )
    }

    /// Phase one of an admission: the question for the oracle.
    pub open spec fn add_group_member(
        self,
        group_id: Seq<char>,
        user_id: Seq<char>,
        caller: Seq<char>,
    ) -> Result<AdmissionRequestView, ContractError> {
        if !self.groups.contains_key(group_id) {
            Err(ContractError::GroupNotFound)
        } else if !self.is_group_owner_or_privileged(caller, group_id) {
            Err(ContractError::AddMemberDenied)
        } else {
            Ok(
                AdmissionRequestView {
                    account_id: user_id,
                    from_index: None,
                    limit: Some(1u64),
                    group_id,
                    user_id,
                },
            )
        }
    }

    /// Adds a user to a group on the strength of what a credential claims.
    pub open spec fn apply_claim(
        self,
        group_id: Seq<char>,
        user_id: Seq<char>,
        claim: GroupClaimView,
    ) -> Result<(State, EventView), ContractError> {
        match claim {
            GroupClaimView::MetadataMissing => Err(ContractError::CredentialMetadataMissing),
            GroupClaimView::ExtraMissing => Err(ContractError::CredentialExtraMissing),
            GroupClaimView::ExtraInvalid => Err(ContractError::CredentialExtraInvalid),
            GroupClaimView::GroupMissing => Err(ContractError::CredentialGroupMissing),
            GroupClaimView::Group(claimed) => if claimed != group_id {
                Err(ContractError::CredentialGroupMismatch)
            } else if !self.members.contains_key(group_id) {
                Err(ContractError::GroupNotFound)
            } else if self.members[group_id].contains(user_id) {
                Ok((self, EventView::AlreadyMember { user_id, group_id }))
            } else {
                Ok(
                    (
                        State {
                            members: self.members.insert(
                                group_id,
                                self.members[group_id].push(user_id),
                            ),
                            ..self
                        },
                        EventView::MemberAdded { user_id, group_id },
                    ),
                )
            },
        }
    }

    /// Phase two of an admission: what the outcome of the ownership check
    /// leads to.
    pub open spec fn add_group_member_callback(
        self,
        group_id: Seq<char>,
        user_id: Seq<char>,
        outcome: OutcomeView,
    ) -> Result<(State, EventView), ContractError> {
        match outcome {
            OutcomeView::Failed => Err(ContractError::OwnershipCheckFailed),
            OutcomeView::Empty => Err(ContractError::NoCredential),
            OutcomeView::First(claim) => self.apply_claim(group_id, user_id, claim),
        }
    }

    /// Takes a user out of a group.
    pub open spec fn revoke_group_member(
        self,
        group_id: Seq<char>,
        user_id: Seq<char>,
        caller: Seq<char>,
    ) -> Result<(State, EventView), ContractError> {
        if !self.groups.contains_key(group_id) {
            Err(ContractError::GroupNotFound)
        } else if !self.is_group_owner_or_privileged(caller, group_id) {
            Err(ContractError::RevokeMemberDenied)
        } else if self.is_member(group_id, user_id) {
            Ok(
                (
                    State {
                        members: self.members.insert(
                            group_id,
                            without(self.members[group_id], user_id),
                        ),
                        ..self
                    },
                    EventView::MemberRevoked { user_id, group_id },
                ),
            )
        } else {
            Ok((self, EventView::NotMember { user_id, group_id }))
        }
    }

    /// Whether a user is a member of a group.
    pub open spec fn is_authorized(self, group_id: Seq<char>, user_id: Seq<char>) -> Result<
        bool,
        ContractError,
    > {
        if !self.members.contains_key(group_id) {
            Err(ContractError::GroupNotFound)
        } else {
            Ok(self.members[group_id].contains(user_id))
        }
    }

    /// The state after a group's key was set.
    pub open spec fn with_group_key(self, group_id: Seq<char>, key: Seq<char>) -> State {
        State {
            groups: self.groups.insert(
                group_id,
                GroupView { owner: self.groups[group_id].owner, group_key: Some(key) },
            ),
            ..self
        }
    }

    /// Stores a group's key.
    pub open spec fn store_group_key(
        self,
        group_id: Seq<char>,
        key: Seq<char>,
        caller: Seq<char>,
    ) -> Result<(State, EventView), ContractError> {
        if !self.groups.contains_key(group_id) {
            Err(ContractError::GroupNotFound)
        } else if !self.is_group_owner_or_privileged(caller, group_id) {
            Err(ContractError::StoreKeyDenied)
        } else if key.len() == 0 {
            Err(ContractError::EmptyGroupKey)
        } else {
            Ok((self.with_group_key(group_id, key), EventView::GroupKeyStored { group_id }))
        }
    }

    /// Replaces a group's key. The ledger stays as it is.
    pub open spec fn rotate_group_key(
        self,
        group_id: Seq<char>,
        new_key: Seq<char>,
        caller: Seq<char>,
    ) -> Result<(State, EventView), ContractError> {
        if !self.groups.contains_key(group_id) {
            Err(ContractError::GroupNotFound)
        } else if !self.is_group_owner_or_privileged(caller, group_id) {
            Err(ContractError::RotateKeyDenied)
        } else if new_key.len() == 0 {
            Err(ContractError::EmptyNewGroupKey)
        } else {
            Ok((self.with_group_key(group_id, new_key), EventView::GroupKeyRotated { group_id }))
        }
    }

    /// The key of a group, for a member of it.
    pub open spec fn get_group_key(
        self,
        group_id: Seq<char>,
        user_id: Seq<char>,
        caller: Seq<char>,
    ) -> Result<Seq<char>, ContractError> {
        if !self.groups.contains_key(group_id) {
            Err(ContractError::GroupNotFound)
        } else if !self.is_member(group_id, user_id) {
            Err(ContractError::UserNotAuthorized)
        } else if !(self.is_group_owner_or_privileged(caller, group_id) || caller == user_id) {
            Err(ContractError::GetKeyDenied)
        } else {
            match self.groups[group_id].group_key {
                None => Err(ContractError::GroupKeyNotSet),
                Some(key) => Ok(key),
            }
        }
    }

    /// The record under an identifier.
    pub open spec fn get_transaction(self, trans_id: Seq<char>) -> Option<TransactionView> {
        if self.has_transaction(trans_id) {
            Some(self.ledger[self.position(trans_id)].record)
        } else {
            None
        }
    }

    /// The records of a group, in ledger order.
    pub open spec fn get_transactions_for_group(
        self,
        group_id: Seq<char>,
        caller: Seq<char>,
    ) -> Result<Seq<TransactionView>, ContractError> {
        if !self.groups.contains_key(group_id) {
            Err(ContractError::GroupNotFound)
        } else if !(self.is_root_or_privileged(caller) || self.is_member(group_id, caller)) {
            Err(ContractError::ViewTransactionsDenied)
        } else {
            Ok(records_of(self.ledger, group_id))
        }
    }

    /// Points the records of a group to new payloads, all of them or none.
    pub open spec fn update_group_files(
        self,
        group_id: Seq<char>,
        new_ipfs_hashes: Seq<Seq<char>>,
        caller: Seq<char>,
    ) -> Result<(State, EventView), ContractError> {
        if !self.groups.contains_key(group_id) {
            Err(ContractError::GroupNotFound)
        } else if !self.is_group_owner_or_privileged(caller, group_id) {
            Err(ContractError::UpdateFilesDenied)
        } else if new_ipfs_hashes.len() == 0 {
            Err(ContractError::EmptyLocators)
        } else if records_of(self.ledger, group_id).len() != new_ipfs_hashes.len() {
            Err(ContractError::LocatorCountMismatch)
        } else {
            Ok(
                (
                    State { ledger: relocated(self.ledger, group_id, new_ipfs_hashes), ..self },
                    EventView::FilesUpdated { group_id },
                ),
            )
        }
    }

    /// Attaches metadata to a transaction.
    pub open spec fn store_file_metadata(
        self,
        trans_id: Seq<char>,
        metadata: Seq<char>,
        caller: Seq<char>,
    ) -> Result<(State, EventView), ContractError> {
        if !self.has_transaction(trans_id) {
            Err(ContractError::TransactionNotFound)
        } else if !self.is_root_or_privileged(caller) {
            Err(ContractError::StoreMetadataDenied)
        } else if metadata.len() == 0 {
            Err(ContractError::EmptyMetadata)
        } else {
            Ok(
                (
                    State { metadata: self.metadata.insert(trans_id, metadata), ..self },
                    EventView::MetadataStored { trans_id },
                ),
            )
        }
    }

    /// The metadata of a transaction, where some was attached.
    pub open spec fn get_file_metadata(self, trans_id: Seq<char>, caller: Seq<char>) -> Result<
        Option<Seq<char>>,
        ContractError,
    > {
        if !self.has_transaction(trans_id) {
            Err(ContractError::TransactionNotFound)
        } else if !(self.is_root_or_privileged(caller) || self.is_member(
            self.ledger[self.position(trans_id)].record.group_id,
            caller,
        )) {
            Err(ContractError::ViewMetadataDenied)
        } else if self.metadata.contains_key(trans_id) {
            Ok(Some(self.metadata[trans_id]))
        } else {
            Ok(None)
        }
    }
}

} // verus!
