//! The executable contract. It answers every call as the state machine of
//! `state` prescribes: the contract of each method names the transition it
//! makes.

use crate::admission::{
    outcome_view, read_claim, AdmissionRequest, GroupClaim, VerificationOutcome,
};
use crate::digest::{transaction_id, transaction_id_of};
use crate::error::ContractError;
use crate::event::{Event, EventView};
use crate::parts::{
    check_sound, duplicate_texts, find_member, has_group, has_metadata, ledger_view,
    lemma_group_lookup, lemma_groups_pushed, lemma_groups_updated, lemma_member_pushed,
    lemma_member_removed, lemma_records_prefix, lemma_row_lookup, lemma_rows_pushed,
    lemma_rows_updated, metadata_view, distinct_rows, group_at, row_view, sound, state_of, texts,
    GroupEntry, LedgerEntry,
};
use crate::records::{
    duplicate_optional, optional_text, optional_view, views, Group, Transaction, TransactionView,
};
use crate::state::{records_of, relocated, State};
use crate::policy;
use crate::text::same_text;
use vstd::prelude::*;

verus! {

/// The contract: its root owner, the suffix of its privileged agents, its
/// groups and its ledger.
pub struct Contract {
    owner: String,
    agent_suffix: String,
    groups: Vec<GroupEntry>,
    ledger: Vec<LedgerEntry>,
}

impl View for Contract {
    type V = State;

    closed spec fn view(&self) -> State {
        state_of(self.owner@, self.agent_suffix@, self.groups@, self.ledger@)
    }
}

/// What a mutating call owes: on success the next state and the event, on
/// refusal the reason and the state as it was.
pub open spec fn step_is(
    r: Result<Event, ContractError>,
    before: State,
    after: State,
    expected: Result<(State, EventView), ContractError>,
) -> bool {
    &&& after == before.after(expected)
    &&& match expected {
        Ok((_, event)) => r is Ok && r->Ok_0@ == event,
        Err(e) => r == Err::<Event, ContractError>(e),
    }
}

impl Contract {
    /// The representation is sound: identifiers are unique, nobody is
    /// listed twice in a group, and every row belongs to a group that is
    /// there. Every constructor establishes this and every method keeps it.
    pub closed spec fn wf(&self) -> bool {
        sound(self.groups@, self.ledger@)
    }

    /// A well-formed contract has a well-formed state.
    pub proof fn lemma_wf_state(&self)
        requires
            self.wf(),
        ensures
            self@.wf(),
    {
        let s = self@;
        assert(s.groups.dom() =~= s.members.dom());
        assert forall|g: Seq<char>| #[trigger] s.members.contains_key(g) implies s.members[g].no_duplicates() by {
            let i = group_at(self.groups@, g);
            lemma_group_lookup(self.groups@, i);
        }
        assert forall|i: int, j: int| 0 <= i < j < s.ledger.len() implies s.ledger[i].id != s.ledger[j].id by {
            assert(self.ledger@[i].id@ != self.ledger@[j].id@);
        }
        assert forall|i: int| 0 <= i < s.ledger.len() implies s.groups.contains_key(
            #[trigger] s.ledger[i].record.group_id,
        ) by {
            assert(has_group(self.groups@, self.ledger@[i].record.group_id@));
        }
        assert forall|id: Seq<char>| #[trigger] s.metadata.contains_key(id) implies s.has_transaction(id) by {
            let k = choose|k: int|
                0 <= k < self.ledger@.len() && self.ledger@[k].id@ == id && self.ledger@[k].metadata is Some;
            assert(s.ledger[k].id == id);
        }
    }

    /// A contract without groups or transactions. Whoever bears an
    /// identity that ends with `agent_suffix` is a privileged agent; with
    /// an empty suffix that is everybody.
    pub fn new(owner: String, agent_suffix: String) -> (r: Contract)
        ensures
            r.wf(),
            r@ == State::init(owner@, agent_suffix@),
    {
        let r = Contract { owner, agent_suffix, groups: Vec::new(), ledger: Vec::new() };
        assert(r@ =~= State::init(owner@, agent_suffix@));
        r
    }

    /// The contract that the parts stand for, where they fit together;
    /// `None` where they do not.
    pub fn restore(
        owner: String,
        agent_suffix: String,
        groups: Vec<GroupEntry>,
        ledger: Vec<LedgerEntry>,
    ) -> (r: Option<Contract>)
        ensures
            match r {
                Some(c) => sound(groups@, ledger@) && c.wf() && c@ == state_of(
                    owner@,
                    agent_suffix@,
                    groups@,
                    ledger@,
                ),
                None => !sound(groups@, ledger@),
            },
    {
        if check_sound(&groups, &ledger) {
            Some(Contract { owner, agent_suffix, groups, ledger })
        } else {
            None
        }
    }

    /// The parts of the contract: the root owner, the suffix of the
    /// privileged agents, the groups and the ledger.
    pub fn into_parts(self) -> (r: (String, String, Vec<GroupEntry>, Vec<LedgerEntry>))
        requires
            self.wf(),
        ensures
            sound(r.2@, r.3@),
            self@ == state_of(r.0@, r.1@, r.2@, r.3@),
    {
        (self.owner, self.agent_suffix, self.groups, self.ledger)
    }

    /// The place of the group with this identifier, if it is registered.
    fn find_group(&self, group_id: &String) -> (r: Option<usize>)
        requires
            self.wf(),
        ensures
            match r {
                Some(i) => i < self.groups@.len() && self.groups@[i as int].id@ == group_id@
                    && self@.groups.contains_key(group_id@) && self@.groups[group_id@]
                    == self.groups@[i as int].group@ && self@.members.contains_key(group_id@)
                    && self@.members[group_id@] == texts(self.groups@[i as int].members@),
                None => !self@.groups.contains_key(group_id@) && !self@.members.contains_key(
                    group_id@,
                ),
            },
    {
        let mut i: usize = 0;
        while i < self.groups.len()
            invariant
                self.wf(),
                i <= self.groups@.len(),
                forall|k: int| 0 <= k < i ==> self.groups@[k].id@ != group_id@,
            decreases self.groups@.len() - i,
        {
            if same_text(&self.groups[i].id, group_id) {
                proof {
                    lemma_group_lookup(self.groups@, i as int);
                }
                return Some(i);
            }
            i = i + 1;
        }
        None
    }

    /// Whether the caller is the root owner or a privileged agent.
    pub fn is_root_or_privileged(&self, caller: &String) -> (r: bool)
        ensures
            r == self@.is_root_or_privileged(caller@),
    {
        policy::is_root_or_privileged(caller, &self.owner, &self.agent_suffix)
    }

    /// Whether the caller owns the group, or is the root owner or a
    /// privileged agent. Refused where the group is not registered.
    pub fn is_group_owner_or_privileged(&self, caller: &String, group_id: &String) -> (r: Result<
        bool,
        ContractError,
    >)
        requires
            self.wf(),
        ensures
            r == if self@.groups.contains_key(group_id@) {
                Ok::<bool, ContractError>(self@.is_group_owner_or_privileged(caller@, group_id@))
            } else {
                Err::<bool, ContractError>(ContractError::GroupNotFound)
            },
    {
        match self.find_group(group_id) {
            None => Err(ContractError::GroupNotFound),
            Some(i) => Ok(self.may_manage(caller, i)),
        }
    }

    /// The root owner.
    pub fn owner(&self) -> (r: &String)
        ensures
            r@ == self@.owner,
    {
        &self.owner
    }

    /// The suffix by which privileged agents are recognised.
    pub fn agent_suffix(&self) -> (r: &String)
        ensures
            r@ == self@.agent_suffix,
    {
        &self.agent_suffix
    }

    /// The group with this identifier, if it is registered.
    pub fn get_group(&self, group_id: &String) -> (r: Option<Group>)
        requires
            self.wf(),
        ensures
            match r {
                Some(group) => self@.groups.contains_key(group_id@) && group@
                    == self@.groups[group_id@],
                None => !self@.groups.contains_key(group_id@),
            },
    {
        match self.find_group(group_id) {
            None => None,
            Some(i) => Some(self.groups[i].group.duplicate()),
        }
    }

    /// The members of the group with this identifier, in the order in
    /// which they joined, if the group is registered.
    pub fn get_group_members(&self, group_id: &String) -> (r: Option<Vec<String>>)
        requires
            self.wf(),
        ensures
            match r {
                Some(members) => self@.members.contains_key(group_id@) && texts(members@)
                    == self@.members[group_id@],
                None => !self@.members.contains_key(group_id@),
            },
    {
        match self.find_group(group_id) {
            None => None,
            Some(i) => Some(duplicate_texts(&self.groups[i].members)),
        }
    }

    /// Registers a group with the caller as its owner and without members.
    pub fn register_group(&mut self, group_id: String, caller: String) -> (r: Result<
        Event,
        ContractError,
    >)
        requires
            old(self).wf(),
        ensures
            final(self).wf(),
            step_is(r, old(self)@, final(self)@, old(self)@.register_group(group_id@, caller@)),
    {
        if self.find_group(&group_id).is_some() {
            return Err(ContractError::GroupAlreadyExists);
        }
        if !self.is_root_or_privileged(&caller) {
            return Err(ContractError::RegisterGroupDenied);
        }
        let entry = GroupEntry {
            id: group_id.clone(),
            group: Group { owner: caller.clone(), group_key: None },
            members: Vec::new(),
        };
        self.groups.push(entry);
        proof {
            lemma_groups_pushed(old(self).groups@, self.groups@, entry);
            assert(texts(entry.members@) =~= Seq::<Seq<char>>::empty());
            assert(self@ =~= old(self)@.register_group(group_id@, caller@)->Ok_0.0);
        }
        Ok(Event::GroupRegistered { group_id, owner: caller })
    }

    /// Whether the caller owns the group at `i`, or is the root owner or a
    /// privileged agent.
    fn may_manage(&self, caller: &String, i: usize) -> (r: bool)
        requires
            self.wf(),
            i < self.groups@.len(),
        ensures
            r == self@.is_group_owner_or_privileged(caller@, self.groups@[i as int].id@),
    {
        proof {
            lemma_group_lookup(self.groups@, i as int);
        }
        policy::is_group_owner_or_privileged(
            caller,
            &self.groups[i].group.owner,
            &self.owner,
            &self.agent_suffix,
        )
    }

    /// Stores the key of a group. A group that has a key already takes the
    /// new one in its place.
    pub fn store_group_key(&mut self, group_id: String, key: String, caller: String) -> (r: Result<
        Event,
        ContractError,
    >)
        requires
            old(self).wf(),
        ensures
            final(self).wf(),
            step_is(
                r,
                old(self)@,
                final(self)@,
                old(self)@.store_group_key(group_id@, key@, caller@),
            ),
    {
        let i = match self.find_group(&group_id) {
            None => { return Err(ContractError::GroupNotFound); },
            Some(i) => i,
        };
        if !self.may_manage(&caller, i) {
            return Err(ContractError::StoreKeyDenied);
        }
        if key.as_str().is_empty() {
            return Err(ContractError::EmptyGroupKey);
        }
        self.set_group_key(i, key);
        Ok(Event::GroupKeyStored { group_id })
    }

    /// Puts `key` into the group at `i`.
    fn set_group_key(&mut self, i: usize, key: String)
        requires
            old(self).wf(),
            i < old(self).groups@.len(),
        ensures
            final(self).wf(),
            final(self)@ == old(self)@.with_group_key(old(self).groups@[i as int].id@, key@),
    {
        self.groups[i].group.group_key = Some(key);
        proof {
            lemma_group_lookup(old(self).groups@, i as int);
            lemma_groups_updated(old(self).groups@, self.groups@, i as int);
            assert(self@ =~= old(self)@.with_group_key(old(self).groups@[i as int].id@, key@));
        }
    }

    /// Replaces the key of a group. The ledger is not touched: whoever
    /// rotates the key points the group's records to the new payloads
    /// afterwards, with `update_group_files`.
    pub fn rotate_group_key(&mut self, group_id: String, new_key: String, caller: String) -> (r:
        Result<Event, ContractError>)
        requires
            old(self).wf(),
        ensures
            final(self).wf(),
            step_is(
                r,
                old(self)@,
                final(self)@,
                old(self)@.rotate_group_key(group_id@, new_key@, caller@),
            ),
    {
        let i = match self.find_group(&group_id) {
            None => { return Err(ContractError::GroupNotFound); },
            Some(i) => i,
        };
        if !self.may_manage(&caller, i) {
            return Err(ContractError::RotateKeyDenied);
        }
        if new_key.as_str().is_empty() {
            return Err(ContractError::EmptyNewGroupKey);
        }
        self.set_group_key(i, new_key);
        Ok(Event::GroupKeyRotated { group_id })
    }

    /// The key of a group, for one of its members. The caller is the
    /// group's owner, the root owner, a privileged agent or the member.
    pub fn get_group_key(&self, group_id: String, user_id: String, caller: String) -> (r: Result<
        String,
        ContractError,
    >)
        requires
            self.wf(),
        ensures
            match self@.get_group_key(group_id@, user_id@, caller@) {
                Ok(key) => r is Ok && r->Ok_0@ == key,
                Err(e) => r == Err::<String, ContractError>(e),
            },
    {
        let i = match self.find_group(&group_id) {
            None => { return Err(ContractError::GroupNotFound); },
            Some(i) => i,
        };
        if find_member(&self.groups[i].members, &user_id).is_none() {
            return Err(ContractError::UserNotAuthorized);
        }
        if !(self.may_manage(&caller, i) || same_text(&caller, &user_id)) {
            return Err(ContractError::GetKeyDenied);
        }
        match &self.groups[i].group.group_key {
            None => Err(ContractError::GroupKeyNotSet),
            Some(key) => Ok(key.clone()),
        }
    }

    /// Whether a user is a member of a group.
    pub fn is_authorized(&self, group_id: String, user_id: String) -> (r: Result<
        bool,
        ContractError,
    >)
        requires
            self.wf(),
        ensures
            r == self@.is_authorized(group_id@, user_id@),
    {
        match self.find_group(&group_id) {
            None => Err(ContractError::GroupNotFound),
            Some(i) => Ok(find_member(&self.groups[i].members, &user_id).is_some()),
        }
    }

    /// Phase one of an admission. It changes nothing: it checks the caller
    /// and says what to ask the oracle, and with which pair to resume.
    pub fn add_group_member(&self, group_id: String, user_id: String, caller: String) -> (r:
        Result<AdmissionRequest, ContractError>)
        requires
            self.wf(),
        ensures
            match self@.add_group_member(group_id@, user_id@, caller@) {
                Ok(request) => r is Ok && r->Ok_0@ == request,
                Err(e) => r == Err::<AdmissionRequest, ContractError>(e),
            },
    {
        let i = match self.find_group(&group_id) {
            None => { return Err(ContractError::GroupNotFound); },
            Some(i) => i,
        };
        if !self.may_manage(&caller, i) {
            return Err(ContractError::AddMemberDenied);
        }
        Ok(
            AdmissionRequest {
                account_id: user_id.clone(),
                from_index: None,
                limit: Some(1),
                group_id,
                user_id,
            },
        )
    }

    /// Adds a user to a group on the strength of what a credential claims:
    /// the claim has to name the group. A user who is a member already
    /// stays one, once.
    pub fn apply_claim(&mut self, group_id: String, user_id: String, claim: GroupClaim) -> (r:
        Result<Event, ContractError>)
        requires
            old(self).wf(),
        ensures
            final(self).wf(),
            step_is(
                r,
                old(self)@,
                final(self)@,
                old(self)@.apply_claim(group_id@, user_id@, claim@),
            ),
    {
        let claimed = match claim {
            GroupClaim::MetadataMissing => {
                return Err(ContractError::CredentialMetadataMissing);
            },
            GroupClaim::ExtraMissing => { return Err(ContractError::CredentialExtraMissing); },
            GroupClaim::ExtraInvalid => { return Err(ContractError::CredentialExtraInvalid); },
            GroupClaim::GroupMissing => { return Err(ContractError::CredentialGroupMissing); },
            GroupClaim::Group(claimed) => claimed,
        };
        if !same_text(&claimed, &group_id) {
            return Err(ContractError::CredentialGroupMismatch);
        }
        let i = match self.find_group(&group_id) {
            None => { return Err(ContractError::GroupNotFound); },
            Some(i) => i,
        };
        if find_member(&self.groups[i].members, &user_id).is_some() {
            return Ok(Event::AlreadyMember { user_id, group_id });
        }
        self.groups[i].members.push(user_id.clone());
        proof {
            lemma_group_lookup(old(self).groups@, i as int);
            lemma_member_pushed(
                old(self).groups@[i as int].members@,
                self.groups@[i as int].members@,
                user_id,
            );
            lemma_groups_updated(old(self).groups@, self.groups@, i as int);
            assert(self@ =~= old(self)@.apply_claim(group_id@, user_id@, claim@)->Ok_0.0);
        }
        Ok(Event::MemberAdded { user_id, group_id })
    }

    /// Phase two of an admission: takes the outcome of the ownership check
    /// and adds the user where the first credential names the group.
    pub fn add_group_member_callback(
        &mut self,
        group_id: String,
        user_id: String,
        outcome: VerificationOutcome,
    ) -> (r: Result<Event, ContractError>)
        requires
            old(self).wf(),
        ensures
            final(self).wf(),
            step_is(
                r,
                old(self)@,
                final(self)@,
                old(self)@.add_group_member_callback(group_id@, user_id@, outcome_view(outcome)),
            ),
    {
        match outcome {
            VerificationOutcome::Failed => Err(ContractError::OwnershipCheckFailed),
            VerificationOutcome::Proofs(proofs) => {
                if proofs.len() == 0 {
                    return Err(ContractError::NoCredential);
                }
                let claim = read_claim(&proofs[0]);
                self.apply_claim(group_id, user_id, claim)
            },
        }
    }

    /// Takes a user out of a group. Revoking somebody who is no member is
    /// no error.
    pub fn revoke_group_member(&mut self, group_id: String, user_id: String, caller: String) -> (r:
        Result<Event, ContractError>)
        requires
            old(self).wf(),
        ensures
            final(self).wf(),
            step_is(
                r,
                old(self)@,
                final(self)@,
                old(self)@.revoke_group_member(group_id@, user_id@, caller@),
            ),
    {
        let i = match self.find_group(&group_id) {
            None => { return Err(ContractError::GroupNotFound); },
            Some(i) => i,
        };
        if !self.may_manage(&caller, i) {
            return Err(ContractError::RevokeMemberDenied);
        }
        let p = match find_member(&self.groups[i].members, &user_id) {
            None => { return Ok(Event::NotMember { user_id, group_id }); },
            Some(p) => p,
        };
        self.groups[i].members.remove(p);
        proof {
            lemma_group_lookup(old(self).groups@, i as int);
            lemma_member_removed(
                old(self).groups@[i as int].members@,
                self.groups@[i as int].members@,
                p as int,
            );
            lemma_groups_updated(old(self).groups@, self.groups@, i as int);
            assert(self@ =~= old(self)@.revoke_group_member(group_id@, user_id@, caller@)->Ok_0.0);
        }
        Ok(Event::MemberRevoked { user_id, group_id })
    }

    /// The place of the row with this identifier, if there is one.
    fn find_row(&self, trans_id: &String) -> (r: Option<usize>)
        requires
            self.wf(),
        ensures
            match r {
                Some(i) => i < self.ledger@.len() && self.ledger@[i as int].id@ == trans_id@
                    && self@.has_transaction(trans_id@) && self@.position(trans_id@) == i,
                None => !self@.has_transaction(trans_id@),
            },
    {
        let mut i: usize = 0;
        while i < self.ledger.len()
            invariant
                self.wf(),
                i <= self.ledger@.len(),
                forall|k: int| 0 <= k < i ==> self.ledger@[k].id@ != trans_id@,
            decreases self.ledger@.len() - i,
        {
            if same_text(&self.ledger[i].id, trans_id) {
                proof {
                    lemma_row_lookup(self.ledger@, i as int);
                }
                return Some(i);
            }
            i = i + 1;
        }
        assert forall|k: int| 0 <= k < self@.ledger.len() implies self@.ledger[k].id != trans_id@ by {
            assert(self.ledger@[k].id@ != trans_id@);
        }
        None
    }

    /// Puts a record into the ledger under a given identifier: in the place
    /// of the record that has the identifier, or at the end. The user has
    /// to be a member of the record's group, the caller the root owner or a
    /// privileged agent.
    pub fn record_transaction_with_id(
        &mut self,
        trans_id: String,
        record: Transaction,
        caller: String,
    ) -> (r: Result<Event, ContractError>)
        requires
            old(self).wf(),
        ensures
            final(self).wf(),
            step_is(
                r,
                old(self)@,
                final(self)@,
                old(self)@.record_transaction_with_id(trans_id@, record@, caller@),
            ),
    {
        let g = match self.find_group(&record.group_id) {
            None => { return Err(ContractError::GroupNotFound); },
            Some(g) => g,
        };
        if find_member(&self.groups[g].members, &record.user_id).is_none() {
            return Err(ContractError::UserNotAuthorized);
        }
        if !self.is_root_or_privileged(&caller) {
            return Err(ContractError::RecordTransactionDenied);
        }
        match self.find_row(&trans_id) {
            Some(i) => {
                self.ledger[i].record = record;
                proof {
                    lemma_rows_updated(old(self).ledger@, self.ledger@, i as int);
                }
            },
            None => {
                let row = LedgerEntry { id: trans_id.clone(), record, metadata: None };
                self.ledger.push(row);
                proof {
                    lemma_rows_pushed(old(self).ledger@, self.ledger@, row);
                }
            },
        }
        proof {
            let next = old(self)@.record_transaction_with_id(trans_id@, record@, caller@)->Ok_0.0;
            assert(self@.ledger =~= next.ledger);
            assert(self@ =~= next);
            assert forall|i: int| 0 <= i < self.ledger@.len() implies has_group(
                self.groups@,
                #[trigger] self.ledger@[i].record.group_id@,
            ) by {
                if i < old(self).ledger@.len() && self.ledger@[i] == old(self).ledger@[i] {
                } else {
                    assert(self.ledger@[i].record.group_id@ == record.group_id@);
                    assert(self.groups@[g as int].id@ == record.group_id@);
                }
            }
        }
        Ok(Event::TransactionRecorded { trans_id })
    }

    /// Records a transaction and answers with its identifier, which is
    /// computed from the four fields and the timestamp. The event of the
    /// call is `Event::TransactionRecorded` with that identifier. Two calls
    /// with the same fields and the same timestamp give the same
    /// identifier, and the second overwrites the first: the caller passes a
    /// new timestamp with every call.
    pub fn record_transaction(
        &mut self,
        group_id: String,
        user_id: String,
        file_hash: String,
        ipfs_hash: String,
        caller: String,
        timestamp: u64,
    ) -> (r: Result<String, ContractError>)
        requires
            old(self).wf(),
        ensures
            final(self).wf(),
            match old(self)@.record_transaction(
                TransactionView {
                    group_id: group_id@,
                    user_id: user_id@,
                    file_hash: file_hash@,
                    ipfs_hash: ipfs_hash@,
                },
                caller@,
                timestamp,
            ) {
                Ok((next, event)) => final(self)@ == next && r is Ok && r->Ok_0@
                    == transaction_id_of(group_id@, user_id@, file_hash@, ipfs_hash@, timestamp)
                    && event == (EventView::TransactionRecorded { trans_id: r->Ok_0@ }),
                Err(e) => final(self)@ == old(self)@ && r == Err::<String, ContractError>(e),
            },
    {
        let trans_id = transaction_id(&group_id, &user_id, &file_hash, &ipfs_hash, timestamp);
        let record = Transaction { group_id, user_id, file_hash, ipfs_hash };
        match self.record_transaction_with_id(trans_id.clone(), record, caller) {
            Ok(_) => Ok(trans_id),
            Err(e) => Err(e),
        }
    }

    /// The record under an identifier. Anybody may ask.
    pub fn get_transaction(&self, trans_id: String) -> (r: Option<Transaction>)
        requires
            self.wf(),
        ensures
            optional_view(r) == self@.get_transaction(trans_id@),
    {
        match self.find_row(&trans_id) {
            None => None,
            Some(i) => Some(self.ledger[i].record.duplicate()),
        }
    }

    /// Whether the user is a member of the group at `i`.
    fn is_member_at(&self, i: usize, user_id: &String) -> (r: bool)
        requires
            self.wf(),
            i < self.groups@.len(),
        ensures
            r == self@.is_member(self.groups@[i as int].id@, user_id@),
    {
        proof {
            lemma_group_lookup(self.groups@, i as int);
        }
        find_member(&self.groups[i].members, user_id).is_some()
    }

    /// The records of a group, in the order of the ledger, for the root
    /// owner, a privileged agent or a member of the group.
    pub fn get_transactions_for_group(&self, group_id: String, caller: String) -> (r: Result<
        Vec<Transaction>,
        ContractError,
    >)
        requires
            self.wf(),
        ensures
            match self@.get_transactions_for_group(group_id@, caller@) {
                Ok(records) => r is Ok && views(r->Ok_0@) == records,
                Err(e) => r == Err::<Vec<Transaction>, ContractError>(e),
            },
    {
        let g = match self.find_group(&group_id) {
            None => { return Err(ContractError::GroupNotFound); },
            Some(g) => g,
        };
        if !(self.is_root_or_privileged(&caller) || self.is_member_at(g, &caller)) {
            return Err(ContractError::ViewTransactionsDenied);
        }
        let mut out: Vec<Transaction> = Vec::new();
        let mut i: usize = 0;
        assert(views(out@) =~= records_of(self@.ledger.take(0), group_id@));
        while i < self.ledger.len()
            invariant
                i <= self.ledger@.len(),
                views(out@) == records_of(self@.ledger.take(i as int), group_id@),
            decreases self.ledger@.len() - i,
        {
            proof {
                lemma_records_prefix(self@.ledger, group_id@, i as int);
            }
            if same_text(&self.ledger[i].record.group_id, &group_id) {
                out.push(self.ledger[i].record.duplicate());
                assert(views(out@) =~= records_of(self@.ledger.take(i as int), group_id@).push(
                    self@.ledger[i as int].record,
                ));
            }
            i = i + 1;
        }
        assert(self@.ledger.take(i as int) =~= self@.ledger);
        Ok(out)
    }

    /// How many records the group has.
    fn count_records(&self, group_id: &String) -> (r: usize)
        ensures
            r == records_of(self@.ledger, group_id@).len(),
    {
        let mut count: usize = 0;
        let mut i: usize = 0;
        assert(records_of(self@.ledger.take(0), group_id@).len() == 0);
        while i < self.ledger.len()
            invariant
                i <= self.ledger@.len(),
                count <= i,
                count == records_of(self@.ledger.take(i as int), group_id@).len(),
            decreases self.ledger@.len() - i,
        {
            proof {
                lemma_records_prefix(self@.ledger, group_id@, i as int);
            }
            if same_text(&self.ledger[i].record.group_id, group_id) {
                count = count + 1;
            }
            i = i + 1;
        }
        assert(self@.ledger.take(i as int) =~= self@.ledger);
        count
    }

    /// Points the records of a group to new payloads: the first record of
    /// the group, in the order of the ledger, takes the first locator, and
    /// so on. There have to be as many locators as records, and at least
    /// one; otherwise no record changes.
    pub fn update_group_files(
        &mut self,
        group_id: String,
        new_ipfs_hashes: Vec<String>,
        caller: String,
    ) -> (r: Result<Event, ContractError>)
        requires
            old(self).wf(),
        ensures
            final(self).wf(),
            step_is(
                r,
                old(self)@,
                final(self)@,
                old(self)@.update_group_files(group_id@, texts(new_ipfs_hashes@), caller@),
            ),
    {
        let g = match self.find_group(&group_id) {
            None => { return Err(ContractError::GroupNotFound); },
            Some(g) => g,
        };
        if !self.may_manage(&caller, g) {
            return Err(ContractError::UpdateFilesDenied);
        }
        if new_ipfs_hashes.len() == 0 {
            return Err(ContractError::EmptyLocators);
        }
        if self.count_records(&group_id) != new_ipfs_hashes.len() {
            return Err(ContractError::LocatorCountMismatch);
        }
        let ghost rows = old(self)@.ledger;
        let ghost target = relocated(rows, group_id@, texts(new_ipfs_hashes@));
        let n = self.ledger.len();
        let m = new_ipfs_hashes.len();
        let mut i: usize = 0;
        let mut k: usize = 0;
        assert(records_of(rows.take(0), group_id@).len() == 0);
        while i < n
            invariant
                old(self).wf(),
                rows == ledger_view(old(self).ledger@),
                target == relocated(rows, group_id@, texts(new_ipfs_hashes@)),
                records_of(rows, group_id@).len() == new_ipfs_hashes@.len(),
                m == new_ipfs_hashes@.len(),
                n == self.ledger@.len(),
                n == old(self).ledger@.len(),
                self.groups@ == old(self).groups@,
                self.owner == old(self).owner,
                self.agent_suffix == old(self).agent_suffix,
                i <= n,
                k == records_of(rows.take(i as int), group_id@).len(),
                forall|j: int|
                    0 <= j < n ==> (#[trigger] self.ledger@[j]).id@ == old(self).ledger@[j].id@
                        && self.ledger@[j].record.group_id@ == old(
                        self,
                    ).ledger@[j].record.group_id@ && optional_text(self.ledger@[j].metadata)
                        == optional_text(old(self).ledger@[j].metadata),
                forall|j: int| 0 <= j < i ==> row_view(#[trigger] self.ledger@[j]) == target[j],
                forall|j: int| i <= j < n ==> row_view(#[trigger] self.ledger@[j]) == rows[j],
            decreases n - i,
        {
            proof {
                lemma_records_prefix(rows, group_id@, i as int);
            }
            if same_text(&self.ledger[i].record.group_id, &group_id) {
                let locator = new_ipfs_hashes[k].clone();
                self.ledger[i].record.ipfs_hash = locator;
                k = k + 1;
            }
            assert(row_view(self.ledger@[i as int]) =~= target[i as int]);
            i = i + 1;
        }
        proof {
            assert(ledger_view(self.ledger@) =~= target);
            assert forall|id: Seq<char>| has_metadata(self.ledger@, id) <==> has_metadata(
                old(self).ledger@,
                id,
            ) by {
                if has_metadata(old(self).ledger@, id) {
                    let j = choose|j: int|
                        0 <= j < n && old(self).ledger@[j].id@ == id && old(
                            self,
                        ).ledger@[j].metadata is Some;
                    assert(self.ledger@[j].id@ == id);
                }
                if has_metadata(self.ledger@, id) {
                    let j = choose|j: int|
                        0 <= j < n && self.ledger@[j].id@ == id && self.ledger@[j].metadata is Some;
                    assert(self.ledger@[j].id@ == id);
                }
            }
            assert(distinct_rows(self.ledger@)) by {
                assert forall|a: int, b: int| 0 <= a < b < n implies self.ledger@[a].id@
                    != self.ledger@[b].id@ by {
                    assert(self.ledger@[a].id@ == old(self).ledger@[a].id@);
                    assert(self.ledger@[b].id@ == old(self).ledger@[b].id@);
                }
            }
            assert forall|id: Seq<char>| has_metadata(self.ledger@, id) implies metadata_view(
                self.ledger@,
            )[id] == metadata_view(old(self).ledger@)[id] by {
                let j = choose|j: int|
                    0 <= j < n && self.ledger@[j].id@ == id && self.ledger@[j].metadata is Some;
                lemma_row_lookup(self.ledger@, j);
                lemma_row_lookup(old(self).ledger@, j);
            }
            assert(self@.metadata =~= old(self)@.metadata);
            assert(self@ =~= old(self)@.update_group_files(
                group_id@,
                texts(new_ipfs_hashes@),
                caller@,
            )->Ok_0.0);
            assert forall|j: int| 0 <= j < n implies has_group(
                self.groups@,
                #[trigger] self.ledger@[j].record.group_id@,
            ) by {
                assert(has_group(old(self).groups@, old(self).ledger@[j].record.group_id@));
            }
        }
        Ok(Event::FilesUpdated { group_id })
    }

    /// Attaches metadata to a transaction, in the place of what was
    /// attached before.
    pub fn store_file_metadata(&mut self, trans_id: String, metadata: String, caller: String) -> (r:
        Result<Event, ContractError>)
        requires
            old(self).wf(),
        ensures
            final(self).wf(),
            step_is(
                r,
                old(self)@,
                final(self)@,
                old(self)@.store_file_metadata(trans_id@, metadata@, caller@),
            ),
    {
        let i = match self.find_row(&trans_id) {
            None => { return Err(ContractError::TransactionNotFound); },
            Some(i) => i,
        };
        if !self.is_root_or_privileged(&caller) {
            return Err(ContractError::StoreMetadataDenied);
        }
        if metadata.as_str().is_empty() {
            return Err(ContractError::EmptyMetadata);
        }
        self.ledger[i].metadata = Some(metadata);
        proof {
            lemma_rows_updated(old(self).ledger@, self.ledger@, i as int);
            assert(self@.ledger =~= old(self)@.ledger);
            assert(self@ =~= old(self)@.store_file_metadata(trans_id@, metadata@, caller@)->Ok_0.0);
        }
        Ok(Event::MetadataStored { trans_id })
    }

    /// The metadata of a transaction, where some was attached, for the
    /// root owner, a privileged agent or a member of the transaction's
    /// group.
    pub fn get_file_metadata(&self, trans_id: String, caller: String) -> (r: Result<
        Option<String>,
        ContractError,
    >)
        requires
            self.wf(),
        ensures
            match self@.get_file_metadata(trans_id@, caller@) {
                Ok(metadata) => r is Ok && optional_text(r->Ok_0) == metadata,
                Err(e) => r == Err::<Option<String>, ContractError>(e),
            },
    {
        let i = match self.find_row(&trans_id) {
            None => { return Err(ContractError::TransactionNotFound); },
            Some(i) => i,
        };
        let member = match self.find_group(&self.ledger[i].record.group_id) {
            Some(g) => self.is_member_at(g, &caller),
            None => false,
        };
        if !(self.is_root_or_privileged(&caller) || member) {
            return Err(ContractError::ViewMetadataDenied);
        }
        proof {
            lemma_row_lookup(self.ledger@, i as int);
        }
        Ok(duplicate_optional(&self.ledger[i].metadata))
    }
}

} // verus!
