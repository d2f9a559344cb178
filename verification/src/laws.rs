//! Laws of the state machine. Each is stated over the transitions of
//! `state`, which are what the executable contract is held to; a refusal
//! leaves the state as it was by the contract of every mutating method.

use crate::admission::{GroupClaimView, OutcomeView};
use crate::digest::{
    id_preimage, id_preimage_of, lemma_hex_lower_injective, sha256_digest, transaction_id_of,
};
use crate::error::{ContractError, ErrorKind};
use crate::event::EventView;
use crate::parts::lemma_records_prefix;
use crate::records::{EntryView, TransactionView};
use crate::state::{records_of, relocated, with_locator, without, State};
use crate::text::{decimal_digits, lemma_concat_cancel, lemma_decimal_digits_injective};
use vstd::utf8::{decode_utf8, encode_utf8, encode_utf8_decode_utf8};
use vstd::prelude::*;

verus! {

/// A group is registered at most once: after a registration went through,
/// or was refused because the group exists, registering the same
/// identifier again is refused as already existing, whoever asks.
pub proof fn law_register_once(
    s: State,
    group_id: Seq<char>,
    caller: Seq<char>,
    second_caller: Seq<char>,
)
    requires
        s.register_group(group_id, caller) is Ok || s.register_group(group_id, caller) == Err::<
            (State, EventView),
            ContractError,
        >(ContractError::GroupAlreadyExists),
    ensures
        s.after(s.register_group(group_id, caller)).register_group(group_id, second_caller)
            == Err::<(State, EventView), ContractError>(ContractError::GroupAlreadyExists),
        ContractError::GroupAlreadyExists.kind_of() == ErrorKind::AlreadyExists,
{
}

/// Once a group is registered, its identifier stays taken through every
/// later registration.
pub proof fn law_registered_stays(
    s: State,
    group_id: Seq<char>,
    other_id: Seq<char>,
    caller: Seq<char>,
)
    requires
        s.groups.contains_key(group_id),
        s.register_group(other_id, caller) is Ok,
    ensures
        s.register_group(other_id, caller)->Ok_0.0.groups.contains_key(group_id),
{
}

/// After an admission on a credential that names the group, the user is a
/// member; resuming once more for the same pair changes nothing, so the
/// group is as large as before.
pub proof fn law_admission_idempotent(s: State, group_id: Seq<char>, user_id: Seq<char>)
    requires
        s.add_group_member_callback(
            group_id,
            user_id,
            OutcomeView::First(GroupClaimView::Group(group_id)),
        ) is Ok,
    ensures
        ({
            let outcome = OutcomeView::First(GroupClaimView::Group(group_id));
            let s1 = s.add_group_member_callback(group_id, user_id, outcome)->Ok_0.0;
            &&& s1.is_member(group_id, user_id)
            &&& s1.is_authorized(group_id, user_id) == Ok::<bool, ContractError>(true)
            &&& s1.add_group_member_callback(group_id, user_id, outcome) == Ok::<
                (State, EventView),
                ContractError,
            >((s1, EventView::AlreadyMember { user_id, group_id }))
            &&& s1.add_group_member_callback(group_id, user_id, outcome)->Ok_0.0.members[group_id].len()
                == s1.members[group_id].len()
        }),
{
    let outcome = OutcomeView::First(GroupClaimView::Group(group_id));
    let s1 = s.add_group_member_callback(group_id, user_id, outcome)->Ok_0.0;
    if !s.members[group_id].contains(user_id) {
        let grown = s.members[group_id].push(user_id);
        assert(grown[grown.len() - 1] == user_id);
        assert(s1.members[group_id] == grown);
    }
}

/// An admission adds at most the one user, and only to the one group: who
/// else is a member of what stays as it was.
pub proof fn law_admission_adds_one(
    s: State,
    group_id: Seq<char>,
    user_id: Seq<char>,
    claim: GroupClaimView,
    other_group: Seq<char>,
    other_user: Seq<char>,
)
    requires
        s.apply_claim(group_id, user_id, claim) is Ok,
        other_group != group_id || other_user != user_id,
    ensures
        s.apply_claim(group_id, user_id, claim)->Ok_0.0.is_member(other_group, other_user)
            == s.is_member(other_group, other_user),
{
    let s1 = s.apply_claim(group_id, user_id, claim)->Ok_0.0;
    if other_group == group_id && !s.members[group_id].contains(user_id) {
        let before = s.members[group_id];
        let after = before.push(user_id);
        assert(s1.members[group_id] == after);
        if before.contains(other_user) {
            let i = before.index_of(other_user);
            assert(after[i] == other_user);
        }
        if after.contains(other_user) {
            let i = after.index_of(other_user);
            assert(before[i] == other_user);
        }
    }
}

/// An ownership check that found no credential is refused as a failed
/// verification, in every state, and the state stays as it is. So with
/// one that did not complete.
pub proof fn law_no_credential_refused(s: State, group_id: Seq<char>, user_id: Seq<char>)
    ensures
        s.after(s.add_group_member_callback(group_id, user_id, OutcomeView::Empty)) == s,
        s.after(s.add_group_member_callback(group_id, user_id, OutcomeView::Failed)) == s,
        s.add_group_member_callback(group_id, user_id, OutcomeView::Empty) == Err::<
            (State, EventView),
            ContractError,
        >(ContractError::NoCredential),
        ContractError::NoCredential.kind_of() == ErrorKind::VerificationFailed,
        s.add_group_member_callback(group_id, user_id, OutcomeView::Failed) == Err::<
            (State, EventView),
            ContractError,
        >(ContractError::OwnershipCheckFailed),
        ContractError::OwnershipCheckFailed.kind_of() == ErrorKind::VerificationFailed,
{
}

/// A credential that names another group, or none, is refused as a group
/// mismatch, in every state, and the state stays as it is.
pub proof fn law_other_group_refused(
    s: State,
    group_id: Seq<char>,
    user_id: Seq<char>,
    claim: GroupClaimView,
)
    requires
        claim != GroupClaimView::Group(group_id),
    ensures
        s.add_group_member_callback(group_id, user_id, OutcomeView::First(claim)) is Err,
        s.after(s.add_group_member_callback(group_id, user_id, OutcomeView::First(claim))) == s,
        s.add_group_member_callback(group_id, user_id, OutcomeView::First(claim))->Err_0.kind_of()
            == ErrorKind::GroupMismatch,
        claim is Group ==> s.add_group_member_callback(
            group_id,
            user_id,
            OutcomeView::First(claim),
        ) == Err::<(State, EventView), ContractError>(ContractError::CredentialGroupMismatch),
{
}

/// The identifier of a transaction is a function of its four fields and
/// the timestamp: the same inputs give the same identifier.
pub proof fn law_transaction_id_deterministic(
    a: TransactionView,
    a_timestamp: u64,
    b: TransactionView,
    b_timestamp: u64,
)
    requires
        a == b,
        a_timestamp == b_timestamp,
    ensures
        transaction_id_of(a.group_id, a.user_id, a.file_hash, a.ipfs_hash, a_timestamp)
            == transaction_id_of(b.group_id, b.user_id, b.file_hash, b.ipfs_hash, b_timestamp),
{
}

/// Two tuples of inputs differ in exactly one input.
pub open spec fn differ_in_one(
    a: TransactionView,
    a_timestamp: u64,
    b: TransactionView,
    b_timestamp: u64,
) -> bool {
    ||| a.group_id != b.group_id && a.user_id == b.user_id && a.file_hash == b.file_hash
        && a.ipfs_hash == b.ipfs_hash && a_timestamp == b_timestamp
    ||| a.group_id == b.group_id && a.user_id != b.user_id && a.file_hash == b.file_hash
        && a.ipfs_hash == b.ipfs_hash && a_timestamp == b_timestamp
    ||| a.group_id == b.group_id && a.user_id == b.user_id && a.file_hash != b.file_hash
        && a.ipfs_hash == b.ipfs_hash && a_timestamp == b_timestamp
    ||| a.group_id == b.group_id && a.user_id == b.user_id && a.file_hash == b.file_hash
        && a.ipfs_hash != b.ipfs_hash && a_timestamp == b_timestamp
    ||| a.group_id == b.group_id && a.user_id == b.user_id && a.file_hash == b.file_hash
        && a.ipfs_hash == b.ipfs_hash && a_timestamp != b_timestamp
}

/// Varying one input varies what is hashed: two tuples that differ in
/// exactly one input have different bytes hashed, so their identifiers are
/// the same only where SHA-256 gives those two byte strings one digest.
pub proof fn law_transaction_id_varies(
    a: TransactionView,
    a_timestamp: u64,
    b: TransactionView,
    b_timestamp: u64,
)
    requires
        differ_in_one(a, a_timestamp, b, b_timestamp),
    ensures
        id_preimage_of(a.group_id, a.user_id, a.file_hash, a.ipfs_hash, a_timestamp)
            != id_preimage_of(b.group_id, b.user_id, b.file_hash, b.ipfs_hash, b_timestamp),
        transaction_id_of(a.group_id, a.user_id, a.file_hash, a.ipfs_hash, a_timestamp)
            == transaction_id_of(b.group_id, b.user_id, b.file_hash, b.ipfs_hash, b_timestamp)
            ==> sha256_digest(
            id_preimage_of(a.group_id, a.user_id, a.file_hash, a.ipfs_hash, a_timestamp),
        ) == sha256_digest(
            id_preimage_of(b.group_id, b.user_id, b.file_hash, b.ipfs_hash, b_timestamp),
        ),
{
    let text_a = id_preimage(a.group_id, a.user_id, a.file_hash, a.ipfs_hash, a_timestamp);
    let text_b = id_preimage(b.group_id, b.user_id, b.file_hash, b.ipfs_hash, b_timestamp);
    let stamp_a = decimal_digits(a_timestamp as nat);
    let stamp_b = decimal_digits(b_timestamp as nat);
    let none = Seq::<char>::empty();
    if text_a == text_b {
        if a.group_id != b.group_id {
            let rest = a.user_id + a.file_hash + a.ipfs_hash + stamp_a;
            assert(text_a =~= none + a.group_id + rest);
            assert(text_b =~= none + b.group_id + rest);
            lemma_concat_cancel(none, a.group_id, b.group_id, rest);
        } else if a.user_id != b.user_id {
            let rest = a.file_hash + a.ipfs_hash + stamp_a;
            assert(text_a =~= a.group_id + a.user_id + rest);
            assert(text_b =~= a.group_id + b.user_id + rest);
            lemma_concat_cancel(a.group_id, a.user_id, b.user_id, rest);
        } else if a.file_hash != b.file_hash {
            let head = a.group_id + a.user_id;
            let rest = a.ipfs_hash + stamp_a;
            assert(text_a =~= head + a.file_hash + rest);
            assert(text_b =~= head + b.file_hash + rest);
            lemma_concat_cancel(head, a.file_hash, b.file_hash, rest);
        } else if a.ipfs_hash != b.ipfs_hash {
            let head = a.group_id + a.user_id + a.file_hash;
            assert(text_a =~= head + a.ipfs_hash + stamp_a);
            assert(text_b =~= head + b.ipfs_hash + stamp_a);
            lemma_concat_cancel(head, a.ipfs_hash, b.ipfs_hash, stamp_a);
        } else {
            let head = a.group_id + a.user_id + a.file_hash + a.ipfs_hash;
            assert(text_a =~= head + stamp_a + none);
            assert(text_b =~= head + stamp_b + none);
            lemma_concat_cancel(head, stamp_a, stamp_b, none);
            lemma_decimal_digits_injective(a_timestamp as nat, b_timestamp as nat);
        }
    }
    assert(text_a != text_b);
    encode_utf8_decode_utf8(text_a);
    encode_utf8_decode_utf8(text_b);
    assert(encode_utf8(text_a) != encode_utf8(text_b)) by {
        if encode_utf8(text_a) == encode_utf8(text_b) {
            assert(decode_utf8(encode_utf8(text_a)) == decode_utf8(encode_utf8(text_b)));
        }
    }
    let bytes_a = id_preimage_of(a.group_id, a.user_id, a.file_hash, a.ipfs_hash, a_timestamp);
    let bytes_b = id_preimage_of(b.group_id, b.user_id, b.file_hash, b.ipfs_hash, b_timestamp);
    if transaction_id_of(a.group_id, a.user_id, a.file_hash, a.ipfs_hash, a_timestamp)
        == transaction_id_of(b.group_id, b.user_id, b.file_hash, b.ipfs_hash, b_timestamp) {
        lemma_hex_lower_injective(sha256_digest(bytes_a), sha256_digest(bytes_b));
    }
}

/// Recording is deterministic as a whole: the same record, caller and
/// timestamp in the same state give the same answer and the same state.
pub proof fn law_recording_deterministic(
    s: State,
    a: TransactionView,
    a_timestamp: u64,
    b: TransactionView,
    b_timestamp: u64,
    caller: Seq<char>,
)
    requires
        a == b,
        a_timestamp == b_timestamp,
    ensures
        s.record_transaction(a, caller, a_timestamp) == s.record_transaction(
            b,
            caller,
            b_timestamp,
        ),
{
}

/// Locators are accepted all or none: where the group exists and the
/// caller may update it, a list that is not as long as the group has
/// records is refused as an invalid argument, and a list that is not empty
/// as a count mismatch.
pub proof fn law_locator_count(
    s: State,
    group_id: Seq<char>,
    locators: Seq<Seq<char>>,
    caller: Seq<char>,
)
    requires
        s.groups.contains_key(group_id),
        s.is_group_owner_or_privileged(caller, group_id),
        locators.len() != records_of(s.ledger, group_id).len(),
    ensures
        s.update_group_files(group_id, locators, caller) is Err,
        s.update_group_files(group_id, locators, caller)->Err_0.kind_of()
            == ErrorKind::InvalidArgument,
        locators.len() > 0 ==> s.update_group_files(group_id, locators, caller) == Err::<
            (State, EventView),
            ContractError,
        >(ContractError::LocatorCountMismatch),
{
}

/// Whatever the caller and the state, a list of locators that is not as
/// long as the group has records changes no record: the call is refused
/// and the state stays as it is.
pub proof fn law_locator_count_refused(
    s: State,
    group_id: Seq<char>,
    locators: Seq<Seq<char>>,
    caller: Seq<char>,
)
    requires
        locators.len() != records_of(s.ledger, group_id).len(),
    ensures
        s.update_group_files(group_id, locators, caller) is Err,
        s.after(s.update_group_files(group_id, locators, caller)) == s,
{
}

/// Revoking somebody who is no member succeeds and changes nothing.
pub proof fn law_revoke_non_member_changes_nothing(
    s: State,
    group_id: Seq<char>,
    user_id: Seq<char>,
    caller: Seq<char>,
)
    requires
        !s.is_member(group_id, user_id),
    ensures
        s.after(s.revoke_group_member(group_id, user_id, caller)) == s,
{
}

/// Where the group exists and the caller may manage it, revoking somebody
/// who is no member is no error.
pub proof fn law_revoke_non_member(
    s: State,
    group_id: Seq<char>,
    user_id: Seq<char>,
    caller: Seq<char>,
)
    requires
        s.groups.contains_key(group_id),
        s.is_group_owner_or_privileged(caller, group_id),
        !s.is_member(group_id, user_id),
    ensures
        s.revoke_group_member(group_id, user_id, caller) == Ok::<
            (State, EventView),
            ContractError,
        >((s, EventView::NotMember { user_id, group_id })),
{
}

/// After a revocation the user is no member of the group any more, and
/// nobody else has lost or gained a membership.
pub proof fn law_revoke_removes_one(
    s: State,
    group_id: Seq<char>,
    user_id: Seq<char>,
    caller: Seq<char>,
    other_group: Seq<char>,
    other_user: Seq<char>,
)
    requires
        s.wf(),
        s.revoke_group_member(group_id, user_id, caller) is Ok,
        other_group != group_id || other_user != user_id,
    ensures
        ({
            let s1 = s.revoke_group_member(group_id, user_id, caller)->Ok_0.0;
            &&& s1.is_authorized(group_id, user_id) == Ok::<bool, ContractError>(false)
            &&& s1.is_member(other_group, other_user) == s.is_member(other_group, other_user)
        }),
{
    let s1 = s.revoke_group_member(group_id, user_id, caller)->Ok_0.0;
    let before = s.members[group_id];
    assert(s.members.contains_key(group_id));
    assert(before.no_duplicates());
    if before.contains(user_id) {
        let p = before.index_of(user_id);
        let after = before.remove(p);
        assert(s1.members[group_id] == after);
        assert(without(before, user_id) == after);
        assert forall|a: int| 0 <= a < after.len() implies after[a] != user_id by {
            let a0 = if a < p {
                a
            } else {
                a + 1
            };
            assert(after[a] == before[a0]);
        }
        if other_group == group_id {
            if before.contains(other_user) {
                let i = before.index_of(other_user);
                let i1 = if i < p {
                    i
                } else {
                    i - 1
                };
                assert(after[i1] == other_user);
            }
            if after.contains(other_user) {
                let i = after.index_of(other_user);
                let i0 = if i < p {
                    i
                } else {
                    i + 1
                };
                assert(before[i0] == other_user);
            }
        }
    }
}

/// A fresh contract is well formed.
pub proof fn law_init_wf(owner: Seq<char>, agent_suffix: Seq<char>)
    ensures
        State::init(owner, agent_suffix).wf(),
{
}

/// Registering a group keeps the state well formed and loses nothing.
pub proof fn law_register_group_keeps(s: State, group_id: Seq<char>, caller: Seq<char>)
    requires
        s.wf(),
        s.register_group(group_id, caller) is Ok,
    ensures
        s.register_group(group_id, caller)->Ok_0.0.wf(),
        s.persists_in(s.register_group(group_id, caller)->Ok_0.0),
{
    let next = s.register_group(group_id, caller)->Ok_0.0;
    assert(next.groups.dom() =~= next.members.dom());
    assert forall|id: Seq<char>| #[trigger] next.metadata.contains_key(id) implies next.has_transaction(id) by {
        assert(s.has_transaction(id));
    }
}

/// Recording a transaction keeps the state well formed and loses nothing:
/// an identifier that is in the ledger keeps its place.
pub proof fn law_record_transaction_keeps(
    s: State,
    trans_id: Seq<char>,
    record: TransactionView,
    caller: Seq<char>,
)
    requires
        s.wf(),
        s.record_transaction_with_id(trans_id, record, caller) is Ok,
    ensures
        s.record_transaction_with_id(trans_id, record, caller)->Ok_0.0.wf(),
        s.persists_in(s.record_transaction_with_id(trans_id, record, caller)->Ok_0.0),
        s.record_transaction_with_id(trans_id, record, caller)->Ok_0.0.get_transaction(trans_id)
            == Some(record),
{
    let next = s.record_transaction_with_id(trans_id, record, caller)->Ok_0.0;
    if s.has_transaction(trans_id) {
        let p = s.position(trans_id);
        assert(next.ledger[p].id == trans_id);
        assert forall|i: int| 0 <= i < next.ledger.len() implies (#[trigger] next.ledger[i]).id
            == s.ledger[i].id by {}
    } else {
        let p = s.ledger.len() as int;
        assert(next.ledger[p].id == trans_id);
        assert forall|i: int| 0 <= i < s.ledger.len() implies s.ledger[i].id != trans_id by {}
    }
    assert(next.has_transaction(trans_id));
    let q = next.position(trans_id);
    assert(next.ledger[q].id == trans_id);
    assert(next.ledger[q].record == record) by {
        if s.has_transaction(trans_id) {
            let p = s.position(trans_id);
            if q != p {
                assert(s.ledger[q].id == trans_id);
                if q < p {
                    assert(s.ledger[q].id != s.ledger[p].id);
                } else {
                    assert(s.ledger[p].id != s.ledger[q].id);
                }
            }
        } else {
            if q < s.ledger.len() {
                assert(s.ledger[q].id == trans_id);
            }
        }
    }
    assert forall|i: int, j: int| 0 <= i < j < next.ledger.len() implies next.ledger[i].id
        != next.ledger[j].id by {
        if j < s.ledger.len() {
            assert(s.ledger[i].id != s.ledger[j].id);
        } else {
            assert(s.ledger[i].id != trans_id);
        }
    }
    assert forall|id: Seq<char>| #[trigger] next.metadata.contains_key(id) implies next.has_transaction(id) by {
        assert(s.has_transaction(id));
        let i = s.position(id);
        assert(next.ledger[i].id == id);
    }
}

/// Adding a member keeps the state well formed and loses nothing.
pub proof fn law_apply_claim_keeps(
    s: State,
    group_id: Seq<char>,
    user_id: Seq<char>,
    claim: GroupClaimView,
)
    requires
        s.wf(),
        s.apply_claim(group_id, user_id, claim) is Ok,
    ensures
        s.apply_claim(group_id, user_id, claim)->Ok_0.0.wf(),
        s.persists_in(s.apply_claim(group_id, user_id, claim)->Ok_0.0),
{
    let next = s.apply_claim(group_id, user_id, claim)->Ok_0.0;
    assert(s.members.contains_key(group_id));
    assert(next.groups.dom() =~= next.members.dom());
    if !s.members[group_id].contains(user_id) {
        let before = s.members[group_id];
        let after = before.push(user_id);
        assert(before.no_duplicates());
        assert forall|a: int, b: int|
            0 <= a < after.len() && 0 <= b < after.len() && a != b implies after[a] != after[b] by {
            if a < before.len() {
                assert(before[a] == after[a]);
            }
            if b < before.len() {
                assert(before[b] == after[b]);
            }
        }
        assert forall|g: Seq<char>| #[trigger] next.members.contains_key(g) implies next.members[g].no_duplicates() by {
            if g != group_id {
                assert(s.members.contains_key(g));
            }
        }
    }
    assert forall|id: Seq<char>| #[trigger] next.metadata.contains_key(id) implies next.has_transaction(id) by {
        assert(s.has_transaction(id));
    }
}

/// Revoking a member keeps the state well formed and loses nothing but
/// the membership.
pub proof fn law_revoke_keeps(
    s: State,
    group_id: Seq<char>,
    user_id: Seq<char>,
    caller: Seq<char>,
)
    requires
        s.wf(),
        s.revoke_group_member(group_id, user_id, caller) is Ok,
    ensures
        s.revoke_group_member(group_id, user_id, caller)->Ok_0.0.wf(),
        s.persists_in(s.revoke_group_member(group_id, user_id, caller)->Ok_0.0),
{
    let next = s.revoke_group_member(group_id, user_id, caller)->Ok_0.0;
    assert(s.members.contains_key(group_id));
    assert(next.groups.dom() =~= next.members.dom());
    if s.is_member(group_id, user_id) {
        let before = s.members[group_id];
        let p = before.index_of(user_id);
        let after = before.remove(p);
        assert(before.no_duplicates());
        assert forall|a: int, b: int|
            0 <= a < after.len() && 0 <= b < after.len() && a != b implies after[a] != after[b] by {
            let a0 = if a < p {
                a
            } else {
                a + 1
            };
            let b0 = if b < p {
                b
            } else {
                b + 1
            };
            assert(after[a] == before[a0]);
            assert(after[b] == before[b0]);
        }
        assert forall|g: Seq<char>| #[trigger] next.members.contains_key(g) implies next.members[g].no_duplicates() by {
            if g != group_id {
                assert(s.members.contains_key(g));
            }
        }
    }
    assert forall|id: Seq<char>| #[trigger] next.metadata.contains_key(id) implies next.has_transaction(id) by {
        assert(s.has_transaction(id));
    }
}

/// Setting a group's key keeps the state well formed and loses nothing;
/// the group has a key from then on, and the ledger is as it was.
pub proof fn law_group_key_keeps(s: State, group_id: Seq<char>, key: Seq<char>)
    requires
        s.wf(),
        s.groups.contains_key(group_id),
    ensures
        s.with_group_key(group_id, key).wf(),
        s.persists_in(s.with_group_key(group_id, key)),
        s.with_group_key(group_id, key).groups[group_id].group_key == Some(key),
        s.with_group_key(group_id, key).ledger == s.ledger,
{
    let next = s.with_group_key(group_id, key);
    assert(next.groups.dom() =~= next.members.dom());
    assert forall|id: Seq<char>| #[trigger] next.metadata.contains_key(id) implies next.has_transaction(id) by {
        assert(s.has_transaction(id));
    }
}

/// Pointing a group's records to new payloads keeps the state well formed
/// and loses nothing: every row keeps its identifier and all of its record
/// but the locator, and the rows of other groups keep that too.
pub proof fn law_update_group_files_keeps(
    s: State,
    group_id: Seq<char>,
    locators: Seq<Seq<char>>,
    caller: Seq<char>,
)
    requires
        s.wf(),
        s.update_group_files(group_id, locators, caller) is Ok,
    ensures
        s.update_group_files(group_id, locators, caller)->Ok_0.0.wf(),
        s.persists_in(s.update_group_files(group_id, locators, caller)->Ok_0.0),
        forall|i: int|
            0 <= i < s.ledger.len() && s.ledger[i].record.group_id != group_id ==> (
            #[trigger] s.update_group_files(group_id, locators, caller)->Ok_0.0.ledger[i])
                == s.ledger[i],
{
    let next = s.update_group_files(group_id, locators, caller)->Ok_0.0;
    assert(next.ledger == relocated(s.ledger, group_id, locators));
    assert forall|i: int| 0 <= i < next.ledger.len() implies (#[trigger] next.ledger[i]).id
        == s.ledger[i].id && next.ledger[i].record.group_id == s.ledger[i].record.group_id by {}
    assert forall|i: int, j: int| 0 <= i < j < next.ledger.len() implies next.ledger[i].id
        != next.ledger[j].id by {
        assert(s.ledger[i].id != s.ledger[j].id);
    }
    assert forall|i: int| 0 <= i < next.ledger.len() implies next.groups.contains_key(
        #[trigger] next.ledger[i].record.group_id,
    ) by {
        assert(s.groups.contains_key(s.ledger[i].record.group_id));
    }
    assert forall|id: Seq<char>| #[trigger] next.metadata.contains_key(id) implies next.has_transaction(id) by {
        assert(s.has_transaction(id));
        let i = s.position(id);
        assert(next.ledger[i].id == id);
    }
}

/// What relocation does to a prefix of the ledger: the group has as many
/// records as before, and each has the locator of its place.
proof fn lemma_relocated_prefix(
    ledger: Seq<EntryView>,
    group_id: Seq<char>,
    locators: Seq<Seq<char>>,
    i: int,
)
    requires
        0 <= i <= ledger.len(),
    ensures
        records_of(relocated(ledger, group_id, locators).take(i), group_id).len() == records_of(
            ledger.take(i),
            group_id,
        ).len(),
        forall|k: int|
            0 <= k < records_of(ledger.take(i), group_id).len() ==> (#[trigger] records_of(
                relocated(ledger, group_id, locators).take(i),
                group_id,
            )[k]) == with_locator(records_of(ledger.take(i), group_id)[k], locators[k]),
    decreases i,
{
    let moved = relocated(ledger, group_id, locators);
    if i == 0 {
        assert(moved.take(0).len() == 0);
        assert(ledger.take(0).len() == 0);
    } else {
        lemma_relocated_prefix(ledger, group_id, locators, i - 1);
        lemma_records_prefix(ledger, group_id, i - 1);
        lemma_records_prefix(moved, group_id, i - 1);
    }
}

/// Relocation pairs records and locators by position: after it the group
/// has as many records as before, in the same order, and the record at
/// each place has the locator of that place and is otherwise as it was.
pub proof fn law_relocation_pairs(
    s: State,
    group_id: Seq<char>,
    locators: Seq<Seq<char>>,
    caller: Seq<char>,
)
    requires
        s.update_group_files(group_id, locators, caller) is Ok,
    ensures
        ({
            let next = s.update_group_files(group_id, locators, caller)->Ok_0.0;
            &&& records_of(next.ledger, group_id).len() == locators.len()
            &&& forall|k: int|
                0 <= k < locators.len() ==> (#[trigger] records_of(next.ledger, group_id)[k])
                    == with_locator(records_of(s.ledger, group_id)[k], locators[k])
        }),
{
    let next = s.update_group_files(group_id, locators, caller)->Ok_0.0;
    lemma_relocated_prefix(s.ledger, group_id, locators, s.ledger.len() as int);
    assert(s.ledger.take(s.ledger.len() as int) =~= s.ledger);
    assert(next.ledger.take(s.ledger.len() as int) =~= next.ledger);
}

/// Attaching metadata keeps the state well formed and loses nothing.
pub proof fn law_store_file_metadata_keeps(
    s: State,
    trans_id: Seq<char>,
    metadata: Seq<char>,
    caller: Seq<char>,
)
    requires
        s.wf(),
        s.store_file_metadata(trans_id, metadata, caller) is Ok,
    ensures
        s.store_file_metadata(trans_id, metadata, caller)->Ok_0.0.wf(),
        s.persists_in(s.store_file_metadata(trans_id, metadata, caller)->Ok_0.0),
{
    let next = s.store_file_metadata(trans_id, metadata, caller)->Ok_0.0;
    assert forall|id: Seq<char>| #[trigger] next.metadata.contains_key(id) implies next.has_transaction(id) by {
        if id != trans_id {
            assert(s.has_transaction(id));
        }
    }
}

} // verus!
