use dfs_manager::admission::{OwnershipProof, ProofMetadata, VerificationOutcome};
use dfs_manager::{Contract, ContractError, ErrorKind, Event};

const ROOT: &str = "devbot.near";
const AGENT: &str = "auth-agent.devbot.near";

fn text(s: &str) -> String {
    s.to_string()
}

fn proof_for(group: &str) -> OwnershipProof {
    OwnershipProof {
        token_id: text("fan000"),
        owner_id: text("user.x"),
        metadata: Some(ProofMetadata { extra: Some(format!("{{\"group_id\":\"{}\"}}", group)) }),
    }
}

fn one_proof(group: &str) -> VerificationOutcome {
    VerificationOutcome::Proofs(vec![proof_for(group)])
}

fn fresh() -> Contract {
    Contract::new(text(ROOT), text(".devbot.near"))
}

fn with_group() -> Contract {
    let mut contract = fresh();
    contract.register_group(text("group1"), text(ROOT)).unwrap();
    contract
}

fn with_member() -> Contract {
    let mut contract = with_group();
    contract.add_group_member_callback(text("group1"), text("user.x"), one_proof("group1")).unwrap();
    contract
}

#[test]
fn scenario_admission_record_relocate() {
    let mut contract = fresh();
    let event = contract.register_group(text("group1"), text(ROOT)).unwrap();
    assert_eq!(event, Event::GroupRegistered { group_id: text("group1"), owner: text(ROOT) });

    let request = contract.add_group_member(text("group1"), text("user.x"), text(ROOT)).unwrap();
    assert_eq!(request.account_id, "user.x");
    assert_eq!(request.limit, Some(1));
    assert_eq!(contract.is_authorized(text("group1"), text("user.x")), Ok(false));

    let event = contract
        .add_group_member_callback(request.group_id, request.user_id, one_proof("group1"))
        .unwrap();
    assert_eq!(event, Event::MemberAdded { user_id: text("user.x"), group_id: text("group1") });
    assert_eq!(contract.is_authorized(text("group1"), text("user.x")), Ok(true));

    let id = contract
        .record_transaction(
            text("group1"),
            text("user.x"),
            text("abc123"),
            text("QmTest"),
            text(AGENT),
            1,
        )
        .unwrap();
    assert_eq!(id, "ecf53c728969c3c799b7382488485d28b12827c4f5c8097b76e6bc24c2476b43");
    assert_eq!(contract.get_transaction(id.clone()).unwrap().ipfs_hash, "QmTest");

    let event = contract.update_group_files(text("group1"), vec![text("QmNew")], text(ROOT)).unwrap();
    assert_eq!(event, Event::FilesUpdated { group_id: text("group1") });
    let record = contract.get_transaction(id).unwrap();
    assert_eq!(record.ipfs_hash, "QmNew");
    assert_eq!(record.group_id, "group1");
    assert_eq!(record.user_id, "user.x");
    assert_eq!(record.file_hash, "abc123");
}

#[test]
fn scenario_group_key_lifecycle() {
    let mut contract = with_group();
    contract.store_group_key(text("group1"), text("k1"), text(ROOT)).unwrap();

    let refused = contract.get_group_key(text("group1"), text("user.x"), text("user.x"));
    assert_eq!(refused, Err(ContractError::UserNotAuthorized));
    assert_eq!(refused.unwrap_err().kind(), ErrorKind::Unauthorized);

    contract.add_group_member_callback(text("group1"), text("user.x"), one_proof("group1")).unwrap();
    assert_eq!(contract.get_group_key(text("group1"), text("user.x"), text("user.x")), Ok(text("k1")));

    let event = contract.rotate_group_key(text("group1"), text("k2"), text(ROOT)).unwrap();
    assert_eq!(event, Event::GroupKeyRotated { group_id: text("group1") });
    assert_eq!(contract.get_group_key(text("group1"), text("user.x"), text("user.x")), Ok(text("k2")));
    assert_eq!(contract.get_group_key(text("group1"), text("user.x"), text(AGENT)), Ok(text("k2")));
}

#[test]
fn registering_twice_is_refused() {
    let mut contract = with_group();
    let again = contract.register_group(text("group1"), text(ROOT));
    assert_eq!(again, Err(ContractError::GroupAlreadyExists));
    assert_eq!(again.unwrap_err().kind(), ErrorKind::AlreadyExists);
    // Whoever asks, and before the caller is looked at.
    assert_eq!(
        contract.register_group(text("group1"), text("random.near")),
        Err(ContractError::GroupAlreadyExists)
    );
    // The first registration stands.
    assert_eq!(contract.get_group(&text("group1")).unwrap().owner, ROOT);
}

#[test]
fn admission_twice_adds_once() {
    let mut contract = with_member();
    assert_eq!(contract.get_group_members(&text("group1")), Some(vec![text("user.x")]));
    let event = contract
        .add_group_member_callback(text("group1"), text("user.x"), one_proof("group1"))
        .unwrap();
    assert_eq!(event, Event::AlreadyMember { user_id: text("user.x"), group_id: text("group1") });
    assert_eq!(event.message(), "User user.x is already a member of group group1");
    assert_eq!(contract.get_group_members(&text("group1")), Some(vec![text("user.x")]));
}

#[test]
fn members_keep_the_order_of_joining() {
    let mut contract = with_member();
    contract.add_group_member_callback(text("group1"), text("a.x"), one_proof("group1")).unwrap();
    contract.add_group_member_callback(text("group1"), text("z.x"), one_proof("group1")).unwrap();
    assert_eq!(
        contract.get_group_members(&text("group1")),
        Some(vec![text("user.x"), text("a.x"), text("z.x")])
    );
    contract.revoke_group_member(text("group1"), text("a.x"), text(ROOT)).unwrap();
    assert_eq!(
        contract.get_group_members(&text("group1")),
        Some(vec![text("user.x"), text("z.x")])
    );
}

#[test]
fn empty_proof_list_changes_nothing() {
    let mut contract = with_group();
    let refused = contract.add_group_member_callback(
        text("group1"),
        text("user.x"),
        VerificationOutcome::Proofs(vec![]),
    );
    assert_eq!(refused, Err(ContractError::NoCredential));
    assert_eq!(refused.unwrap_err().kind(), ErrorKind::VerificationFailed);
    assert_eq!(contract.get_group_members(&text("group1")), Some(vec![]));
    assert_eq!(contract.is_authorized(text("group1"), text("user.x")), Ok(false));
}

#[test]
fn failed_check_changes_nothing() {
    let mut contract = with_group();
    let refused =
        contract.add_group_member_callback(text("group1"), text("user.x"), VerificationOutcome::Failed);
    assert_eq!(refused, Err(ContractError::OwnershipCheckFailed));
    assert_eq!(refused.unwrap_err().kind(), ErrorKind::VerificationFailed);
    assert_eq!(contract.get_group_members(&text("group1")), Some(vec![]));
}

#[test]
fn credential_of_another_group_changes_nothing() {
    let mut contract = with_group();
    contract.register_group(text("group2"), text(ROOT)).unwrap();
    let refused =
        contract.add_group_member_callback(text("group1"), text("user.x"), one_proof("group2"));
    assert_eq!(refused, Err(ContractError::CredentialGroupMismatch));
    assert_eq!(refused.unwrap_err().kind(), ErrorKind::GroupMismatch);
    assert_eq!(contract.get_group_members(&text("group1")), Some(vec![]));
    assert_eq!(contract.get_group_members(&text("group2")), Some(vec![]));
}

#[test]
fn only_the_first_credential_counts() {
    let mut contract = with_group();
    let outcome = VerificationOutcome::Proofs(vec![proof_for("group2"), proof_for("group1")]);
    assert_eq!(
        contract.add_group_member_callback(text("group1"), text("user.x"), outcome),
        Err(ContractError::CredentialGroupMismatch)
    );
    let outcome = VerificationOutcome::Proofs(vec![proof_for("group1"), proof_for("group2")]);
    assert!(contract.add_group_member_callback(text("group1"), text("user.x"), outcome).is_ok());
}

#[test]
fn admission_to_an_unregistered_group_is_refused() {
    let mut contract = fresh();
    assert_eq!(
        contract.add_group_member(text("group1"), text("user.x"), text(ROOT)),
        Err(ContractError::GroupNotFound)
    );
    assert_eq!(
        contract.add_group_member_callback(text("group1"), text("user.x"), one_proof("group1")),
        Err(ContractError::GroupNotFound)
    );
    // The credential is looked at first.
    assert_eq!(
        contract.add_group_member_callback(text("group1"), text("user.x"), one_proof("group2")),
        Err(ContractError::CredentialGroupMismatch)
    );
}

#[test]
fn phase_one_changes_nothing_and_checks_the_caller() {
    let contract = with_member();
    assert_eq!(
        contract.add_group_member(text("group1"), text("new.x"), text("random.near")),
        Err(ContractError::AddMemberDenied)
    );
    let request = contract.add_group_member(text("group1"), text("user.x"), text(AGENT)).unwrap();
    assert_eq!(request.account_id, "user.x");
    assert_eq!(request.from_index, None);
    assert_eq!(request.limit, Some(1));
    assert_eq!(request.group_id, "group1");
    assert_eq!(request.user_id, "user.x");
    assert_eq!(contract.get_group_members(&text("group1")), Some(vec![text("user.x")]));
}

#[test]
fn revoking_a_non_member_is_no_error() {
    let mut contract = with_member();
    let event = contract.revoke_group_member(text("group1"), text("other.x"), text(ROOT)).unwrap();
    assert_eq!(event, Event::NotMember { user_id: text("other.x"), group_id: text("group1") });
    assert_eq!(event.message(), "User other.x is not a member of group group1");
    assert_eq!(contract.get_group_members(&text("group1")), Some(vec![text("user.x")]));
    assert_eq!(contract.is_authorized(text("group1"), text("user.x")), Ok(true));
}

#[test]
fn revoking_removes_only_that_member() {
    let mut contract = with_member();
    contract.add_group_member_callback(text("group1"), text("other.x"), one_proof("group1")).unwrap();
    let event = contract.revoke_group_member(text("group1"), text("user.x"), text(AGENT)).unwrap();
    assert_eq!(event, Event::MemberRevoked { user_id: text("user.x"), group_id: text("group1") });
    assert_eq!(contract.is_authorized(text("group1"), text("user.x")), Ok(false));
    assert_eq!(contract.is_authorized(text("group1"), text("other.x")), Ok(true));
    assert_eq!(
        contract.revoke_group_member(text("group1"), text("other.x"), text("random.near")),
        Err(ContractError::RevokeMemberDenied)
    );
    assert_eq!(
        contract.revoke_group_member(text("nogroup"), text("other.x"), text(ROOT)),
        Err(ContractError::GroupNotFound)
    );
}

#[test]
fn a_revoked_member_can_be_admitted_again() {
    let mut contract = with_member();
    contract.revoke_group_member(text("group1"), text("user.x"), text(ROOT)).unwrap();
    let event = contract
        .add_group_member_callback(text("group1"), text("user.x"), one_proof("group1"))
        .unwrap();
    assert_eq!(event, Event::MemberAdded { user_id: text("user.x"), group_id: text("group1") });
    assert_eq!(contract.is_authorized(text("group1"), text("user.x")), Ok(true));
}

#[test]
fn membership_of_an_unknown_group_is_not_found() {
    let contract = with_group();
    let refused = contract.is_authorized(text("group9"), text("user.x"));
    assert_eq!(refused, Err(ContractError::GroupNotFound));
    assert_eq!(refused.unwrap_err().kind(), ErrorKind::NotFound);
}

#[test]
fn storing_a_key_again_replaces_it() {
    let mut contract = with_member();
    assert_eq!(contract.get_group(&text("group1")).unwrap().group_key, None);
    assert_eq!(
        contract.get_group_key(text("group1"), text("user.x"), text("user.x")),
        Err(ContractError::GroupKeyNotSet)
    );
    contract.store_group_key(text("group1"), text("k1"), text(ROOT)).unwrap();
    let event = contract.store_group_key(text("group1"), text("k2"), text(AGENT)).unwrap();
    assert_eq!(event, Event::GroupKeyStored { group_id: text("group1") });
    assert_eq!(contract.get_group(&text("group1")).unwrap().group_key, Some(text("k2")));
    assert_eq!(contract.get_group(&text("group1")).unwrap().owner, ROOT);
}

#[test]
fn key_calls_on_an_unknown_group_are_not_found() {
    let mut contract = fresh();
    assert_eq!(
        contract.store_group_key(text("group1"), text("k"), text(ROOT)),
        Err(ContractError::GroupNotFound)
    );
    assert_eq!(
        contract.rotate_group_key(text("group1"), text("k"), text(ROOT)),
        Err(ContractError::GroupNotFound)
    );
    assert_eq!(
        contract.get_group_key(text("group1"), text("user.x"), text(ROOT)),
        Err(ContractError::GroupNotFound)
    );
    assert!(contract.get_group(&text("group1")).is_none());
    assert!(contract.get_group_members(&text("group1")).is_none());
}

#[test]
fn rotating_a_key_leaves_the_ledger_alone() {
    let mut contract = with_member();
    contract.store_group_key(text("group1"), text("k1"), text(ROOT)).unwrap();
    let id = contract
        .record_transaction(text("group1"), text("user.x"), text("h"), text("QmA"), text(ROOT), 5)
        .unwrap();
    contract.rotate_group_key(text("group1"), text("k2"), text(ROOT)).unwrap();
    assert_eq!(contract.get_transaction(id).unwrap().ipfs_hash, "QmA");
}

#[test]
fn the_group_owner_manages_the_group() {
    let mut contract = Contract::new(text(ROOT), text(".devbot.near"));
    contract.register_group(text("group1"), text("founder.devbot.near")).unwrap();
    // The owner of the group is whoever registered it.
    let mut other = Contract::new(text("founder.near"), text(".devbot.near"));
    other.register_group(text("mine"), text("founder.near")).unwrap();
    assert_eq!(other.get_group(&text("mine")).unwrap().owner, "founder.near");
    assert_eq!(other.is_group_owner_or_privileged(&text("founder.near"), &text("mine")), Ok(true));
    assert_eq!(other.is_group_owner_or_privileged(&text("random.near"), &text("mine")), Ok(false));
    assert_eq!(
        other.is_group_owner_or_privileged(&text("founder.near"), &text("none")),
        Err(ContractError::GroupNotFound)
    );
    assert_eq!(contract.is_group_owner_or_privileged(&text(ROOT), &text("group1")), Ok(true));
    assert_eq!(
        contract.is_group_owner_or_privileged(&text("founder.devbot.near"), &text("group1")),
        Ok(true)
    );
}
