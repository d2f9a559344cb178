use dfs_manager::admission::{read_claim, read_extra, GroupClaim, OwnershipProof, ProofMetadata};
use dfs_manager::{Contract, ContractError, ErrorKind};

fn text(s: &str) -> String {
    s.to_string()
}

fn credential(metadata: Option<ProofMetadata>) -> OwnershipProof {
    OwnershipProof { token_id: text("fan000"), owner_id: text("user.x"), metadata }
}

#[test]
fn read_extra_finds_the_group() {
    assert_eq!(read_extra("{\"group_id\":\"group1\"}"), GroupClaim::Group(text("group1")));
    assert_eq!(
        read_extra(" { \"tier\" : 3, \"group_id\" : \"g\\u0031\" , \"x\": [1, 2] } "),
        GroupClaim::Group(text("g1"))
    );
    assert_eq!(read_extra("{\"group_id\":\"\"}"), GroupClaim::Group(text("")));
}

#[test]
fn read_extra_tells_invalid_from_missing() {
    assert_eq!(read_extra(""), GroupClaim::ExtraInvalid);
    assert_eq!(read_extra("group1"), GroupClaim::ExtraInvalid);
    assert_eq!(read_extra("{\"group_id\":\"group1\""), GroupClaim::ExtraInvalid);
    assert_eq!(read_extra("{\"group_id\":\"group1\"} trailing"), GroupClaim::ExtraInvalid);
    assert_eq!(read_extra("{}"), GroupClaim::GroupMissing);
    assert_eq!(read_extra("{\"group\":\"group1\"}"), GroupClaim::GroupMissing);
    assert_eq!(read_extra("{\"group_id\":7}"), GroupClaim::GroupMissing);
    assert_eq!(read_extra("{\"group_id\":null}"), GroupClaim::GroupMissing);
    assert_eq!(read_extra("{\"group_id\":[\"group1\"]}"), GroupClaim::GroupMissing);
    assert_eq!(read_extra("{\"meta\":{\"group_id\":\"group1\"}}"), GroupClaim::GroupMissing);
    assert_eq!(read_extra("[\"group_id\"]"), GroupClaim::GroupMissing);
    assert_eq!(read_extra("\"group_id\""), GroupClaim::GroupMissing);
    assert_eq!(read_extra("null"), GroupClaim::GroupMissing);
}

#[test]
fn read_claim_looks_through_the_metadata() {
    assert_eq!(read_claim(&credential(None)), GroupClaim::MetadataMissing);
    assert_eq!(read_claim(&credential(Some(ProofMetadata { extra: None }))), GroupClaim::ExtraMissing);
    assert_eq!(
        read_claim(&credential(Some(ProofMetadata { extra: Some(text("not json")) }))),
        GroupClaim::ExtraInvalid
    );
    assert_eq!(
        read_claim(&credential(Some(ProofMetadata { extra: Some(text("{\"group_id\":\"g\"}")) }))),
        GroupClaim::Group(text("g"))
    );
}

#[test]
fn every_unusable_claim_is_a_group_mismatch() {
    let mut contract = Contract::new(text("root.near"), text(".agents.near"));
    contract.register_group(text("g"), text("root.near")).unwrap();
    let cases = [
        (GroupClaim::MetadataMissing, ContractError::CredentialMetadataMissing),
        (GroupClaim::ExtraMissing, ContractError::CredentialExtraMissing),
        (GroupClaim::ExtraInvalid, ContractError::CredentialExtraInvalid),
        (GroupClaim::GroupMissing, ContractError::CredentialGroupMissing),
        (GroupClaim::Group(text("h")), ContractError::CredentialGroupMismatch),
        (GroupClaim::Group(text("G")), ContractError::CredentialGroupMismatch),
        (GroupClaim::Group(text("")), ContractError::CredentialGroupMismatch),
    ];
    for (claim, expected) in cases {
        let refused = contract.apply_claim(text("g"), text("user.x"), claim);
        assert_eq!(refused, Err(expected));
        assert_eq!(expected.kind(), ErrorKind::GroupMismatch);
        assert_eq!(contract.get_group_members(&text("g")), Some(vec![]));
    }
    assert!(contract.apply_claim(text("g"), text("user.x"), GroupClaim::Group(text("g"))).is_ok());
    assert_eq!(contract.get_group_members(&text("g")), Some(vec![text("user.x")]));
}
