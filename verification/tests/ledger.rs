use dfs_manager::admission::GroupClaim;
use dfs_manager::digest::transaction_id;
use dfs_manager::{Contract, ContractError, ErrorKind, Event, Transaction};

const ROOT: &str = "root.near";

fn text(s: &str) -> String {
    s.to_string()
}

/// Groups "a" and "b"; "u" is a member of both, "v" of "a" only.
fn two_groups() -> Contract {
    let mut contract = Contract::new(text(ROOT), text(".agents.near"));
    contract.register_group(text("a"), text(ROOT)).unwrap();
    contract.register_group(text("b"), text(ROOT)).unwrap();
    contract.apply_claim(text("a"), text("u"), GroupClaim::Group(text("a"))).unwrap();
    contract.apply_claim(text("b"), text("u"), GroupClaim::Group(text("b"))).unwrap();
    contract.apply_claim(text("a"), text("v"), GroupClaim::Group(text("a"))).unwrap();
    contract
}

fn row(group: &str, user: &str, file: &str, locator: &str) -> Transaction {
    Transaction {
        group_id: text(group),
        user_id: text(user),
        file_hash: text(file),
        ipfs_hash: text(locator),
    }
}

fn put(contract: &mut Contract, id: &str, record: Transaction) {
    let event = contract.record_transaction_with_id(text(id), record, text(ROOT)).unwrap();
    assert_eq!(event, Event::TransactionRecorded { trans_id: text(id) });
}

fn locators(contract: &Contract, group: &str) -> Vec<String> {
    contract
        .get_transactions_for_group(text(group), text(ROOT))
        .unwrap()
        .into_iter()
        .map(|t| t.ipfs_hash)
        .collect()
}

#[test]
fn identifier_is_a_function_of_its_inputs() {
    let id = |g: &str, u: &str, f: &str, l: &str, t: u64| {
        transaction_id(&text(g), &text(u), &text(f), &text(l), t)
    };
    let base = id("group1", "user.near", "abc123", "QmTest", 0);
    assert_eq!(base, "198cd78b447c49978bb878032a54b2af963604da975c7d3a2fc84f002c9f58e4");
    assert_eq!(base, id("group1", "user.near", "abc123", "QmTest", 0));
    assert_eq!(
        id("group1", "user.near", "abc123", "QmTest", 1),
        "828705db00d8cedd8791fa5e4d892ac1e2574b167b5be753d52dff1e1b8b56c8"
    );
    assert_ne!(base, id("group2", "user.near", "abc123", "QmTest", 0));
    assert_ne!(base, id("group1", "user.far", "abc123", "QmTest", 0));
    assert_ne!(base, id("group1", "user.near", "abc124", "QmTest", 0));
    assert_ne!(base, id("group1", "user.near", "abc123", "QmTesu", 0));
    assert_ne!(base, id("group1", "user.near", "abc123", "QmTest", 10));
}

#[test]
fn inputs_are_joined_without_separators() {
    let id = |g: &str, u: &str, f: &str, l: &str, t: u64| {
        transaction_id(&text(g), &text(u), &text(f), &text(l), t)
    };
    assert_eq!(id("ab", "c", "f", "l", 12), id("a", "bc", "f", "l", 12));
    assert_eq!(id("g", "u", "f", "l1", 2), id("g", "u", "f", "l", 12));
    assert_ne!(id("ab", "c", "f", "l", 12), id("ab", "d", "f", "l", 12));
}

#[test]
fn recording_answers_with_the_identifier_of_the_inputs() {
    let mut contract = two_groups();
    let id = contract
        .record_transaction(text("a"), text("u"), text("f"), text("Qm1"), text(ROOT), 77)
        .unwrap();
    assert_eq!(id, transaction_id(&text("a"), &text("u"), &text("f"), &text("Qm1"), 77));
    assert_eq!(contract.get_transaction(id), Some(row("a", "u", "f", "Qm1")));
}

#[test]
fn recording_checks_group_member_and_caller_in_that_order() {
    let mut contract = two_groups();
    let mut attempt = |group: &str, user: &str, caller: &str| {
        contract.record_transaction(text(group), text(user), text("f"), text("l"), text(caller), 1)
    };
    assert_eq!(attempt("none", "nobody", "random.near"), Err(ContractError::GroupNotFound));
    assert_eq!(attempt("b", "v", "random.near"), Err(ContractError::UserNotAuthorized));
    assert_eq!(attempt("b", "u", "random.near"), Err(ContractError::RecordTransactionDenied));
    assert_eq!(attempt("b", "u", "u"), Err(ContractError::RecordTransactionDenied));
    assert!(attempt("b", "u", "bot.agents.near").is_ok());
    assert_eq!(locators(&contract, "b"), vec![text("l")]);
    assert_eq!(locators(&contract, "a"), Vec::<String>::new());
}

#[test]
fn same_inputs_at_the_same_time_overwrite() {
    let mut contract = two_groups();
    let first = contract
        .record_transaction(text("a"), text("u"), text("f"), text("l"), text(ROOT), 9)
        .unwrap();
    contract.store_file_metadata(first.clone(), text("size:1"), text(ROOT)).unwrap();
    contract.update_group_files(text("a"), vec![text("moved")], text(ROOT)).unwrap();
    let second = contract
        .record_transaction(text("a"), text("u"), text("f"), text("l"), text(ROOT), 9)
        .unwrap();
    assert_eq!(first, second);
    assert_eq!(locators(&contract, "a"), vec![text("l")]);
    assert_eq!(contract.get_file_metadata(first, text(ROOT)), Ok(Some(text("size:1"))));
    let third = contract
        .record_transaction(text("a"), text("u"), text("f"), text("l"), text(ROOT), 10)
        .unwrap();
    assert_ne!(third, second);
    assert_eq!(locators(&contract, "a"), vec![text("l"), text("l")]);
}

#[test]
fn an_identifier_keeps_its_place_when_overwritten() {
    let mut contract = two_groups();
    put(&mut contract, "t1", row("a", "u", "f1", "l1"));
    put(&mut contract, "t2", row("a", "v", "f2", "l2"));
    put(&mut contract, "t1", row("a", "v", "f3", "l3"));
    assert_eq!(
        contract.get_transactions_for_group(text("a"), text(ROOT)),
        Ok(vec![row("a", "v", "f3", "l3"), row("a", "v", "f2", "l2")])
    );
    assert_eq!(contract.get_transaction(text("t1")), Some(row("a", "v", "f3", "l3")));
    assert_eq!(contract.get_transaction(text("t3")), None);
    assert_eq!(contract.get_transaction(text("")), None);
}

#[test]
fn listing_is_for_members_and_the_privileged() {
    let mut contract = two_groups();
    put(&mut contract, "t1", row("a", "u", "f1", "l1"));
    put(&mut contract, "t2", row("b", "u", "f2", "l2"));
    put(&mut contract, "t3", row("a", "v", "f3", "l3"));
    let of_a = vec![row("a", "u", "f1", "l1"), row("a", "v", "f3", "l3")];
    assert_eq!(contract.get_transactions_for_group(text("a"), text("v")), Ok(of_a.clone()));
    assert_eq!(contract.get_transactions_for_group(text("a"), text("x.agents.near")), Ok(of_a));
    assert_eq!(
        contract.get_transactions_for_group(text("b"), text("v")),
        Err(ContractError::ViewTransactionsDenied)
    );
    assert_eq!(
        contract.get_transactions_for_group(text("b"), text("u")),
        Ok(vec![row("b", "u", "f2", "l2")])
    );
    assert_eq!(
        contract.get_transactions_for_group(text("c"), text(ROOT)),
        Err(ContractError::GroupNotFound)
    );
}

#[test]
fn relocation_pairs_records_and_locators_in_ledger_order() {
    let mut contract = two_groups();
    put(&mut contract, "t1", row("a", "u", "f1", "l1"));
    put(&mut contract, "t2", row("b", "u", "f2", "l2"));
    put(&mut contract, "t3", row("a", "v", "f3", "l3"));
    put(&mut contract, "t4", row("b", "u", "f4", "l4"));
    put(&mut contract, "t5", row("a", "u", "f5", "l5"));
    contract
        .update_group_files(text("a"), vec![text("n1"), text("n2"), text("n3")], text(ROOT))
        .unwrap();
    assert_eq!(contract.get_transaction(text("t1")), Some(row("a", "u", "f1", "n1")));
    assert_eq!(contract.get_transaction(text("t2")), Some(row("b", "u", "f2", "l2")));
    assert_eq!(contract.get_transaction(text("t3")), Some(row("a", "v", "f3", "n2")));
    assert_eq!(contract.get_transaction(text("t4")), Some(row("b", "u", "f4", "l4")));
    assert_eq!(contract.get_transaction(text("t5")), Some(row("a", "u", "f5", "n3")));
}

#[test]
fn relocation_with_a_wrong_count_changes_nothing() {
    let mut contract = two_groups();
    put(&mut contract, "t1", row("a", "u", "f1", "l1"));
    put(&mut contract, "t2", row("a", "u", "f2", "l2"));
    for wrong in [vec![text("n1")], vec![text("n1"), text("n2"), text("n3")]] {
        let refused = contract.update_group_files(text("a"), wrong, text(ROOT));
        assert_eq!(refused, Err(ContractError::LocatorCountMismatch));
        assert_eq!(refused.unwrap_err().kind(), ErrorKind::InvalidArgument);
        assert_eq!(locators(&contract, "a"), vec![text("l1"), text("l2")]);
    }
    let refused = contract.update_group_files(text("a"), vec![], text(ROOT));
    assert_eq!(refused, Err(ContractError::EmptyLocators));
    assert_eq!(refused.unwrap_err().kind(), ErrorKind::InvalidArgument);
    // A group without records takes no list at all.
    assert_eq!(
        contract.update_group_files(text("b"), vec![], text(ROOT)),
        Err(ContractError::EmptyLocators)
    );
    assert_eq!(
        contract.update_group_files(text("b"), vec![text("n")], text(ROOT)),
        Err(ContractError::LocatorCountMismatch)
    );
    assert_eq!(locators(&contract, "a"), vec![text("l1"), text("l2")]);
}

#[test]
fn relocation_checks_group_and_caller_first() {
    let mut contract = two_groups();
    put(&mut contract, "t1", row("a", "u", "f1", "l1"));
    assert_eq!(
        contract.update_group_files(text("none"), vec![], text("random.near")),
        Err(ContractError::GroupNotFound)
    );
    assert_eq!(
        contract.update_group_files(text("a"), vec![], text("u")),
        Err(ContractError::UpdateFilesDenied)
    );
    assert_eq!(locators(&contract, "a"), vec![text("l1")]);
}

#[test]
fn metadata_is_kept_per_transaction() {
    let mut contract = two_groups();
    put(&mut contract, "t1", row("a", "u", "f1", "l1"));
    put(&mut contract, "t2", row("b", "u", "f2", "l2"));
    assert_eq!(contract.get_file_metadata(text("t1"), text(ROOT)), Ok(None));
    let event = contract.store_file_metadata(text("t1"), text("m1"), text("x.agents.near")).unwrap();
    assert_eq!(event, Event::MetadataStored { trans_id: text("t1") });
    assert_eq!(contract.get_file_metadata(text("t1"), text("v")), Ok(Some(text("m1"))));
    assert_eq!(contract.get_file_metadata(text("t2"), text("u")), Ok(None));
    assert_eq!(
        contract.get_file_metadata(text("t2"), text("v")),
        Err(ContractError::ViewMetadataDenied)
    );
    contract.store_file_metadata(text("t1"), text("m2"), text(ROOT)).unwrap();
    assert_eq!(contract.get_file_metadata(text("t1"), text("u")), Ok(Some(text("m2"))));
    // Metadata does not touch the record.
    assert_eq!(contract.get_transaction(text("t1")), Some(row("a", "u", "f1", "l1")));
}

#[test]
fn metadata_calls_check_in_order() {
    let mut contract = two_groups();
    put(&mut contract, "t1", row("a", "u", "f1", "l1"));
    assert_eq!(
        contract.store_file_metadata(text("t9"), text(""), text("random.near")),
        Err(ContractError::TransactionNotFound)
    );
    assert_eq!(
        contract.store_file_metadata(text("t1"), text(""), text("u")),
        Err(ContractError::StoreMetadataDenied)
    );
    assert_eq!(
        contract.store_file_metadata(text("t1"), text(""), text(ROOT)),
        Err(ContractError::EmptyMetadata)
    );
    assert_eq!(
        contract.get_file_metadata(text("t9"), text(ROOT)),
        Err(ContractError::TransactionNotFound)
    );
    assert_eq!(contract.get_file_metadata(text("t1"), text(ROOT)), Ok(None));
}
