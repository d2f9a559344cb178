use dfs_manager::{Contract, ContractError};

fn text(s: &str) -> String {
    s.to_string()
}

#[test]
fn the_root_owner_is_privileged_by_identity() {
    let contract = Contract::new(text("devbot.near"), text(".devbot.near"));
    assert_eq!(contract.owner(), "devbot.near");
    assert_eq!(contract.agent_suffix(), ".devbot.near");
    assert!(contract.is_root_or_privileged(&text("devbot.near")));
    assert!(!contract.is_root_or_privileged(&text("devbot.nea")));
    assert!(!contract.is_root_or_privileged(&text("xdevbot.near")));
}

#[test]
fn agents_are_recognised_by_suffix() {
    let contract = Contract::new(text("owner.near"), text(".devbot.near"));
    assert!(contract.is_root_or_privileged(&text("auth-agent.devbot.near")));
    assert!(contract.is_root_or_privileged(&text("a.b.devbot.near")));
    assert!(contract.is_root_or_privileged(&text(".devbot.near")));
    assert!(!contract.is_root_or_privileged(&text("devbot.near")));
    assert!(!contract.is_root_or_privileged(&text("auth-agent.devbot.near.evil")));
    assert!(!contract.is_root_or_privileged(&text("auth-agent.devbot.nearx")));
    assert!(!contract.is_root_or_privileged(&text("auth-agent-devbot.near")));
    assert!(!contract.is_root_or_privileged(&text("random.near")));
    assert!(!contract.is_root_or_privileged(&text("")));
    assert!(!contract.is_root_or_privileged(&text("near")));
}

#[test]
fn the_suffix_is_configuration() {
    let contract = Contract::new(text("owner.near"), text(".ops.example"));
    assert!(contract.is_root_or_privileged(&text("bot.ops.example")));
    assert!(!contract.is_root_or_privileged(&text("auth-agent.devbot.near")));
    let mut contract = contract;
    assert_eq!(
        contract.register_group(text("g"), text("auth-agent.devbot.near")),
        Err(ContractError::RegisterGroupDenied)
    );
    assert!(contract.register_group(text("g"), text("bot.ops.example")).is_ok());
}

#[test]
fn suffix_test_works_on_characters_beyond_ascii() {
    let contract = Contract::new(text("owner.near"), text(".détachement"));
    assert!(contract.is_root_or_privileged(&text("agent.détachement")));
    assert!(!contract.is_root_or_privileged(&text("agent.detachement")));
}

#[test]
fn the_guard_needs_no_contract() {
    let owner = text("root.near");
    let suffix = text(".agents.near");
    assert!(dfs_manager::policy::is_privileged(&text("a.agents.near"), &suffix));
    assert!(!dfs_manager::policy::is_privileged(&text("root.near"), &suffix));
    assert!(dfs_manager::policy::is_privileged(&text("anyone"), &text("")));
    assert!(dfs_manager::policy::is_root_or_privileged(&text("root.near"), &owner, &suffix));
    assert!(dfs_manager::policy::is_root_or_privileged(&text("b.agents.near"), &owner, &suffix));
    assert!(!dfs_manager::policy::is_root_or_privileged(&text("user.near"), &owner, &suffix));
    let group_owner = text("founder.near");
    for (caller, expected) in [
        ("founder.near", true),
        ("root.near", true),
        ("c.agents.near", true),
        ("user.near", false),
        ("founder.nea", false),
    ] {
        assert_eq!(
            dfs_manager::policy::is_group_owner_or_privileged(
                &text(caller),
                &group_owner,
                &owner,
                &suffix
            ),
            expected
        );
    }
}
