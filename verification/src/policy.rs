//! The policy guard: predicates on the caller of an operation. They have
//! no state of their own; the contract hands them its root owner, the
//! suffix of its privileged agents and, where a group is concerned, the
//! group's owner.

use crate::text::{ends_with, has_suffix, same_text};
use vstd::prelude::*;

verus! {

/// The caller is a privileged agent: its identity ends with the suffix.
pub open spec fn privileged(caller: Seq<char>, agent_suffix: Seq<char>) -> bool {
    has_suffix(caller, agent_suffix)
}

/// The caller is the root owner or a privileged agent.
pub open spec fn root_or_privileged(
    caller: Seq<char>,
    owner: Seq<char>,
    agent_suffix: Seq<char>,
) -> bool {
    caller == owner || privileged(caller, agent_suffix)
}

/// The caller owns the group, or is the root owner or a privileged agent.
pub open spec fn group_owner_or_privileged(
    caller: Seq<char>,
    group_owner: Seq<char>,
    owner: Seq<char>,
    agent_suffix: Seq<char>,
) -> bool {
    caller == group_owner || root_or_privileged(caller, owner, agent_suffix)
}

/// Whether the caller is a privileged agent.
pub fn is_privileged(caller: &String, agent_suffix: &String) -> (r: bool)
    ensures
        r == privileged(caller@, agent_suffix@),
{
    ends_with(caller.as_str(), agent_suffix.as_str())
}

/// Whether the caller is the root owner or a privileged agent.
pub fn is_root_or_privileged(caller: &String, owner: &String, agent_suffix: &String) -> (r: bool)
    ensures
        r == root_or_privileged(caller@, owner@, agent_suffix@),
{
    same_text(caller, owner) || is_privileged(caller, agent_suffix)
}

/// Whether the caller owns the group, or is the root owner or a privileged
/// agent.
pub fn is_group_owner_or_privileged(
    caller: &String,
    group_owner: &String,
    owner: &String,
    agent_suffix: &String,
) -> (r: bool)
    ensures
        r == group_owner_or_privileged(caller@, group_owner@, owner@, agent_suffix@),
{
    same_text(caller, group_owner) || is_root_or_privileged(caller, owner, agent_suffix)
}

} // verus!
