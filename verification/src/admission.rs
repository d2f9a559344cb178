//! The two-phase admission of a member. Phase one asks an outside oracle
//! which credentials a user holds; phase two takes the oracle's answer and
//! adds the user when the first credential names the group.

use near_sdk::serde_json::{Error, Value};
use vstd::prelude::*;

verus! {

/// The metadata that a credential carries: at most a free-form text, which
/// is expected to be a JSON object with a string member `group_id`.
#[derive(Clone, Debug, PartialEq, Eq)]
pub struct ProofMetadata {
    pub extra: Option<String>,
}

/// A credential as the oracle reports it.
#[derive(Clone, Debug, PartialEq, Eq)]
pub struct OwnershipProof {
    pub token_id: String,
    pub owner_id: String,
    pub metadata: Option<ProofMetadata>,
}

/// How the ownership check ended.
#[derive(Clone, Debug, PartialEq, Eq)]
pub enum VerificationOutcome {
    /// The call to the oracle failed or never completed.
    Failed,
    /// The oracle answered with the user's credentials, possibly none.
    Proofs(Vec<OwnershipProof>),
}

/// The question that phase one puts to the oracle, together with the pair
/// that phase two is to be resumed with.
#[derive(Clone, Debug, PartialEq, Eq)]
pub struct AdmissionRequest {
    /// The account whose credentials are asked for.
    pub account_id: String,
    /// Where the listing starts; `None` for the beginning.
    pub from_index: Option<u128>,
    /// How many credentials are asked for at most.
    pub limit: Option<u64>,
    /// The group to resume with.
    pub group_id: String,
    /// The user to resume with.
    pub user_id: String,
}

/// A request, over sequences of characters.
pub struct AdmissionRequestView {
    pub account_id: Seq<char>,
    pub from_index: Option<u128>,
    pub limit: Option<u64>,
    pub group_id: Seq<char>,
    pub user_id: Seq<char>,
}

impl View for AdmissionRequest {
    type V = AdmissionRequestView;

    open spec fn view(&self) -> AdmissionRequestView {
        AdmissionRequestView {
            account_id: self.account_id@,
            from_index: self.from_index,
            limit: self.limit,
            group_id: self.group_id@,
            user_id: self.user_id@,
        }
    }
}

/// What a credential says about its group.
#[derive(Clone, Debug, PartialEq, Eq)]
pub enum GroupClaim {
    /// The credential has no metadata.
    MetadataMissing,
    /// The metadata has no free-form text.
    ExtraMissing,
    /// The free-form text is not JSON.
    ExtraInvalid,
    /// The JSON has no string member `group_id`.
    GroupMissing,
    /// The credential is for this group.
    Group(String),
}

/// A claim, over sequences of characters.
pub enum GroupClaimView {
    MetadataMissing,
    ExtraMissing,
    ExtraInvalid,
    GroupMissing,
    Group(Seq<char>),
}

impl View for GroupClaim {
    type V = GroupClaimView;

    open spec fn view(&self) -> GroupClaimView {
        match self {
            GroupClaim::MetadataMissing => GroupClaimView::MetadataMissing,
            GroupClaim::ExtraMissing => GroupClaimView::ExtraMissing,
            GroupClaim::ExtraInvalid => GroupClaimView::ExtraInvalid,
            GroupClaim::GroupMissing => GroupClaimView::GroupMissing,
            GroupClaim::Group(g) => GroupClaimView::Group(g@),
        }
    }
}

/// The outcome of the ownership check as phase two reads it: whether the
/// check completed, how many credentials it found, and what the first one
/// claims.
pub enum OutcomeView {
    Failed,
    Empty,
    First(GroupClaimView),
}

/// A parsed JSON document of `serde_json`.
#[verifier::external_type_specification]
#[verifier::external_body]
pub struct ExValue(Value);

/// The error of `serde_json`.
#[verifier::external_type_specification]
#[verifier::external_body]
pub struct ExError(Error);

/// The string-valued members of the JSON object that `text` is, by name;
/// `None` where `text` is not JSON. A text that is JSON but no object has
/// no members.
pub uninterp spec fn json_text_members(text: Seq<char>) -> Option<Map<Seq<char>, Seq<char>>>;

/// The string-valued members of a parsed document, by name. A document that
/// is no object has none.
pub uninterp spec fn json_members(doc: Value) -> Map<Seq<char>, Seq<char>>;

/// Wraps `serde_json::from_str` at the type `Value`. The contract claims
/// that success and the string members of the document depend on the text
/// alone, and names them.
#[verifier::external_body]
fn json_from_str(text: &str) -> (r: Result<Value, Error>)
    ensures
        match r {
            Ok(doc) => json_text_members(text@) == Some(json_members(doc)),
            Err(_) => json_text_members(text@) is None,
        },
{
    near_sdk::serde_json::from_str::<Value>(text)
}

/// Wraps `Value::get` with a string index, which hands out the member of
/// that name where the document is an object that has it. The contract
/// claims that the result is that member where it is a string, and `None`
/// otherwise.
#[verifier::external_body]
fn json_string_member(doc: &Value, name: &str) -> (r: Option<String>)
    ensures
        match r {
            Some(s) => json_members(*doc).contains_key(name@) && json_members(*doc)[name@] == s@,
            None => !json_members(*doc).contains_key(name@),
        },
{
    match doc.get(name) {
        Some(Value::String(s)) => Some(s.clone()),
        _ => None,
    }
}

/// The name of the member that holds a credential's group.
pub open spec fn group_member_name() -> Seq<char> {
    "group_id"@
}

/// What a free-form text claims.
pub open spec fn claim_of_extra(extra: Seq<char>) -> GroupClaimView {
    match json_text_members(extra) {
        None => GroupClaimView::ExtraInvalid,
        Some(members) => if members.contains_key(group_member_name()) {
            GroupClaimView::Group(members[group_member_name()])
        } else {
            GroupClaimView::GroupMissing
        },
    }
}

/// What a credential, given by its metadata, claims.
pub open spec fn claim_of(metadata: Option<ProofMetadata>) -> GroupClaimView {
    match metadata {
        None => GroupClaimView::MetadataMissing,
        Some(m) => match m.extra {
            None => GroupClaimView::ExtraMissing,
            Some(extra) => claim_of_extra(extra@),
        },
    }
}

/// How phase two reads an outcome.
pub open spec fn outcome_view(outcome: VerificationOutcome) -> OutcomeView {
    match outcome {
        VerificationOutcome::Failed => OutcomeView::Failed,
        VerificationOutcome::Proofs(proofs) => if proofs@.len() == 0 {
            OutcomeView::Empty
        } else {
            OutcomeView::First(claim_of(proofs@[0].metadata))
        },
    }
}

/// Reads the group that a free-form text names.
pub fn read_extra(extra: &str) -> (r: GroupClaim)
    ensures
        r@ == claim_of_extra(extra@),
{
    match json_from_str(extra) {
        Err(_) => GroupClaim::ExtraInvalid,
        Ok(doc) => match json_string_member(&doc, "group_id") {
            None => GroupClaim::GroupMissing,
            Some(group) => GroupClaim::Group(group),
        },
    }
}

/// Reads what a credential claims about its group.
pub fn read_claim(proof: &OwnershipProof) -> (r: GroupClaim)
    ensures
        r@ == claim_of(proof.metadata),
{
    match &proof.metadata {
        None => GroupClaim::MetadataMissing,
        Some(metadata) => match &metadata.extra {
            None => GroupClaim::ExtraMissing,
            Some(extra) => read_extra(extra.as_str()),
        },
    }
}

} // verus!
