//! Why a call was refused. Every refusal leaves the contract as it was.

use vstd::prelude::*;
use vstd::string::StringExecFns;

verus! {

/// The broad classes of refusal.
#[derive(Clone, Copy, Debug, PartialEq, Eq, Structural)]
pub enum ErrorKind {
    /// The group is registered already.
    AlreadyExists,
    /// A group, a transaction or a key is absent.
    NotFound,
    /// The caller, or the user the call is about, fails a policy check.
    Unauthorized,
    /// An argument is empty, or a count does not match.
    InvalidArgument,
    /// The ownership check found no credential, or did not complete.
    VerificationFailed,
    /// The credential is not one for the group in question.
    GroupMismatch,
}

/// The precise reason of a refusal. Each has a fixed message that names the
/// check that failed.
#[derive(Clone, Copy, Debug, PartialEq, Eq, Structural)]
pub enum ContractError {
    GroupAlreadyExists,
    GroupNotFound,
    TransactionNotFound,
    GroupKeyNotSet,
    UserNotAuthorized,
    RegisterGroupDenied,
    RecordTransactionDenied,
    AddMemberDenied,
    RevokeMemberDenied,
    StoreKeyDenied,
    GetKeyDenied,
    RotateKeyDenied,
    ViewTransactionsDenied,
    UpdateFilesDenied,
    StoreMetadataDenied,
    ViewMetadataDenied,
    EmptyGroupKey,
    EmptyNewGroupKey,
    EmptyLocators,
    LocatorCountMismatch,
    EmptyMetadata,
    NoCredential,
    OwnershipCheckFailed,
    CredentialMetadataMissing,
    CredentialExtraMissing,
    CredentialExtraInvalid,
    CredentialGroupMissing,
    CredentialGroupMismatch,
}

impl ContractError {
    /// The class that a reason belongs to.
    pub open spec fn kind_of(self) -> ErrorKind {
        match self {
            ContractError::GroupAlreadyExists => ErrorKind::AlreadyExists,
            ContractError::GroupNotFound => ErrorKind::NotFound,
            ContractError::TransactionNotFound => ErrorKind::NotFound,
            ContractError::GroupKeyNotSet => ErrorKind::NotFound,
            ContractError::UserNotAuthorized => ErrorKind::Unauthorized,
            ContractError::RegisterGroupDenied => ErrorKind::Unauthorized,
            ContractError::RecordTransactionDenied => ErrorKind::Unauthorized,
            ContractError::AddMemberDenied => ErrorKind::Unauthorized,
            ContractError::RevokeMemberDenied => ErrorKind::Unauthorized,
            ContractError::StoreKeyDenied => ErrorKind::Unauthorized,
            ContractError::GetKeyDenied => ErrorKind::Unauthorized,
            ContractError::RotateKeyDenied => ErrorKind::Unauthorized,
            ContractError::ViewTransactionsDenied => ErrorKind::Unauthorized,
            ContractError::UpdateFilesDenied => ErrorKind::Unauthorized,
            ContractError::StoreMetadataDenied => ErrorKind::Unauthorized,
            ContractError::ViewMetadataDenied => ErrorKind::Unauthorized,
            ContractError::EmptyGroupKey => ErrorKind::InvalidArgument,
            ContractError::EmptyNewGroupKey => ErrorKind::InvalidArgument,
            ContractError::EmptyLocators => ErrorKind::InvalidArgument,
            ContractError::LocatorCountMismatch => ErrorKind::InvalidArgument,
            ContractError::EmptyMetadata => ErrorKind::InvalidArgument,
            ContractError::NoCredential => ErrorKind::VerificationFailed,
            ContractError::OwnershipCheckFailed => ErrorKind::VerificationFailed,
            ContractError::CredentialMetadataMissing => ErrorKind::GroupMismatch,
            ContractError::CredentialExtraMissing => ErrorKind::GroupMismatch,
            ContractError::CredentialExtraInvalid => ErrorKind::GroupMismatch,
            ContractError::CredentialGroupMissing => ErrorKind::GroupMismatch,
            ContractError::CredentialGroupMismatch => ErrorKind::GroupMismatch,
        }
    }

    /// The message of a reason, as a sequence of characters.
    pub open spec fn message_text(self) -> Seq<char> {
        match self {
            ContractError::GroupAlreadyExists => "Group already exists"@,
            ContractError::GroupNotFound => "Group not found"@,
            ContractError::TransactionNotFound => "Transaction not found"@,
            ContractError::GroupKeyNotSet => "No group key set"@,
            ContractError::UserNotAuthorized => "User not authorized"@,
            ContractError::RegisterGroupDenied => "Only contract owner or devbot agents can register a group"@,
            ContractError::RecordTransactionDenied => "Only devbot agents can record transactions"@,
            ContractError::AddMemberDenied => "Only group owner, auth-agent, or devbot agents can add members"@,
            ContractError::RevokeMemberDenied => "Only group owner, auth-agent, or devbot agents can revoke members"@,
            ContractError::StoreKeyDenied => "Only group owner or devbot agents can store group key"@,
            ContractError::GetKeyDenied => "Only group owner, devbot agents, or the user can retrieve the group key"@,
            ContractError::RotateKeyDenied => "Only group owner or devbot agents can rotate group key"@,
            ContractError::ViewTransactionsDenied => "Only group members, owner, or devbot agents can view transactions"@,
            ContractError::UpdateFilesDenied => "Only group owner or devbot agents can update group files"@,
            ContractError::StoreMetadataDenied => "Only devbot agents can store file metadata"@,
            ContractError::ViewMetadataDenied => "Only group members, owner, or devbot agents can view metadata"@,
            ContractError::EmptyGroupKey => "Group key cannot be empty"@,
            ContractError::EmptyNewGroupKey => "New group key cannot be empty"@,
            ContractError::EmptyLocators => "New IPFS hashes cannot be empty"@,
            ContractError::LocatorCountMismatch => "Number of new IPFS hashes must match number of transactions"@,
            ContractError::EmptyMetadata => "Metadata cannot be empty"@,
            ContractError::NoCredential => "User does not own a 1000fans token"@,
            ContractError::OwnershipCheckFailed => "Failed to check token ownership"@,
            ContractError::CredentialMetadataMissing => "Token metadata missing"@,
            ContractError::CredentialExtraMissing => "Token extra field missing"@,
            ContractError::CredentialExtraInvalid => "Invalid extra JSON"@,
            ContractError::CredentialGroupMissing => "group_id missing in token metadata"@,
            ContractError::CredentialGroupMismatch => "Token group_id does not match group"@,
        }
    }

    /// The class of this reason.
    pub fn kind(&self) -> (r: ErrorKind)
        ensures
            r == self.kind_of(),
    {
        match self {
            ContractError::GroupAlreadyExists => ErrorKind::AlreadyExists,
            ContractError::GroupNotFound
            | ContractError::TransactionNotFound
            | ContractError::GroupKeyNotSet => ErrorKind::NotFound,
            ContractError::UserNotAuthorized
            | ContractError::RegisterGroupDenied
            | ContractError::RecordTransactionDenied
            | ContractError::AddMemberDenied
            | ContractError::RevokeMemberDenied
            | ContractError::StoreKeyDenied
            | ContractError::GetKeyDenied
            | ContractError::RotateKeyDenied
            | ContractError::ViewTransactionsDenied
            | ContractError::UpdateFilesDenied
            | ContractError::StoreMetadataDenied
            | ContractError::ViewMetadataDenied => ErrorKind::Unauthorized,
            ContractError::EmptyGroupKey
            | ContractError::EmptyNewGroupKey
            | ContractError::EmptyLocators
            | ContractError::LocatorCountMismatch
            | ContractError::EmptyMetadata => ErrorKind::InvalidArgument,
            ContractError::NoCredential
            | ContractError::OwnershipCheckFailed => ErrorKind::VerificationFailed,
            ContractError::CredentialMetadataMissing
            | ContractError::CredentialExtraMissing
            | ContractError::CredentialExtraInvalid
            | ContractError::CredentialGroupMissing
            | ContractError::CredentialGroupMismatch => ErrorKind::GroupMismatch,
        }
    }

    /// The message of this reason.
    pub fn message(&self) -> (r: String)
        ensures
            r@ == self.message_text(),
    {
        let text = match self {
            ContractError::GroupAlreadyExists => "Group already exists",
            ContractError::GroupNotFound => "Group not found",
            ContractError::TransactionNotFound => "Transaction not found",
            ContractError::GroupKeyNotSet => "No group key set",
            ContractError::UserNotAuthorized => "User not authorized",
            ContractError::RegisterGroupDenied => "Only contract owner or devbot agents can register a group",
            ContractError::RecordTransactionDenied => "Only devbot agents can record transactions",
            ContractError::AddMemberDenied => "Only group owner, auth-agent, or devbot agents can add members",
            ContractError::RevokeMemberDenied => "Only group owner, auth-agent, or devbot agents can revoke members",
            ContractError::StoreKeyDenied => "Only group owner or devbot agents can store group key",
            ContractError::GetKeyDenied => "Only group owner, devbot agents, or the user can retrieve the group key",
            ContractError::RotateKeyDenied => "Only group owner or devbot agents can rotate group key",
            ContractError::ViewTransactionsDenied => "Only group members, owner, or devbot agents can view transactions",
            ContractError::UpdateFilesDenied => "Only group owner or devbot agents can update group files",
            ContractError::StoreMetadataDenied => "Only devbot agents can store file metadata",
            ContractError::ViewMetadataDenied => "Only group members, owner, or devbot agents can view metadata",
            ContractError::EmptyGroupKey => "Group key cannot be empty",
            ContractError::EmptyNewGroupKey => "New group key cannot be empty",
            ContractError::EmptyLocators => "New IPFS hashes cannot be empty",
            ContractError::LocatorCountMismatch => "Number of new IPFS hashes must match number of transactions",
            ContractError::EmptyMetadata => "Metadata cannot be empty",
            ContractError::NoCredential => "User does not own a 1000fans token",
            ContractError::OwnershipCheckFailed => "Failed to check token ownership",
            ContractError::CredentialMetadataMissing => "Token metadata missing",
            ContractError::CredentialExtraMissing => "Token extra field missing",
            ContractError::CredentialExtraInvalid => "Invalid extra JSON",
            ContractError::CredentialGroupMissing => "group_id missing in token metadata",
            ContractError::CredentialGroupMismatch => "Token group_id does not match group",
        };
        String::from_str(text)
    }
}

} // verus!
