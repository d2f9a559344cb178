//! Group-scoped access control and provenance: named groups, membership
//! gated by an externally verified credential, a rotating group key, and a
//! ledger of file-handling records keyed by content-derived identifiers.
//!
//! [`state`] is the mathematical model: the state of the contract and, for
//! each operation, the answer and the state it leaves. [`Contract`] is the
//! executable contract, each of whose methods is proved to make the
//! transition of the model that bears its name. [`laws`] holds what follows
//! for every state and every sequence of calls.
//!
//! The contract does no input or output. It is handed the caller of each
//! operation and the time, it answers with the event to log, and its parts
//! can be taken out and put back together to keep them between calls. The
//! admission of a member is in two steps around a question to an outside
//! oracle: [`Contract::add_group_member`] says what to ask, and
//! [`Contract::add_group_member_callback`] takes the answer.

pub mod admission;
pub mod contract;
pub mod digest;
pub mod error;
pub mod event;
pub mod laws;
pub mod parts;
pub mod policy;
pub mod records;
pub mod state;
pub mod text;

pub use contract::Contract;
pub use error::{ContractError, ErrorKind};
pub use event::Event;
pub use records::{Group, Transaction};
