//! An authoritative in-memory ledger coordinating off-chain execution work.
//!
//! The ledger tracks three collections owned by a single `Contract` value:
//! a registry of approved binaries, a store of encrypted environment-variable
//! ciphertexts, and a table of execution / secret-fetch requests. Mutations
//! are guarded by two roles (owner and operator) and every request moves
//! exactly once from `Pending` to `Completed`. The host that invokes these
//! operations supplies the caller identity as a plain argument and persists
//! the `Contract` value between calls.

pub mod ledger;
pub mod laws;
pub mod state;
pub mod types;

pub use ledger::Contract;
pub use types::EncryptedEnvVar;
pub use types::ExecutionRequest;
pub use types::LedgerError;
pub use types::RequestKind;
pub use types::RequestStatus;
pub use types::Role;
pub use types::WasiBinary;
