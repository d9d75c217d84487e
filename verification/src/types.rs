//! The records stored in the ledger, their ghost views, and the error kinds.

use vstd::prelude::*;

verus! {

/// The role a privileged operation demands of its caller.
#[derive(Clone, Copy, Debug, PartialEq, Eq, Structural)]
pub enum Role {
    Owner,
    Operator,
}

/// Why an operation was rejected. Every rejection is checked before any
/// mutation, so a rejected call leaves the ledger unchanged.
#[derive(Clone, Copy, Debug, PartialEq, Eq, Structural)]
pub enum LedgerError {
    /// The caller lacks the role the operation demands.
    Unauthorized { required: Role },
    /// `submit_result` referenced a request id that does not exist.
    NotFound,
    /// `submit_result` targeted a request that is already `Completed`.
    AlreadyCompleted,
    /// `request_secret_fetch` referenced a binary id that is not registered.
    UnknownBinary,
    /// `request_secret_fetch` referenced an env key that has no stored secret.
    UnknownSecretKey,
}

impl LedgerError {
    /// The fixed human-readable reason reported for each rejection.
    pub open spec fn message_spec(self) -> Seq<char> {
        match self {
            LedgerError::Unauthorized { required: Role::Owner } => "Only owner can call this method"@,
            LedgerError::Unauthorized { required: Role::Operator } => "Only OutLayer operator can submit results"@,
            LedgerError::NotFound => "Unknown request_id"@,
            LedgerError::AlreadyCompleted => "Request already completed"@,
            LedgerError::UnknownBinary => "Unknown binary_id"@,
            LedgerError::UnknownSecretKey => "Unknown encrypted env key"@,
        }
    }

    /// The reason string for this error.
    pub fn message(&self) -> (r: String)
        ensures
            r@ == self.message_spec(),
    {
        match self {
            LedgerError::Unauthorized { required: Role::Owner } => "Only owner can call this method".to_string(),
            LedgerError::Unauthorized { required: Role::Operator } => "Only OutLayer operator can submit results".to_string(),
            LedgerError::NotFound => "Unknown request_id".to_string(),
            LedgerError::AlreadyCompleted => "Request already completed".to_string(),
            LedgerError::UnknownBinary => "Unknown binary_id".to_string(),
            LedgerError::UnknownSecretKey => "Unknown encrypted env key".to_string(),
        }
    }
}

/// Lifecycle of a request: it is created `Pending` and flips exactly once to
/// `Completed`, which is terminal.
#[derive(Clone, Copy, Debug, PartialEq, Eq, Structural)]
pub enum RequestStatus {
    Pending,
    Completed,
}

/// What a request asks the off-chain worker to do.
#[derive(Debug)]
pub enum RequestKind {
    /// An arbitrary instruction for the off-chain executor; not validated here.
    Execution { program_id: String, input_payload: String },
    /// Fetch a secret for a registered binary; both references are validated
    /// when the request is created.
    SecretFetch { binary_id: u64, env_key: String, url: String },
}

/// Ghost mirror of `RequestKind`.
#[verifier::ext_equal]
pub ghost enum KindView {
    Execution { program_id: Seq<char>, input_payload: Seq<char> },
    SecretFetch { binary_id: int, env_key: Seq<char>, url: Seq<char> },
}

impl View for RequestKind {
    type V = KindView;

    open spec fn view(&self) -> KindView {
        match self {
            RequestKind::Execution { program_id, input_payload } => KindView::Execution {
                program_id: program_id@,
                input_payload: input_payload@,
            },
            RequestKind::SecretFetch { binary_id, env_key, url } => KindView::SecretFetch {
                binary_id: *binary_id as int,
                env_key: env_key@,
                url: url@,
            },
        }
    }
}

impl Clone for RequestKind {
    fn clone(&self) -> (r: Self)
        ensures
            r == *self,
    {
        match self {
            RequestKind::Execution { program_id, input_payload } => RequestKind::Execution {
                program_id: program_id.clone(),
                input_payload: input_payload.clone(),
            },
            RequestKind::SecretFetch { binary_id, env_key, url } => RequestKind::SecretFetch {
                binary_id: *binary_id,
                env_key: env_key.clone(),
                url: url.clone(),
            },
        }
    }
}

/// One unit of off-chain work, tracked from `Pending` to `Completed`.
#[derive(Debug)]
pub struct ExecutionRequest {
    pub id: u64,
    pub requester: String,
    pub kind: RequestKind,
    pub status: RequestStatus,
    pub result: Option<String>,
}

/// Ghost mirror of `ExecutionRequest`.
#[verifier::ext_equal]
pub ghost struct RequestView {
    pub id: int,
    pub requester: Seq<char>,
    pub kind: KindView,
    pub status: RequestStatus,
    pub result: Option<Seq<char>>,
}

impl View for ExecutionRequest {
    type V = RequestView;

    open spec fn view(&self) -> RequestView {
        RequestView {
            id: self.id as int,
            requester: self.requester@,
            kind: self.kind@,
            status: self.status,
            result: match self.result {
                Some(s) => Some(s@),
                None => None,
            },
        }
    }
}

impl Clone for ExecutionRequest {
    fn clone(&self) -> (r: Self)
        ensures
            r == *self,
    {
        ExecutionRequest {
            id: self.id,
            requester: self.requester.clone(),
            kind: self.kind.clone(),
            status: self.status,
            result: match &self.result {
                Some(s) => Some(s.clone()),
                None => None,
            },
        }
    }
}

/// An approved off-chain executable, registered by the owner and immutable
/// after creation.
#[derive(Debug)]
pub struct WasiBinary {
    pub id: u64,
    pub name: String,
    pub wasm_sha256: String,
    pub dashboard_upload_ref: String,
}

/// Ghost mirror of `WasiBinary`.
#[verifier::ext_equal]
pub ghost struct BinaryView {
    pub id: int,
    pub name: Seq<char>,
    pub wasm_sha256: Seq<char>,
    pub dashboard_upload_ref: Seq<char>,
}

impl View for WasiBinary {
    type V = BinaryView;

    open spec fn view(&self) -> BinaryView {
        BinaryView {
            id: self.id as int,
            name: self.name@,
            wasm_sha256: self.wasm_sha256@,
            dashboard_upload_ref: self.dashboard_upload_ref@,
        }
    }
}

impl Clone for WasiBinary {
    fn clone(&self) -> (r: Self)
        ensures
            r == *self,
    {
        WasiBinary {
            id: self.id,
            name: self.name.clone(),
            wasm_sha256: self.wasm_sha256.clone(),
            dashboard_upload_ref: self.dashboard_upload_ref.clone(),
        }
    }
}

/// An opaque ciphertext stored under a unique env key. The ledger never
/// decrypts it; rotating a secret overwrites the ciphertext in place.
#[derive(Debug)]
pub struct EncryptedEnvVar {
    pub env_key: String,
    pub ciphertext_b64: String,
}

/// Ghost mirror of `EncryptedEnvVar`.
#[verifier::ext_equal]
pub ghost struct SecretView {
    pub env_key: Seq<char>,
    pub ciphertext_b64: Seq<char>,
}

impl View for EncryptedEnvVar {
    type V = SecretView;

    open spec fn view(&self) -> SecretView {
        SecretView { env_key: self.env_key@, ciphertext_b64: self.ciphertext_b64@ }
    }
}

impl Clone for EncryptedEnvVar {
    fn clone(&self) -> (r: Self)
        ensures
            r == *self,
    {
        EncryptedEnvVar {
            env_key: self.env_key.clone(),
            ciphertext_b64: self.ciphertext_b64.clone(),
        }
    }
}

} // verus!
