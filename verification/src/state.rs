//! The ghost model of the ledger: its state, its well-formedness invariant,
//! and one transition function per mutating operation. The executable
//! `Contract` is proved to follow these transitions exactly.

use crate::types::{BinaryView, KindView, LedgerError, RequestStatus, RequestView, Role, SecretView};
use vstd::prelude::*;

verus! {

/// The whole ledger state, as mathematical values.
#[verifier::ext_equal]
pub ghost struct LedgerView {
    pub owner: Seq<char>,
    pub operator: Seq<char>,
    pub next_request_id: int,
    pub next_binary_id: int,
    pub requests: Seq<RequestView>,
    pub binaries: Seq<BinaryView>,
    pub secrets: Seq<SecretView>,
}

impl LedgerView {
    /// The state `init` establishes: both roles set, counters zeroed,
    /// collections empty.
    pub open spec fn init_view(owner: Seq<char>, operator: Seq<char>) -> LedgerView {
        LedgerView {
            owner,
            operator,
            next_request_id: 0,
            next_binary_id: 0,
            requests: Seq::empty(),
            binaries: Seq::empty(),
            secrets: Seq::empty(),
        }
    }

    /// A binary with this id is registered. Because ids are allocated
    /// `0, 1, 2, ...` and never removed (see `wf`), the binary with id `i`
    /// sits at index `i`.
    pub open spec fn has_binary(self, binary_id: int) -> bool {
        0 <= binary_id < self.binaries.len()
    }

    /// A request with this id exists; as with binaries, id and index agree.
    pub open spec fn has_request(self, request_id: int) -> bool {
        0 <= request_id < self.requests.len()
    }

    /// Some stored secret carries this env key.
    pub open spec fn has_secret(self, env_key: Seq<char>) -> bool {
        exists|i: int| 0 <= i < self.secrets.len() && (#[trigger] self.secrets[i]).env_key == env_key
    }

    /// The index of the (unique, by `wf`) secret stored under `env_key`.
    pub open spec fn secret_index(self, env_key: Seq<char>) -> int {
        choose|i: int| 0 <= i < self.secrets.len() && (#[trigger] self.secrets[i]).env_key == env_key
    }

    /// A `SecretFetch` kind references a registered binary and a stored
    /// secret; an `Execution` kind is unconstrained.
    pub open spec fn kind_refs_ok(self, kind: KindView) -> bool {
        match kind {
            KindView::Execution { .. } => true,
            KindView::SecretFetch { binary_id, env_key, .. } => self.has_binary(binary_id)
                && self.has_secret(env_key),
        }
    }

    /// The ledger invariant:
    /// - request and binary ids are exactly their creation order `0, 1, 2, ...`,
    ///   and the next-id counters equal the collection lengths;
    /// - a request is `Completed` exactly when it carries a result;
    /// - every `SecretFetch` request references a registered binary and a
    ///   stored secret;
    /// - env keys are unique across the secret store.
    pub open spec fn wf(self) -> bool {
        &&& self.next_request_id == self.requests.len()
        &&& self.next_binary_id == self.binaries.len()
        &&& forall|i: int|
            0 <= i < self.requests.len() ==> (#[trigger] self.requests[i]).id == i
        &&& forall|i: int|
            0 <= i < self.binaries.len() ==> (#[trigger] self.binaries[i]).id == i
        &&& forall|i: int|
            0 <= i < self.requests.len() ==> ((#[trigger] self.requests[i]).status is Completed
                <==> self.requests[i].result is Some)
        &&& forall|i: int|
            0 <= i < self.requests.len() ==> self.kind_refs_ok(
                (#[trigger] self.requests[i]).kind,
            )
        &&& forall|i: int, j: int|
            0 <= i < j < self.secrets.len() ==> (#[trigger] self.secrets[i]).env_key != (
            #[trigger] self.secrets[j]).env_key
    }

    /// Transition of `set_outlayer_operator`: owner-only; replaces the
    /// operator, touches nothing else.
    pub open spec fn set_operator_step(self, caller: Seq<char>, new_operator: Seq<char>) -> (
        LedgerView,
        Result<(), LedgerError>,
    ) {
        if caller == self.owner {
            (LedgerView { operator: new_operator, ..self }, Ok(()))
        } else {
            (self, Err(LedgerError::Unauthorized { required: Role::Owner }))
        }
    }

    /// Transition of `register_wasi_binary`: owner-only; appends an immutable
    /// record under the next binary id and returns that id.
    pub open spec fn register_binary_step(
        self,
        caller: Seq<char>,
        name: Seq<char>,
        wasm_sha256: Seq<char>,
        dashboard_upload_ref: Seq<char>,
    ) -> (LedgerView, Result<int, LedgerError>) {
        if caller == self.owner {
            (
                LedgerView {
                    binaries: self.binaries.push(
                        BinaryView {
                            id: self.next_binary_id,
                            name,
                            wasm_sha256,
                            dashboard_upload_ref,
                        },
                    ),
                    next_binary_id: self.next_binary_id + 1,
                    ..self
                },
                Ok(self.next_binary_id),
            )
        } else {
            (self, Err(LedgerError::Unauthorized { required: Role::Owner }))
        }
    }

    /// Transition of `upsert_encrypted_env`: owner-only; overwrites the
    /// ciphertext in place when the key is present (keeping its position),
    /// otherwise appends a new entry.
    pub open spec fn upsert_secret_step(
        self,
        caller: Seq<char>,
        env_key: Seq<char>,
        ciphertext_b64: Seq<char>,
    ) -> (LedgerView, Result<(), LedgerError>) {
        if caller != self.owner {
            (self, Err(LedgerError::Unauthorized { required: Role::Owner }))
        } else if self.has_secret(env_key) {
            (
                LedgerView {
                    secrets: self.secrets.update(
                        self.secret_index(env_key),
                        SecretView { env_key, ciphertext_b64 },
                    ),
                    ..self
                },
                Ok(()),
            )
        } else {
            (
                LedgerView {
                    secrets: self.secrets.push(SecretView { env_key, ciphertext_b64 }),
                    ..self
                },
                Ok(()),
            )
        }
    }

    /// Appending a request: it takes the next request id, starts `Pending`
    /// with no result, and records its requester.
    pub open spec fn push_request_next(self, requester: Seq<char>, kind: KindView) -> LedgerView {
        LedgerView {
            requests: self.requests.push(
                RequestView {
                    id: self.next_request_id,
                    requester,
                    kind,
                    status: RequestStatus::Pending,
                    result: None,
                },
            ),
            next_request_id: self.next_request_id + 1,
            ..self
        }
    }

    /// Transition of `request_execution`: open to any requester, never fails;
    /// returns the new request id.
    pub open spec fn request_execution_step(
        self,
        requester: Seq<char>,
        program_id: Seq<char>,
        input_payload: Seq<char>,
    ) -> (LedgerView, int) {
        (
            self.push_request_next(requester, KindView::Execution { program_id, input_payload }),
            self.next_request_id,
        )
    }

    /// Transition of `request_secret_fetch`: open to any requester, but the
    /// referenced binary is checked first and the env key second; the first
    /// failing check names the error.
    pub open spec fn request_secret_fetch_step(
        self,
        requester: Seq<char>,
        binary_id: int,
        env_key: Seq<char>,
        url: Seq<char>,
    ) -> (LedgerView, Result<int, LedgerError>) {
        if !self.has_binary(binary_id) {
            (self, Err(LedgerError::UnknownBinary))
        } else if !self.has_secret(env_key) {
            (self, Err(LedgerError::UnknownSecretKey))
        } else {
            (
                self.push_request_next(requester, KindView::SecretFetch { binary_id, env_key, url }),
                Ok(self.next_request_id),
            )
        }
    }

    /// Transition of `submit_result`: operator-only; the request must exist
    /// and still be `Pending`; it then stores the result and flips the status,
    /// irrevocably.
    pub open spec fn submit_result_step(self, caller: Seq<char>, request_id: int, result: Seq<char>) -> (
        LedgerView,
        Result<(), LedgerError>,
    ) {
        if caller != self.operator {
            (self, Err(LedgerError::Unauthorized { required: Role::Operator }))
        } else if !self.has_request(request_id) {
            (self, Err(LedgerError::NotFound))
        } else if self.requests[request_id].status is Completed {
            (self, Err(LedgerError::AlreadyCompleted))
        } else {
            (
                LedgerView {
                    requests: self.requests.update(
                        request_id,
                        RequestView {
                            status: RequestStatus::Completed,
                            result: Some(result),
                            ..self.requests[request_id]
                        },
                    ),
                    ..self
                },
                Ok(()),
            )
        }
    }
}

/// `init_view` establishes the invariant.
pub proof fn lemma_init_wf(owner: Seq<char>, operator: Seq<char>)
    ensures
        LedgerView::init_view(owner, operator).wf(),
{
}

/// A kind whose references were valid stays valid in any state that keeps at
/// least as many binaries and keeps every stored env key at its index.
proof fn lemma_kind_refs_mono(s: LedgerView, s2: LedgerView, kind: KindView)
    requires
        s.kind_refs_ok(kind),
        s2.binaries.len() >= s.binaries.len(),
        s2.secrets.len() >= s.secrets.len(),
        forall|i: int|
            0 <= i < s.secrets.len() ==> (#[trigger] s2.secrets[i]).env_key
                == s.secrets[i].env_key,
    ensures
        s2.kind_refs_ok(kind),
{
    match kind {
        KindView::Execution { .. } => {
        },
        KindView::SecretFetch { binary_id, env_key, .. } => {
            let w = choose|i: int|
                0 <= i < s.secrets.len() && (#[trigger] s.secrets[i]).env_key == env_key;
            assert(0 <= w < s2.secrets.len() && s2.secrets[w].env_key == env_key);
        },
    }
}

/// The reference clause of `wf` carries over to any state with the same
/// request kinds, at least as many binaries, and the same keys in place.
proof fn lemma_all_kinds_ok(s: LedgerView, s2: LedgerView)
    requires
        s.wf(),
        s2.requests.len() >= s.requests.len(),
        forall|i: int|
            0 <= i < s.requests.len() ==> (#[trigger] s2.requests[i]).kind
                == s.requests[i].kind,
        forall|i: int|
            s.requests.len() <= i < s2.requests.len() ==> s2.kind_refs_ok(
                (#[trigger] s2.requests[i]).kind,
            ),
        s2.binaries.len() >= s.binaries.len(),
        s2.secrets.len() >= s.secrets.len(),
        forall|i: int|
            0 <= i < s.secrets.len() ==> (#[trigger] s2.secrets[i]).env_key
                == s.secrets[i].env_key,
    ensures
        forall|i: int|
            0 <= i < s2.requests.len() ==> s2.kind_refs_ok((#[trigger] s2.requests[i]).kind),
{
    assert forall|i: int|
        0 <= i < s2.requests.len() implies s2.kind_refs_ok(
        (#[trigger] s2.requests[i]).kind,
    ) by {
        if i < s.requests.len() {
            assert(s.kind_refs_ok(s.requests[i].kind));
            lemma_kind_refs_mono(s, s2, s.requests[i].kind);
        }
    }
}

/// Replacing the operator preserves the invariant.
pub proof fn lemma_set_operator_wf(s: LedgerView, caller: Seq<char>, new_operator: Seq<char>)
    requires
        s.wf(),
    ensures
        s.set_operator_step(caller, new_operator).0.wf(),
{
    let s2 = s.set_operator_step(caller, new_operator).0;
    lemma_all_kinds_ok(s, s2);
}

/// Registering a binary preserves the invariant: the new record takes the
/// next id, so ids stay exactly the creation order.
pub proof fn lemma_register_binary_wf(
    s: LedgerView,
    caller: Seq<char>,
    name: Seq<char>,
    wasm_sha256: Seq<char>,
    dashboard_upload_ref: Seq<char>,
)
    requires
        s.wf(),
    ensures
        s.register_binary_step(caller, name, wasm_sha256, dashboard_upload_ref).0.wf(),
{
    let s2 = s.register_binary_step(caller, name, wasm_sha256, dashboard_upload_ref).0;
    lemma_all_kinds_ok(s, s2);
}

/// Upserting a secret preserves the invariant: an overwrite keeps every key
/// in place, an append introduces a key that was absent, so keys stay unique.
pub proof fn lemma_upsert_secret_wf(
    s: LedgerView,
    caller: Seq<char>,
    env_key: Seq<char>,
    ciphertext_b64: Seq<char>,
)
    requires
        s.wf(),
    ensures
        s.upsert_secret_step(caller, env_key, ciphertext_b64).0.wf(),
{
    let s2 = s.upsert_secret_step(caller, env_key, ciphertext_b64).0;
    if caller == s.owner && s.has_secret(env_key) {
        let k = s.secret_index(env_key);
        assert(0 <= k < s.secrets.len() && s.secrets[k].env_key == env_key);
        assert(forall|j: int|
            0 <= j < s2.secrets.len() ==> (#[trigger] s2.secrets[j]).env_key
                == s.secrets[j].env_key);
    }
    lemma_all_kinds_ok(s, s2);
}

/// Appending a request whose references are valid preserves the invariant.
pub proof fn lemma_push_request_wf(s: LedgerView, requester: Seq<char>, kind: KindView)
    requires
        s.wf(),
        s.kind_refs_ok(kind),
    ensures
        s.push_request_next(requester, kind).wf(),
{
    let s2 = s.push_request_next(requester, kind);
    lemma_kind_refs_mono(s, s2, kind);
    lemma_all_kinds_ok(s, s2);
}

/// Completing a request preserves the invariant: only the status and result
/// of that one request change, together and exactly once.
pub proof fn lemma_submit_result_wf(
    s: LedgerView,
    caller: Seq<char>,
    request_id: int,
    result: Seq<char>,
)
    requires
        s.wf(),
    ensures
        s.submit_result_step(caller, request_id, result).0.wf(),
{
    let s2 = s.submit_result_step(caller, request_id, result).0;
    assert forall|i: int|
        0 <= i < s2.requests.len() implies s2.kind_refs_ok(
        (#[trigger] s2.requests[i]).kind,
    ) by {
        assert(s.kind_refs_ok(s.requests[i].kind));
        lemma_kind_refs_mono(s, s2, s.requests[i].kind);
    }
}

} // verus!
