//! The executable ledger. Every operation takes the caller identity that the
//! host resolved, checks its guards before mutating anything, and is proved
//! to follow the matching transition of `state::LedgerView`.

use crate::state::LedgerView;
use crate::types::{
    EncryptedEnvVar, ExecutionRequest, LedgerError, RequestKind, RequestStatus, Role, WasiBinary,
};
use vstd::prelude::*;

verus! {

/// The authoritative ledger: role configuration, id counters, and the three
/// append-mostly collections.
pub struct Contract {
    owner_id: String,
    outlayer_operator_id: String,
    next_request_id: u64,
    next_binary_id: u64,
    requests: Vec<ExecutionRequest>,
    binaries: Vec<WasiBinary>,
    encrypted_envs: Vec<EncryptedEnvVar>,
}

impl View for Contract {
    type V = LedgerView;

    closed spec fn view(&self) -> LedgerView {
        LedgerView {
            owner: self.owner_id@,
            operator: self.outlayer_operator_id@,
            next_request_id: self.next_request_id as int,
            next_binary_id: self.next_binary_id as int,
            requests: self.requests@.map_values(|r: ExecutionRequest| r@),
            binaries: self.binaries@.map_values(|b: WasiBinary| b@),
            secrets: self.encrypted_envs@.map_values(|e: EncryptedEnvVar| e@),
        }
    }
}

impl Contract {
    /// The ledger invariant, stated over the ghost view.
    pub open spec fn wf(self) -> bool {
        self@.wf()
    }

    /// One-time constructor: sets both roles, zeroes all counters and
    /// collections. The host enforces that it runs exactly once.
    pub fn init(owner_id: String, outlayer_operator_id: String) -> (c: Contract)
        ensures
            c.wf(),
            c@ == LedgerView::init_view(owner_id@, outlayer_operator_id@),
    {
        let c = Contract {
            owner_id,
            outlayer_operator_id,
            next_request_id: 0,
            next_binary_id: 0,
            requests: Vec::new(),
            binaries: Vec::new(),
            encrypted_envs: Vec::new(),
        };
        proof {
            assert(c@ =~~= LedgerView::init_view(c.owner_id@, c.outlayer_operator_id@));
        }
        c
    }

    /// The owner identity; a pure read, open to any caller.
    pub fn get_owner_id(&self) -> (r: String)
        ensures
            r@ == self@.owner,
    {
        self.owner_id.clone()
    }

    /// The operator identity; a pure read, open to any caller.
    pub fn get_outlayer_operator_id(&self) -> (r: String)
        ensures
            r@ == self@.operator,
    {
        self.outlayer_operator_id.clone()
    }

    /// Guard for owner-only operations.
    fn check_owner(&self, caller: &String) -> (r: Result<(), LedgerError>)
        ensures
            r == if caller@ == self@.owner {
                Ok::<(), LedgerError>(())
            } else {
                Err::<(), LedgerError>(LedgerError::Unauthorized { required: Role::Owner })
            },
    {
        if *caller == self.owner_id {
            Ok(())
        } else {
            Err(LedgerError::Unauthorized { required: Role::Owner })
        }
    }

    /// Guard for the operator-only operation.
    fn check_outlayer_operator(&self, caller: &String) -> (r: Result<(), LedgerError>)
        ensures
            r == if caller@ == self@.operator {
                Ok::<(), LedgerError>(())
            } else {
                Err::<(), LedgerError>(LedgerError::Unauthorized { required: Role::Operator })
            },
    {
        if *caller == self.outlayer_operator_id {
            Ok(())
        } else {
            Err(LedgerError::Unauthorized { required: Role::Operator })
        }
    }

    /// Replace the operator; owner-only, no history kept.
    pub fn set_outlayer_operator(&mut self, caller: &String, outlayer_operator_id: String) -> (r:
        Result<(), LedgerError>)
        requires
            old(self).wf(),
        ensures
            final(self).wf(),
            ({
                let (s2, rr) = old(self)@.set_operator_step(caller@, outlayer_operator_id@);
                final(self)@ == s2 && r == rr
            }),
    {
        if let Err(e) = self.check_owner(caller) {
            return Err(e);
        }
        self.outlayer_operator_id = outlayer_operator_id;
        proof {
            assert(self@ =~~= old(self)@.set_operator_step(caller@, self.outlayer_operator_id@).0);
            crate::state::lemma_set_operator_wf(
                old(self)@,
                caller@,
                self.outlayer_operator_id@,
            );
        }
        Ok(())
    }

    /// Register an approved binary; owner-only. The record is immutable after
    /// creation and takes the next binary id, which is returned.
    pub fn register_wasi_binary(
        &mut self,
        caller: &String,
        name: String,
        wasm_sha256: String,
        dashboard_upload_ref: String,
    ) -> (r: Result<u64, LedgerError>)
        requires
            old(self).wf(),
        ensures
            final(self).wf(),
            ({
                let (s2, rr) = old(self)@.register_binary_step(
                    caller@,
                    name@,
                    wasm_sha256@,
                    dashboard_upload_ref@,
                );
                &&& final(self)@ == s2
                &&& (match (r, rr) {
                    (Ok(id), Ok(idv)) => id as int == idv,
                    (Err(e), Err(ev)) => e == ev,
                    _ => false,
                })
            }),
    {
        if let Err(e) = self.check_owner(caller) {
            return Err(e);
        }
        let ghost s0 = self@;
        let ghost nm = name@;
        let ghost hs = wasm_sha256@;
        let ghost rf = dashboard_upload_ref@;
        let binary_id = self.next_binary_id;
        let binary = WasiBinary { id: binary_id, name, wasm_sha256, dashboard_upload_ref };
        self.binaries.push(binary);
        let n = self.binaries.len();
        proof {
            assert(binary_id as int + 1 == n as int);
        }
        self.next_binary_id = binary_id + 1;
        proof {
            crate::state::lemma_register_binary_wf(s0, caller@, nm, hs, rf);
            assert(self@ =~~= s0.register_binary_step(caller@, nm, hs, rf).0);
        }
        Ok(binary_id)
    }

    /// Look a binary up by id; returns absence, not an error. A pure read.
    pub fn get_binary(&self, binary_id: u64) -> (r: Option<WasiBinary>)
        requires
            self.wf(),
        ensures
            match r {
                Some(b) => self@.has_binary(binary_id as int) && b@ == self@.binaries[binary_id as int],
                None => !self@.has_binary(binary_id as int),
            },
    {
        let n = self.binaries.len();
        let mut i: usize = 0;
        while i < n
            invariant
                self.wf(),
                n == self.binaries.len(),
                0 <= i <= n,
                forall|j: int| 0 <= j < i ==> (#[trigger] self@.binaries[j]).id != binary_id as int,
            decreases n - i,
        {
            proof {
                assert(self@.binaries[i as int] == self.binaries@[i as int]@);
            }
            if self.binaries[i].id == binary_id {
                return Some(self.binaries[i].clone());
            }
            i += 1;
        }
        proof {
            if self@.has_binary(binary_id as int) {
                assert(self@.binaries[binary_id as int].id == binary_id as int);
            }
        }
        None
    }

    /// A full snapshot of the binary registry, in insertion order.
    pub fn list_binaries(&self) -> (r: Vec<WasiBinary>)
        ensures
            r@.len() == self@.binaries.len(),
            forall|i: int| 0 <= i < r@.len() ==> (#[trigger] r@[i])@ == self@.binaries[i],
    {
        let n = self.binaries.len();
        let mut r: Vec<WasiBinary> = Vec::new();
        let mut i: usize = 0;
        while i < n
            invariant
                n == self.binaries.len(),
                0 <= i <= n,
                r@.len() == i,
                forall|j: int| 0 <= j < i ==> (#[trigger] r@[j])@ == self@.binaries[j],
            decreases n - i,
        {
            r.push(self.binaries[i].clone());
            i += 1;
        }
        r
    }

    /// Store or rotate a secret; owner-only. An existing key keeps its
    /// position and only its ciphertext changes; a new key is appended.
    pub fn upsert_encrypted_env(
        &mut self,
        caller: &String,
        env_key: String,
        ciphertext_b64: String,
    ) -> (r: Result<(), LedgerError>)
        requires
            old(self).wf(),
        ensures
            final(self).wf(),
            ({
                let (s2, rr) = old(self)@.upsert_secret_step(caller@, env_key@, ciphertext_b64@);
                final(self)@ == s2 && r == rr
            }),
    {
        if let Err(e) = self.check_owner(caller) {
            return Err(e);
        }
        let ghost s0 = self@;
        let ghost kv = env_key@;
        let ghost cv = ciphertext_b64@;
        let n = self.encrypted_envs.len();
        let mut i: usize = 0;
        while i < n
            invariant
                s0 == self@,
                s0 == old(self)@,
                s0.wf(),
                caller@ == s0.owner,
                kv == env_key@,
                cv == ciphertext_b64@,
                n == self.encrypted_envs.len(),
                0 <= i <= n,
                forall|j: int| 0 <= j < i ==> (#[trigger] s0.secrets[j]).env_key != kv,
            decreases n - i,
        {
            proof {
                assert(s0.secrets[i as int] == self.encrypted_envs@[i as int]@);
            }
            if self.encrypted_envs[i].env_key == env_key {
                proof {
                    assert(s0.secrets[i as int].env_key == kv);
                    assert(s0.has_secret(kv));
                    let k = s0.secret_index(kv);
                    assert(0 <= k < s0.secrets.len() && s0.secrets[k].env_key == kv);
                    assert(k == i as int);
                    crate::state::lemma_upsert_secret_wf(s0, caller@, kv, cv);
                }
                self.encrypted_envs[i].ciphertext_b64 = ciphertext_b64;
                proof {
                    assert(self@ =~~= s0.upsert_secret_step(caller@, kv, cv).0);
                }
                return Ok(());
            }
            i += 1;
        }
        proof {
            assert(!s0.has_secret(kv));
        }
        self.encrypted_envs.push(EncryptedEnvVar { env_key, ciphertext_b64 });
        proof {
            crate::state::lemma_upsert_secret_wf(s0, caller@, kv, cv);
            assert(self@ =~~= s0.upsert_secret_step(caller@, kv, cv).0);
        }
        Ok(())
    }

    /// The stored env keys, in insertion order; ciphertext is never exposed
    /// through this read path.
    pub fn get_encrypted_env_keys(&self) -> (r: Vec<String>)
        ensures
            r@.len() == self@.secrets.len(),
            forall|i: int| 0 <= i < r@.len() ==> (#[trigger] r@[i])@ == self@.secrets[i].env_key,
    {
        let n = self.encrypted_envs.len();
        let mut r: Vec<String> = Vec::new();
        let mut i: usize = 0;
        while i < n
            invariant
                n == self.encrypted_envs.len(),
                0 <= i <= n,
                r@.len() == i,
                forall|j: int| 0 <= j < i ==> (#[trigger] r@[j])@ == self@.secrets[j].env_key,
            decreases n - i,
        {
            r.push(self.encrypted_envs[i].env_key.clone());
            i += 1;
        }
        r
    }

    /// Append a new `Pending` request under the next request id.
    fn push_request(&mut self, requester: String, kind: RequestKind) -> (r: u64)
        requires
            old(self).wf(),
            old(self)@.kind_refs_ok(kind@),
        ensures
            final(self).wf(),
            final(self)@ == old(self)@.push_request_next(requester@, kind@),
            r as int == old(self)@.next_request_id,
    {
        let ghost s0 = self@;
        let ghost rv = requester@;
        let ghost kv = kind@;
        let request_id = self.next_request_id;
        let request = ExecutionRequest {
            id: request_id,
            requester,
            kind,
            status: RequestStatus::Pending,
            result: None,
        };
        self.requests.push(request);
        let n = self.requests.len();
        proof {
            assert(request_id as int + 1 == n as int);
        }
        self.next_request_id = request_id + 1;
        proof {
            crate::state::lemma_push_request_wf(s0, rv, kv);
            assert(self@ =~~= s0.push_request_next(rv, kv));
        }
        request_id
    }

    /// File an execution request; open to any requester, never fails.
    /// Returns the new request id.
    pub fn request_execution(
        &mut self,
        requester: String,
        program_id: String,
        input_payload: String,
    ) -> (r: u64)
        requires
            old(self).wf(),
        ensures
            final(self).wf(),
            ({
                let (s2, id) = old(self)@.request_execution_step(
                    requester@,
                    program_id@,
                    input_payload@,
                );
                final(self)@ == s2 && r as int == id
            }),
    {
        self.push_request(requester, RequestKind::Execution { program_id, input_payload })
    }

    /// Whether a binary with this id is registered.
    fn binary_exists(&self, binary_id: u64) -> (r: bool)
        requires
            self.wf(),
        ensures
            r == self@.has_binary(binary_id as int),
    {
        let n = self.binaries.len();
        let mut i: usize = 0;
        while i < n
            invariant
                self.wf(),
                n == self.binaries.len(),
                0 <= i <= n,
                forall|j: int| 0 <= j < i ==> (#[trigger] self@.binaries[j]).id != binary_id as int,
            decreases n - i,
        {
            proof {
                assert(self@.binaries[i as int] == self.binaries@[i as int]@);
            }
            if self.binaries[i].id == binary_id {
                return true;
            }
            i += 1;
        }
        proof {
            if self@.has_binary(binary_id as int) {
                assert(self@.binaries[binary_id as int].id == binary_id as int);
            }
        }
        false
    }

    /// Whether a secret is stored under this env key.
    fn secret_exists(&self, env_key: &String) -> (r: bool)
        ensures
            r == self@.has_secret(env_key@),
    {
        let n = self.encrypted_envs.len();
        let mut i: usize = 0;
        while i < n
            invariant
                n == self.encrypted_envs.len(),
                0 <= i <= n,
                forall|j: int| 0 <= j < i ==> (#[trigger] self@.secrets[j]).env_key != env_key@,
            decreases n - i,
        {
            proof {
                assert(self@.secrets[i as int] == self.encrypted_envs@[i as int]@);
            }
            if self.encrypted_envs[i].env_key == *env_key {
                proof {
                    assert(self@.secrets[i as int].env_key == env_key@);
                }
                return true;
            }
            i += 1;
        }
        false
    }

    /// File a secret-fetch request; open to any requester. The referenced
    /// binary is checked first, the env key second; the first failing check
    /// names the error, and nothing is recorded on failure.
    pub fn request_secret_fetch(
        &mut self,
        requester: String,
        binary_id: u64,
        env_key: String,
        url: String,
    ) -> (r: Result<u64, LedgerError>)
        requires
            old(self).wf(),
        ensures
            final(self).wf(),
            ({
                let (s2, rr) = old(self)@.request_secret_fetch_step(
                    requester@,
                    binary_id as int,
                    env_key@,
                    url@,
                );
                &&& final(self)@ == s2
                &&& (match (r, rr) {
                    (Ok(id), Ok(idv)) => id as int == idv,
                    (Err(e), Err(ev)) => e == ev,
                    _ => false,
                })
            }),
    {
        if !self.binary_exists(binary_id) {
            return Err(LedgerError::UnknownBinary);
        }
        if !self.secret_exists(&env_key) {
            return Err(LedgerError::UnknownSecretKey);
        }
        let id = self.push_request(requester, RequestKind::SecretFetch { binary_id, env_key, url });
        Ok(id)
    }

    /// Deliver the result for a pending request; operator-only. The request
    /// must exist and still be `Pending`; it then stores the result and
    /// becomes `Completed`, immutably.
    pub fn submit_result(&mut self, caller: &String, request_id: u64, result: String) -> (r: Result<
        (),
        LedgerError,
    >)
        requires
            old(self).wf(),
        ensures
            final(self).wf(),
            ({
                let (s2, rr) = old(self)@.submit_result_step(caller@, request_id as int, result@);
                final(self)@ == s2 && r == rr
            }),
    {
        if let Err(e) = self.check_outlayer_operator(caller) {
            return Err(e);
        }
        let ghost s0 = self@;
        let ghost resv = result@;
        let n = self.requests.len();
        let mut i: usize = 0;
        while i < n
            invariant
                s0 == self@,
                s0 == old(self)@,
                s0.wf(),
                caller@ == s0.operator,
                resv == result@,
                n == self.requests.len(),
                0 <= i <= n,
                forall|j: int| 0 <= j < i ==> (#[trigger] s0.requests[j]).id != request_id as int,
            decreases n - i,
        {
            proof {
                assert(s0.requests[i as int] == self.requests@[i as int]@);
            }
            if self.requests[i].id == request_id {
                proof {
                    assert(i as int == request_id as int);
                }
                if self.requests[i].status == RequestStatus::Completed {
                    return Err(LedgerError::AlreadyCompleted);
                }
                self.requests[i].status = RequestStatus::Completed;
                self.requests[i].result = Some(result);
                proof {
                    crate::state::lemma_submit_result_wf(s0, caller@, request_id as int, resv);
                    assert(self@ =~~= s0.submit_result_step(caller@, request_id as int, resv).0);
                }
                return Ok(());
            }
            i += 1;
        }
        proof {
            if s0.has_request(request_id as int) {
                assert(s0.requests[request_id as int].id == request_id as int);
            }
        }
        Err(LedgerError::NotFound)
    }

    /// Look a request up by id; returns absence, not an error. A pure read.
    pub fn get_request(&self, request_id: u64) -> (r: Option<ExecutionRequest>)
        requires
            self.wf(),
        ensures
            match r {
                Some(req) => self@.has_request(request_id as int) && req@ == self@.requests[request_id as int],
                None => !self@.has_request(request_id as int),
            },
    {
        let n = self.requests.len();
        let mut i: usize = 0;
        while i < n
            invariant
                self.wf(),
                n == self.requests.len(),
                0 <= i <= n,
                forall|j: int| 0 <= j < i ==> (#[trigger] self@.requests[j]).id != request_id as int,
            decreases n - i,
        {
            proof {
                assert(self@.requests[i as int] == self.requests@[i as int]@);
            }
            if self.requests[i].id == request_id {
                return Some(self.requests[i].clone());
            }
            i += 1;
        }
        proof {
            if self@.has_request(request_id as int) {
                assert(self@.requests[request_id as int].id == request_id as int);
            }
        }
        None
    }

    /// A full snapshot of the request table, in insertion order.
    pub fn list_requests(&self) -> (r: Vec<ExecutionRequest>)
        ensures
            r@.len() == self@.requests.len(),
            forall|i: int| 0 <= i < r@.len() ==> (#[trigger] r@[i])@ == self@.requests[i],
    {
        let n = self.requests.len();
        let mut r: Vec<ExecutionRequest> = Vec::new();
        let mut i: usize = 0;
        while i < n
            invariant
                n == self.requests.len(),
                0 <= i <= n,
                r@.len() == i,
                forall|j: int| 0 <= j < i ==> (#[trigger] r@[j])@ == self@.requests[j],
            decreases n - i,
        {
            r.push(self.requests[i].clone());
            i += 1;
        }
        r
    }
}

} // verus!

