//! The ledger's guarantees, stated once over the ghost transitions and proved
//! here. `ledger::Contract` is proved elsewhere to follow these transitions
//! step for step, so each law carries over to every run of the executable.

use crate::state::{lemma_upsert_secret_wf, LedgerView};
use crate::types::{KindView, LedgerError, Role};
use vstd::prelude::*;

verus! {

/// Monotonic ids: every request id equals the position the request was
/// created at, and likewise for binaries, so ids run `0, 1, 2, ...` in call
/// order and are strictly increasing; ids are never reused.
pub proof fn lemma_monotonic_ids(s: LedgerView)
    requires
        s.wf(),
    ensures
        forall|i: int| 0 <= i < s.requests.len() ==> (#[trigger] s.requests[i]).id == i,
        forall|i: int| 0 <= i < s.binaries.len() ==> (#[trigger] s.binaries[i]).id == i,
        forall|i: int, j: int|
            #![trigger s.requests[i], s.requests[j]]
            0 <= i < j < s.requests.len() ==> s.requests[i].id < s.requests[j].id,
        forall|i: int, j: int|
            #![trigger s.binaries[i], s.binaries[j]]
            0 <= i < j < s.binaries.len() ==> s.binaries[i].id < s.binaries[j].id,
{
}

/// Monotonic ids, allocation side: two successive registrations by the owner
/// return consecutive ids, and two successive request creations likewise —
/// starting from a fresh ledger the returned ids are `0, 1, 2, ...`.
pub proof fn lemma_ids_assigned_in_call_order(
    s: LedgerView,
    caller: Seq<char>,
    name1: Seq<char>,
    hash1: Seq<char>,
    art1: Seq<char>,
    name2: Seq<char>,
    hash2: Seq<char>,
    art2: Seq<char>,
    requester1: Seq<char>,
    kind1: KindView,
    requester2: Seq<char>,
    kind2: KindView,
)
    requires
        s.wf(),
        caller == s.owner,
    ensures
        ({
            let (s1, r1) = s.register_binary_step(caller, name1, hash1, art1);
            let (s2, r2) = s1.register_binary_step(caller, name2, hash2, art2);
            &&& r1 == Ok::<int, LedgerError>(s.next_binary_id)
            &&& r2 == Ok::<int, LedgerError>(s.next_binary_id + 1)
        }),
        ({
            let s1 = s.push_request_next(requester1, kind1);
            let s2 = s1.push_request_next(requester2, kind2);
            &&& s1.requests[s.next_request_id].id == s.next_request_id
            &&& s2.requests[s.next_request_id + 1].id == s.next_request_id + 1
            &&& s2.next_request_id == s.next_request_id + 2
        }),
{
}

/// Single completion: once `submit_result` has succeeded for a request, any
/// further submission for the same id — whatever result it carries — fails
/// with `AlreadyCompleted` and changes nothing, so the stored result stays
/// the one delivered first.
pub proof fn lemma_single_completion(
    s: LedgerView,
    caller: Seq<char>,
    request_id: int,
    first: Seq<char>,
    second: Seq<char>,
)
    requires
        s.wf(),
        s.submit_result_step(caller, request_id, first).1 is Ok,
    ensures
        ({
            let s1 = s.submit_result_step(caller, request_id, first).0;
            let (s2, r2) = s1.submit_result_step(caller, request_id, second);
            &&& s1.requests[request_id].status is Completed
            &&& s1.requests[request_id].result == Some(first)
            &&& r2 == Err::<(), LedgerError>(LedgerError::AlreadyCompleted)
            &&& s2 == s1
            &&& s2.requests[request_id].result == Some(first)
        }),
{
}

/// Upsert idempotence on key: storing under a key and then storing again
/// under the same key leaves exactly one entry for that key, carrying the
/// ciphertext of the second call, and the number of stored keys is the same
/// as after the first call.
pub proof fn lemma_upsert_idempotent_on_key(
    s: LedgerView,
    caller: Seq<char>,
    env_key: Seq<char>,
    first: Seq<char>,
    second: Seq<char>,
)
    requires
        s.wf(),
        caller == s.owner,
    ensures
        ({
            let s1 = s.upsert_secret_step(caller, env_key, first).0;
            let s2 = s1.upsert_secret_step(caller, env_key, second).0;
            &&& s2.secrets.len() == s1.secrets.len()
            &&& exists|j: int|
                0 <= j < s2.secrets.len() && (#[trigger] s2.secrets[j]).env_key == env_key
                    && s2.secrets[j].ciphertext_b64 == second
            &&& forall|j: int|
                0 <= j < s2.secrets.len() && (#[trigger] s2.secrets[j]).env_key == env_key
                    ==> s2.secrets[j].ciphertext_b64 == second
        }),
{
    lemma_upsert_secret_wf(s, caller, env_key, first);
    let s1 = s.upsert_secret_step(caller, env_key, first).0;
    let s2 = s1.upsert_secret_step(caller, env_key, second).0;
    if s.has_secret(env_key) {
        let k = s.secret_index(env_key);
        assert(0 <= k < s.secrets.len() && s.secrets[k].env_key == env_key);
        assert(s1.secrets[k].env_key == env_key);
    } else {
        assert(s1.secrets[s.secrets.len() as int].env_key == env_key);
    }
    assert(s1.has_secret(env_key));
    let k2 = s1.secret_index(env_key);
    assert(0 <= k2 < s1.secrets.len() && s1.secrets[k2].env_key == env_key);
    assert(s2.secrets[k2].ciphertext_b64 == second);
}

/// Role enforcement: a privileged call made by anyone but the required role
/// is rejected with `Unauthorized` and leaves the ledger unchanged, whatever
/// the other arguments were.
pub proof fn lemma_role_enforcement(
    s: LedgerView,
    caller: Seq<char>,
    a: Seq<char>,
    b: Seq<char>,
    c: Seq<char>,
    request_id: int,
)
    ensures
        caller != s.owner ==> s.register_binary_step(caller, a, b, c) == (
            s,
            Err::<int, LedgerError>((LedgerError::Unauthorized { required: Role::Owner })),
        ),
        caller != s.owner ==> s.upsert_secret_step(caller, a, b) == (
            s,
            Err::<(), LedgerError>((LedgerError::Unauthorized { required: Role::Owner })),
        ),
        caller != s.owner ==> s.set_operator_step(caller, a) == (
            s,
            Err::<(), LedgerError>((LedgerError::Unauthorized { required: Role::Owner })),
        ),
        caller != s.operator ==> s.submit_result_step(caller, request_id, a) == (
            s,
            Err::<(), LedgerError>((LedgerError::Unauthorized { required: Role::Operator })),
        ),
{
}

/// Referential guard: `request_secret_fetch` with an unregistered binary id
/// is rejected with `UnknownBinary` and leaves the ledger unchanged, before
/// the env key is even examined.
pub proof fn lemma_unknown_binary_checked_first(
    s: LedgerView,
    requester: Seq<char>,
    binary_id: int,
    env_key: Seq<char>,
    url: Seq<char>,
)
    requires
        !s.has_binary(binary_id),
    ensures
        s.request_secret_fetch_step(requester, binary_id, env_key, url) == (
            s,
            Err::<int, LedgerError>(LedgerError::UnknownBinary),
        ),
{
}

} // verus!
