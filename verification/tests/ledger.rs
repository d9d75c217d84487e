use outlayer::Contract;
use outlayer::LedgerError;
use outlayer::RequestKind;
use outlayer::RequestStatus;
use outlayer::Role;

fn owner() -> String {
    "bob".to_string()
}

fn operator() -> String {
    "charlie".to_string()
}

fn requester() -> String {
    "danny".to_string()
}

#[test]
fn init_contract() {
    let contract = Contract::init(owner(), operator());

    assert_eq!(contract.get_owner_id(), owner());
    assert_eq!(contract.get_outlayer_operator_id(), operator());
    assert!(contract.list_requests().is_empty());
}

#[test]
fn callback_loop_works() {
    let mut contract = Contract::init(owner(), operator());

    let request_id =
        contract.request_execution(requester(), "hello-program".to_string(), "{\"x\":1}".to_string());

    let request = contract.get_request(request_id).expect("request should exist");
    assert_eq!(request.requester, requester());
    assert!(matches!(request.status, RequestStatus::Pending));

    contract
        .submit_result(&operator(), request_id, "{\"ok\":true}".to_string())
        .expect("operator may submit");

    let completed_request = contract.get_request(request_id).expect("request should still exist");
    assert!(matches!(completed_request.status, RequestStatus::Completed));
    assert_eq!(completed_request.result.as_deref(), Some("{\"ok\":true}"));
}

#[test]
fn owner_registers_binary() {
    let mut contract = Contract::init(owner(), operator());

    let binary_id = contract
        .register_wasi_binary(
            &owner(),
            "fetcher-v1".to_string(),
            "abc123".to_string(),
            "outlayer://artifact/fetcher-v1".to_string(),
        )
        .expect("owner may register");

    let binary = contract.get_binary(binary_id).expect("binary should exist");
    assert_eq!(binary.name, "fetcher-v1");
    assert_eq!(binary.wasm_sha256, "abc123");
}

#[test]
fn secret_fetch_requires_secret_registration() {
    let mut contract = Contract::init(owner(), operator());

    let binary_id = contract
        .register_wasi_binary(
            &owner(),
            "fetcher-v1".to_string(),
            "abc123".to_string(),
            "outlayer://artifact/fetcher-v1".to_string(),
        )
        .expect("owner may register");

    let r = contract.request_secret_fetch(
        requester(),
        binary_id,
        "API_KEY".to_string(),
        "https://httpbin.org/get".to_string(),
    );
    assert_eq!(r, Err(LedgerError::UnknownSecretKey));
    assert!(contract.list_requests().is_empty());
}

#[test]
fn secret_fetch_flow_works() {
    let mut contract = Contract::init(owner(), operator());

    let binary_id = contract
        .register_wasi_binary(
            &owner(),
            "fetcher-v1".to_string(),
            "abc123".to_string(),
            "outlayer://artifact/fetcher-v1".to_string(),
        )
        .expect("owner may register");
    contract
        .upsert_encrypted_env(&owner(), "API_KEY".to_string(), "BASE64_CIPHERTEXT".to_string())
        .expect("owner may upsert");

    let request_id = contract
        .request_secret_fetch(
            requester(),
            binary_id,
            "API_KEY".to_string(),
            "https://httpbin.org/get".to_string(),
        )
        .expect("references are valid");

    let request = contract.get_request(request_id).expect("request should exist");
    assert_eq!(request.requester, requester());
    assert!(matches!(request.kind, RequestKind::SecretFetch { .. }));

    contract
        .submit_result(&operator(), request_id, "{\"status\":200}".to_string())
        .expect("operator may submit");

    let completed_request = contract.get_request(request_id).expect("request should exist");
    assert!(matches!(completed_request.status, RequestStatus::Completed));
}

#[test]
fn binary_and_request_ids_are_monotonic() {
    let mut contract = Contract::init(owner(), operator());

    for expected in 0u64..3 {
        let id = contract
            .register_wasi_binary(
                &owner(),
                format!("bin-{}", expected),
                format!("hash-{}", expected),
                format!("ref-{}", expected),
            )
            .expect("owner may register");
        assert_eq!(id, expected);
    }

    for expected in 0u64..3 {
        let id = contract.request_execution(
            requester(),
            "prog".to_string(),
            format!("payload-{}", expected),
        );
        assert_eq!(id, expected);
    }

    let listed = contract.list_binaries();
    assert_eq!(listed.len(), 3);
    for (i, b) in listed.iter().enumerate() {
        assert_eq!(b.id, i as u64);
        assert_eq!(b.name, format!("bin-{}", i));
    }
    let requests = contract.list_requests();
    assert_eq!(requests.len(), 3);
    for (i, r) in requests.iter().enumerate() {
        assert_eq!(r.id, i as u64);
    }
}

#[test]
fn second_submission_is_rejected() {
    let mut contract = Contract::init(owner(), operator());

    let id = contract.request_execution(requester(), "prog".to_string(), "input".to_string());
    contract
        .submit_result(&operator(), id, "first".to_string())
        .expect("operator may submit");

    let second = contract.submit_result(&operator(), id, "second".to_string());
    assert_eq!(second, Err(LedgerError::AlreadyCompleted));

    let request = contract.get_request(id).expect("request should exist");
    assert!(matches!(request.status, RequestStatus::Completed));
    assert_eq!(request.result.as_deref(), Some("first"));
}

#[test]
fn submit_for_unknown_id_is_rejected() {
    let mut contract = Contract::init(owner(), operator());

    let r = contract.submit_result(&operator(), 7, "whatever".to_string());
    assert_eq!(r, Err(LedgerError::NotFound));
}

#[test]
fn privileged_calls_demand_the_role() {
    let mut contract = Contract::init(owner(), operator());
    let intruder = "eugene".to_string();

    let r = contract.register_wasi_binary(
        &intruder,
        "bin".to_string(),
        "hash".to_string(),
        "ref".to_string(),
    );
    assert_eq!(r, Err(LedgerError::Unauthorized { required: Role::Owner }));

    let r = contract.upsert_encrypted_env(&intruder, "K".to_string(), "V".to_string());
    assert_eq!(r, Err(LedgerError::Unauthorized { required: Role::Owner }));

    let r = contract.set_outlayer_operator(&intruder, intruder.clone());
    assert_eq!(r, Err(LedgerError::Unauthorized { required: Role::Owner }));

    // The owner is not the operator: completing work is the operator's alone.
    let id = contract.request_execution(requester(), "prog".to_string(), "input".to_string());
    let r = contract.submit_result(&owner(), id, "res".to_string());
    assert_eq!(r, Err(LedgerError::Unauthorized { required: Role::Operator }));

    // Nothing changed along the way.
    assert_eq!(contract.get_owner_id(), owner());
    assert_eq!(contract.get_outlayer_operator_id(), operator());
    assert!(contract.list_binaries().is_empty());
    assert!(contract.get_encrypted_env_keys().is_empty());
    let request = contract.get_request(id).expect("request should exist");
    assert!(matches!(request.status, RequestStatus::Pending));
    assert_eq!(request.result, None);
}

#[test]
fn unknown_binary_is_reported_before_unknown_key() {
    let mut contract = Contract::init(owner(), operator());

    // Neither the binary nor the key exists; the binary check comes first.
    let r = contract.request_secret_fetch(
        requester(),
        42,
        "MISSING_KEY".to_string(),
        "https://x".to_string(),
    );
    assert_eq!(r, Err(LedgerError::UnknownBinary));
    assert!(contract.list_requests().is_empty());
}

#[test]
fn upsert_overwrites_in_place() {
    let mut contract = Contract::init(owner(), operator());

    contract
        .upsert_encrypted_env(&owner(), "K".to_string(), "A".to_string())
        .expect("owner may upsert");
    let keys_after_first = contract.get_encrypted_env_keys();
    contract
        .upsert_encrypted_env(&owner(), "K".to_string(), "B".to_string())
        .expect("owner may upsert");

    let keys = contract.get_encrypted_env_keys();
    assert_eq!(keys.len(), keys_after_first.len());
    assert_eq!(keys, vec!["K".to_string()]);
}

#[test]
fn upsert_keeps_insertion_order() {
    let mut contract = Contract::init(owner(), operator());

    contract
        .upsert_encrypted_env(&owner(), "FIRST".to_string(), "1".to_string())
        .expect("owner may upsert");
    contract
        .upsert_encrypted_env(&owner(), "SECOND".to_string(), "2".to_string())
        .expect("owner may upsert");
    contract
        .upsert_encrypted_env(&owner(), "FIRST".to_string(), "3".to_string())
        .expect("owner may upsert");

    let keys = contract.get_encrypted_env_keys();
    assert_eq!(keys, vec!["FIRST".to_string(), "SECOND".to_string()]);
}

#[test]
fn operator_can_be_replaced() {
    let mut contract = Contract::init(owner(), operator());
    let next_operator = "fargo".to_string();

    contract
        .set_outlayer_operator(&owner(), next_operator.clone())
        .expect("owner may replace the operator");
    assert_eq!(contract.get_outlayer_operator_id(), next_operator);

    let id = contract.request_execution(requester(), "prog".to_string(), "input".to_string());
    let r = contract.submit_result(&operator(), id, "res".to_string());
    assert_eq!(r, Err(LedgerError::Unauthorized { required: Role::Operator }));
    contract
        .submit_result(&next_operator, id, "res".to_string())
        .expect("the new operator may submit");
}

#[test]
fn get_binary_returns_absence() {
    let mut contract = Contract::init(owner(), operator());
    assert!(contract.get_binary(0).is_none());

    let id = contract
        .register_wasi_binary(
            &owner(),
            "bin".to_string(),
            "hash".to_string(),
            "ref".to_string(),
        )
        .expect("owner may register");
    let binary = contract.get_binary(id).expect("binary should exist");
    assert_eq!(binary.id, id);
    assert_eq!(binary.dashboard_upload_ref, "ref");
    assert!(contract.get_binary(id + 1).is_none());
    assert!(contract.get_request(0).is_none());
}

#[test]
fn error_messages_name_the_rule() {
    assert_eq!(
        LedgerError::Unauthorized { required: Role::Owner }.message(),
        "Only owner can call this method"
    );
    assert_eq!(
        LedgerError::Unauthorized { required: Role::Operator }.message(),
        "Only OutLayer operator can submit results"
    );
    assert_eq!(LedgerError::NotFound.message(), "Unknown request_id");
    assert_eq!(LedgerError::AlreadyCompleted.message(), "Request already completed");
    assert_eq!(LedgerError::UnknownBinary.message(), "Unknown binary_id");
    assert_eq!(LedgerError::UnknownSecretKey.message(), "Unknown encrypted env key");
}

#[test]
fn end_to_end_secret_fetch_lifecycle() {
    let mut contract = Contract::init("O".to_string(), "P".to_string());

    let binary_id = contract
        .register_wasi_binary(
            &"O".to_string(),
            "fetcher-v1".to_string(),
            "abc123".to_string(),
            "ref".to_string(),
        )
        .expect("owner may register");
    assert_eq!(binary_id, 0);

    contract
        .upsert_encrypted_env(&"O".to_string(), "API_KEY".to_string(), "CT".to_string())
        .expect("owner may upsert");

    let request_id = contract
        .request_secret_fetch(
            "A".to_string(),
            0,
            "API_KEY".to_string(),
            "https://x".to_string(),
        )
        .expect("references are valid");
    assert_eq!(request_id, 0);
    let pending = contract.get_request(0).expect("request should exist");
    assert!(matches!(pending.status, RequestStatus::Pending));

    contract
        .submit_result(&"P".to_string(), 0, "{\"status\":200}".to_string())
        .expect("operator may submit");

    let done = contract.get_request(0).expect("request should exist");
    assert!(matches!(done.status, RequestStatus::Completed));
    assert_eq!(done.result.as_deref(), Some("{\"status\":200}"));
    assert_eq!(done.requester, "A");
    match &done.kind {
        RequestKind::SecretFetch { binary_id, env_key, url } => {
            assert_eq!(*binary_id, 0);
            assert_eq!(env_key, "API_KEY");
            assert_eq!(url, "https://x");
        }
        RequestKind::Execution { .. } => panic!("wrong kind"),
    }

    let again = contract.submit_result(&"P".to_string(), 0, "ignored".to_string());
    assert_eq!(again, Err(LedgerError::AlreadyCompleted));
}
