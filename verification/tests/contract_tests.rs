use contract_registry::CodeHash;
use contract_registry::VerificationRequest;
use contract_registry::VerificationResult;
use contract_registry::VerificationStatus;
use contract_registry::contract::CallContext;
use contract_registry::contract::Contract;
use contract_registry::contract::ContractError;

const ONE_NEAR: u128 = 1_000_000_000_000_000_000_000_000;
const STORAGE_FEE: u128 = 10_000_000_000_000_000_000_000;
const VERIFICATION_FEE: u128 = ONE_NEAR;
const REPOSITORY_URL: &str = "https://github.com/NEAR-Edu/stats.gallery-dapp.git";

fn ctx(predecessor: &str, attached_deposit: u128) -> CallContext {
    CallContext {
        predecessor: predecessor.to_string(),
        attached_deposit,
        block_timestamp: 0,
        storage_cost: STORAGE_FEE,
    }
}

fn sample_result(request_id: u64, seed: u8) -> VerificationResult {
    VerificationResult {
        code_hash: CodeHash(vec![seed; 32]),
        code_url: "https://artifacts.example/out.wasm".to_string(),
        repository: REPOSITORY_URL.to_string(),
        remote: "origin".to_string(),
        branch: "main".to_string(),
        commit: "c0ffee".to_string(),
        request_id,
    }
}

#[test]
fn initialization() {
    let contract = Contract::new("owner".to_string(), VERIFICATION_FEE);

    assert_eq!(
        contract.own_get_owner(),
        Some("owner".to_string()),
        "Account owner set correctly"
    );
    assert_eq!(
        contract.get_verification_fee(),
        VERIFICATION_FEE,
        "Verification fee set correctly"
    );
    assert_eq!(
        contract.get_pending_requests().len(),
        0,
        "Empty pending requests on init"
    );
}

#[test]
fn create_request() {
    let mut contract = Contract::new("owner".to_string(), VERIFICATION_FEE);

    let request = contract
        .request_verification(
            &ctx("alice", VERIFICATION_FEE + STORAGE_FEE),
            REPOSITORY_URL.to_string(),
            VERIFICATION_FEE,
        )
        .expect("request accepted");

    assert_eq!(request.repository, REPOSITORY_URL, "Repository URL set correctly");
    assert_eq!(request.fee, VERIFICATION_FEE, "Fee set correctly");
    assert_eq!(request.status, VerificationStatus::PENDING, "Status is pending");

    let by_id = contract
        .get_verification_request(request.id)
        .expect("Can get request by ID");

    assert_eq!(by_id, request, "Request by ID matches");
}

#[test]
fn create_request_insufficient_deposit() {
    let mut contract = Contract::new("owner".to_string(), VERIFICATION_FEE);
    // The deposit covers the fee but not the storage cost on top of it.
    let r = contract.request_verification(
        &ctx("alice", VERIFICATION_FEE),
        REPOSITORY_URL.to_string(),
        VERIFICATION_FEE,
    );
    assert_eq!(r.unwrap_err(), ContractError::InsufficientDeposit);
    assert_eq!(contract.get_pending_requests().len(), 0);
}

#[test]
fn create_request_no_deposit() {
    let mut contract = Contract::new("owner".to_string(), VERIFICATION_FEE);
    let r = contract.request_verification(&ctx("alice", 0), REPOSITORY_URL.to_string(), VERIFICATION_FEE);
    assert_eq!(r.unwrap_err(), ContractError::DepositRequired);
}

fn contract_with_pending_request() -> (Contract, VerificationRequest) {
    let mut contract = Contract::new("owner".to_string(), VERIFICATION_FEE);
    let request = contract
        .request_verification(
            &ctx("alice", VERIFICATION_FEE + STORAGE_FEE),
            REPOSITORY_URL.to_string(),
            VERIFICATION_FEE,
        )
        .expect("request accepted");
    (contract, request)
}

#[test]
fn resolve_success_stores_result() {
    let (mut contract, request) = contract_with_pending_request();
    let result = sample_result(request.id, 7);

    contract
        .verification_success(&ctx("owner", 1), result)
        .expect("resolution accepted");

    let stored = contract.get_verification_request(request.id).unwrap();
    assert_eq!(stored.status, VerificationStatus::SUCCESS);
    assert_eq!(stored.code_hash, Some(CodeHash(vec![7u8; 32])));

    let looked_up = contract.get_verification_result(request.id).unwrap();
    assert_eq!(looked_up, sample_result(request.id, 7));
    let by_hash = contract.verify_code_hash(&CodeHash(vec![7u8; 32])).unwrap();
    assert_eq!(by_hash, sample_result(request.id, 7));

    assert_eq!(contract.get_pending_requests().len(), 0);
}

#[test]
fn resolve_failure_marks_request() {
    let (mut contract, request) = contract_with_pending_request();

    contract
        .verification_failure(&ctx("owner", 1), request.id)
        .expect("resolution accepted");

    let stored = contract.get_verification_request(request.id).unwrap();
    assert_eq!(stored.status, VerificationStatus::FAILURE);
    assert_eq!(stored.code_hash, None);
    assert!(contract.get_verification_result(request.id).is_none());
}

#[test]
fn resolve_twice_fails_and_changes_nothing() {
    // Idempotence of resolution: a second attempt on the same id fails
    // with the already-resolved condition and alters no stored state.
    let (mut contract, request) = contract_with_pending_request();

    contract
        .verification_failure(&ctx("owner", 1), request.id)
        .expect("first resolution accepted");
    let before = contract.get_verification_request(request.id).unwrap();

    let second = contract.verification_failure(&ctx("owner", 1), request.id);
    assert_eq!(second.unwrap_err(), ContractError::AlreadyResolved);
    let after = contract.get_verification_request(request.id).unwrap();
    assert_eq!(before, after, "stored state unchanged");

    let success_retry = contract.verification_success(&ctx("owner", 1), sample_result(request.id, 9));
    assert_eq!(success_retry.unwrap_err(), ContractError::AlreadyResolved);
    assert!(contract.verify_code_hash(&CodeHash(vec![9u8; 32])).is_none());
}

#[test]
fn same_hash_keeps_one_canonical_verification() {
    // One canonical verification per distinct hash: resolving a second
    // request to the same code hash replaces the stored entry.
    let (mut contract, first) = contract_with_pending_request();
    let second = contract
        .request_verification(
            &ctx("bob", VERIFICATION_FEE + STORAGE_FEE),
            REPOSITORY_URL.to_string(),
            VERIFICATION_FEE,
        )
        .expect("request accepted");

    contract
        .verification_success(&ctx("owner", 1), sample_result(first.id, 7))
        .expect("first resolution accepted");
    contract
        .verification_success(&ctx("owner", 1), sample_result(second.id, 7))
        .expect("second resolution accepted");

    let stored = contract.verify_code_hash(&CodeHash(vec![7u8; 32])).unwrap();
    assert_eq!(stored.request_id, second.id);
    // Both requests point at the same canonical entry.
    assert_eq!(contract.get_verification_result(first.id).unwrap().request_id, second.id);
    assert_eq!(contract.get_verification_result(second.id).unwrap().request_id, second.id);
}

#[test]
fn resolve_requires_owner_and_deposit() {
    let (mut contract, request) = contract_with_pending_request();

    let not_owner = contract.verification_failure(&ctx("mallory", 1), request.id);
    assert_eq!(not_owner.unwrap_err(), ContractError::OwnerOnly);

    let no_deposit = contract.verification_failure(&ctx("owner", 0), request.id);
    assert_eq!(no_deposit.unwrap_err(), ContractError::DepositRequired);

    let unknown = contract.verification_failure(&ctx("owner", 1), 5);
    assert_eq!(unknown.unwrap_err(), ContractError::UnknownRequestId);

    let stored = contract.get_verification_request(request.id).unwrap();
    assert_eq!(stored.status, VerificationStatus::PENDING);
}

#[test]
fn pending_requests_lists_only_pending() {
    let (mut contract, first) = contract_with_pending_request();
    let second = contract
        .request_verification(
            &ctx("bob", VERIFICATION_FEE + STORAGE_FEE),
            "https://github.com/example/other.git".to_string(),
            VERIFICATION_FEE,
        )
        .expect("request accepted");
    assert_eq!(second.id, first.id + 1);

    contract
        .verification_failure(&ctx("owner", 1), first.id)
        .expect("resolution accepted");

    let pending = contract.get_pending_requests();
    assert_eq!(pending.len(), 1);
    assert_eq!(pending[0].id, second.id);
}

#[test]
fn set_verification_fee_is_owner_gated() {
    let mut contract = Contract::new("owner".to_string(), VERIFICATION_FEE);

    let wrong_marker = contract.set_verification_fee(&ctx("owner", 2), 5);
    assert_eq!(wrong_marker.unwrap_err(), ContractError::OneYoctoRequired);

    let not_owner = contract.set_verification_fee(&ctx("alice", 1), 5);
    assert_eq!(not_owner.unwrap_err(), ContractError::OwnerOnly);
    assert_eq!(contract.get_verification_fee(), VERIFICATION_FEE);

    contract.set_verification_fee(&ctx("owner", 1), 5).expect("owner may set the fee");
    assert_eq!(contract.get_verification_fee(), 5);
}

#[test]
fn ownership_transfer_flow() {
    let mut contract = Contract::new("owner".to_string(), VERIFICATION_FEE);

    let none_pending = contract.own_accept_owner(&ctx("owner", 1));
    assert_eq!(none_pending.unwrap_err(), ContractError::NoProposedOwner);

    contract
        .own_propose_owner(&ctx("owner", 1), Some("heir".to_string()))
        .expect("owner proposes");
    assert_eq!(contract.own_get_proposed_owner(), Some("heir".to_string()));

    let wrong = contract.own_accept_owner(&ctx("mallory", 1));
    assert_eq!(wrong.unwrap_err(), ContractError::ProposedOwnerOnly);

    contract.own_accept_owner(&ctx("heir", 1)).expect("heir accepts");
    assert_eq!(contract.own_get_owner(), Some("heir".to_string()));
    assert_eq!(contract.own_get_proposed_owner(), None);

    contract.own_renounce_owner(&ctx("heir", 1)).expect("owner renounces");
    assert_eq!(contract.own_get_owner(), None);

    let after = contract.own_renounce_owner(&ctx("heir", 1));
    assert_eq!(after.unwrap_err(), ContractError::NoOwner);
}

#[test]
fn verification_test() {
    let request = VerificationRequest {
        id: 0,
        repository: "repository".to_string(),
        fee: 3,
        status: VerificationStatus::PENDING,
        code_hash: None,
        created_at: 0,
        updated_at: 0,
    };
    println!("{:?}", request);
}
