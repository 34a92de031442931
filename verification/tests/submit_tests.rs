use contract_registry::submit::AccessKeyQueryOutcome;
use contract_registry::submit::FUNCTION_CALL_GAS;
use contract_registry::submit::PollStep;
use contract_registry::submit::STATUS_POLL_BACKOFF_SECS;
use contract_registry::submit::StatusProbe;
use contract_registry::submit::SubmitError;
use contract_registry::submit::build_intent;
use contract_registry::submit::interpret_access_key_query;
use contract_registry::submit::poll_step;
use contract_registry::submit::run_status_poll;

#[test]
fn access_key_query_yields_nonce_and_block() {
    let outcome = AccessKeyQueryOutcome::AccessKey { nonce: 41, block_hash: vec![9u8; 32] };
    assert_eq!(interpret_access_key_query(outcome).unwrap(), (41, vec![9u8; 32]));

    let err = interpret_access_key_query(AccessKeyQueryOutcome::Other);
    assert_eq!(err.unwrap_err(), SubmitError::KeyLookupError);
}

#[test]
fn intent_uses_next_nonce_and_fixed_gas() {
    let intent = build_intent(
        "relay.near".to_string(),
        "registry.near".to_string(),
        "verification_failure".to_string(),
        "{\"id\":\"0\"}".to_string(),
        1,
        41,
        vec![9u8; 32],
    );
    assert_eq!(intent.nonce, 42);
    assert_eq!(intent.gas, FUNCTION_CALL_GAS);
    assert_eq!(intent.gas, 100_000_000_000_000);
    assert_eq!(intent.deposit, 1);
    assert_eq!(intent.method_name, "verification_failure");
    assert_eq!(intent.block_hash, vec![9u8; 32]);
}

#[test]
fn unknown_transaction_waits_the_fixed_backoff() {
    assert_eq!(STATUS_POLL_BACKOFF_SECS, 2);
    assert!(matches!(
        poll_step(StatusProbe::NotYetKnown),
        PollStep::Wait(STATUS_POLL_BACKOFF_SECS)
    ));
    assert!(matches!(
        poll_step(StatusProbe::Executing),
        PollStep::Wait(STATUS_POLL_BACKOFF_SECS)
    ));
}

#[test]
fn unknown_three_times_then_success() {
    // The status poll sees the transaction as not yet known three
    // times, waiting the fixed two-second backoff after each, and
    // returns the success payload on the fourth probe.
    let probes = vec![
        StatusProbe::NotYetKnown,
        StatusProbe::NotYetKnown,
        StatusProbe::NotYetKnown,
        StatusProbe::Succeeded(b"payload".to_vec()),
    ];
    let (waits, outcome) = run_status_poll(probes);
    assert_eq!(waits, 3);
    assert_eq!(outcome.unwrap().unwrap(), b"payload".to_vec());
}

#[test]
fn execution_failure_is_terminal() {
    let probes = vec![StatusProbe::NotYetKnown, StatusProbe::ExecutionFailed];
    let (waits, outcome) = run_status_poll(probes);
    assert_eq!(waits, 1);
    assert_eq!(outcome.unwrap().unwrap_err(), SubmitError::ExecutionError);
}

#[test]
fn rpc_failure_surfaces_immediately() {
    let (waits, outcome) = run_status_poll(vec![StatusProbe::RpcFailed]);
    assert_eq!(waits, 0);
    assert_eq!(outcome.unwrap().unwrap_err(), SubmitError::RpcError);
}

#[test]
fn pending_trace_never_finishes_by_itself() {
    let probes = vec![
        StatusProbe::NotYetKnown,
        StatusProbe::Executing,
        StatusProbe::NotYetKnown,
        StatusProbe::Executing,
        StatusProbe::NotYetKnown,
    ];
    let (waits, outcome) = run_status_poll(probes);
    assert_eq!(waits, 5);
    assert!(outcome.is_none());
}
