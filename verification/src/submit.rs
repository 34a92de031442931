//! The transaction-submission protocol.
//!
//! Reporting a result on chain runs a strictly ordered protocol: read
//! the signer's access key for its nonce and a recent block hash, build
//! and sign a transaction carrying one function call, broadcast it, and
//! poll its status until a terminal outcome. The network calls are the
//! caller's; this module decides what the responses mean: which nonce
//! the transaction uses, and after each status probe whether to wait a
//! fixed backoff and ask again or to finish with an outcome. Polling
//! retries the not-yet-known case indefinitely — ending it early is the
//! caller's cancellation, never a timeout of its own.

use vstd::prelude::*;

verus! {

/// Why submission failed.
#[derive(Clone, Copy, Debug, PartialEq, Eq, Structural)]
pub enum SubmitError {
    /// The signer's account or access key could not be read, or the
    /// query response had an unexpected shape; fatal to the attempt.
    KeyLookupError,
    /// The chain executed the transaction and rejected it; permanent.
    ExecutionError,
    /// Another RPC-level failure; surfaced immediately, never retried.
    RpcError,
}

/// What a query for the signer's access key came back with.
#[derive(Debug)]
pub enum AccessKeyQueryOutcome {
    /// The access key, with its current nonce, read at a block whose
    /// hash the transaction will reference.
    AccessKey { nonce: u64, block_hash: Vec<u8> },
    /// Any other response shape.
    Other,
}

/// Reads nonce and block reference out of an access-key query; any
/// other response shape is a key-lookup failure.
pub fn interpret_access_key_query(outcome: AccessKeyQueryOutcome) -> (r: Result<
    (u64, Vec<u8>),
    SubmitError,
>)
    ensures
        match outcome {
            AccessKeyQueryOutcome::AccessKey { nonce, block_hash } => r matches Ok(p) && p.0
                == nonce && p.1 == block_hash,
            AccessKeyQueryOutcome::Other => r == Err::<(u64, Vec<u8>), SubmitError>(
                SubmitError::KeyLookupError,
            ),
        },
{
    match outcome {
        AccessKeyQueryOutcome::AccessKey { nonce, block_hash } => Ok((nonce, block_hash)),
        AccessKeyQueryOutcome::Other => Err(SubmitError::KeyLookupError),
    }
}

/// The fixed gas budget attached to every function-call action.
pub const FUNCTION_CALL_GAS: u64 = 100_000_000_000_000;

/// One transaction, ready to sign and broadcast once: a single
/// function-call action with JSON-serialized arguments. After a failed
/// broadcast the caller must rebuild it — nonce and block hash are not
/// reusable across retries.
#[derive(Debug)]
pub struct TransactionIntent {
    pub signer_account: String,
    pub receiver_account: String,
    pub method_name: String,
    pub args_json: String,
    pub gas: u64,
    pub deposit: u128,
    pub nonce: u64,
    pub block_hash: Vec<u8>,
}

/// Builds the transaction for one report: the access key's nonce plus
/// one, the block hash the key was read at, the fixed gas budget, and
/// the given deposit.
pub fn build_intent(
    signer_account: String,
    receiver_account: String,
    method_name: String,
    args_json: String,
    deposit: u128,
    key_nonce: u64,
    block_hash: Vec<u8>,
) -> (r: TransactionIntent)
    requires
        key_nonce < u64::MAX,
    ensures
        r.signer_account == signer_account,
        r.receiver_account == receiver_account,
        r.method_name == method_name,
        r.args_json == args_json,
        r.gas == FUNCTION_CALL_GAS,
        r.deposit == deposit,
        r.nonce == key_nonce + 1,
        r.block_hash == block_hash,
{
    TransactionIntent {
        signer_account,
        receiver_account,
        method_name,
        args_json,
        gas: FUNCTION_CALL_GAS,
        deposit,
        nonce: key_nonce + 1,
        block_hash,
    }
}

/// The backoff between two status probes, in seconds.
pub const STATUS_POLL_BACKOFF_SECS: u64 = 2;

/// One probe of a broadcast transaction's status.
#[derive(Debug)]
pub enum StatusProbe {
    /// The node does not know the transaction yet — expected right
    /// after broadcast, and no error.
    NotYetKnown,
    /// The transaction is known but still executing.
    Executing,
    /// Terminal: execution succeeded, with its payload bytes.
    Succeeded(Vec<u8>),
    /// Terminal: the execution outcome reports a failure.
    ExecutionFailed,
    /// Terminal: the status call itself failed at the RPC level.
    RpcFailed,
}

/// What the submitter does after one probe.
#[derive(Debug)]
pub enum PollStep {
    /// Wait this many seconds, then probe again.
    Wait(u64),
    /// Stop polling with this outcome.
    Finish(Result<Vec<u8>, SubmitError>),
}

/// A probe that ends the poll, one way or the other.
pub open spec fn is_terminal(probe: StatusProbe) -> bool {
    match probe {
        StatusProbe::NotYetKnown => false,
        StatusProbe::Executing => false,
        _ => true,
    }
}

/// What one probe means: wait the fixed backoff while the transaction
/// is not yet known or still executing, finish with the payload on
/// success, and surface execution or RPC failures at once.
pub open spec fn step_spec(probe: StatusProbe) -> PollStep {
    match probe {
        StatusProbe::NotYetKnown => PollStep::Wait(STATUS_POLL_BACKOFF_SECS),
        StatusProbe::Executing => PollStep::Wait(STATUS_POLL_BACKOFF_SECS),
        StatusProbe::Succeeded(payload) => PollStep::Finish(Ok(payload)),
        StatusProbe::ExecutionFailed => PollStep::Finish(
            Err(SubmitError::ExecutionError),
        ),
        StatusProbe::RpcFailed => PollStep::Finish(Err(SubmitError::RpcError)),
    }
}

/// Decides what to do after one status probe.
pub fn poll_step(probe: StatusProbe) -> (r: PollStep)
    ensures
        r == step_spec(probe),
{
    match probe {
        StatusProbe::NotYetKnown => PollStep::Wait(STATUS_POLL_BACKOFF_SECS),
        StatusProbe::Executing => PollStep::Wait(STATUS_POLL_BACKOFF_SECS),
        StatusProbe::Succeeded(payload) => PollStep::Finish(Ok(payload)),
        StatusProbe::ExecutionFailed => PollStep::Finish(
            Err(SubmitError::ExecutionError),
        ),
        StatusProbe::RpcFailed => PollStep::Finish(Err(SubmitError::RpcError)),
    }
}

/// The position of the first terminal probe, or the length when every
/// probe would have the poll wait and ask again.
pub open spec fn first_terminal(probes: Seq<StatusProbe>) -> nat
    decreases probes.len(),
{
    if probes.len() == 0 {
        0
    } else if is_terminal(probes.first()) {
        0
    } else {
        1 + first_terminal(probes.drop_first())
    }
}

proof fn lemma_first_terminal_is(probes: Seq<StatusProbe>, m: int)
    requires
        0 <= m <= probes.len(),
        forall|j: int| 0 <= j < m ==> !is_terminal(#[trigger] probes[j]),
        m < probes.len() ==> is_terminal(probes[m]),
    ensures
        first_terminal(probes) == m,
    decreases probes.len(),
{
    if probes.len() > 0 && !is_terminal(probes.first()) {
        assert forall|j: int| 0 <= j < m - 1 implies !is_terminal(
            #[trigger] probes.drop_first()[j],
        ) by {
            assert(probes.drop_first()[j] == probes[j + 1]);
        }
        lemma_first_terminal_is(probes.drop_first(), m - 1);
    }
}

/// Replays a finite trace of status probes, as the polling loop would
/// see them: every probe before the first terminal one costs one
/// backoff wait, and the first terminal probe decides the outcome.
/// `None` means the trace ran out with the transaction still pending —
/// the live loop would simply keep waiting.
pub fn run_status_poll(probes: Vec<StatusProbe>) -> (r: (
    usize,
    Option<Result<Vec<u8>, SubmitError>>,
))
    ensures
        r.0 == first_terminal(probes@),
        match r.1 {
            Some(outcome) => first_terminal(probes@) < probes@.len() && step_spec(
                probes@[first_terminal(probes@) as int],
            ) == PollStep::Finish(outcome),
            None => first_terminal(probes@) == probes@.len(),
        },
{
    let n = probes.len();
    let ghost orig = probes@;
    let mut rest = probes;
    let mut waits: usize = 0;
    while rest.len() > 0
        invariant
            orig == probes@,
            n == orig.len(),
            waits + rest@.len() == n,
            rest@ == orig.subrange(waits as int, orig.len() as int),
            forall|j: int| 0 <= j < waits ==> !is_terminal(#[trigger] orig[j]),
        decreases rest@.len(),
    {
        let probe = rest.remove(0);
        proof {
            assert(probe == orig[waits as int]);
            assert(rest@ =~= orig.subrange(waits as int + 1, orig.len() as int));
        }
        match poll_step(probe) {
            PollStep::Wait(_) => {
                waits += 1;
            },
            PollStep::Finish(outcome) => {
                proof {
                    assert(step_spec(probe) == PollStep::Finish(outcome));
                    assert(is_terminal(probe));
                    lemma_first_terminal_is(orig, waits as int);
                    assert(first_terminal(orig) == waits);
                }
                return (waits, Some(outcome));
            },
        }
    }
    proof {
        lemma_first_terminal_is(orig, waits as int);
    }
    (waits, None)
}

} // verus!
