//! Data model of the verification registry.
//!
//! A verification request is recorded by the contract when a caller asks
//! for a repository to be verified; it is resolved exactly once, from
//! pending to success or failure. A verification result is produced by
//! the artifact assembler and stored keyed by its code hash, one
//! canonical verification per distinct hash.

use vstd::prelude::*;

use crate::code_hash::CodeHash;

verus! {

/// The lifecycle of a request: created pending, resolved exactly once.
#[allow(non_camel_case_types)]
#[derive(Clone, Copy, Debug, PartialEq, Eq, Structural)]
pub enum VerificationStatus {
    PENDING,
    SUCCESS,
    FAILURE,
}

/// The mathematical value of a [`VerificationRequest`].
#[verifier::ext_equal]
pub struct VerificationRequestV {
    pub id: u64,
    pub repository: Seq<char>,
    pub fee: u128,
    pub status: VerificationStatus,
    pub code_hash: Option<Seq<u8>>,
    pub created_at: u64,
    pub updated_at: u64,
}

/// One on-chain code-verification request. Identifiers are assigned by
/// the contract as a gap-free, strictly increasing sequence; the fee is
/// denominated in the chain's minimal currency unit; the code hash is
/// attached when, and only when, the request resolves successfully.
#[derive(Debug)]
pub struct VerificationRequest {
    pub id: u64,
    pub repository: String,
    pub fee: u128,
    pub status: VerificationStatus,
    pub code_hash: Option<CodeHash>,
    pub created_at: u64,
    pub updated_at: u64,
}

impl View for VerificationRequest {
    type V = VerificationRequestV;

    open spec fn view(&self) -> VerificationRequestV {
        VerificationRequestV {
            id: self.id,
            repository: self.repository@,
            fee: self.fee,
            status: self.status,
            code_hash: match self.code_hash {
                Some(h) => Some(h@),
                None => None,
            },
            created_at: self.created_at,
            updated_at: self.updated_at,
        }
    }
}

impl Clone for VerificationRequest {
    fn clone(&self) -> (r: Self)
        ensures
            r@ == self@,
    {
        let r = VerificationRequest {
            id: self.id,
            repository: self.repository.clone(),
            fee: self.fee,
            status: self.status,
            code_hash: match &self.code_hash {
                Some(h) => Some(h.clone()),
                None => None,
            },
            created_at: self.created_at,
            updated_at: self.updated_at,
        };
        proof {
            assert(r@ =~= self@);
        }
        r
    }
}

impl PartialEq for VerificationRequest {
    fn eq(&self, other: &Self) -> (r: bool) {
        let hashes_eq = match (&self.code_hash, &other.code_hash) {
            (None, None) => true,
            (Some(a), Some(b)) => a == b,
            _ => false,
        };
        let r = self.id == other.id && self.repository == other.repository && self.fee == other.fee
            && self.status == other.status && hashes_eq && self.created_at == other.created_at
            && self.updated_at == other.updated_at;
        proof {
            if r {
                assert(self@ =~= other@);
            } else {
                assert(self@ != other@);
            }
        }
        r
    }
}

impl vstd::std_specs::cmp::PartialEqSpecImpl for VerificationRequest {
    open spec fn obeys_eq_spec() -> bool {
        true
    }

    open spec fn eq_spec(&self, other: &Self) -> bool {
        self@ == other@
    }
}

/// The mathematical value of a [`VerificationResult`].
#[verifier::ext_equal]
pub struct VerificationResultV {
    pub code_hash: Seq<u8>,
    pub code_url: Seq<char>,
    pub repository: Seq<char>,
    pub remote: Seq<char>,
    pub branch: Seq<char>,
    pub commit: Seq<char>,
    pub request_id: u64,
}

/// The assembled outcome of one successful verification: where the code
/// came from, where its binary can be fetched, and the digest that
/// identifies the exact compiled bytes. Stored by the contract keyed on
/// the code hash.
#[derive(Debug)]
pub struct VerificationResult {
    pub code_hash: CodeHash,
    pub code_url: String,
    pub repository: String,
    pub remote: String,
    pub branch: String,
    pub commit: String,
    pub request_id: u64,
}

impl View for VerificationResult {
    type V = VerificationResultV;

    open spec fn view(&self) -> VerificationResultV {
        VerificationResultV {
            code_hash: self.code_hash@,
            code_url: self.code_url@,
            repository: self.repository@,
            remote: self.remote@,
            branch: self.branch@,
            commit: self.commit@,
            request_id: self.request_id,
        }
    }
}

impl Clone for VerificationResult {
    fn clone(&self) -> (r: Self)
        ensures
            r@ == self@,
    {
        let r = VerificationResult {
            code_hash: self.code_hash.clone(),
            code_url: self.code_url.clone(),
            repository: self.repository.clone(),
            remote: self.remote.clone(),
            branch: self.branch.clone(),
            commit: self.commit.clone(),
            request_id: self.request_id,
        };
        proof {
            assert(r@ =~= self@);
        }
        r
    }
}

impl PartialEq for VerificationResult {
    fn eq(&self, other: &Self) -> (r: bool) {
        let r = self.code_hash == other.code_hash && self.code_url == other.code_url
            && self.repository == other.repository && self.remote == other.remote && self.branch
            == other.branch && self.commit == other.commit && self.request_id == other.request_id;
        proof {
            if r {
                assert(self@ =~= other@);
            } else {
                assert(self@ != other@);
            }
        }
        r
    }
}

impl vstd::std_specs::cmp::PartialEqSpecImpl for VerificationResult {
    open spec fn obeys_eq_spec() -> bool {
        true
    }

    open spec fn eq_spec(&self, other: &Self) -> bool {
        self@ == other@
    }
}

/// The job section of a completed-job webhook delivery.
#[derive(Debug)]
pub struct WebhookPayloadJob {
    pub name: String,
    pub status: String,
    pub number: u64,
}

/// The body of a completed-job webhook delivery; the job number alone is
/// enough to recover everything else from the artifact manifest.
#[derive(Debug)]
pub struct JobCompletedWebhookPayload {
    pub job: WebhookPayloadJob,
}

/// Connection endpoints of one chain network.
#[derive(Debug)]
pub struct NetworkConfig {
    pub network_id: String,
    pub node_url: String,
    pub archival_url: String,
    pub wallet_url: String,
    pub helper_url: String,
    pub explorer_url: String,
}

} // verus!
