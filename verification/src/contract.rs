//! The on-chain registry contract, modelled over plain values.
//!
//! The host environment of the chain (who called, what deposit the call
//! attached, the block timestamp, and what the added storage costs) is
//! handed to each state-changing method as an explicit [`CallContext`];
//! where the on-chain host aborts the call, these methods return a
//! [`ContractError`] and leave the state untouched.
//!
//! Requests live in an append-only sequence whose position is the
//! request id, so ids are gap-free and strictly increasing; results live
//! in a keyed collection with one canonical verification per distinct
//! code hash, here a vector whose well-formedness invariant keeps the
//! hashes unique.

use vstd::prelude::*;

use crate::code_hash::CodeHash;
use crate::code_hash::eq_bytes;
use crate::verification::VerificationRequest;
use crate::verification::VerificationRequestV;
use crate::verification::VerificationResult;
use crate::verification::VerificationStatus;

verus! {

/// What the chain's host hands a call: the account that made it, the
/// deposit it attached, the block timestamp, and the storage cost the
/// host charges for what the call adds.
#[derive(Debug)]
pub struct CallContext {
    pub predecessor: String,
    pub attached_deposit: u128,
    pub block_timestamp: u64,
    pub storage_cost: u128,
}

/// Why the contract refused a call; the on-chain host aborts with a
/// message instead.
#[derive(Clone, Copy, Debug, PartialEq, Eq, Structural)]
pub enum ContractError {
    /// A state-changing call must attach a deposit.
    DepositRequired,
    /// The deposit does not cover the indicated fee plus storage.
    InsufficientDeposit,
    /// A privileged call must attach exactly one minimal currency unit.
    OneYoctoRequired,
    /// The contract has no owner (ownership was renounced).
    NoOwner,
    /// Only the owner may make this call.
    OwnerOnly,
    /// No ownership transfer is pending.
    NoProposedOwner,
    /// Only the proposed owner may accept ownership.
    ProposedOwnerOnly,
    /// No request carries the given id.
    UnknownRequestId,
    /// The request was already resolved; resolution happens at most once.
    AlreadyResolved,
}

/// Who owns the contract and who has been offered ownership.
#[derive(Debug)]
pub struct Ownership {
    pub owner: Option<String>,
    pub proposed_owner: Option<String>,
}

impl Ownership {
    pub open spec fn is_owner(&self, predecessor: Seq<char>) -> bool {
        match self.owner {
            Some(o) => o@ == predecessor,
            None => false,
        }
    }

    pub fn new(owner_id: String) -> (r: Self)
        ensures
            r.owner == Some(owner_id),
            r.proposed_owner is None,
    {
        Ownership { owner: Some(owner_id), proposed_owner: None }
    }

    /// Accepts exactly the current owner; a contract without an owner
    /// accepts nobody.
    pub fn assert_owner(&self, predecessor: &String) -> (r: Result<(), ContractError>)
        ensures
            r is Ok <==> self.is_owner(predecessor@),
            r matches Err(e) ==> e == (if self.owner is None {
                ContractError::NoOwner
            } else {
                ContractError::OwnerOnly
            }),
    {
        match &self.owner {
            None => Err(ContractError::NoOwner),
            Some(o) => {
                if *o == *predecessor {
                    Ok(())
                } else {
                    Err(ContractError::OwnerOnly)
                }
            },
        }
    }

    /// The owner gives ownership up; nobody can hold the contract after.
    pub fn renounce_owner(&mut self, predecessor: &String) -> (r: Result<(), ContractError>)
        ensures
            r is Ok <==> old(self).is_owner(predecessor@),
            r is Ok ==> final(self).owner is None && final(self).proposed_owner is None,
            r matches Err(e) ==> *final(self) == *old(self) && e == (if old(self).owner is None {
                ContractError::NoOwner
            } else {
                ContractError::OwnerOnly
            }),
    {
        match self.assert_owner(predecessor) {
            Err(e) => Err(e),
            Ok(()) => {
                self.owner = None;
                self.proposed_owner = None;
                Ok(())
            },
        }
    }

    /// The owner offers ownership to an account, or withdraws the offer.
    pub fn propose_owner(&mut self, predecessor: &String, account_id: Option<String>) -> (r: Result<
        (),
        ContractError,
    >)
        ensures
            r is Ok <==> old(self).is_owner(predecessor@),
            r is Ok ==> final(self).owner == old(self).owner && final(self).proposed_owner
                == account_id,
            r matches Err(e) ==> *final(self) == *old(self) && e == (if old(self).owner is None {
                ContractError::NoOwner
            } else {
                ContractError::OwnerOnly
            }),
    {
        match self.assert_owner(predecessor) {
            Err(e) => Err(e),
            Ok(()) => {
                self.proposed_owner = account_id;
                Ok(())
            },
        }
    }

    /// The proposed owner takes ownership; acceptance consumes the
    /// offer, while a refused call from anyone else leaves it standing.
    pub fn accept_owner(&mut self, predecessor: &String) -> (r: Result<(), ContractError>)
        ensures
            match old(self).proposed_owner {
                None => r == Err::<(), ContractError>(ContractError::NoProposedOwner)
                    && *final(self) == *old(self),
                Some(p) => {
                    if p@ == predecessor@ {
                        &&& r is Ok
                        &&& final(self).owner matches Some(o) && o@ == p@
                        &&& final(self).proposed_owner is None
                    } else {
                        &&& r == Err::<(), ContractError>(ContractError::ProposedOwnerOnly)
                        &&& *final(self) == *old(self)
                    }
                },
            },
    {
        match &self.proposed_owner {
            None => Err(ContractError::NoProposedOwner),
            Some(p) => {
                if *p == *predecessor {
                    let accepted = p.clone();
                    self.owner = Some(accepted);
                    self.proposed_owner = None;
                    Ok(())
                } else {
                    Err(ContractError::ProposedOwnerOnly)
                }
            },
        }
    }
}

/// The position of the first stored verification whose code hash is
/// `hash`, or the length when no verification carries it.
pub open spec fn vindex(s: Seq<VerificationResult>, hash: Seq<u8>) -> nat
    decreases s.len(),
{
    if s.len() == 0 {
        0
    } else if s.first().code_hash@ == hash {
        0
    } else {
        1 + vindex(s.drop_first(), hash)
    }
}

/// The stored verification keyed by `hash`, if any.
pub open spec fn find_verification(s: Seq<VerificationResult>, hash: Seq<u8>) -> Option<
    VerificationResult,
> {
    if vindex(s, hash) < s.len() {
        Some(s[vindex(s, hash) as int])
    } else {
        None
    }
}

/// Storing a verification keyed by its code hash: it replaces the one
/// already stored under the same hash, or is appended.
pub open spec fn upsert_spec(s: Seq<VerificationResult>, v: VerificationResult) -> Seq<
    VerificationResult,
> {
    if vindex(s, v.code_hash@) < s.len() {
        s.update(vindex(s, v.code_hash@) as int, v)
    } else {
        s.push(v)
    }
}

proof fn lemma_vindex_is(s: Seq<VerificationResult>, hash: Seq<u8>, m: int)
    requires
        0 <= m <= s.len(),
        forall|j: int| 0 <= j < m ==> s[j].code_hash@ != hash,
        m < s.len() ==> s[m].code_hash@ == hash,
    ensures
        vindex(s, hash) == m,
    decreases s.len(),
{
    if s.len() > 0 && s.first().code_hash@ != hash {
        assert forall|j: int| 0 <= j < m - 1 implies s.drop_first()[j].code_hash@ != hash by {
            assert(s.drop_first()[j] == s[j + 1]);
        }
        lemma_vindex_is(s.drop_first(), hash, m - 1);
    }
}

/// The pending requests among `s`, as mathematical values, in order.
pub open spec fn pending_spec(s: Seq<VerificationRequest>) -> Seq<VerificationRequestV>
    decreases s.len(),
{
    if s.len() == 0 {
        Seq::empty()
    } else {
        let rest = pending_spec(s.drop_last());
        if s.last().status == VerificationStatus::PENDING {
            rest.push(s.last()@)
        } else {
            rest
        }
    }
}

/// The registry: who owns it, every request ever made (position is id),
/// the stored verifications keyed by code hash, and the minimum fee.
#[derive(Debug)]
pub struct Contract {
    pub ownership: Ownership,
    pub requests: Vec<VerificationRequest>,
    pub verifications: Vec<VerificationResult>,
    pub verification_fee: u128,
}

/// One canonical verification per distinct code hash: no two stored
/// results carry the same digest.
pub open spec fn unique_hashes(s: Seq<VerificationResult>) -> bool {
    forall|i: int, j: int|
        0 <= i < j < s.len() ==> (#[trigger] s[i]).code_hash@ != (#[trigger] s[j]).code_hash@
}

impl Contract {
    /// Well-formedness: a request's id is its position, so ids are
    /// gap-free and strictly increasing; stored code hashes are unique.
    pub open spec fn wf(&self) -> bool {
        &&& forall|i: int|
            0 <= i < self.requests@.len() ==> (#[trigger] self.requests@[i]).id == i
        &&& unique_hashes(self.verifications@)
    }

    /// Checks that resolution of request `id` may go ahead, in the order
    /// the original host checks: deposit attached, owner calling, id
    /// known, request still pending.
    pub open spec fn resolve_check(pre: Contract, ctx: CallContext, id: u64) -> Option<
        ContractError,
    > {
        if ctx.attached_deposit == 0 {
            Some(ContractError::DepositRequired)
        } else if pre.ownership.owner is None {
            Some(ContractError::NoOwner)
        } else if !pre.ownership.is_owner(ctx.predecessor@) {
            Some(ContractError::OwnerOnly)
        } else if id >= pre.requests@.len() {
            Some(ContractError::UnknownRequestId)
        } else if pre.requests@[id as int].status != VerificationStatus::PENDING {
            Some(ContractError::AlreadyResolved)
        } else {
            None
        }
    }

    /// How resolution changes the state: the one request moves to its
    /// terminal status with the timestamp of the call, a successful
    /// result is stored keyed by its hash and referenced from the
    /// request, and nothing else moves.
    pub open spec fn resolve_applied(
        pre: Contract,
        post: Contract,
        ctx: CallContext,
        id: u64,
        result: Option<VerificationResult>,
    ) -> bool {
        &&& post.ownership == pre.ownership
        &&& post.verification_fee == pre.verification_fee
        &&& post.requests@.len() == pre.requests@.len()
        &&& forall|i: int|
            0 <= i < pre.requests@.len() && i != id ==> post.requests@[i] == pre.requests@[i]
        &&& match result {
            Some(v) => {
                &&& post.verifications@ == upsert_spec(pre.verifications@, v)
                &&& post.requests@[id as int]@ == VerificationRequestV {
                    status: VerificationStatus::SUCCESS,
                    updated_at: ctx.block_timestamp,
                    code_hash: Some(v.code_hash@),
                    ..pre.requests@[id as int]@
                }
            },
            None => {
                &&& post.verifications@ == pre.verifications@
                &&& post.requests@[id as int]@ == VerificationRequestV {
                    status: VerificationStatus::FAILURE,
                    updated_at: ctx.block_timestamp,
                    ..pre.requests@[id as int]@
                }
            },
        }
    }

    pub fn new(owner_id: String, verification_fee: u128) -> (r: Self)
        ensures
            r.wf(),
            r.ownership.owner == Some(owner_id),
            r.ownership.proposed_owner is None,
            r.requests@.len() == 0,
            r.verifications@.len() == 0,
            r.verification_fee == verification_fee,
    {
        Contract {
            ownership: Ownership::new(owner_id),
            requests: Vec::new(),
            verifications: Vec::new(),
            verification_fee,
        }
    }

    pub fn get_verification_fee(&self) -> (r: u128)
        ensures
            r == self.verification_fee,
    {
        self.verification_fee
    }

    /// The owner moves the minimum fee; the call must attach exactly one
    /// minimal currency unit as an intentionality marker.
    pub fn set_verification_fee(&mut self, ctx: &CallContext, verification_fee: u128) -> (r: Result<
        (),
        ContractError,
    >)
        ensures
            r is Ok <==> (ctx.attached_deposit == 1 && old(self).ownership.is_owner(
                ctx.predecessor@,
            )),
            r is Ok ==> *final(self) == (Contract { verification_fee, ..*old(self) }),
            r is Err ==> *final(self) == *old(self),
            r matches Err(e) ==> e == (if ctx.attached_deposit != 1 {
                ContractError::OneYoctoRequired
            } else if old(self).ownership.owner is None {
                ContractError::NoOwner
            } else {
                ContractError::OwnerOnly
            }),
    {
        if ctx.attached_deposit != 1 {
            return Err(ContractError::OneYoctoRequired);
        }
        match self.ownership.assert_owner(&ctx.predecessor) {
            Err(e) => Err(e),
            Ok(()) => {
                self.verification_fee = verification_fee;
                Ok(())
            },
        }
    }

    /// The request stored under `id`, which exists exactly when `id` is
    /// below the number of requests ever made.
    pub fn get_verification_request(&self, id: u64) -> (r: Option<VerificationRequest>)
        ensures
            match r {
                Some(req) => id < self.requests@.len() && req@ == self.requests@[id as int]@,
                None => id >= self.requests@.len(),
            },
    {
        if id < self.requests.len() as u64 {
            let idx = id as usize;
            Some(self.requests[idx].clone())
        } else {
            None
        }
    }

    /// The stored verification a request resolved to: the one keyed by
    /// the hash the request references, if the request exists and
    /// references one.
    pub open spec fn result_of(&self, id: u64) -> Option<VerificationResult> {
        if id < self.requests@.len() {
            match self.requests@[id as int].code_hash {
                Some(h) => find_verification(self.verifications@, h@),
                None => None,
            }
        } else {
            None
        }
    }

    pub fn get_verification_result(&self, id: u64) -> (r: Option<VerificationResult>)
        ensures
            match (r, self.result_of(id)) {
                (Some(a), Some(b)) => a@ == b@,
                (None, None) => true,
                _ => false,
            },
    {
        if id >= self.requests.len() as u64 {
            return None;
        }
        let idx = id as usize;
        let hash = match &self.requests[idx].code_hash {
            Some(h) => h,
            None => {
                return None;
            },
        };
        self.lookup_verification(hash)
    }

    /// The stored verification keyed by `code_hash`, if any: one lives
    /// there exactly when some request verified code with that digest.
    pub fn verify_code_hash(&self, code_hash: &CodeHash) -> (r: Option<VerificationResult>)
        ensures
            match (r, find_verification(self.verifications@, code_hash@)) {
                (Some(a), Some(b)) => a@ == b@,
                (None, None) => true,
                _ => false,
            },
    {
        self.lookup_verification(code_hash)
    }

    fn lookup_verification(&self, hash: &CodeHash) -> (r: Option<VerificationResult>)
        ensures
            match (r, find_verification(self.verifications@, hash@)) {
                (Some(a), Some(b)) => a@ == b@,
                (None, None) => true,
                _ => false,
            },
    {
        let n = self.verifications.len();
        let mut k: usize = 0;
        while k < n
            invariant
                k <= n,
                n == self.verifications@.len(),
                forall|j: int| 0 <= j < k ==> self.verifications@[j].code_hash@ != hash@,
            decreases n - k,
        {
            let candidate = &self.verifications[k];
            if eq_bytes(candidate.code_hash.0.as_slice(), hash.0.as_slice()) {
                proof {
                    lemma_vindex_is(self.verifications@, hash@, k as int);
                }
                return Some(candidate.clone());
            }
            k += 1;
        }
        proof {
            lemma_vindex_is(self.verifications@, hash@, n as int);
        }
        None
    }

    /// Every request still awaiting resolution, in id order.
    pub fn get_pending_requests(&self) -> (r: Vec<VerificationRequest>)
        ensures
            r@.len() == pending_spec(self.requests@).len(),
            forall|i: int|
                0 <= i < r@.len() ==> (#[trigger] r@[i])@ == pending_spec(self.requests@)[i],
    {
        let n = self.requests.len();
        let mut out: Vec<VerificationRequest> = Vec::new();
        let mut k: usize = 0;
        while k < n
            invariant
                k <= n,
                n == self.requests@.len(),
                out@.len() == pending_spec(self.requests@.subrange(0, k as int)).len(),
                forall|i: int|
                    0 <= i < out@.len() ==> (#[trigger] out@[i])@ == pending_spec(
                        self.requests@.subrange(0, k as int),
                    )[i],
            decreases n - k,
        {
            let ghost prefix = self.requests@.subrange(0, k as int);
            proof {
                assert(self.requests@.subrange(0, k as int + 1) =~= prefix.push(
                    self.requests@[k as int],
                ));
                assert(prefix.push(self.requests@[k as int]).drop_last() =~= prefix);
            }
            let candidate = &self.requests[k];
            if matches!(candidate.status, VerificationStatus::PENDING) {
                out.push(candidate.clone());
            }
            k += 1;
        }
        proof {
            assert(self.requests@.subrange(0, n as int) =~= self.requests@);
        }
        out
    }

    /// Records a new pending request. The caller must attach a deposit
    /// covering the indicated fee plus the storage the record takes; the
    /// request's id is the number of requests made before it.
    pub fn request_verification(
        &mut self,
        ctx: &CallContext,
        repository: String,
        fee: u128,
    ) -> (r: Result<VerificationRequest, ContractError>)
        requires
            old(self).wf(),
            old(self).requests@.len() < u64::MAX,
        ensures
            final(self).wf(),
            r is Ok <==> (ctx.attached_deposit > 0 && ctx.attached_deposit >= fee
                && ctx.attached_deposit - fee >= ctx.storage_cost),
            r matches Err(e) ==> *final(self) == *old(self) && e == (if ctx.attached_deposit == 0 {
                ContractError::DepositRequired
            } else {
                ContractError::InsufficientDeposit
            }),
            r matches Ok(req) ==> {
                &&& req@ == (VerificationRequestV {
                    id: old(self).requests@.len() as u64,
                    repository: repository@,
                    fee,
                    status: VerificationStatus::PENDING,
                    code_hash: None,
                    created_at: ctx.block_timestamp,
                    updated_at: ctx.block_timestamp,
                })
                &&& final(self).requests@.len() == old(self).requests@.len() + 1
                &&& forall|i: int|
                    0 <= i < old(self).requests@.len() ==> final(self).requests@[i] == old(
                        self,
                    ).requests@[i]
                &&& final(self).requests@.last()@ == req@
                &&& final(self).verifications@ == old(self).verifications@
                &&& final(self).ownership == old(self).ownership
                &&& final(self).verification_fee == old(self).verification_fee
            },
    {
        if ctx.attached_deposit == 0 {
            return Err(ContractError::DepositRequired);
        }
        if ctx.attached_deposit < fee || ctx.attached_deposit - fee < ctx.storage_cost {
            return Err(ContractError::InsufficientDeposit);
        }
        let id = self.requests.len() as u64;
        let now = ctx.block_timestamp;
        let request = VerificationRequest {
            id,
            repository,
            fee,
            status: VerificationStatus::PENDING,
            code_hash: None,
            created_at: now,
            updated_at: now,
        };
        self.requests.push(request.clone());
        Ok(request)
    }

    /// Settles request `id` exactly once: to success, storing the result
    /// keyed by its code hash and referencing it from the request, or to
    /// failure. A request already settled is refused and nothing moves.
    fn resolve(&mut self, ctx: &CallContext, id: u64, result: Option<VerificationResult>) -> (r:
        Result<(), ContractError>)
        requires
            old(self).wf(),
        ensures
            final(self).wf(),
            match r {
                Ok(()) => Self::resolve_check(*old(self), *ctx, id) is None && Self::resolve_applied(
                    *old(self),
                    *final(self),
                    *ctx,
                    id,
                    result,
                ),
                Err(e) => Self::resolve_check(*old(self), *ctx, id) == Some(e) && *final(self)
                    == *old(self),
            },
    {
        if ctx.attached_deposit == 0 {
            return Err(ContractError::DepositRequired);
        }
        if let Err(e) = self.ownership.assert_owner(&ctx.predecessor) {
            return Err(e);
        }
        if id >= self.requests.len() as u64 {
            return Err(ContractError::UnknownRequestId);
        }
        let idx = id as usize;
        if !matches!(self.requests[idx].status, VerificationStatus::PENDING) {
            return Err(ContractError::AlreadyResolved);
        }
        let now = ctx.block_timestamp;
        let previous = self.requests.remove(idx);
        match result {
            Some(v) => {
                let ghost gv = v;
                let stored_hash = v.code_hash.clone();
                self.store_verification(v);
                let updated = VerificationRequest {
                    status: VerificationStatus::SUCCESS,
                    updated_at: now,
                    code_hash: Some(stored_hash),
                    ..previous
                };
                self.requests.insert(idx, updated);
                proof {
                    assert(self.requests@ =~= old(self).requests@.update(
                        id as int,
                        self.requests@[id as int],
                    ));
                    assert(self.requests@[id as int]@ =~= (VerificationRequestV {
                        status: VerificationStatus::SUCCESS,
                        updated_at: now,
                        code_hash: Some(gv.code_hash@),
                        ..old(self).requests@[id as int]@
                    }));
                }
            },
            None => {
                let updated = VerificationRequest {
                    status: VerificationStatus::FAILURE,
                    updated_at: now,
                    ..previous
                };
                self.requests.insert(idx, updated);
                proof {
                    assert(self.requests@ =~= old(self).requests@.update(
                        id as int,
                        self.requests@[id as int],
                    ));
                    assert(self.requests@[id as int]@ =~= (VerificationRequestV {
                        status: VerificationStatus::FAILURE,
                        updated_at: now,
                        ..old(self).requests@[id as int]@
                    }));
                }
            },
        }
        Ok(())
    }

    /// Stores `v` keyed by its code hash, replacing what that hash
    /// already keyed, and keeping the stored hashes unique.
    fn store_verification(&mut self, v: VerificationResult)
        requires
            unique_hashes(old(self).verifications@),
        ensures
            unique_hashes(final(self).verifications@),
            final(self).verifications@ == upsert_spec(old(self).verifications@, v),
            final(self).requests == old(self).requests,
            final(self).ownership == old(self).ownership,
            final(self).verification_fee == old(self).verification_fee,
    {
        let ghost gv = v;
        let n = self.verifications.len();
        let mut k: usize = 0;
        while k < n
            invariant
                k <= n,
                *self == *old(self),
                unique_hashes(old(self).verifications@),
                n == self.verifications@.len(),
                forall|j: int| 0 <= j < k ==> self.verifications@[j].code_hash@ != gv.code_hash@,
                v == gv,
            decreases n - k,
        {
            if eq_bytes(
                self.verifications[k].code_hash.0.as_slice(),
                v.code_hash.0.as_slice(),
            ) {
                proof {
                    lemma_vindex_is(self.verifications@, gv.code_hash@, k as int);
                }
                let ghost pre = self.verifications@;
                self.verifications.remove(k);
                self.verifications.insert(k, v);
                proof {
                    assert(pre == old(self).verifications@);
                    assert forall|i: int, j: int| 0 <= i < j < pre.len() implies pre[i].code_hash@
                        != pre[j].code_hash@ by {
                        assert(old(self).verifications@[i] == pre[i]);
                        assert(old(self).verifications@[j] == pre[j]);
                    }
                    assert(self.verifications@ =~= pre.update(k as int, gv));
                    assert(upsert_spec(pre, gv) == pre.update(k as int, gv));
                    assert forall|i: int, j: int|
                        0 <= i < j < self.verifications@.len() implies self.verifications@[i].code_hash@
                        != self.verifications@[j].code_hash@ by {
                        assert(pre[i].code_hash@ != pre[j].code_hash@);
                        assert(pre[k as int].code_hash@ == gv.code_hash@);
                    }
                }
                return ;
            }
            k += 1;
        }
        proof {
            lemma_vindex_is(self.verifications@, gv.code_hash@, n as int);
        }
        let ghost pre = self.verifications@;
        self.verifications.push(v);
        proof {
            assert(pre == old(self).verifications@);
            assert forall|i: int, j: int| 0 <= i < j < pre.len() implies pre[i].code_hash@
                != pre[j].code_hash@ by {
                assert(old(self).verifications@[i] == pre[i]);
                assert(old(self).verifications@[j] == pre[j]);
            }
            assert(self.verifications@ =~= pre.push(gv));
            assert forall|i: int, j: int|
                0 <= i < j < self.verifications@.len() implies self.verifications@[i].code_hash@
                != self.verifications@[j].code_hash@ by {
                if j < pre.len() {
                    assert(pre[i].code_hash@ != pre[j].code_hash@);
                } else {
                    assert(self.verifications@[j] == gv);
                    assert(pre[i].code_hash@ != gv.code_hash@);
                }
            }
        }
    }

    /// Reports a successful verification: stores the result and settles
    /// the request it references.
    pub fn verification_success(&mut self, ctx: &CallContext, result: VerificationResult) -> (r:
        Result<(), ContractError>)
        requires
            old(self).wf(),
        ensures
            final(self).wf(),
            match r {
                Ok(()) => Self::resolve_check(*old(self), *ctx, result.request_id) is None
                    && Self::resolve_applied(
                    *old(self),
                    *final(self),
                    *ctx,
                    result.request_id,
                    Some(result),
                ),
                Err(e) => Self::resolve_check(*old(self), *ctx, result.request_id) == Some(e)
                    && *final(self) == *old(self),
            },
    {
        let id = result.request_id;
        self.resolve(ctx, id, Some(result))
    }

    /// Reports a failed verification: settles the request to failure.
    pub fn verification_failure(&mut self, ctx: &CallContext, id: u64) -> (r: Result<
        (),
        ContractError,
    >)
        requires
            old(self).wf(),
        ensures
            final(self).wf(),
            match r {
                Ok(()) => Self::resolve_check(*old(self), *ctx, id) is None && Self::resolve_applied(
                    *old(self),
                    *final(self),
                    *ctx,
                    id,
                    None,
                ),
                Err(e) => Self::resolve_check(*old(self), *ctx, id) == Some(e) && *final(self)
                    == *old(self),
            },
    {
        self.resolve(ctx, id, None)
    }

    pub fn own_get_owner(&self) -> (r: Option<String>)
        ensures
            match (r, self.ownership.owner) {
                (Some(a), Some(b)) => a@ == b@,
                (None, None) => true,
                _ => false,
            },
    {
        match &self.ownership.owner {
            Some(o) => Some(o.clone()),
            None => None,
        }
    }

    pub fn own_get_proposed_owner(&self) -> (r: Option<String>)
        ensures
            match (r, self.ownership.proposed_owner) {
                (Some(a), Some(b)) => a@ == b@,
                (None, None) => true,
                _ => false,
            },
    {
        match &self.ownership.proposed_owner {
            Some(o) => Some(o.clone()),
            None => None,
        }
    }

    /// As [`Ownership::renounce_owner`], gated on the one-yocto marker.
    pub fn own_renounce_owner(&mut self, ctx: &CallContext) -> (r: Result<(), ContractError>)
        ensures
            final(self).requests == old(self).requests,
            final(self).verifications == old(self).verifications,
            final(self).verification_fee == old(self).verification_fee,
            r is Ok <==> (ctx.attached_deposit == 1 && old(self).ownership.is_owner(
                ctx.predecessor@,
            )),
            r is Ok ==> final(self).ownership.owner is None
                && final(self).ownership.proposed_owner is None,
            r is Err ==> final(self).ownership == old(self).ownership,
            r matches Err(e) ==> e == (if ctx.attached_deposit != 1 {
                ContractError::OneYoctoRequired
            } else if old(self).ownership.owner is None {
                ContractError::NoOwner
            } else {
                ContractError::OwnerOnly
            }),
    {
        if ctx.attached_deposit != 1 {
            return Err(ContractError::OneYoctoRequired);
        }
        self.ownership.renounce_owner(&ctx.predecessor)
    }

    /// As [`Ownership::propose_owner`], gated on the one-yocto marker.
    pub fn own_propose_owner(&mut self, ctx: &CallContext, account_id: Option<String>) -> (r:
        Result<(), ContractError>)
        ensures
            final(self).requests == old(self).requests,
            final(self).verifications == old(self).verifications,
            final(self).verification_fee == old(self).verification_fee,
            r is Ok <==> (ctx.attached_deposit == 1 && old(self).ownership.is_owner(
                ctx.predecessor@,
            )),
            r is Ok ==> final(self).ownership.owner == old(self).ownership.owner
                && final(self).ownership.proposed_owner == account_id,
            r is Err ==> final(self).ownership == old(self).ownership,
    {
        if ctx.attached_deposit != 1 {
            return Err(ContractError::OneYoctoRequired);
        }
        self.ownership.propose_owner(&ctx.predecessor, account_id)
    }

    /// As [`Ownership::accept_owner`], gated on the one-yocto marker.
    pub fn own_accept_owner(&mut self, ctx: &CallContext) -> (r: Result<(), ContractError>)
        ensures
            final(self).requests == old(self).requests,
            final(self).verifications == old(self).verifications,
            final(self).verification_fee == old(self).verification_fee,
            ctx.attached_deposit != 1 ==> r == Err::<(), ContractError>(
                ContractError::OneYoctoRequired,
            ) && final(self).ownership == old(self).ownership,
            ctx.attached_deposit == 1 ==> match old(self).ownership.proposed_owner {
                None => r == Err::<(), ContractError>(ContractError::NoProposedOwner)
                    && final(self).ownership == old(self).ownership,
                Some(p) => {
                    if p@ == ctx.predecessor@ {
                        &&& r is Ok
                        &&& final(self).ownership.owner matches Some(o) && o@ == p@
                        &&& final(self).ownership.proposed_owner is None
                    } else {
                        &&& r == Err::<(), ContractError>(ContractError::ProposedOwnerOnly)
                        &&& final(self).ownership == old(self).ownership
                    }
                },
            },
    {
        if ctx.attached_deposit != 1 {
            return Err(ContractError::OneYoctoRequired);
        }
        self.ownership.accept_owner(&ctx.predecessor)
    }
}

} // verus!
