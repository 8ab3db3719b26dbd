use vstd::prelude::*;
use crate::digest::{append_bytes, same_bytes, sha256, sha256_of};
use crate::payload::{
    bounty_field, decodes, eval_spec_field, n_field, pass_field, preds_hash_field, scale_field,
    solver_field, submission_field, testset_field, threshold_field, AttestedResult,
};

verus! {

/// Label of bounty addresses: `b"bounty_state"`.
pub open spec fn bounty_label() -> Seq<u8> {
    seq![98u8, 111, 117, 110, 116, 121, 95, 115, 116, 97, 116, 101]
}

/// Label of vault addresses: `b"vault"`.
pub open spec fn vault_label() -> Seq<u8> {
    seq![118u8, 97, 117, 108, 116]
}

/// Label of submission addresses: `b"submission"`.
pub open spec fn submission_label() -> Seq<u8> {
    seq![115u8, 117, 98, 109, 105, 115, 115, 105, 111, 110]
}

/// The address of the bounty that `creator` opens under `seed`.
pub open spec fn bounty_address(creator: Seq<u8>, seed: Seq<u8>) -> Seq<u8> {
    sha256_of(bounty_label() + creator + seed)
}

/// The address of a bounty's vault: derived from the vault label, the
/// bounty's address and the stored disambiguation byte.
pub open spec fn vault_address(bounty: Seq<u8>, bump: u8) -> Seq<u8> {
    sha256_of(vault_label() + bounty + seq![bump])
}

/// The address of `solver`'s submission to `bounty`: one per pair.
pub open spec fn submission_address(bounty: Seq<u8>, solver: Seq<u8>) -> Seq<u8> {
    sha256_of(submission_label() + bounty + solver)
}

/// Derives the address of the bounty that `creator` opens under `seed`.
pub fn derive_bounty_address(creator: &[u8; 32], seed: &[u8; 16]) -> (r: [u8; 32])
    ensures
        r@ == bounty_address(creator@, seed@),
{
    let mut buf: Vec<u8> = vec![98u8, 111, 117, 110, 116, 121, 95, 115, 116, 97, 116, 101];
    assert(buf@ =~= bounty_label());
    append_bytes(&mut buf, creator);
    append_bytes(&mut buf, seed);
    sha256(&buf)
}

/// Derives the address of a bounty's vault from the bounty's address and the
/// disambiguation byte.
pub fn derive_vault_address(bounty: &[u8; 32], bump: u8) -> (r: [u8; 32])
    ensures
        r@ == vault_address(bounty@, bump),
{
    let mut buf: Vec<u8> = vec![118u8, 97, 117, 108, 116];
    assert(buf@ =~= vault_label());
    append_bytes(&mut buf, bounty);
    let b = [bump];
    append_bytes(&mut buf, &b);
    assert(b@ =~= seq![bump]);
    sha256(&buf)
}

/// Derives the address of `solver`'s submission to `bounty`.
pub fn derive_submission_address(bounty: &[u8; 32], solver: &[u8; 32]) -> (r: [u8; 32])
    ensures
        r@ == submission_address(bounty@, solver@),
{
    let mut buf: Vec<u8> = vec![115u8, 117, 98, 109, 105, 115, 115, 105, 111, 110];
    assert(buf@ =~= submission_label());
    append_bytes(&mut buf, bounty);
    append_bytes(&mut buf, solver);
    sha256(&buf)
}

/// One contest: funds locked in a vault against a committed dataset.
#[derive(Clone, Copy)]
pub struct Bounty {
    pub creator: [u8; 32],
    pub vault: [u8; 32],
    pub amount_lamports: u64,
    pub deadline_ts: i64,
    pub n: u32,
    pub scale: u32,
    pub threshold_t2: u128,
    pub eval_spec_hash: [u8; 32],
    pub testset_commitment: [u8; 32],
    pub allowed_measurement: [u8; 32],
    pub allowed_attester: [u8; 32],
    pub is_paid: bool,
    pub vault_bump: u8,
}

impl Bounty {
    /// Whether the deadline has passed at time `now`.
    pub fn is_expired(&self, now: i64) -> (r: bool)
        ensures
            r == (now > self.deadline_ts),
    {
        now > self.deadline_ts
    }
}

/// `b` with the paid flag set.
pub open spec fn paid(b: Bounty) -> Bounty {
    Bounty { is_paid: true, ..b }
}

/// A solver's entry: a commitment to its predictions and where they live.
pub struct Submission {
    pub bounty: [u8; 32],
    pub solver: [u8; 32],
    pub preds_hash: [u8; 32],
    pub uri: String,
    pub created_ts: i64,
}

/// What a creator supplies to open a bounty.
#[derive(Clone, Copy)]
pub struct CreateBountyParams {
    pub seed: [u8; 16],
    pub amount_lamports: u64,
    pub deadline_ts: i64,
    pub n: u32,
    pub scale: u32,
    pub threshold_t2: u128,
    pub eval_spec_hash: [u8; 32],
    pub testset_commitment: [u8; 32],
    pub allowed_measurement: [u8; 32],
    pub allowed_attester: [u8; 32],
}

/// Why a ledger transition was refused.
#[derive(Clone, Copy, Debug, PartialEq, Eq, Structural)]
pub enum ErrorCode {
    BadDeadline,
    BadAmount,
    Expired,
    AlreadyPaid,
    BadPayload,
    BadAttestation,
    DidNotPass,
    /// A record already stands at the address that the transition derives.
    AccountInUse,
    /// No record stands at an address that the transition reads.
    AccountNotFound,
    /// The vault supplied is not the one derived for the bounty.
    VaultMismatch,
    /// A balance cannot cover the transfer, or would exceed its range.
    InsufficientFunds,
}

/// A bounty stored at its address.
#[derive(Clone, Copy)]
pub struct BountyRecord {
    pub key: [u8; 32],
    pub bounty: Bounty,
}

/// A submission stored at its address.
pub struct SubmissionRecord {
    pub key: [u8; 32],
    pub submission: Submission,
}

/// The escrow's store: bounties and submissions, each keyed by its address.
pub struct Ledger {
    pub bounties: Vec<BountyRecord>,
    pub submissions: Vec<SubmissionRecord>,
}

/// The accounts that `create_bounty` touches.
#[derive(Clone, Copy)]
pub struct CreateBounty {
    pub creator: [u8; 32],
    pub creator_lamports: u64,
    pub vault_lamports: u64,
    pub vault_bump: u8,
}

/// The accounts that `submit` touches.
#[derive(Clone, Copy)]
pub struct Submit {
    pub solver: [u8; 32],
    pub bounty: [u8; 32],
}

/// The accounts that `finalize_with_attestation` touches.
#[derive(Clone, Copy)]
pub struct FinalizeWithAttestation {
    pub bounty: [u8; 32],
    pub vault: [u8; 32],
    pub submission: [u8; 32],
    pub solver: [u8; 32],
    pub vault_lamports: u64,
    pub solver_lamports: u64,
}

impl Ledger {
    pub open spec fn has_bounty(&self, k: Seq<u8>) -> bool {
        exists|i: int| 0 <= i < self.bounties@.len() && (#[trigger] self.bounties@[i]).key@ == k
    }

    pub open spec fn bounty_index(&self, k: Seq<u8>) -> int {
        choose|i: int| 0 <= i < self.bounties@.len() && (#[trigger] self.bounties@[i]).key@ == k
    }

    /// The bounty stored at `k`.
    pub open spec fn bounty_at(&self, k: Seq<u8>) -> Bounty {
        self.bounties@[self.bounty_index(k)].bounty
    }

    pub open spec fn has_submission(&self, k: Seq<u8>) -> bool {
        exists|i: int| 0 <= i < self.submissions@.len() && (#[trigger] self.submissions@[i]).key@ == k
    }

    pub open spec fn submission_index(&self, k: Seq<u8>) -> int {
        choose|i: int| 0 <= i < self.submissions@.len() && (#[trigger] self.submissions@[i]).key@ == k
    }

    /// The submission stored at `k`.
    pub open spec fn submission_at(&self, k: Seq<u8>) -> Submission {
        self.submissions@[self.submission_index(k)].submission
    }

    /// Addresses are unique, and every bounty's vault is the one derived from
    /// its address and stored disambiguation byte.
    pub open spec fn wf(&self) -> bool {
        &&& forall|i: int, j: int|
            0 <= i < self.bounties@.len() && 0 <= j < self.bounties@.len() && i != j
                ==> (#[trigger] self.bounties@[i]).key@ != (#[trigger] self.bounties@[j]).key@
        &&& forall|i: int|
            0 <= i < self.bounties@.len() ==> (#[trigger] self.bounties@[i]).bounty.vault@
                == vault_address(self.bounties@[i].key@, self.bounties@[i].bounty.vault_bump)
        &&& forall|i: int, j: int|
            0 <= i < self.submissions@.len() && 0 <= j < self.submissions@.len() && i != j
                ==> (#[trigger] self.submissions@[i]).key@ != (#[trigger] self.submissions@[j]).key@
    }

    /// An empty ledger.
    pub fn new() -> (r: Ledger)
        ensures
            r.wf(),
            r.bounties@.len() == 0,
            r.submissions@.len() == 0,
    {
        Ledger { bounties: Vec::new(), submissions: Vec::new() }
    }

    /// The position of the bounty stored at `k`.
    pub fn find_bounty(&self, k: &[u8; 32]) -> (r: Option<usize>)
        requires
            self.wf(),
        ensures
            r is Some <==> self.has_bounty(k@),
            r matches Some(i) ==> i == self.bounty_index(k@) && i < self.bounties@.len(),
    {
        let mut i: usize = 0;
        while i < self.bounties.len()
            invariant
                self.wf(),
                i <= self.bounties@.len(),
                forall|t: int| 0 <= t < i ==> (#[trigger] self.bounties@[t]).key@ != k@,
            decreases self.bounties@.len() - i,
        {
            if same_bytes(&self.bounties[i].key, k) {
                assert(self.bounties@[i as int].key@ == k@);
                let ghost c = self.bounty_index(k@);
                assert(0 <= c < self.bounties@.len() && self.bounties@[c].key@ == k@);
                assert(c == i);
                return Some(i);
            }
            i = i + 1;
        }
        None
    }

    /// The position of the submission stored at `k`.
    pub fn find_submission(&self, k: &[u8; 32]) -> (r: Option<usize>)
        requires
            self.wf(),
        ensures
            r is Some <==> self.has_submission(k@),
            r matches Some(i) ==> i == self.submission_index(k@) && i < self.submissions@.len(),
    {
        let mut i: usize = 0;
        while i < self.submissions.len()
            invariant
                self.wf(),
                i <= self.submissions@.len(),
                forall|t: int| 0 <= t < i ==> (#[trigger] self.submissions@[t]).key@ != k@,
            decreases self.submissions@.len() - i,
        {
            if same_bytes(&self.submissions[i].key, k) {
                assert(self.submissions@[i as int].key@ == k@);
                let ghost c = self.submission_index(k@);
                assert(0 <= c < self.submissions@.len() && self.submissions@[c].key@ == k@);
                assert(c == i);
                return Some(i);
            }
            i = i + 1;
        }
        None
    }
}

/// Why `create_bounty` refuses, if it does: the address is taken, the
/// deadline is not in the future, the amount is zero, or the creator cannot
/// fund the vault.
pub open spec fn create_error(l: Ledger, ctx: CreateBounty, p: CreateBountyParams, now: i64) -> Option<ErrorCode> {
    if l.has_bounty(bounty_address(ctx.creator@, p.seed@)) {
        Some(ErrorCode::AccountInUse)
    } else if p.deadline_ts <= now {
        Some(ErrorCode::BadDeadline)
    } else if p.amount_lamports == 0 {
        Some(ErrorCode::BadAmount)
    } else if ctx.creator_lamports < p.amount_lamports || ctx.vault_lamports + p.amount_lamports > u64::MAX {
        Some(ErrorCode::InsufficientFunds)
    } else {
        None
    }
}

/// `b` is the bounty that `create_bounty` opens at `key` from `ctx` and `p`.
pub open spec fn opened_bounty(b: Bounty, key: Seq<u8>, ctx: CreateBounty, p: CreateBountyParams) -> bool {
    &&& b.creator == ctx.creator
    &&& b.vault@ == vault_address(key, ctx.vault_bump)
    &&& b.amount_lamports == p.amount_lamports
    &&& b.deadline_ts == p.deadline_ts
    &&& b.n == p.n
    &&& b.scale == p.scale
    &&& b.threshold_t2 == p.threshold_t2
    &&& b.eval_spec_hash == p.eval_spec_hash
    &&& b.testset_commitment == p.testset_commitment
    &&& b.allowed_measurement == p.allowed_measurement
    &&& b.allowed_attester == p.allowed_attester
    &&& !b.is_paid
    &&& b.vault_bump == ctx.vault_bump
}

/// Opens a bounty at the address derived from the creator and `params.seed`,
/// moving `params.amount_lamports` from the creator into the vault. All or
/// nothing: on refusal neither the ledger nor the balances change.
pub fn create_bounty(ledger: &mut Ledger, ctx: &mut CreateBounty, params: &CreateBountyParams, now: i64) -> (r: Result<[u8; 32], ErrorCode>)
    requires
        old(ledger).wf(),
    ensures
        final(ledger).wf(),
        r is Err <==> create_error(*old(ledger), *old(ctx), *params, now) is Some,
        r matches Err(e) ==> create_error(*old(ledger), *old(ctx), *params, now) == Some(e),
        r is Err ==> *final(ledger) == *old(ledger) && *final(ctx) == *old(ctx),
        r matches Ok(key) ==> {
            &&& key@ == bounty_address(old(ctx).creator@, params.seed@)
            &&& final(ledger).submissions == old(ledger).submissions
            &&& final(ledger).bounties@ == old(ledger).bounties@.push(final(ledger).bounties@.last())
            &&& final(ledger).bounties@.last().key == key
            &&& opened_bounty(final(ledger).bounties@.last().bounty, key@, *old(ctx), *params)
            &&& final(ctx).creator_lamports == old(ctx).creator_lamports - params.amount_lamports
            &&& final(ctx).vault_lamports == old(ctx).vault_lamports + params.amount_lamports
            &&& final(ctx).creator == old(ctx).creator
            &&& final(ctx).vault_bump == old(ctx).vault_bump
        },
{
    let key = derive_bounty_address(&ctx.creator, &params.seed);
    if ledger.find_bounty(&key).is_some() {
        return Err(ErrorCode::AccountInUse);
    }
    if params.deadline_ts <= now {
        return Err(ErrorCode::BadDeadline);
    }
    if params.amount_lamports == 0 {
        return Err(ErrorCode::BadAmount);
    }
    if ctx.creator_lamports < params.amount_lamports || ctx.vault_lamports > u64::MAX - params.amount_lamports {
        return Err(ErrorCode::InsufficientFunds);
    }
    let vault = derive_vault_address(&key, ctx.vault_bump);
    let bounty = Bounty {
        creator: ctx.creator,
        vault,
        amount_lamports: params.amount_lamports,
        deadline_ts: params.deadline_ts,
        n: params.n,
        scale: params.scale,
        threshold_t2: params.threshold_t2,
        eval_spec_hash: params.eval_spec_hash,
        testset_commitment: params.testset_commitment,
        allowed_measurement: params.allowed_measurement,
        allowed_attester: params.allowed_attester,
        is_paid: false,
        vault_bump: ctx.vault_bump,
    };
    ctx.creator_lamports = ctx.creator_lamports - params.amount_lamports;
    ctx.vault_lamports = ctx.vault_lamports + params.amount_lamports;
    ledger.bounties.push(BountyRecord { key, bounty });
    proof {
        let n = ledger.bounties@.len() - 1;
        assert forall|i: int, j: int|
            0 <= i < ledger.bounties@.len() && 0 <= j < ledger.bounties@.len() && i != j
                implies (#[trigger] ledger.bounties@[i]).key@ != (#[trigger] ledger.bounties@[j]).key@ by {
            if i == n {
                assert(old(ledger).bounties@[j] == ledger.bounties@[j]);
            } else if j == n {
                assert(old(ledger).bounties@[i] == ledger.bounties@[i]);
            } else {
                assert(old(ledger).bounties@[i] == ledger.bounties@[i]);
                assert(old(ledger).bounties@[j] == ledger.bounties@[j]);
            }
        }
        assert forall|i: int| 0 <= i < ledger.bounties@.len() implies (#[trigger] ledger.bounties@[i]).bounty.vault@
                == vault_address(ledger.bounties@[i].key@, ledger.bounties@[i].bounty.vault_bump) by {
            if i < n {
                assert(old(ledger).bounties@[i] == ledger.bounties@[i]);
            }
        }
    }
    Ok(key)
}

/// Why `submit` refuses, if it does: the bounty does not exist, the solver
/// already has a submission to it, or the deadline has passed.
pub open spec fn submit_error(l: Ledger, ctx: Submit, now: i64) -> Option<ErrorCode> {
    if !l.has_bounty(ctx.bounty@) {
        Some(ErrorCode::AccountNotFound)
    } else if l.has_submission(submission_address(ctx.bounty@, ctx.solver@)) {
        Some(ErrorCode::AccountInUse)
    } else if now > l.bounty_at(ctx.bounty@).deadline_ts {
        Some(ErrorCode::Expired)
    } else {
        None
    }
}

/// `after` is `before` with one more submission, `s`, at `key`.
pub open spec fn submitted(before: Ledger, after: Ledger, key: [u8; 32], s: Submission) -> bool {
    &&& after.bounties == before.bounties
    &&& after.submissions@ == before.submissions@.push(SubmissionRecord { key, submission: s })
}

/// Records `solver`'s predictions for a bounty that has not expired, at the
/// address derived from the pair: a second entry by the same solver for the
/// same bounty finds that address taken.
pub fn submit(ledger: &mut Ledger, ctx: &Submit, preds_hash: [u8; 32], uri: String, now: i64) -> (r: Result<[u8; 32], ErrorCode>)
    requires
        old(ledger).wf(),
    ensures
        final(ledger).wf(),
        r is Err <==> submit_error(*old(ledger), *ctx, now) is Some,
        r matches Err(e) ==> submit_error(*old(ledger), *ctx, now) == Some(e),
        r is Err ==> *final(ledger) == *old(ledger),
        r matches Ok(key) ==> {
            &&& key@ == submission_address(ctx.bounty@, ctx.solver@)
            &&& submitted(*old(ledger), *final(ledger), key,
                Submission { bounty: ctx.bounty, solver: ctx.solver, preds_hash, uri, created_ts: now })
        },
{
    let bi = ledger.find_bounty(&ctx.bounty);
    let bi = match bi {
        Some(i) => i,
        None => {
            return Err(ErrorCode::AccountNotFound);
        },
    };
    let key = derive_submission_address(&ctx.bounty, &ctx.solver);
    if ledger.find_submission(&key).is_some() {
        return Err(ErrorCode::AccountInUse);
    }
    if ledger.bounties[bi].bounty.is_expired(now) {
        return Err(ErrorCode::Expired);
    }
    let submission = Submission { bounty: ctx.bounty, solver: ctx.solver, preds_hash, uri, created_ts: now };
    ledger.submissions.push(SubmissionRecord { key, submission });
    proof {
        let n = ledger.submissions@.len() - 1;
        assert forall|i: int, j: int|
            0 <= i < ledger.submissions@.len() && 0 <= j < ledger.submissions@.len() && i != j
                implies (#[trigger] ledger.submissions@[i]).key@ != (#[trigger] ledger.submissions@[j]).key@ by {
            if i == n {
                assert(old(ledger).submissions@[j] == ledger.submissions@[j]);
            } else if j == n {
                assert(old(ledger).submissions@[i] == ledger.submissions@[i]);
            } else {
                assert(old(ledger).submissions@[i] == ledger.submissions@[i]);
                assert(old(ledger).submissions@[j] == ledger.submissions@[j]);
            }
        }
    }
    Ok(key)
}

/// The decoded payload `b` names the live bounty and submission of `ctx` and
/// agrees with their records in every identifying field.
pub open spec fn payload_matches(b: Seq<u8>, l: Ledger, ctx: FinalizeWithAttestation) -> bool {
    let bounty = l.bounty_at(ctx.bounty@);
    let sub = l.submission_at(ctx.submission@);
    &&& bounty_field(b) == ctx.bounty@
    &&& submission_field(b) == ctx.submission@
    &&& sub.bounty@ == ctx.bounty@
    &&& solver_field(b) == sub.solver@
    &&& ctx.solver@ == sub.solver@
    &&& preds_hash_field(b) == sub.preds_hash@
    &&& testset_field(b) == bounty.testset_commitment@
    &&& eval_spec_field(b) == bounty.eval_spec_hash@
    &&& n_field(b) == bounty.n as nat
    &&& scale_field(b) == bounty.scale as nat
    &&& threshold_field(b) == bounty.threshold_t2 as nat
}

/// Why `finalize_with_attestation` refuses, if it does, in the order the
/// checks are made.
pub open spec fn finalize_error(l: Ledger, ctx: FinalizeWithAttestation, payload: Seq<u8>, attestation_verified: bool, now: i64) -> Option<ErrorCode> {
    let bounty = l.bounty_at(ctx.bounty@);
    if !l.has_bounty(ctx.bounty@) || !l.has_submission(ctx.submission@) {
        Some(ErrorCode::AccountNotFound)
    } else if ctx.vault@ != vault_address(ctx.bounty@, bounty.vault_bump) {
        Some(ErrorCode::VaultMismatch)
    } else if bounty.is_paid {
        Some(ErrorCode::AlreadyPaid)
    } else if now > bounty.deadline_ts {
        Some(ErrorCode::Expired)
    } else if !decodes(payload) || !payload_matches(payload, l, ctx) {
        Some(ErrorCode::BadPayload)
    } else if !pass_field(payload) {
        Some(ErrorCode::DidNotPass)
    } else if !attestation_verified {
        Some(ErrorCode::BadAttestation)
    } else if ctx.vault_lamports < bounty.amount_lamports
        || ctx.solver_lamports + bounty.amount_lamports > u64::MAX {
        Some(ErrorCode::InsufficientFunds)
    } else {
        None
    }
}

/// `after` is `before` with the bounty at `key` marked paid.
pub open spec fn finalized(before: Ledger, after: Ledger, key: Seq<u8>) -> bool {
    let i = before.bounty_index(key);
    &&& after.submissions == before.submissions
    &&& after.bounties@ == before.bounties@.update(i,
        BountyRecord { key: before.bounties@[i].key, bounty: paid(before.bounties@[i].bounty) })
}

/// Pays a bounty to the solver of a passing, attested submission: the vault
/// moves the full locked amount to the solver under the authority re-derived
/// from the bounty's address and stored disambiguation byte, and the bounty is
/// marked paid. `attestation_verified` is the attestation verifier's verdict
/// on the proof of `attested_payload`; without it nothing is paid.
pub fn finalize_with_attestation(
    ledger: &mut Ledger,
    ctx: &mut FinalizeWithAttestation,
    attested_payload: &Vec<u8>,
    attestation_verified: bool,
    now: i64,
) -> (r: Result<(), ErrorCode>)
    requires
        old(ledger).wf(),
    ensures
        final(ledger).wf(),
        r is Err <==> finalize_error(*old(ledger), *old(ctx), attested_payload@, attestation_verified, now) is Some,
        r matches Err(e) ==> finalize_error(*old(ledger), *old(ctx), attested_payload@, attestation_verified, now) == Some(e),
        r is Err ==> *final(ledger) == *old(ledger) && *final(ctx) == *old(ctx),
        r is Ok ==> {
            let amount = old(ledger).bounty_at(old(ctx).bounty@).amount_lamports;
            &&& finalized(*old(ledger), *final(ledger), old(ctx).bounty@)
            &&& final(ctx).vault_lamports == old(ctx).vault_lamports - amount
            &&& final(ctx).solver_lamports == old(ctx).solver_lamports + amount
            &&& final(ctx).bounty == old(ctx).bounty
            &&& final(ctx).vault == old(ctx).vault
            &&& final(ctx).submission == old(ctx).submission
            &&& final(ctx).solver == old(ctx).solver
        },
{
    let bi = match ledger.find_bounty(&ctx.bounty) {
        Some(i) => i,
        None => {
            return Err(ErrorCode::AccountNotFound);
        },
    };
    let si = match ledger.find_submission(&ctx.submission) {
        Some(i) => i,
        None => {
            return Err(ErrorCode::AccountNotFound);
        },
    };
    let record = ledger.bounties[bi];
    let bounty = record.bounty;
    let authority = derive_vault_address(&ctx.bounty, bounty.vault_bump);
    if !same_bytes(&authority, &ctx.vault) {
        return Err(ErrorCode::VaultMismatch);
    }
    if bounty.is_paid {
        return Err(ErrorCode::AlreadyPaid);
    }
    if bounty.is_expired(now) {
        return Err(ErrorCode::Expired);
    }
    let p = match AttestedResult::try_from_slice(attested_payload) {
        Some(p) => p,
        None => {
            return Err(ErrorCode::BadPayload);
        },
    };
    let sub = &ledger.submissions[si].submission;
    let matches = same_bytes(&p.bounty, &ctx.bounty)
        && same_bytes(&p.submission, &ctx.submission)
        && same_bytes(&sub.bounty, &ctx.bounty)
        && same_bytes(&p.solver, &sub.solver)
        && same_bytes(&ctx.solver, &sub.solver)
        && same_bytes(&p.preds_hash, &sub.preds_hash)
        && same_bytes(&p.testset_commitment, &bounty.testset_commitment)
        && same_bytes(&p.eval_spec_hash, &bounty.eval_spec_hash)
        && p.n == bounty.n
        && p.scale == bounty.scale
        && p.threshold_t2 == bounty.threshold_t2;
    if !matches {
        return Err(ErrorCode::BadPayload);
    }
    if !p.pass {
        return Err(ErrorCode::DidNotPass);
    }
    if !attestation_verified {
        return Err(ErrorCode::BadAttestation);
    }
    if ctx.vault_lamports < bounty.amount_lamports || ctx.solver_lamports > u64::MAX - bounty.amount_lamports {
        return Err(ErrorCode::InsufficientFunds);
    }
    ctx.vault_lamports = ctx.vault_lamports - bounty.amount_lamports;
    ctx.solver_lamports = ctx.solver_lamports + bounty.amount_lamports;
    let mut settled = bounty;
    settled.is_paid = true;
    ledger.bounties.set(bi, BountyRecord { key: record.key, bounty: settled });
    proof {
        assert(settled == paid(bounty));
        assert forall|i: int, j: int|
            0 <= i < ledger.bounties@.len() && 0 <= j < ledger.bounties@.len() && i != j
                implies (#[trigger] ledger.bounties@[i]).key@ != (#[trigger] ledger.bounties@[j]).key@ by {
            assert(ledger.bounties@[i].key == old(ledger).bounties@[i].key);
            assert(ledger.bounties@[j].key == old(ledger).bounties@[j].key);
        }
        assert forall|i: int| 0 <= i < ledger.bounties@.len() implies (#[trigger] ledger.bounties@[i]).bounty.vault@
                == vault_address(ledger.bounties@[i].key@, ledger.bounties@[i].bounty.vault_bump) by {
            assert(old(ledger).bounties@[i].key == ledger.bounties@[i].key);
        }
    }
    Ok(())
}

/// After a solver's submission to a bounty is recorded, a second submission
/// by the same solver to the same bounty is refused because its address is
/// taken, whenever it is attempted.
pub proof fn lemma_resubmission_rejected(
    before: Ledger,
    after: Ledger,
    ctx: Submit,
    key: [u8; 32],
    s: Submission,
    now: i64,
    later: i64,
)
    requires
        submit_error(before, ctx, now) is None,
        key@ == submission_address(ctx.bounty@, ctx.solver@),
        submitted(before, after, key, s),
    ensures
        submit_error(after, ctx, later) == Some(ErrorCode::AccountInUse),
{
    let i = after.submissions@.len() - 1;
    assert(after.submissions@[i].key@ == submission_address(ctx.bounty@, ctx.solver@));
    assert(after.has_bounty(ctx.bounty@) == before.has_bounty(ctx.bounty@));
}

/// Once a finalize has paid a bounty, every later finalize against it is
/// refused as already paid: a bounty pays out at most once.
pub proof fn lemma_no_second_payout(
    before: Ledger,
    after: Ledger,
    ctx: FinalizeWithAttestation,
    payload: Seq<u8>,
    attestation_verified: bool,
    now: i64,
    retry: FinalizeWithAttestation,
    retry_payload: Seq<u8>,
    retry_verified: bool,
    later: i64,
)
    requires
        before.wf(),
        finalize_error(before, ctx, payload, attestation_verified, now) is None,
        finalized(before, after, ctx.bounty@),
        retry.bounty == ctx.bounty,
        retry.vault == ctx.vault,
        retry.submission == ctx.submission,
    ensures
        finalize_error(after, retry, retry_payload, retry_verified, later) == Some(ErrorCode::AlreadyPaid),
{
    let k = ctx.bounty@;
    let i = before.bounty_index(k);
    assert(0 <= i < before.bounties@.len() && before.bounties@[i].key@ == k);
    assert(after.bounties@[i].key@ == k);
    assert(after.has_bounty(k));
    let c = after.bounty_index(k);
    assert(0 <= c < after.bounties@.len() && after.bounties@[c].key@ == k);
    if c != i {
        assert(before.bounties@[c].key == after.bounties@[c].key);
    }
    assert(c == i);
    let sk = ctx.submission@;
    let j = before.submission_index(sk);
    assert(0 <= j < before.submissions@.len() && before.submissions@[j].key@ == sk);
    assert(after.submissions@[j].key@ == sk);
    assert(after.bounty_at(k) == paid(before.bounty_at(k)));
}

/// A bounty that has been paid stays paid when a finalize pays any bounty.
pub proof fn lemma_paid_is_permanent(before: Ledger, after: Ledger, finalized_key: Seq<u8>, k: Seq<u8>)
    requires
        before.wf(),
        before.has_bounty(finalized_key),
        finalized(before, after, finalized_key),
        before.has_bounty(k),
        before.bounty_at(k).is_paid,
    ensures
        after.has_bounty(k),
        after.bounty_at(k).is_paid,
{
    let i = before.bounty_index(k);
    let f = before.bounty_index(finalized_key);
    assert(0 <= i < before.bounties@.len() && before.bounties@[i].key@ == k);
    assert(0 <= f < before.bounties@.len() && before.bounties@[f].key@ == finalized_key);
    assert(after.bounties@[i].key@ == k);
    assert(after.has_bounty(k));
    let c = after.bounty_index(k);
    assert(0 <= c < after.bounties@.len() && after.bounties@[c].key@ == k);
    assert(before.bounties@[c].key == after.bounties@[c].key);
    assert(c == i);
}

} // verus!
