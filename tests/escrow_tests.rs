use provability::escrow::{
    create_bounty, derive_bounty_address, derive_submission_address, derive_vault_address,
    finalize_with_attestation, submit, CreateBounty, CreateBountyParams, ErrorCode,
    FinalizeWithAttestation, Ledger, Submit,
};
use provability::payload::{AttestedResult, ATTESTED_RESULT_LEN};
use provability::zkml::{verify_split, BountyState, VerifySplit, ZkmlError};
use sha2::{Digest, Sha256};

const NOW: i64 = 1_700_000_000;
const CREATOR: [u8; 32] = [11u8; 32];
const SOLVER: [u8; 32] = [22u8; 32];
const BUMP: u8 = 254;

fn params(amount: u64, deadline: i64) -> CreateBountyParams {
    CreateBountyParams {
        seed: [4u8; 16],
        amount_lamports: amount,
        deadline_ts: deadline,
        n: 10000,
        scale: 1000,
        threshold_t2: 250_000,
        eval_spec_hash: [5u8; 32],
        testset_commitment: [6u8; 32],
        allowed_measurement: [7u8; 32],
        allowed_attester: [8u8; 32],
    }
}

fn creator_ctx(lamports: u64) -> CreateBounty {
    CreateBounty { creator: CREATOR, creator_lamports: lamports, vault_lamports: 0, vault_bump: BUMP }
}

struct Claim {
    bounty: [u8; 32],
    submission: [u8; 32],
    solver: [u8; 32],
    preds_hash: [u8; 32],
    pass: u8,
    testset: [u8; 32],
    eval_spec: [u8; 32],
    n: u32,
    scale: u32,
    threshold: u128,
}

fn encode(c: &Claim) -> Vec<u8> {
    let mut out = Vec::new();
    out.extend_from_slice(&c.bounty);
    out.extend_from_slice(&c.submission);
    out.extend_from_slice(&c.solver);
    out.extend_from_slice(&c.preds_hash);
    out.push(c.pass);
    out.extend_from_slice(&c.testset);
    out.extend_from_slice(&c.eval_spec);
    out.extend_from_slice(&c.n.to_le_bytes());
    out.extend_from_slice(&c.scale.to_le_bytes());
    out.extend_from_slice(&c.threshold.to_le_bytes());
    out
}

fn claim(bounty: [u8; 32], submission: [u8; 32], pass: u8) -> Claim {
    Claim {
        bounty,
        submission,
        solver: SOLVER,
        preds_hash: [9u8; 32],
        pass,
        testset: [6u8; 32],
        eval_spec: [5u8; 32],
        n: 10000,
        scale: 1000,
        threshold: 250_000,
    }
}

/// A ledger with one bounty of 1000 lamports due in an hour and one
/// submission by `SOLVER`.
fn setup() -> (Ledger, [u8; 32], [u8; 32], CreateBounty) {
    let mut ledger = Ledger::new();
    let mut ctx = creator_ctx(5000);
    let bounty = create_bounty(&mut ledger, &mut ctx, &params(1000, NOW + 3600), NOW).unwrap();
    let sub = submit(&mut ledger, &Submit { solver: SOLVER, bounty }, [9u8; 32], "ipfs://preds".to_string(), NOW + 10)
        .unwrap();
    (ledger, bounty, sub, ctx)
}

fn finalize_ctx(bounty: [u8; 32], sub: [u8; 32], vault_lamports: u64) -> FinalizeWithAttestation {
    FinalizeWithAttestation {
        bounty,
        vault: derive_vault_address(&bounty, BUMP),
        submission: sub,
        solver: SOLVER,
        vault_lamports,
        solver_lamports: 50,
    }
}

#[test]
fn create_with_zero_amount_fails_bad_amount() {
    let mut ledger = Ledger::new();
    let mut ctx = creator_ctx(5000);
    let r = create_bounty(&mut ledger, &mut ctx, &params(0, NOW + 3600), NOW);
    assert_eq!(r.err(), Some(ErrorCode::BadAmount));
    assert_eq!(ctx.creator_lamports, 5000);
    assert!(ledger.bounties.is_empty());
}

#[test]
fn create_with_past_deadline_fails_bad_deadline() {
    let mut ledger = Ledger::new();
    let mut ctx = creator_ctx(5000);
    assert_eq!(create_bounty(&mut ledger, &mut ctx, &params(10, NOW - 1), NOW).err(), Some(ErrorCode::BadDeadline));
    assert_eq!(create_bounty(&mut ledger, &mut ctx, &params(10, NOW), NOW).err(), Some(ErrorCode::BadDeadline));
    assert!(ledger.bounties.is_empty());
}

#[test]
fn create_moves_exactly_the_amount_into_the_vault() {
    let mut ledger = Ledger::new();
    let mut ctx = creator_ctx(5000);
    let key = create_bounty(&mut ledger, &mut ctx, &params(1000, NOW + 3600), NOW).unwrap();
    assert_eq!(ctx.creator_lamports, 4000);
    assert_eq!(ctx.vault_lamports, 1000);
    assert_eq!(key, derive_bounty_address(&CREATOR, &[4u8; 16]));
    let mut expected = b"bounty_state".to_vec();
    expected.extend_from_slice(&CREATOR);
    expected.extend_from_slice(&[4u8; 16]);
    let digest: [u8; 32] = Sha256::digest(&expected).into();
    assert_eq!(key, digest);
    assert_eq!(ledger.bounties.len(), 1);
    let b = &ledger.bounties[0].bounty;
    assert!(!b.is_paid);
    assert_eq!(b.amount_lamports, 1000);
    assert_eq!(b.vault, derive_vault_address(&key, BUMP));
    assert_eq!(b.vault_bump, BUMP);
}

#[test]
fn create_twice_at_same_address_is_refused() {
    let mut ledger = Ledger::new();
    let mut ctx = creator_ctx(5000);
    create_bounty(&mut ledger, &mut ctx, &params(1000, NOW + 3600), NOW).unwrap();
    let r = create_bounty(&mut ledger, &mut ctx, &params(1000, NOW + 3600), NOW);
    assert_eq!(r.err(), Some(ErrorCode::AccountInUse));
    assert_eq!(ctx.creator_lamports, 4000);
}

#[test]
fn create_without_funds_is_refused() {
    let mut ledger = Ledger::new();
    let mut ctx = creator_ctx(999);
    let r = create_bounty(&mut ledger, &mut ctx, &params(1000, NOW + 3600), NOW);
    assert_eq!(r.err(), Some(ErrorCode::InsufficientFunds));
}

#[test]
fn submit_after_deadline_fails_expired() {
    let mut ledger = Ledger::new();
    let mut ctx = creator_ctx(5000);
    let bounty = create_bounty(&mut ledger, &mut ctx, &params(1000, NOW + 3600), NOW).unwrap();
    let r = submit(&mut ledger, &Submit { solver: SOLVER, bounty }, [9u8; 32], String::new(), NOW + 3601);
    assert_eq!(r.err(), Some(ErrorCode::Expired));
    assert!(ledger.submissions.is_empty());
}

#[test]
fn second_submit_by_same_solver_is_rejected() {
    let (mut ledger, bounty, sub, _) = setup();
    assert_eq!(sub, derive_submission_address(&bounty, &SOLVER));
    let r = submit(&mut ledger, &Submit { solver: SOLVER, bounty }, [1u8; 32], String::new(), NOW + 20);
    assert_eq!(r.err(), Some(ErrorCode::AccountInUse));
    let other = submit(&mut ledger, &Submit { solver: [33u8; 32], bounty }, [1u8; 32], String::new(), NOW + 20);
    assert!(other.is_ok());
    assert_eq!(ledger.submissions.len(), 2);
    assert_eq!(ledger.submissions[0].submission.uri, "ipfs://preds");
    assert_eq!(ledger.submissions[0].submission.created_ts, NOW + 10);
}

#[test]
fn submit_to_unknown_bounty_is_refused() {
    let mut ledger = Ledger::new();
    let r = submit(&mut ledger, &Submit { solver: SOLVER, bounty: [1u8; 32] }, [9u8; 32], String::new(), NOW);
    assert_eq!(r.err(), Some(ErrorCode::AccountNotFound));
}

#[test]
fn finalize_with_mismatched_identifiers_fails_bad_payload() {
    let (mut ledger, bounty, sub, _) = setup();
    let mut ctx = finalize_ctx(bounty, sub, 1000);
    let wrong_bounty = encode(&claim([1u8; 32], sub, 1));
    assert_eq!(
        finalize_with_attestation(&mut ledger, &mut ctx, &wrong_bounty, true, NOW + 20).err(),
        Some(ErrorCode::BadPayload)
    );
    let wrong_sub = encode(&claim(bounty, [1u8; 32], 1));
    assert_eq!(
        finalize_with_attestation(&mut ledger, &mut ctx, &wrong_sub, true, NOW + 20).err(),
        Some(ErrorCode::BadPayload)
    );
    let mut short = encode(&claim(bounty, sub, 1));
    short.pop();
    assert_eq!(
        finalize_with_attestation(&mut ledger, &mut ctx, &short, true, NOW + 20).err(),
        Some(ErrorCode::BadPayload)
    );
    assert_eq!(ctx.vault_lamports, 1000);
    assert!(!ledger.bounties[0].bounty.is_paid);
}

#[test]
fn finalize_with_failing_result_fails_did_not_pass() {
    let (mut ledger, bounty, sub, _) = setup();
    let mut ctx = finalize_ctx(bounty, sub, 1000);
    let payload = encode(&claim(bounty, sub, 0));
    assert_eq!(
        finalize_with_attestation(&mut ledger, &mut ctx, &payload, true, NOW + 20).err(),
        Some(ErrorCode::DidNotPass)
    );
}

#[test]
fn finalize_without_verified_attestation_pays_nothing() {
    let (mut ledger, bounty, sub, _) = setup();
    let mut ctx = finalize_ctx(bounty, sub, 1000);
    let payload = encode(&claim(bounty, sub, 1));
    assert_eq!(
        finalize_with_attestation(&mut ledger, &mut ctx, &payload, false, NOW + 20).err(),
        Some(ErrorCode::BadAttestation)
    );
    assert_eq!(ctx.vault_lamports, 1000);
    assert!(!ledger.bounties[0].bounty.is_paid);
}

#[test]
fn finalize_after_deadline_fails_expired() {
    let (mut ledger, bounty, sub, _) = setup();
    let mut ctx = finalize_ctx(bounty, sub, 1000);
    let payload = encode(&claim(bounty, sub, 1));
    assert_eq!(
        finalize_with_attestation(&mut ledger, &mut ctx, &payload, true, NOW + 3601).err(),
        Some(ErrorCode::Expired)
    );
}

#[test]
fn finalize_with_wrong_vault_is_refused() {
    let (mut ledger, bounty, sub, _) = setup();
    let mut ctx = finalize_ctx(bounty, sub, 1000);
    ctx.vault = derive_vault_address(&bounty, BUMP - 1);
    let payload = encode(&claim(bounty, sub, 1));
    assert_eq!(
        finalize_with_attestation(&mut ledger, &mut ctx, &payload, true, NOW + 20).err(),
        Some(ErrorCode::VaultMismatch)
    );
}

#[test]
fn end_to_end_pays_once() {
    let (mut ledger, bounty, sub, created) = setup();
    assert_eq!(created.vault_lamports, 1000);
    let mut ctx = finalize_ctx(bounty, sub, created.vault_lamports);
    let payload = encode(&claim(bounty, sub, 1));
    assert!(finalize_with_attestation(&mut ledger, &mut ctx, &payload, true, NOW + 20).is_ok());
    assert_eq!(ctx.vault_lamports, 0);
    assert_eq!(ctx.solver_lamports, 1050);
    assert!(ledger.bounties[0].bounty.is_paid);
    let again = finalize_with_attestation(&mut ledger, &mut ctx, &payload, true, NOW + 30);
    assert_eq!(again.err(), Some(ErrorCode::AlreadyPaid));
    assert_eq!(ctx.solver_lamports, 1050);
}

#[test]
fn attested_result_decodes_fields() {
    let mut c = claim([1u8; 32], [2u8; 32], 1);
    c.n = 0x0102_0304;
    c.threshold = 0x1122_3344_5566_7788_99aa_bbcc_ddee_ff00;
    let bytes = encode(&c);
    assert_eq!(bytes.len(), ATTESTED_RESULT_LEN);
    let p = AttestedResult::try_from_slice(&bytes).unwrap();
    assert_eq!(p.bounty, [1u8; 32]);
    assert_eq!(p.submission, [2u8; 32]);
    assert_eq!(p.solver, SOLVER);
    assert!(p.pass);
    assert_eq!(p.n, 0x0102_0304);
    assert_eq!(p.scale, 1000);
    assert_eq!(p.threshold_t2, 0x1122_3344_5566_7788_99aa_bbcc_ddee_ff00);
}

#[test]
fn attested_result_rejects_bad_bool_and_length() {
    let mut bytes = encode(&claim([1u8; 32], [2u8; 32], 2));
    assert!(AttestedResult::try_from_slice(&bytes).is_none());
    bytes[128] = 0;
    assert!(!AttestedResult::try_from_slice(&bytes).unwrap().pass);
    bytes.push(0);
    assert!(AttestedResult::try_from_slice(&bytes).is_none());
    assert!(AttestedResult::try_from_slice(&Vec::new()).is_none());
}

#[test]
fn verify_split_records_only_valid_proofs() {
    let mut ctx = VerifySplit { bounty_state: BountyState { is_verified: false } };
    assert_eq!(verify_split(&mut ctx, false).err(), Some(ZkmlError::InvalidProof));
    assert!(!ctx.bounty_state.is_verified);
    assert!(verify_split(&mut ctx, true).is_ok());
    assert!(ctx.bounty_state.is_verified);
}
