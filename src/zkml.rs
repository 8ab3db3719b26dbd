use vstd::prelude::*;

verus! {

/// Whether a bounty's dataset split has been proved.
#[derive(Clone, Copy)]
pub struct BountyState {
    pub is_verified: bool,
}

/// Why a split proof was refused.
#[derive(Clone, Copy, Debug, PartialEq, Eq, Structural)]
pub enum ZkmlError {
    /// The provided proof is invalid.
    InvalidProof,
}

/// The accounts that `verify_split` touches.
#[derive(Clone, Copy)]
pub struct VerifySplit {
    pub bounty_state: BountyState,
}

/// Records a verified split. `proof_verified` is the proof verifier's verdict
/// on the split proof and its public inputs; a refused proof leaves the state
/// as it was.
pub fn verify_split(ctx: &mut VerifySplit, proof_verified: bool) -> (r: Result<(), ZkmlError>)
    ensures
        r is Ok <==> proof_verified,
        r matches Err(e) ==> e == ZkmlError::InvalidProof,
        r is Ok ==> final(ctx).bounty_state.is_verified,
        r is Err ==> *final(ctx) == *old(ctx),
{
    if !proof_verified {
        return Err(ZkmlError::InvalidProof);
    }
    ctx.bounty_state.is_verified = true;
    Ok(())
}

} // verus!
