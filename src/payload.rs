use vstd::prelude::*;

verus! {

/// Length in bytes of an encoded attested result.
pub const ATTESTED_RESULT_LEN: usize = 217;

/// The unsigned value of little-endian bytes.
pub open spec fn le_value(s: Seq<u8>) -> nat
    decreases s.len(),
{
    if s.len() == 0 {
        0
    } else {
        s[0] as nat + 256 * le_value(s.drop_first())
    }
}

/// `256` to the power `n`.
pub open spec fn pow256(n: nat) -> nat
    decreases n,
{
    if n == 0 {
        1
    } else {
        256 * pow256((n - 1) as nat)
    }
}

/// The bytes of `b` from `start`, `len` of them.
pub open spec fn field(b: Seq<u8>, start: int, len: int) -> Seq<u8> {
    b.subrange(start, start + len)
}

/// Field offsets of the encoding: three 32-byte identities, the predictions
/// hash, one byte for `pass`, two 32-byte hashes, two little-endian `u32`s and
/// a little-endian `u128`.
pub open spec fn bounty_field(b: Seq<u8>) -> Seq<u8> { field(b, 0, 32) }
pub open spec fn submission_field(b: Seq<u8>) -> Seq<u8> { field(b, 32, 32) }
pub open spec fn solver_field(b: Seq<u8>) -> Seq<u8> { field(b, 64, 32) }
pub open spec fn preds_hash_field(b: Seq<u8>) -> Seq<u8> { field(b, 96, 32) }
pub open spec fn pass_field(b: Seq<u8>) -> bool { b[128] == 1 }
pub open spec fn testset_field(b: Seq<u8>) -> Seq<u8> { field(b, 129, 32) }
pub open spec fn eval_spec_field(b: Seq<u8>) -> Seq<u8> { field(b, 161, 32) }
pub open spec fn n_field(b: Seq<u8>) -> nat { le_value(field(b, 193, 4)) }
pub open spec fn scale_field(b: Seq<u8>) -> nat { le_value(field(b, 197, 4)) }
pub open spec fn threshold_field(b: Seq<u8>) -> nat { le_value(field(b, 201, 16)) }

/// `b` is an encoded attested result: exactly the encoding's length, with a
/// `pass` byte of 0 or 1.
pub open spec fn decodes(b: Seq<u8>) -> bool {
    b.len() == ATTESTED_RESULT_LEN && (b[128] == 0 || b[128] == 1)
}

/// A proved claim about one submission's evaluation.
#[derive(Clone, Copy)]
pub struct AttestedResult {
    pub bounty: [u8; 32],
    pub submission: [u8; 32],
    pub solver: [u8; 32],
    pub preds_hash: [u8; 32],
    pub pass: bool,
    pub testset_commitment: [u8; 32],
    pub eval_spec_hash: [u8; 32],
    pub n: u32,
    pub scale: u32,
    pub threshold_t2: u128,
}

/// `r` holds the fields encoded in `b`.
pub open spec fn describes(r: AttestedResult, b: Seq<u8>) -> bool {
    &&& r.bounty@ == bounty_field(b)
    &&& r.submission@ == submission_field(b)
    &&& r.solver@ == solver_field(b)
    &&& r.preds_hash@ == preds_hash_field(b)
    &&& r.pass == pass_field(b)
    &&& r.testset_commitment@ == testset_field(b)
    &&& r.eval_spec_hash@ == eval_spec_field(b)
    &&& r.n as nat == n_field(b)
    &&& r.scale as nat == scale_field(b)
    &&& r.threshold_t2 as nat == threshold_field(b)
}

proof fn lemma_le_value_step(s: Seq<u8>, k: int, end: int)
    requires
        0 <= k < end <= s.len(),
    ensures
        le_value(s.subrange(k, end)) == s[k] as nat + 256 * le_value(s.subrange(k + 1, end)),
{
    assert(s.subrange(k, end).drop_first() =~= s.subrange(k + 1, end));
}

/// Reads `len` little-endian bytes of `b` from `start`.
fn read_le(b: &Vec<u8>, start: usize, len: usize) -> (r: u128)
    requires
        len <= 16,
        start + len <= b@.len(),
    ensures
        r as nat == le_value(field(b@, start as int, len as int)),
        (r as nat) < pow256(len as nat),
{
    let total = b.len();
    assert(start + len <= total);
    let end = start + len;
    let mut k: usize = end;
    let mut acc: u128 = 0;
    assert(b@.subrange(end as int, end as int) =~= Seq::<u8>::empty());
    while k > start
        invariant
            start <= k <= end,
            end == start + len,
            len <= 16,
            end <= b@.len(),
            acc as nat == le_value(b@.subrange(k as int, end as int)),
            (acc as nat) < pow256((end - k) as nat),
        decreases k - start,
    {
        k = k - 1;
        proof {
            lemma_le_value_step(b@, k as int, end as int);
            lemma_pow256_monotone((end - k) as nat, 16);
            reveal_with_fuel(pow256, 17);
            assert(pow256((end - k) as nat) == 256 * pow256((end - k - 1) as nat));
            assert(acc * 256 + b@[k as int] < pow256((end - k) as nat)) by (nonlinear_arith)
                requires
                    (acc as nat) < pow256((end - k - 1) as nat),
                    pow256((end - k) as nat) == 256 * pow256((end - k - 1) as nat),
                    b@[k as int] < 256,
            ;
            assert(pow256(16) == 0x1_0000_0000_0000_0000_0000_0000_0000_0000);
        }
        acc = acc * 256 + b[k] as u128;
    }
    acc
}

proof fn lemma_pow256_monotone(a: nat, b: nat)
    requires
        a <= b,
    ensures
        pow256(a) <= pow256(b),
    decreases b,
{
    if a < b {
        lemma_pow256_monotone(a, (b - 1) as nat);
    }
}

/// Copies 32 bytes of `b` from `start`.
fn read_hash(b: &Vec<u8>, start: usize) -> (r: [u8; 32])
    requires
        start + 32 <= b@.len(),
    ensures
        r@ == field(b@, start as int, 32),
{
    let total = b.len();
    assert(start + 32 <= total);
    let mut out = [0u8; 32];
    let mut k: usize = 0;
    while k < 32
        invariant
            k <= 32,
            start + 32 <= b@.len(),
            b@.len() == total,
            out@.len() == 32,
            forall|t: int| 0 <= t < k ==> out@[t] == b@[start + t],
        decreases 32 - k,
    {
        out[k] = b[start + k];
        k = k + 1;
    }
    assert(out@ =~= field(b@, start as int, 32));
    out
}

impl AttestedResult {
    /// Decodes an attested result; `None` when `bytes` is not exactly one
    /// encoded result.
    pub fn try_from_slice(bytes: &Vec<u8>) -> (r: Option<AttestedResult>)
        ensures
            r is Some <==> decodes(bytes@),
            r matches Some(p) ==> describes(p, bytes@),
    {
        if bytes.len() != ATTESTED_RESULT_LEN {
            return None;
        }
        let flag = bytes[128];
        if flag != 0 && flag != 1 {
            return None;
        }
        proof {
            reveal_with_fuel(pow256, 5);
        }
        let n = read_le(bytes, 193, 4);
        let scale = read_le(bytes, 197, 4);
        let threshold_t2 = read_le(bytes, 201, 16);
        Some(AttestedResult {
            bounty: read_hash(bytes, 0),
            submission: read_hash(bytes, 32),
            solver: read_hash(bytes, 64),
            preds_hash: read_hash(bytes, 96),
            pass: flag == 1,
            testset_commitment: read_hash(bytes, 129),
            eval_spec_hash: read_hash(bytes, 161),
            n: n as u32,
            scale: scale as u32,
            threshold_t2,
        })
    }
}

} // verus!
