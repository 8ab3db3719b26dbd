use vstd::prelude::*;
use crate::digest::same_bytes;
use crate::merkle::{compute_merkle_root, merkle_root};
use crate::shuffle::{lemma_shuffle_is_permutation, shuffle_indices, shuffle_order};

verus! {

/// The size of the train partition of `n` rows: `floor(0.8 * n)`.
pub open spec fn train_size(n: nat) -> nat {
    (n * 8 / 10) as nat
}

/// The rows of `rows` taken in the order given by `order`.
pub open spec fn rows_in_order(rows: Seq<[u8; 32]>, order: Seq<u32>) -> Seq<[u8; 32]> {
    order.map_values(|k: u32| rows[k as int])
}

/// The shuffled rows of the dataset under `seed`.
pub open spec fn shuffled_rows(rows: Seq<[u8; 32]>, seed: Seq<u8>) -> Seq<[u8; 32]> {
    rows_in_order(rows, shuffle_order(seed, rows.len()))
}

/// The train partition: the first `train_size` shuffled rows.
pub open spec fn train_rows(rows: Seq<[u8; 32]>, seed: Seq<u8>) -> Seq<[u8; 32]> {
    shuffled_rows(rows, seed).take(train_size(rows.len()) as int)
}

/// The test partition: the shuffled rows after the train partition.
pub open spec fn test_rows(rows: Seq<[u8; 32]>, seed: Seq<u8>) -> Seq<[u8; 32]> {
    shuffled_rows(rows, seed).skip(train_size(rows.len()) as int)
}

/// The original indices of the train rows, in shuffled order.
pub open spec fn train_order(n: nat, seed: Seq<u8>) -> Seq<u32> {
    shuffle_order(seed, n).take(train_size(n) as int)
}

/// What the kernel publishes about a split.
pub struct SplitCommitment {
    pub train_root: [u8; 32],
    pub test_root: [u8; 32],
    pub train_indices: Vec<u32>,
}

/// Why the kernel produced no output.
#[derive(Debug, PartialEq, Eq, Structural)]
pub enum KernelError {
    /// The rows do not have the expected Merkle root.
    RootMismatch,
}

/// The size of the train partition of `n` rows: `floor(0.8 * n)`.
pub fn train_len(n: usize) -> (r: usize)
    ensures
        r == train_size(n as nat),
{
    let q = n / 10;
    let m = n % 10;
    assert(n * 8 / 10 == q * 8 + m * 8 / 10) by (nonlinear_arith)
        requires
            q == n / 10,
            m == n % 10,
    ;
    q * 8 + m * 8 / 10
}

/// Copies the rows named by `order[from..to]`, in that order.
fn gather_rows(rows: &Vec<[u8; 32]>, order: &Vec<u32>, from: usize, to: usize) -> (r: Vec<[u8; 32]>)
    requires
        from <= to <= order@.len(),
        forall|k: int| 0 <= k < order@.len() ==> (#[trigger] order@[k] as int) < rows@.len(),
    ensures
        r@ == rows_in_order(rows@, order@.subrange(from as int, to as int)),
{
    let mut out: Vec<[u8; 32]> = Vec::new();
    let mut k: usize = from;
    while k < to
        invariant
            from <= k <= to,
            to <= order@.len(),
            forall|t: int| 0 <= t < order@.len() ==> (#[trigger] order@[t] as int) < rows@.len(),
            out@ == rows_in_order(rows@, order@.subrange(from as int, k as int)),
        decreases to - k,
    {
        let idx = order[k];
        out.push(rows[idx as usize]);
        k = k + 1;
        assert(out@ =~= rows_in_order(rows@, order@.subrange(from as int, k as int)));
    }
    out
}

/// The train and test partitions together hold every row: the train
/// partition has `floor(0.8 * n)` rows and the test partition the rest.
pub proof fn lemma_partition_sizes(rows: Seq<[u8; 32]>, seed: Seq<u8>)
    requires
        rows.len() <= u32::MAX,
    ensures
        train_rows(rows, seed).len() == train_size(rows.len()),
        train_rows(rows, seed).len() + test_rows(rows, seed).len() == rows.len(),
        train_rows(rows, seed) + test_rows(rows, seed) == shuffled_rows(rows, seed),
{
    lemma_shuffle_is_permutation(seed, rows.len());
    let n = rows.len();
    assert(train_size(n) <= n) by (nonlinear_arith)
        requires
            train_size(n) == n * 8 / 10,
    ;
    assert(train_rows(rows, seed) + test_rows(rows, seed) =~= shuffled_rows(rows, seed));
}

/// The rows that the published train indices name are exactly the train
/// partition, and the remaining shuffled indices name the test partition, so
/// recomputing their Merkle roots reproduces the committed roots.
pub proof fn lemma_indices_select_partitions(rows: Seq<[u8; 32]>, seed: Seq<u8>)
    requires
        rows.len() <= u32::MAX,
    ensures
        rows_in_order(rows, train_order(rows.len(), seed)) == train_rows(rows, seed),
        rows_in_order(rows, shuffle_order(seed, rows.len()).skip(train_size(rows.len()) as int)) == test_rows(rows, seed),
        merkle_root(rows_in_order(rows, train_order(rows.len(), seed))) == merkle_root(train_rows(rows, seed)),
{
    lemma_shuffle_is_permutation(seed, rows.len());
    let n = rows.len();
    assert(train_size(n) <= n) by (nonlinear_arith)
        requires
            train_size(n) == n * 8 / 10,
    ;
    assert(rows_in_order(rows, train_order(n, seed)) =~= train_rows(rows, seed));
    assert(rows_in_order(rows, shuffle_order(seed, n).skip(train_size(n) as int)) =~= test_rows(rows, seed));
}

/// Verifies `rows` against `expected_root`, shuffles them under `seed`, splits
/// them 80/20 and commits to both partitions. A root mismatch yields no output
/// at all.
pub fn split(rows: &Vec<[u8; 32]>, seed: &[u8; 32], expected_root: &[u8; 32]) -> (r: Result<SplitCommitment, KernelError>)
    requires
        rows@.len() <= u32::MAX,
    ensures
        r is Err <==> merkle_root(rows@) != expected_root@,
        r matches Ok(c) ==> {
            &&& c.train_indices@ == train_order(rows@.len(), seed@)
            &&& c.train_root@ == merkle_root(train_rows(rows@, seed@))
            &&& c.test_root@ == merkle_root(test_rows(rows@, seed@))
        },
{
    let actual = compute_merkle_root(rows);
    if !same_bytes(&actual, expected_root) {
        return Err(KernelError::RootMismatch);
    }
    let n = rows.len();
    let order = shuffle_indices(seed, n);
    let cut = train_len(n);
    assert(cut <= n) by (nonlinear_arith)
        requires
            cut == n * 8 / 10,
    ;
    let train = gather_rows(rows, &order, 0, cut);
    let test = gather_rows(rows, &order, cut, n);
    let mut train_indices: Vec<u32> = Vec::new();
    let mut k: usize = 0;
    while k < cut
        invariant
            k <= cut <= order@.len(),
            train_indices@ == order@.subrange(0, k as int),
        decreases cut - k,
    {
        train_indices.push(order[k]);
        k = k + 1;
        assert(train_indices@ =~= order@.subrange(0, k as int));
    }
    proof {
        let sr = shuffled_rows(rows@, seed@);
        assert(rows_in_order(rows@, order@.subrange(0, cut as int)) =~= sr.take(cut as int));
        assert(rows_in_order(rows@, order@.subrange(cut as int, n as int)) =~= sr.skip(cut as int));
        assert(train_indices@ =~= train_order(n as nat, seed@));
    }
    let train_root = compute_merkle_root(&train);
    let test_root = compute_merkle_root(&test);
    Ok(SplitCommitment { train_root, test_root, train_indices })
}

} // verus!
