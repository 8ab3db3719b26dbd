use vstd::prelude::*;
use crate::digest::{append_bytes, sha256, sha256_of};

verus! {

/// The parent node of two sibling nodes: the digest of their concatenation.
pub open spec fn parent_of(left: Seq<u8>, right: Seq<u8>) -> Seq<u8> {
    sha256_of(left + right)
}

/// The right partner of node `2 * i`: the next node, or the node itself when
/// it is the last one of an odd-length level.
pub open spec fn partner_of(level: Seq<Seq<u8>>, i: int) -> Seq<u8> {
    if 2 * i + 1 < level.len() {
        level[2 * i + 1]
    } else {
        level[2 * i]
    }
}

/// The level above `level`: adjacent nodes paired and hashed.
pub open spec fn next_level(level: Seq<Seq<u8>>) -> Seq<Seq<u8>> {
    Seq::new(((level.len() + 1) / 2) as nat, |i: int| parent_of(level[2 * i], partner_of(level, i)))
}

/// The all-zero 32-byte value, the root of no leaves.
pub open spec fn zero_root() -> Seq<u8> {
    Seq::new(32, |i: int| 0u8)
}

/// The root of the tree whose bottom level is `level`.
pub open spec fn root_of_level(level: Seq<Seq<u8>>) -> Seq<u8>
    decreases level.len(),
{
    if level.len() == 0 {
        zero_root()
    } else if level.len() == 1 {
        level[0]
    } else {
        root_of_level(next_level(level))
    }
}

/// The byte strings of a sequence of 32-byte hashes.
pub open spec fn leaf_views(leaves: Seq<[u8; 32]>) -> Seq<Seq<u8>> {
    leaves.map_values(|h: [u8; 32]| h@)
}

/// The Merkle root of an ordered sequence of 32-byte leaves.
pub open spec fn merkle_root(leaves: Seq<[u8; 32]>) -> Seq<u8> {
    root_of_level(leaf_views(leaves))
}

/// The root of no leaves is the all-zero 32-byte value.
pub proof fn lemma_empty_root()
    ensures
        merkle_root(Seq::empty()) == zero_root(),
        zero_root().len() == 32,
        forall|k: int| 0 <= k < 32 ==> zero_root()[k] == 0,
{
    assert(leaf_views(Seq::empty()).len() == 0);
}

/// On a level of odd length the last node is paired with itself; on one of
/// even length every node is paired with its right neighbour.
pub proof fn lemma_odd_level_duplicates_last(level: Seq<Seq<u8>>)
    requires
        level.len() > 0,
    ensures
        level.len() % 2 == 1 ==> next_level(level).last() == parent_of(level.last(), level.last()),
        level.len() % 2 == 0 ==> forall|i: int| 0 <= i < level.len() / 2
            ==> #[trigger] next_level(level)[i] == parent_of(level[2 * i], level[2 * i + 1]),
{
}

/// Hashes two sibling nodes into their parent.
pub fn hash_pair(left: &[u8; 32], right: &[u8; 32]) -> (r: [u8; 32])
    ensures
        r@ == parent_of(left@, right@),
{
    let mut buf: Vec<u8> = Vec::new();
    append_bytes(&mut buf, left);
    append_bytes(&mut buf, right);
    assert(buf@ =~= left@ + right@);
    sha256(&buf)
}

/// Hashes one level of the tree into the level above it.
fn hash_level(level: &Vec<[u8; 32]>) -> (r: Vec<[u8; 32]>)
    ensures
        r@.len() == (level@.len() + 1) / 2,
        leaf_views(r@) == next_level(leaf_views(level@)),
{
    let ghost lv = leaf_views(level@);
    let mut next: Vec<[u8; 32]> = Vec::new();
    let mut i: usize = 0;
    while i < level.len()
        invariant
            lv == leaf_views(level@),
            i <= level@.len(),
            i == 2 * next@.len() || i == level@.len(),
            i == level@.len() ==> next@.len() == (level@.len() + 1) / 2,
            forall|k: int| 0 <= k < next@.len() ==> #[trigger] next@[k]@ == parent_of(lv[2 * k], partner_of(lv, k)),
        decreases level@.len() - i,
    {
        let left = level[i];
        let k = next.len();
        if i + 1 < level.len() {
            let right = level[i + 1];
            let h = hash_pair(&left, &right);
            next.push(h);
            i = i + 2;
        } else {
            let h = hash_pair(&left, &left);
            next.push(h);
            i = i + 1;
        }
        assert(next@[k as int]@ == parent_of(lv[2 * k], partner_of(lv, k as int)));
    }
    assert(leaf_views(next@) =~= next_level(lv));
    next
}

/// Computes the Merkle root of `leaves`. Odd-length levels pair their last node
/// with itself; no leaves give the all-zero value.
pub fn compute_merkle_root(leaves: &Vec<[u8; 32]>) -> (r: [u8; 32])
    ensures
        r@ == merkle_root(leaves@),
{
    if leaves.len() == 0 {
        let z = [0u8; 32];
        assert(z@ =~= zero_root());
        return z;
    }
    let ghost lv0 = leaf_views(leaves@);
    if leaves.len() == 1 {
        let only = leaves[0];
        assert(lv0.len() == 1);
        return only;
    }
    let mut level = hash_level(leaves);
    assert(root_of_level(lv0) == root_of_level(next_level(lv0)));
    while level.len() > 1
        invariant
            level@.len() >= 1,
            root_of_level(leaf_views(level@)) == merkle_root(leaves@),
        decreases level@.len(),
    {
        let ghost lv = leaf_views(level@);
        level = hash_level(&level);
        assert(root_of_level(lv) == root_of_level(next_level(lv)));
    }
    let root = level[0];
    root
}

} // verus!
