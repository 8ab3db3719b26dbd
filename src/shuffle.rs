use rand::Rng;
use rand::SeedableRng;
use vstd::prelude::*;

verus! {

/// The draw `gen_range(0..=hi)` of a ChaCha8 generator keyed by `seed` and
/// positioned at word `pos`: the value drawn and the word position after it.
pub uninterp spec fn chacha8_draw(seed: Seq<u8>, pos: u128, hi: usize) -> (usize, u128);

/// Relies on `rand_chacha::ChaCha8Rng::from_seed`, `set_word_pos` and
/// `get_word_pos`, and on `rand::Rng::gen_range` over `0..=hi`: the generator's
/// state is its seed and word position, the draw lies in `0..=hi`, and nothing
/// else enters it.
#[verifier::external_body]
fn draw_at_most(seed: &[u8; 32], pos: u128, hi: usize) -> (r: (usize, u128))
    ensures
        r == chacha8_draw(seed@, pos, hi),
        r.0 <= hi,
{
    let mut rng = rand_chacha::ChaCha8Rng::from_seed(*seed);
    rng.set_word_pos(pos);
    let j = rng.gen_range(0..=hi);
    (j, rng.get_word_pos())
}

/// `s` with the entries at `i` and `j` exchanged.
pub open spec fn swapped(s: Seq<u32>, i: int, j: int) -> Seq<u32> {
    s.update(i, s[j]).update(j, s[i])
}

/// The indices `0, 1, ..., n - 1` in order.
pub open spec fn identity_order(n: nat) -> Seq<u32> {
    Seq::new(n, |k: int| k as u32)
}

/// The position that step `i` exchanges with: the generator's draw from
/// `0..=i`, which never exceeds `i`.
pub open spec fn draw_target(seed: Seq<u8>, pos: u128, i: nat) -> int {
    let d = chacha8_draw(seed, pos, i as usize);
    if d.0 <= i { d.0 as int } else { i as int }
}

/// Fisher–Yates from position `i` down to 1: position `i` is exchanged with a
/// drawn position in `0..=i`, and the generator moves on.
pub open spec fn fisher_yates(seed: Seq<u8>, order: Seq<u32>, pos: u128, i: nat) -> Seq<u32>
    decreases i,
{
    if i == 0 {
        order
    } else {
        let d = chacha8_draw(seed, pos, i as usize);
        fisher_yates(seed, swapped(order, i as int, draw_target(seed, pos, i)), d.1, (i - 1) as nat)
    }
}

/// The shuffled order of `n` indices under `seed`, from a freshly seeded
/// generator.
pub open spec fn shuffle_order(seed: Seq<u8>, n: nat) -> Seq<u32> {
    if n == 0 {
        identity_order(0)
    } else {
        fisher_yates(seed, identity_order(n), 0, (n - 1) as nat)
    }
}

/// `s` holds each of `0, ..., n - 1` exactly once.
pub open spec fn is_index_permutation(s: Seq<u32>, n: nat) -> bool {
    &&& s.len() == n
    &&& forall|k: int| 0 <= k < n ==> (#[trigger] s[k] as int) < n
    &&& forall|a: int, b: int| 0 <= a < n && 0 <= b < n && a != b ==> s[a] != s[b]
}

/// Exchanging two entries keeps a permutation a permutation.
proof fn lemma_swap_keeps_permutation(s: Seq<u32>, n: nat, i: int, j: int)
    requires
        is_index_permutation(s, n),
        0 <= i < n,
        0 <= j < n,
    ensures
        is_index_permutation(swapped(s, i, j), n),
{
    let t = swapped(s, i, j);
    assert forall|a: int, b: int| 0 <= a < n && 0 <= b < n && a != b implies t[a] != t[b] by {
        let sa = if a == j { i } else if a == i { j } else { a };
        let sb = if b == j { i } else if b == i { j } else { b };
        assert(t[a] == s[sa]);
        assert(t[b] == s[sb]);
    }
}

proof fn lemma_fisher_yates_permutes(seed: Seq<u8>, order: Seq<u32>, pos: u128, i: nat, n: nat)
    requires
        is_index_permutation(order, n),
        i < n,
    ensures
        is_index_permutation(fisher_yates(seed, order, pos, i), n),
    decreases i,
{
    if i > 0 {
        let d = chacha8_draw(seed, pos, i as usize);
        lemma_swap_keeps_permutation(order, n, i as int, draw_target(seed, pos, i));
        lemma_fisher_yates_permutes(seed, swapped(order, i as int, draw_target(seed, pos, i)), d.1, (i - 1) as nat, n);
    }
}

/// For every seed and every length that indices can count, the shuffle is a
/// bijection over `0..n`: each index appears exactly once. Being a function of
/// the seed and the length alone, it yields the same order on every run.
pub proof fn lemma_shuffle_is_permutation(seed: Seq<u8>, n: nat)
    requires
        n <= u32::MAX,
    ensures
        is_index_permutation(shuffle_order(seed, n), n),
{
    if n > 0 {
        lemma_fisher_yates_permutes(seed, identity_order(n), 0, (n - 1) as nat, n);
    }
}

/// Draws the shuffled order of `n` row indices under `seed`: a Fisher–Yates
/// shuffle of `0..n` keyed only by the seed.
pub fn shuffle_indices(seed: &[u8; 32], n: usize) -> (r: Vec<u32>)
    requires
        n <= u32::MAX,
    ensures
        r@ == shuffle_order(seed@, n as nat),
        is_index_permutation(r@, n as nat),
{
    let mut order: Vec<u32> = Vec::new();
    let mut k: usize = 0;
    while k < n
        invariant
            k <= n,
            n <= u32::MAX,
            order@ == identity_order(k as nat),
        decreases n - k,
    {
        order.push(k as u32);
        k = k + 1;
        assert(order@ =~= identity_order(k as nat));
    }
    if n == 0 {
        return order;
    }
    let ghost target = shuffle_order(seed@, n as nat);
    let mut i: usize = n - 1;
    let mut pos: u128 = 0;
    while i > 0
        invariant
            i < n,
            n <= u32::MAX,
            is_index_permutation(order@, n as nat),
            fisher_yates(seed@, order@, pos, i as nat) == target,
        decreases i,
    {
        let (j, next) = draw_at_most(seed, pos, i);
        let ghost before = order@;
        let a = order[i];
        let b = order[j];
        order.set(i, b);
        order.set(j, a);
        proof {
            assert(order@ =~= swapped(before, i as int, j as int));
            lemma_swap_keeps_permutation(before, n as nat, i as int, j as int);
        }
        pos = next;
        i = i - 1;
    }
    order
}

} // verus!
