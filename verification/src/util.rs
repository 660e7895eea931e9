//! Index arithmetic of a left-balanced binary tree that is stored in an array.
//!
//! Leaves sit at the even indices and parents at the odd ones. A node's level is
//! its height above the leaves; the node at position `m` of level `k` has the
//! index `m * 2^(k+1) + 2^k - 1`.
use vstd::arithmetic::div_mod::lemma_div_denominator;
use vstd::arithmetic::power2::{lemma2_to64, lemma_pow2_pos, lemma_pow2_unfold, pow2};
use vstd::bits::{lemma_u32_pow2_no_overflow, lemma_u32_shl_is_mul, lemma_u32_shr_is_div};
use vstd::prelude::*;

verus! {

/// The base-2 logarithm of `x`, rounded down; 0 for `x == 0`.
pub open spec fn spec_log2(x: nat) -> nat
    decreases x,
{
    if x <= 1 {
        0
    } else {
        1 + spec_log2(x / 2)
    }
}

/// The number of array slots that a tree with `leaves` leaves occupies.
pub open spec fn spec_num_nodes(leaves: nat) -> nat {
    if leaves == 0 {
        0
    } else {
        (2 * (leaves - 1) + 1) as nat
    }
}

/// The level of node `x`: the number of one bits at the low end of `x`.
pub open spec fn spec_level(x: nat) -> nat
    decreases x,
{
    if x % 2 == 0 {
        0
    } else {
        1 + spec_level(x / 2)
    }
}

/// The left child of `x`; meaningful where `spec_level(x) > 0`.
pub open spec fn spec_left(x: nat) -> nat {
    (x - pow2((spec_level(x) - 1) as nat)) as nat
}

/// The right child of `x`; meaningful where `spec_level(x) > 0`.
pub open spec fn spec_right(x: nat) -> nat {
    x + pow2((spec_level(x) - 1) as nat)
}

/// Whether `x` is the right one of the two children of its parent.
pub open spec fn spec_is_right_child(x: nat) -> bool {
    (x / pow2(spec_level(x) + 1)) % 2 == 1
}

/// The parent of `x`.
pub open spec fn spec_parent(x: nat) -> nat {
    if spec_is_right_child(x) {
        (x - pow2(spec_level(x))) as nat
    } else {
        x + pow2(spec_level(x))
    }
}

/// The other child of the parent of `x`.
pub open spec fn spec_sibling(x: nat) -> nat {
    let p = spec_parent(x);
    if x < p {
        spec_right(p)
    } else {
        spec_left(p)
    }
}

/// The node reached from `x` by `n` steps towards the root.
pub open spec fn spec_ancestor(x: nat, n: nat) -> nat
    decreases n,
{
    if n == 0 {
        x
    } else {
        spec_parent(spec_ancestor(x, (n - 1) as nat))
    }
}

/// Whether `r` is `x` itself or lies above it.
pub open spec fn spec_is_ancestor_or_self(r: nat, x: nat) -> bool {
    &&& spec_level(x) <= spec_level(r)
    &&& spec_ancestor(x, (spec_level(r) - spec_level(x)) as nat) == r
}

/// The nodes strictly above `x` up to and including `r`, nearest first.
pub open spec fn spec_direct_path(x: nat, r: nat) -> Seq<nat> {
    Seq::new((spec_level(r) - spec_level(x)) as nat, |i: int| spec_ancestor(x, (i + 1) as nat))
}

/// The siblings of `x` and of the nodes above it, up to the child of `r`.
pub open spec fn spec_co_path(x: nat, r: nat) -> Seq<nat> {
    Seq::new(
        (spec_level(r) - spec_level(x)) as nat,
        |i: int| spec_sibling(spec_ancestor(x, i as nat)),
    )
}

/// `spec_log2` brackets its argument between two powers of two.
pub proof fn lemma_log2_bounds(x: nat)
    requires
        x > 0,
    ensures
        pow2(spec_log2(x)) <= x < pow2(spec_log2(x) + 1),
    decreases x,
{
    lemma2_to64();
    if x > 1 {
        lemma_log2_bounds(x / 2);
        lemma_pow2_unfold(spec_log2(x));
        lemma_pow2_unfold(spec_log2(x) + 1);
    }
}

/// Below `2^n`, the logarithm is below `n`.
pub proof fn lemma_log2_lt(x: nat, n: nat)
    requires
        x < pow2(n),
        n > 0,
    ensures
        spec_log2(x) < n,
    decreases n,
{
    lemma2_to64();
    lemma_pow2_unfold(n);
    if x > 1 {
        if n == 1 {
        } else {
            lemma_log2_lt(x / 2, (n - 1) as nat);
        }
    }
}

/// Below `2^n - 1`, the level is below `n`; at `2^n - 1` it is `n`.
pub proof fn lemma_level_lt(x: nat, n: nat)
    requires
        x < pow2(n),
    ensures
        spec_level(x) <= n,
        spec_level(x) == n <==> x == pow2(n) - 1,
    decreases n,
{
    lemma2_to64();
    if n == 0 {
    } else {
        lemma_pow2_unfold(n);
        if x % 2 == 1 {
            lemma_level_lt(x / 2, (n - 1) as nat);
        } else {
            lemma_pow2_pos((n - 1) as nat);
        }
    }
}

/// A node of level `k` has an index of at least `2^k - 1`.
pub proof fn lemma_level_le(x: nat)
    ensures
        pow2(spec_level(x)) <= x + 1,
    decreases x,
{
    lemma2_to64();
    if x % 2 == 1 {
        lemma_level_le(x / 2);
        lemma_pow2_unfold(spec_level(x));
    }
}

/// Dropping `j` of the low one bits of `x` lowers the level by `j`.
pub proof fn lemma_level_shift(x: nat, j: nat)
    requires
        j <= spec_level(x),
    ensures
        spec_level(x / pow2(j)) == spec_level(x) - j,
    decreases j,
{
    lemma2_to64();
    if j > 0 {
        let d = pow2((j - 1) as nat);
        lemma_level_shift(x / 2, (j - 1) as nat);
        lemma_pow2_unfold(j);
        lemma_pow2_pos((j - 1) as nat);
        lemma_div_denominator(x as int, 2, d as int);
        assert(2 * d == pow2(j));
        assert((x / 2) / d == x / pow2(j));
    } else {
        assert(pow2(0) == 1);
        assert(x / 1 == x);
    }
}

/// A right child lies at or beyond the first index of its parent's level.
pub proof fn lemma_right_child_ge(x: nat)
    requires
        spec_is_right_child(x),
    ensures
        x >= pow2(spec_level(x) + 1),
{
    let d = pow2(spec_level(x) + 1);
    lemma_pow2_pos(spec_level(x) + 1);
    vstd::arithmetic::div_mod::lemma_fundamental_div_mod(x as int, d as int);
    let q = x / d;
    assert(q >= 1);
    assert(d * q >= d) by (nonlinear_arith)
        requires
            q >= 1,
            d > 0,
    ;
}

/// The nodes of the odd indices form a tree of the same shape: halving the index
/// of a parent node gives its index among the parent nodes, and the children
/// and the parent of a node follow it there.
pub proof fn lemma_halve(x: nat)
    requires
        x % 2 == 1,
    ensures
        spec_level(x) == 1 + spec_level(x / 2),
        spec_level(x) == 1 ==> spec_left(x) == x - 1 && spec_right(x) == x + 1,
        spec_level(x) > 1 ==> spec_left(x) == 2 * spec_left(x / 2) + 1 && spec_right(x) == 2
            * spec_right(x / 2) + 1,
        spec_is_right_child(x) == spec_is_right_child(x / 2),
        spec_parent(x) == 2 * spec_parent(x / 2) + 1,
{
    let y = x / 2;
    let k = spec_level(x);
    let d = pow2(k);
    lemma2_to64();
    lemma_level_le(y);
    lemma_pow2_unfold(k);
    lemma_pow2_unfold(k + 1);
    lemma_pow2_pos(k);
    lemma_div_denominator(x as int, 2, d as int);
    assert(2 * d == pow2(k + 1));
    assert(y / d == x / pow2(k + 1));
    assert(spec_is_right_child(x) == spec_is_right_child(y));
    if spec_is_right_child(y) {
        lemma_right_child_ge(y);
    }
    if k > 1 {
        lemma_pow2_unfold((k - 1) as nat);
    }
}

/// The parent of a leaf is the parent node next to it.
pub proof fn lemma_parent_of_leaf(x: nat)
    requires
        x % 2 == 0,
    ensures
        spec_is_right_child(x) == ((x / 2) % 2 == 1),
        (x / 2) % 2 == 1 ==> spec_parent(x) == x - 1,
        (x / 2) % 2 == 0 ==> spec_parent(x) == x + 1,
{
    lemma2_to64();
}

/// The parent of a node lies one level above it.
pub proof fn lemma_level_parent(x: nat)
    ensures
        spec_level(spec_parent(x)) == spec_level(x) + 1,
    decreases x,
{
    if x % 2 == 0 {
        lemma_parent_of_leaf(x);
        let p = spec_parent(x);
        assert(p % 2 == 1);
        assert((p / 2) % 2 == 0);
        assert(spec_level(p / 2) == 0);
    } else {
        lemma_halve(x);
        lemma_level_parent(x / 2);
        let p = spec_parent(x);
        assert(p / 2 == spec_parent(x / 2));
    }
}

/// The children of a node lie one level below it, to its left and to its right.
pub proof fn lemma_level_children(x: nat)
    requires
        spec_level(x) > 0,
    ensures
        spec_level(spec_left(x)) == spec_level(x) - 1,
        spec_level(spec_right(x)) == spec_level(x) - 1,
        spec_left(x) < x < spec_right(x),
        !spec_is_right_child(spec_left(x)),
        spec_is_right_child(spec_right(x)),
    decreases x,
{
    lemma_halve(x);
    if spec_level(x) == 1 {
        lemma_parent_of_leaf(spec_left(x));
        lemma_parent_of_leaf(spec_right(x));
    } else {
        lemma_level_children(x / 2);
        let l = spec_left(x);
        let r = spec_right(x);
        assert(l / 2 == spec_left(x / 2));
        assert(r / 2 == spec_right(x / 2));
        lemma_halve(l);
        lemma_halve(r);
    }
}

/// A parent node under `2^n - 1` has both its children there.
pub proof fn lemma_children_bound(x: nat, n: nat)
    requires
        x + 1 < pow2(n),
        spec_level(x) > 0,
    ensures
        spec_right(x) + 1 < pow2(n),
        spec_left(x) + 1 < pow2(n),
    decreases x,
{
    lemma2_to64();
    lemma_level_children(x);
    lemma_halve(x);
    if n == 0 {
    } else {
        lemma_pow2_unfold(n);
        if spec_level(x) == 1 {
        } else {
            lemma_children_bound(x / 2, (n - 1) as nat);
        }
    }
}

/// A node is the parent of both its children.
pub proof fn lemma_parent_of_children(x: nat)
    requires
        spec_level(x) > 0,
    ensures
        spec_parent(spec_left(x)) == x,
        spec_parent(spec_right(x)) == x,
{
    lemma_level_children(x);
    lemma_level_le(x);
    lemma_pow2_unfold(spec_level(x));
    lemma_pow2_pos((spec_level(x) - 1) as nat);
}

/// The sibling of a node is the other child of its parent: it lies on the same
/// level, on the other side, and has the same parent.
pub proof fn lemma_sibling(x: nat)
    ensures
        spec_level(spec_sibling(x)) == spec_level(x),
        spec_parent(spec_sibling(x)) == spec_parent(x),
        spec_is_right_child(spec_sibling(x)) == !spec_is_right_child(x),
        spec_is_right_child(x) ==> spec_sibling(x) == x - pow2(spec_level(x) + 1),
        !spec_is_right_child(x) ==> spec_sibling(x) == x + pow2(spec_level(x) + 1),
{
    let p = spec_parent(x);
    let k = spec_level(x);
    lemma_level_parent(x);
    lemma_level_children(p);
    lemma_parent_of_children(p);
    lemma_pow2_unfold(k + 1);
    lemma_pow2_pos(k);
    if spec_is_right_child(x) {
        lemma_right_child_ge(x);
        assert(p == x - pow2(k));
        assert(spec_sibling(x) == spec_left(p));
    } else {
        assert(p == x + pow2(k));
        assert(spec_sibling(x) == spec_right(p));
    }
}

/// The sibling of the sibling of a node is the node itself.
pub proof fn lemma_sibling_involution(x: nat)
    ensures
        spec_sibling(spec_sibling(x)) == x,
{
    lemma_sibling(x);
    lemma_sibling(spec_sibling(x));
    lemma_pow2_pos(spec_level(x) + 1);
    if spec_is_right_child(x) {
        lemma_right_child_ge(x);
    }
}

/// Each step towards the root gains one level.
pub proof fn lemma_level_ancestor(x: nat, n: nat)
    ensures
        spec_level(spec_ancestor(x, n)) == spec_level(x) + n,
    decreases n,
{
    if n > 0 {
        lemma_level_ancestor(x, (n - 1) as nat);
        lemma_level_parent(spec_ancestor(x, (n - 1) as nat));
    }
}

/// log2 of x floored
pub fn log2(x: u32) -> (k: u32)
    ensures
        k == spec_log2(x as nat),
        k < 32,
{
    proof {
        lemma2_to64();
        vstd::arithmetic::power2::lemma2_to64_rest();
        lemma_log2_lt(x as nat, 32);
    }
    let mut k: u32 = 0;
    let mut y: u32 = x;
    while y > 1
        invariant
            spec_log2(x as nat) == k + spec_log2(y as nat),
            spec_log2(x as nat) < 32,
        decreases y,
    {
        proof {
            assert((y >> 1) == y / 2) by (bit_vector);
        }
        y = y >> 1;
        k += 1;
    }
    k
}

/// The number of nodes needed to represent a tree with n leaves.
pub fn num_nodes(x: u32) -> (n: u32)
    requires
        x <= 0x8000_0000,
    ensures
        n == spec_num_nodes(x as nat),
{
    if x == 0 {
        0
    } else {
        2 * (x - 1) + 1
    }
}

/// The level of a node: 0 for a leaf, else the number of one bits at the low
/// end of the index.
pub fn level(x: u32) -> (k: u32)
    ensures
        k == spec_level(x as nat),
        k <= 32,
{
    proof {
        lemma2_to64();
        vstd::arithmetic::power2::lemma2_to64_rest();
        lemma_level_lt(x as nat, 32);
    }
    let mut k: u32 = 0;
    let mut y: u32 = x;
    while (y & 0x01) == 1
        invariant
            spec_level(x as nat) == k + spec_level(y as nat),
            spec_level(x as nat) <= 32,
        decreases y,
    {
        proof {
            assert((y & 0x01) == 1 ==> y % 2 == 1 && (y >> 1) == y / 2 && (y >> 1) < y)
                by (bit_vector);
        }
        y = y >> 1;
        k += 1;
    }
    proof {
        assert((y & 0x01) != 1 ==> y % 2 == 0) by (bit_vector);
    }
    k
}

/// The direct path of a node leaves the node itself out, goes up one level
/// with each step, and ends at the root; from the root it is empty.
pub proof fn lemma_direct_path(x: nat, r: nat)
    requires
        spec_is_ancestor_or_self(r, x),
    ensures
        !spec_direct_path(x, r).contains(x),
        x == r ==> spec_direct_path(x, r).len() == 0,
        x != r ==> spec_direct_path(x, r).len() > 0 && spec_direct_path(x, r).last() == r,
        forall|i: int|
            0 <= i < spec_direct_path(x, r).len() ==> spec_level(
                #[trigger] spec_direct_path(x, r)[i],
            ) == spec_level(x) + i + 1,
{
    let path = spec_direct_path(x, r);
    assert forall|i: int| 0 <= i < path.len() implies spec_level(#[trigger] path[i]) == spec_level(
        x,
    ) + i + 1 by {
        lemma_level_ancestor(x, (i + 1) as nat);
    }
    if path.contains(x) {
        let i = choose|i: int| 0 <= i < path.len() && path[i] == x;
        assert(spec_level(path[i]) == spec_level(x) + i + 1);
    }
}

/// What the shifts of the index functions compute: `x >> j` drops `j` of the
/// low one bits of `x`, and `1 << j` is `2^j`.
proof fn lemma_shifts(x: u32, j: u32)
    requires
        j < 32,
        j <= spec_level(x as nat),
    ensures
        (x >> j) == x as nat / pow2(j as nat),
        spec_level((x >> j) as nat) == spec_level(x as nat) - j,
        (1u32 << j) == pow2(j as nat),
{
    lemma_u32_shr_is_div(x, j);
    lemma_level_shift(x as nat, j as nat);
    lemma_u32_pow2_no_overflow(j as nat);
    lemma_u32_shl_is_mul(1u32, j);
}

/// The left child of a parent node.
pub fn left(x: u32) -> (l: u32)
    requires
        spec_level(x as nat) > 0,
    ensures
        l == spec_left(x as nat),
{
    let k = level(x);
    let s = k - 1;
    proof {
        lemma_shifts(x, s);
        let one = 1u32 << s;
        assert((x >> s) % 2 == 1 && s < 32 && one == 1u32 << s ==> x ^ one == x - one)
            by (bit_vector);
    }
    x ^ (0x01 << s)
}

/// The right child of a parent node. It may lie beyond the end of the tree.
pub fn right(x: u32) -> (r: u32)
    requires
        spec_level(x as nat) > 0,
        x < u32::MAX,
    ensures
        r == spec_right(x as nat),
{
    let k = level(x);
    let s = k - 1;
    proof {
        lemma2_to64();
        vstd::arithmetic::power2::lemma2_to64_rest();
        lemma_level_lt(x as nat, 32);
        lemma_shifts(x, s);
        lemma_shifts(x, k);
        let one = 1u32 << s;
        assert((x >> s) % 2 == 1 && (x >> k) % 2 == 0 && k < 32 && s == k - 1 && one == 1u32
            << s ==> x ^ (3u32 << s) == x + one) by (bit_vector);
    }
    x ^ (0x03 << s)
}

/// The parent of a node. It may lie beyond the end of the tree.
pub fn parent(x: u32) -> (p: u32)
    requires
        x < u32::MAX,
    ensures
        p == spec_parent(x as nat),
{
    let k = level(x);
    proof {
        lemma2_to64();
        vstd::arithmetic::power2::lemma2_to64_rest();
        lemma_level_lt(x as nat, 32);
        lemma_shifts(x, k);
    }
    if k == 31 {
        proof {
            assert((x >> 31) % 2 == 0 ==> x < 0x8000_0000u32) by (bit_vector);
            lemma_level_lt(x as nat, 31);
            assert(x as nat / pow2(32) == 0);
            assert(x | (1u32 << 31) == x + (1u32 << 31)) by (bit_vector)
                requires
                    x == 0x7fff_ffffu32,
            ;
        }
        return x | (1 << k);
    }
    let b = (x >> (k + 1)) & 0x01;
    proof {
        let one = 1u32 << k;
        lemma_u32_shr_is_div(x, (k + 1) as u32);
        assert((x >> k) % 2 == 0 && k < 31 && one == 1u32 << k && b == (x >> ((k + 1) as u32)) & 1
            ==> b == (x >> ((k + 1) as u32)) % 2 && (b == 1 ==> x >= one && (x | one) ^ (b << ((k
            + 1) as u32)) == x - one) && (b == 0 ==> (x | one) ^ (b << ((k + 1) as u32)) == x
            + one)) by (bit_vector);
    }
    (x | (1 << k)) ^ (b << (k + 1))
}

/// The other child of a node's parent. It may lie beyond the end of the tree.
pub fn sibling(x: u32) -> (s: u32)
    requires
        spec_sibling(x as nat) <= u32::MAX,
        x < u32::MAX,
    ensures
        s == spec_sibling(x as nat),
{
    let p = parent(x);
    proof {
        lemma_level_parent(x as nat);
        lemma_level_children(p as nat);
    }
    if x < p {
        right(p)
    } else {
        left(p)
    }
}

/// The nodes above `x` up to `r`, nearest first; empty where `x` is `r`.
pub fn direct_path(x: u32, r: u32) -> (d: Vec<u32>)
    requires
        spec_is_ancestor_or_self(r as nat, x as nat),
    ensures
        d@.map_values(|v: u32| v as nat) == spec_direct_path(x as nat, r as nat),
{
    let mut d: Vec<u32> = Vec::new();
    if x == r {
        assert(d@.map_values(|v: u32| v as nat) =~= spec_direct_path(x as nat, r as nat));
        return d;
    }
    let ghost steps = (spec_level(r as nat) - spec_level(x as nat)) as nat;
    let mut n = x;
    while n != r
        invariant
            steps == spec_level(r as nat) - spec_level(x as nat),
            spec_ancestor(x as nat, steps) == r,
            d@.len() <= steps,
            n == spec_ancestor(x as nat, d@.len()),
            forall|i: int| 0 <= i < d@.len() ==> d@[i] == spec_ancestor(x as nat, (i + 1) as nat),
        decreases steps - d@.len(),
    {
        proof {
            lemma2_to64();
            vstd::arithmetic::power2::lemma2_to64_rest();
            lemma_level_ancestor(x as nat, d@.len());
            lemma_level_lt(r as nat, 32);
            lemma_level_lt(n as nat, 32);
        }
        n = parent(n);
        d.push(n);
    }
    proof {
        lemma_level_ancestor(x as nat, d@.len());
        lemma_level_ancestor(x as nat, steps);
        assert(d@.map_values(|v: u32| v as nat) =~= spec_direct_path(x as nat, r as nat));
    }
    d
}

} // verus!
