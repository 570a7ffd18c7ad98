//! Arithmetic of the left-balanced binary trees that index MLS tree nodes.
//!
//! Nodes are numbered in order: leaves sit at even indices and the node at
//! level `k` and position `a` (the `a`-th node of that level from the left)
//! has index `(2a + 1) * 2^k - 1`. A tree of `n` leaves has `2n - 1` nodes;
//! positions whose index falls outside are missing, and a missing right child
//! is replaced by the first node that exists on its leftmost descent.

use vstd::prelude::*;

use crate::pow2::{lemma_p2_positive, p2};

verus! {

broadcast use lemma_p2_positive;

/// Index of the node at level `k` and position `a`.
pub open spec fn idx(k: nat, a: nat) -> nat
    decreases k,
{
    if k == 0 {
        2 * a
    } else {
        2 * idx((k - 1) as nat, a) + 1
    }
}

/// Level of a node index: the number of trailing one bits.
pub open spec fn level(x: nat) -> nat
    decreases x,
{
    if x % 2 == 0 {
        0
    } else {
        1 + level(x / 2)
    }
}

/// Position of a node index within its level.
pub open spec fn pos(x: nat) -> nat
    decreases x,
{
    if x % 2 == 0 {
        x / 2
    } else {
        pos(x / 2)
    }
}

/// Number of nodes of a tree with `n` leaves.
pub open spec fn node_width(n: nat) -> nat {
    if n == 0 {
        0
    } else {
        (2 * n - 1) as nat
    }
}

/// Level of the root of a tree `w` nodes wide: the largest `k` with `2^k <= w`.
pub open spec fn is_root_level(w: nat, k: nat) -> bool {
    p2(k) <= w < p2(k + 1)
}

/// Descending from level `k` toward the node at level `kt` and position `at`
/// (through its ancestors), the level of the first node that exists in a tree
/// `w` nodes wide; `kt` when none does before the target's level.
pub open spec fn first_real(w: nat, k: nat, kt: nat, at: nat) -> nat
    decreases k,
{
    if k <= kt {
        kt
    } else if idx(k, at / p2((k - kt) as nat)) < w {
        k
    } else {
        first_real(w, (k - 1) as nat, kt, at)
    }
}

/// The leftmost descent from `(k, a)` down to the first node that exists:
/// where the right child of a node lands in a tree `w` nodes wide.
pub open spec fn right_chain(w: nat, k: nat, a: nat) -> (nat, nat)
    decreases k,
{
    if idx(k, a) < w || k == 0 {
        (k, a)
    } else {
        right_chain(w, (k - 1) as nat, 2 * a)
    }
}

/// The left child of the node at level `k >= 1`, position `a`.
pub open spec fn left_of(k: nat, a: nat) -> (nat, nat) {
    ((k - 1) as nat, 2 * a)
}

/// The right child of the node at level `k >= 1`, position `a`, in a tree `w`
/// nodes wide.
pub open spec fn right_of(w: nat, k: nat, a: nat) -> (nat, nat) {
    right_chain(w, (k - 1) as nat, 2 * a + 1)
}

pub proof fn lemma_p2_pos(k: nat)
    ensures
        p2(k) >= 1,
        p2(k + 1) == 2 * p2(k),
    decreases k,
{
    if k > 0 {
        lemma_p2_pos((k - 1) as nat);
    }
}

pub proof fn lemma_p2_mono(j: nat, k: nat)
    requires
        j <= k,
    ensures
        p2(j) <= p2(k),
    decreases k,
{
    lemma_p2_pos(k);
    if j < k {
        lemma_p2_mono(j, (k - 1) as nat);
        lemma_p2_pos((k - 1) as nat);
    }
}

/// The left child sits `2^(k-1)` below its parent, the unshifted right child as
/// far above.
pub proof fn lemma_children(k: nat, a: nat)
    requires
        k >= 1,
    ensures
        idx((k - 1) as nat, 2 * a) + p2((k - 1) as nat) == idx(k, a),
        idx((k - 1) as nat, 2 * a + 1) == idx(k, a) + p2((k - 1) as nat),
    decreases k,
{
    if k > 1 {
        lemma_children((k - 1) as nat, a);
        assert(idx((k - 1) as nat, 2 * a) == 2 * idx((k - 2) as nat, 2 * a) + 1);
        assert(idx((k - 1) as nat, 2 * a + 1) == 2 * idx((k - 2) as nat, 2 * a + 1) + 1);
        assert(p2((k - 1) as nat) == 2 * p2((k - 2) as nat));
    } else {
        assert(idx(1, a) == 2 * idx(0, a) + 1);
        assert(p2(0) == 1);
    }
}

/// Nodes above the leaves have odd indices.
pub proof fn lemma_idx_odd(k: nat, a: nat)
    requires
        k >= 1,
    ensures
        idx(k, a) % 2 == 1,
{
}

pub proof fn lemma_idx_zero(k: nat)
    ensures
        idx(k, 0) + 1 == p2(k),
    decreases k,
{
    if k > 0 {
        lemma_idx_zero((k - 1) as nat);
    }
}

/// Going one position right at level `k` adds `2^(k+1)`.
pub proof fn lemma_idx_step(k: nat, a: nat)
    ensures
        idx(k, a + 1) == idx(k, a) + p2(k + 1),
    decreases k,
{
    lemma_p2_pos(k);
    if k > 0 {
        lemma_idx_step((k - 1) as nat, a);
        lemma_p2_pos((k - 1) as nat);
    }
}

pub proof fn lemma_idx_mono(k: nat, a: nat, b: nat)
    requires
        a <= b,
    ensures
        idx(k, a) + (b - a) * p2(k + 1) == idx(k, b),
    decreases b - a,
{
    let q = p2(k + 1);
    if a == b {
        assert((b - a) * q == 0) by (nonlinear_arith)
            requires a == b;
    } else {
        let b1 = (b - 1) as nat;
        lemma_idx_mono(k, a, b1);
        lemma_idx_step(k, b1);
        assert((b - a) * q == (b1 - a) * q + q) by (nonlinear_arith)
            requires b1 + 1 == b, a <= b1;
    }
}

/// `level` and `pos` recover the coordinates of an index.
pub proof fn lemma_coords_of_idx(k: nat, a: nat)
    ensures
        level(idx(k, a)) == k,
        pos(idx(k, a)) == a,
    decreases k,
{
    if k > 0 {
        lemma_coords_of_idx((k - 1) as nat, a);
    }
}

/// Every index is the node at its level and position.
pub proof fn lemma_idx_of_coords(x: nat)
    ensures
        idx(level(x), pos(x)) == x,
    decreases x,
{
    if x % 2 == 1 {
        lemma_idx_of_coords(x / 2);
    }
}

/// Dividing by `2^(j+m)` is dividing by `2^j` and then by `2^m`.
pub proof fn lemma_div_p2(x: nat, j: nat, m: nat)
    ensures
        x / p2(j + m) == (x / p2(j)) / p2(m),
    decreases m,
{
    lemma_p2_pos(j);
    lemma_p2_pos(m);
    if m == 0 {
        assert(p2(0) == 1);
        assert(j + m == j);
    } else {
        lemma_div_p2(x, j, (m - 1) as nat);
        lemma_p2_pos((j + m - 1) as nat);
        lemma_p2_pos((m - 1) as nat);
        assert(p2(j + m) == p2((j + m - 1) as nat) * 2);
        assert(p2(m) == p2((m - 1) as nat) * 2);
        vstd::arithmetic::div_mod::lemma_div_denominator(x as int, p2((j + m - 1) as nat) as int, 2);
        vstd::arithmetic::div_mod::lemma_div_denominator(
            (x / p2(j)) as int,
            p2((m - 1) as nat) as int,
            2,
        );
    }
}

/// The ancestor of a descendant one level lower is its parent.
pub proof fn lemma_div_p2_step(x: nat, j: nat)
    ensures
        x / p2(j + 1) == (x / p2(j)) / 2,
        x / p2(j) == 2 * (x / p2(j + 1)) + (x / p2(j)) % 2,
{
    lemma_div_p2(x, j, 1);
    reveal_with_fuel(p2, 2);
    assert(p2(1) == 2);
    lemma_p2_pos(j + 1);
    vstd::arithmetic::div_mod::lemma_fundamental_div_mod((x / p2(j)) as int, 2);
}

/// Every descendant of `(m, b)` lies at or above `idx(m, b) - 2^m + 1`, and
/// at or below `idx(m, b) + 2^m - 1`.
pub proof fn lemma_subtree_bounds(kt: nat, at: nat, m: nat)
    requires
        kt <= m,
    ensures
        idx(kt, at) + p2(m) >= idx(m, at / p2((m - kt) as nat)) + 1,
        idx(kt, at) + 1 <= idx(m, at / p2((m - kt) as nat)) + p2(m),
    decreases m - kt,
{
    lemma_p2_pos(m);
    if m == kt {
        assert(p2(0) == 1);
        assert((m - kt) as nat == 0);
        assert(at / 1 == at);
    } else {
        let j = (m - 1 - kt) as nat;
        let m1 = (m - 1) as nat;
        assert(j + 1 == (m - kt) as nat);
        assert((m1 - kt) as nat == j);
        let b = at / p2((m - kt) as nat);
        let b1 = at / p2(j);
        lemma_subtree_bounds(kt, at, m1);
        lemma_div_p2_step(at, j);
        assert(b == b1 / 2);
        lemma_children(m, b);
        lemma_p2_pos(m1);
        assert(p2(m) == 2 * p2(m1));
        if b1 % 2 == 0 {
            assert(b1 == 2 * b);
        } else {
            assert(b1 == 2 * b + 1);
        }
    }
}

/// A descendant in the right half of `(k, a)` has a larger index, one in the
/// left half a smaller one.
pub proof fn lemma_order(kt: nat, at: nat, k: nat)
    requires
        kt < k,
    ensures
        (at / p2((k - 1 - kt) as nat)) % 2 == 1 ==> idx(kt, at) > idx(k, at / p2((k - kt) as nat)),
        (at / p2((k - 1 - kt) as nat)) % 2 == 0 ==> idx(kt, at) < idx(k, at / p2((k - kt) as nat)),
{
    let a = at / p2((k - kt) as nat);
    let b1 = at / p2((k - 1 - kt) as nat);
    lemma_subtree_bounds(kt, at, (k - 1) as nat);
    lemma_div_p2_step(at, (k - 1 - kt) as nat);
    assert((k - 1 - kt) as nat + 1 == (k - kt) as nat);
    lemma_children(k, a);
    lemma_p2_pos((k - 1) as nat);
}

/// A node that exists lies below the root: its ancestor at the root level is
/// the root itself.
pub proof fn lemma_under_root(w: nat, kr: nat, kt: nat, at: nat)
    requires
        is_root_level(w, kr),
        idx(kt, at) < w,
    ensures
        kt <= kr,
        at / p2((kr - kt) as nat) == 0,
{
    lemma_p2_pos(kr);
    if kt > kr {
        lemma_p2_mono(kr + 1, kt);
        lemma_idx_zero(kt);
        lemma_idx_mono(kt, 0, at);
        lemma_p2_pos(kt);
        let q = p2(kt + 1);
        assert(at * q >= 0) by (nonlinear_arith);
        assert(false);
    } else {
        let b = at / p2((kr - kt) as nat);
        lemma_p2_pos((kr - kt) as nat);
        lemma_subtree_bounds(kt, at, kr);
        if b >= 1 {
            lemma_idx_mono(kr, 1, b);
            lemma_idx_step(kr, 0);
            lemma_idx_zero(kr);
            let q = p2(kr + 1);
            assert((b - 1) * q >= 0) by (nonlinear_arith)
                requires b >= 1, q >= 0;
            assert(idx(kr, b) >= idx(kr, 1));
            assert(idx(kr, 1) + 1 == p2(kr) + q);
            assert(false);
        }
    }
}


/// Level of the root of a tree `w` nodes wide: `floor(log2(w))`.
pub open spec fn root_level(w: nat) -> nat
    decreases w,
{
    if w < 2 {
        0
    } else {
        1 + root_level(w / 2)
    }
}

pub proof fn lemma_root_level(w: nat)
    requires
        w >= 1,
    ensures
        is_root_level(w, root_level(w)),
    decreases w,
{
    if w >= 2 {
        lemma_root_level(w / 2);
        lemma_p2_pos(root_level(w / 2));
        lemma_p2_pos(root_level(w / 2) + 1);
        assert(root_level(w) == root_level(w / 2) + 1);
    } else {
        reveal_with_fuel(p2, 2);
    }
}

/// Going down from a node that exists and holds secret `s` at level `k`
/// toward the node `(kt, at)` below it, the secret that `d` derives for that
/// node: each node that exists on the way gets `d(secret of the node above it
/// that exists, its own index)`.
pub open spec fn walk(
    d: spec_fn(Seq<u8>, nat) -> Seq<u8>,
    w: nat,
    s: Seq<u8>,
    k: nat,
    kt: nat,
    at: nat,
) -> Seq<u8>
    decreases k,
{
    if k <= kt {
        s
    } else {
        let k2 = first_real(w, (k - 1) as nat, kt, at);
        if k2 < k {
            walk(d, w, d(s, idx(k2, at / p2((k2 - kt) as nat))), k2, kt, at)
        } else {
            s
        }
    }
}

/// The secret that `d` derives for node `x` of a tree `w` nodes wide whose
/// root holds `root_secret`.
pub open spec fn derived_secret(
    d: spec_fn(Seq<u8>, nat) -> Seq<u8>,
    w: nat,
    root_secret: Seq<u8>,
    x: nat,
) -> Seq<u8> {
    walk(d, w, root_secret, root_level(w), level(x), pos(x))
}

pub proof fn lemma_first_real_bounds(w: nat, k: nat, kt: nat, at: nat)
    requires
        kt <= k,
    ensures
        kt <= first_real(w, k, kt, at) <= k,
    decreases k,
{
    if k > kt && idx(k, at / p2((k - kt) as nat)) >= w {
        lemma_first_real_bounds(w, (k - 1) as nat, kt, at);
    }
}

/// When the descent stops above the target's level, it stopped at a node
/// that exists.
pub proof fn lemma_first_real_exists(w: nat, k: nat, kt: nat, at: nat)
    ensures
        first_real(w, k, kt, at) > kt ==> idx(
            first_real(w, k, kt, at),
            at / p2((first_real(w, k, kt, at) - kt) as nat),
        ) < w,
    decreases k,
{
    if k > kt && idx(k, at / p2((k - kt) as nat)) >= w {
        lemma_first_real_exists(w, (k - 1) as nat, kt, at);
    }
}

/// The leftmost descent passes only through missing nodes, and ends at a
/// descendant of where it starts.
pub proof fn lemma_right_chain(w: nat, k: nat, a: nat)
    ensures
        right_chain(w, k, a).0 <= k,
        right_chain(w, k, a).1 / p2((k - right_chain(w, k, a).0) as nat) == a,
        idx(right_chain(w, k, a).0, right_chain(w, k, a).1) < w ==> first_real(
            w,
            k,
            right_chain(w, k, a).0,
            right_chain(w, k, a).1,
        ) == right_chain(w, k, a).0,
    decreases k,
{
    let (kr, ar) = right_chain(w, k, a);
    if idx(k, a) < w || k == 0 {
        assert(p2(0) == 1);
        assert(kr == k && ar == a);
        assert((k - kr) as nat == 0);
        assert(ar / 1 == ar);
    } else {
        let k1 = (k - 1) as nat;
        lemma_right_chain(w, k1, 2 * a);
        assert(right_chain(w, k, a) == right_chain(w, k1, 2 * a));
        let j = (k1 - kr) as nat;
        lemma_div_p2_step(ar, j);
        assert(j + 1 == (k - kr) as nat);
        assert(ar / p2(j) == 2 * a);
        assert(ar / p2((k - kr) as nat) == a);
        if idx(kr, ar) < w {
            if kr < k {
                assert(first_real(w, k, kr, ar) == first_real(w, k1, kr, ar));
            }
        }
    }
}

/// Toward a node that exists, the first node that exists below an ancestor
/// `(k, a)` is where the leftmost descent from `(k, a)` ends.
pub proof fn lemma_first_real_target(w: nat, k: nat, kt: nat, at: nat)
    requires
        kt <= k,
        idx(kt, at) < w,
    ensures
        first_real(w, k, kt, at) == right_chain(w, k, at / p2((k - kt) as nat)).0,
        at / p2((first_real(w, k, kt, at) - kt) as nat) == right_chain(
            w,
            k,
            at / p2((k - kt) as nat),
        ).1,
    decreases k,
{
    let a = at / p2((k - kt) as nat);
    lemma_p2_pos((k - kt) as nat);
    if idx(k, a) < w {
        if k == kt {
            assert(p2(0) == 1);
            assert(at / 1 == at);
        }
    } else {
        if k == kt {
            assert(p2(0) == 1);
            assert(at / 1 == at);
            assert(false);
        }
        let k1 = (k - 1) as nat;
        let j = (k1 - kt) as nat;
        lemma_div_p2_step(at, j);
        assert(j + 1 == (k - kt) as nat);
        lemma_order(kt, at, k);
        assert((at / p2(j)) % 2 == 0);
        assert(at / p2(j) == 2 * a);
        lemma_first_real_target(w, k1, kt, at);
    }
}

/// Toward a target below a node `y` that exists, the descent from above `y`
/// finds the same nodes as the descent toward `y` itself, and never skips `y`.
pub proof fn lemma_first_real_same(w: nat, m: nat, kt: nat, at: nat, ky: nat)
    requires
        kt <= ky <= m,
        idx(ky, at / p2((ky - kt) as nat)) < w,
    ensures
        first_real(w, m, kt, at) == first_real(w, m, ky, at / p2((ky - kt) as nat)),
        ky <= first_real(w, m, kt, at) <= m,
    decreases m,
{
    let ay = at / p2((ky - kt) as nat);
    let fy = first_real(w, m, ky, ay);
    let ft = first_real(w, m, kt, at);
    if m == ky {
        assert(fy == ky);
        if m > kt {
            assert(ft == m);
        }
    } else {
        lemma_div_p2(at, (ky - kt) as nat, (m - ky) as nat);
        assert((ky - kt) as nat + (m - ky) as nat == (m - kt) as nat);
        let node_t = at / p2((m - kt) as nat);
        let node_y = ay / p2((m - ky) as nat);
        assert(node_t == node_y);
        lemma_first_real_same(w, (m - 1) as nat, kt, at, ky);
        if idx(m, node_t) < w {
            assert(ft == m);
            assert(fy == m);
        } else {
            assert(ft == first_real(w, (m - 1) as nat, kt, at));
            assert(fy == first_real(w, (m - 1) as nat, ky, ay));
        }
    }
}

/// The derived secret of a node below `y` is what the descent from `y`, with
/// `y`'s own derived secret, gives it.
pub proof fn lemma_walk_prefix(
    d: spec_fn(Seq<u8>, nat) -> Seq<u8>,
    w: nat,
    s: Seq<u8>,
    k: nat,
    kt: nat,
    at: nat,
    ky: nat,
)
    requires
        kt <= ky <= k,
        idx(ky, at / p2((ky - kt) as nat)) < w,
    ensures
        walk(d, w, s, k, kt, at) == walk(
            d,
            w,
            walk(d, w, s, k, ky, at / p2((ky - kt) as nat)),
            ky,
            kt,
            at,
        ),
    decreases k,
{
    let ay = at / p2((ky - kt) as nat);
    if k > ky {
        let k1 = (k - 1) as nat;
        lemma_first_real_same(w, k1, kt, at, ky);
        let k2 = first_real(w, k1, kt, at);
        lemma_div_p2(at, (ky - kt) as nat, (k2 - ky) as nat);
        assert((ky - kt) as nat + (k2 - ky) as nat == (k2 - kt) as nat);
        let n = idx(k2, at / p2((k2 - kt) as nat));
        assert(walk(d, w, s, k, ky, ay) == walk(d, w, d(s, n), k2, ky, ay));
        lemma_walk_prefix(d, w, d(s, n), k2, kt, at, ky);
    }
}

/// From a node, the descent to one of its children that exists gives that
/// child `d(secret, child index)`.
pub proof fn lemma_walk_child(
    d: spec_fn(Seq<u8>, nat) -> Seq<u8>,
    w: nat,
    s: Seq<u8>,
    ky: nat,
    ay: nat,
    c: (nat, nat),
)
    requires
        ky >= 1,
        c == left_of(ky, ay) || c == right_of(w, ky, ay),
        idx(c.0, c.1) < w,
    ensures
        c.0 < ky,
        c.1 / p2((ky - c.0) as nat) == ay,
        walk(d, w, s, ky, c.0, c.1) == d(s, idx(c.0, c.1)),
{
    let k1 = (ky - 1) as nat;
    reveal_with_fuel(p2, 2);
    assert(p2(0) == 1);
    assert(c.1 / 1 == c.1);
    if c == left_of(ky, ay) {
        assert((ky - c.0) as nat == 1);
        assert(p2(1) == 2);
        assert(c.1 / 2 == ay);
        assert(first_real(w, k1, c.0, c.1) == c.0);
        assert(walk(d, w, d(s, idx(c.0, c.1)), c.0, c.0, c.1) == d(s, idx(c.0, c.1)));
    } else {
        lemma_right_chain(w, k1, 2 * ay + 1);
        let j = (k1 - c.0) as nat;
        lemma_div_p2_step(c.1, j);
        assert(j + 1 == (ky - c.0) as nat);
        assert(c.1 / p2(j) == 2 * ay + 1);
        assert(first_real(w, k1, c.0, c.1) == c.0);
        assert((c.0 - c.0) as nat == 0);
        assert(walk(d, w, d(s, idx(c.0, c.1)), c.0, c.0, c.1) == d(s, idx(c.0, c.1)));
    }
}

/// Derivation is consistent along the tree: the derived secret of a child is
/// `d` applied to its parent's derived secret.
pub proof fn lemma_derived_child(
    d: spec_fn(Seq<u8>, nat) -> Seq<u8>,
    w: nat,
    root_secret: Seq<u8>,
    y: nat,
    c: (nat, nat),
)
    requires
        w >= 1,
        y < w,
        level(y) >= 1,
        c == left_of(level(y), pos(y)) || c == right_of(w, level(y), pos(y)),
        idx(c.0, c.1) < w,
    ensures
        derived_secret(d, w, root_secret, idx(c.0, c.1)) == d(
            derived_secret(d, w, root_secret, y),
            idx(c.0, c.1),
        ),
{
    let kr = root_level(w);
    lemma_root_level(w);
    lemma_idx_of_coords(y);
    lemma_coords_of_idx(c.0, c.1);
    lemma_walk_child(d, w, derived_secret(d, w, root_secret, y), level(y), pos(y), c);
    lemma_under_root(w, kr, level(y), pos(y));
    lemma_walk_prefix(d, w, root_secret, kr, c.0, c.1, level(y));
}


/// The coordinates of the nodes that exist on the way from level `k` down to
/// leaf `i`, starting with the ancestor of the leaf at level `k`.
pub open spec fn path_from(w: nat, k: nat, i: nat) -> Seq<(nat, nat)>
    decreases k,
{
    let here = (k, i / p2(k));
    if k == 0 {
        seq![here]
    } else {
        let k2 = first_real(w, (k - 1) as nat, 0, i);
        if k2 < k {
            seq![here] + path_from(w, k2, i)
        } else {
            seq![here]
        }
    }
}

/// The nodes from the root down to leaf `i`, as coordinates.
pub open spec fn leaf_path(w: nat, i: nat) -> Seq<(nat, nat)> {
    path_from(w, root_level(w), i)
}

/// What the path from level `k` down to a leaf that exists looks like: it
/// starts at the leaf's ancestor at level `k`, ends at the leaf, holds only
/// nodes that exist (when the first one does), and each node after the first
/// is a child of the one before.
pub proof fn lemma_path_from(w: nat, k: nat, i: nat)
    requires
        2 * i < w,
        idx(k, i / p2(k)) < w,
    ensures
        path_from(w, k, i).len() >= 1,
        path_from(w, k, i)[0] == (k, i / p2(k)),
        path_from(w, k, i).last() == (0nat, i),
        forall|t: int|
            0 <= t < path_from(w, k, i).len() ==> #[trigger] path_from(w, k, i)[t].1 == i / p2(
                path_from(w, k, i)[t].0,
            ) && idx(path_from(w, k, i)[t].0, path_from(w, k, i)[t].1) < w
                && path_from(w, k, i)[t].0 <= k,
        forall|t: int|
            0 <= t < path_from(w, k, i).len() - 1 ==> {
                let y = #[trigger] path_from(w, k, i)[t];
                let c = path_from(w, k, i)[t + 1];
                y.0 >= 1 && (c == left_of(y.0, y.1) || c == right_of(w, y.0, y.1))
            },
    decreases k,
{
    let p = path_from(w, k, i);
    if k == 0 {
        assert(p2(0) == 1);
        assert(i / 1 == i);
    } else {
        let k1 = (k - 1) as nat;
        let a = i / p2(k);
        let b = i / p2(k1);
        lemma_first_real_bounds(w, k1, 0, i);
        let k2 = first_real(w, k1, 0, i);
        assert(idx(0, i) == 2 * i);
        lemma_first_real_target(w, k1, 0, i);
        assert(k2 < k);
        assert((k2 - 0) as nat == k2);
        assert((k1 - 0) as nat == k1);
        lemma_div_p2_step(i, k1);
        assert(k1 + 1 == k);
        lemma_children(k, a);
        let c = (k2, i / p2(k2));
        if b % 2 == 0 {
            assert(b == 2 * a);
            if k1 > 0 {
                assert(idx(k1, b) < w);
                assert(first_real(w, k1, 0, i) == k1);
            }
            assert(c == left_of(k, a));
        } else {
            assert(b == 2 * a + 1);
            assert(c == right_of(w, k, a));
        }
        assert(idx(k2, i / p2(k2)) < w) by {
            if k2 > 0 {
                lemma_first_real_exists(w, k1, 0, i);
            } else {
                assert(p2(0) == 1);
                assert(i / 1 == i);
            }
        }
        lemma_path_from(w, k2, i);
        let q = path_from(w, k2, i);
        assert(p == seq![(k, a)] + q);
        assert forall|t: int| 0 <= t < p.len() implies #[trigger] p[t].1 == i / p2(p[t].0) && idx(
            p[t].0,
            p[t].1,
        ) < w && p[t].0 <= k by {
            if t > 0 {
                assert(p[t] == q[t - 1]);
            }
        }
        assert forall|t: int| 0 <= t < p.len() - 1 implies {
            let y = #[trigger] p[t];
            let c = p[t + 1];
            y.0 >= 1 && (c == left_of(y.0, y.1) || c == right_of(w, y.0, y.1))
        } by {
            if t > 0 {
                assert(p[t] == q[t - 1]);
                assert(p[t + 1] == q[t]);
            }
        }
    }
}


/// Levels strictly decrease along a path toward a leaf.
pub proof fn lemma_path_levels(w: nat, k: nat, i: nat, t: int, v: int)
    requires
        0 <= t < v < path_from(w, k, i).len(),
    ensures
        path_from(w, k, i)[t].0 > path_from(w, k, i)[v].0,
    decreases k,
{
    let p = path_from(w, k, i);
    if k > 0 {
        let k2 = first_real(w, (k - 1) as nat, 0, i);
        if k2 < k {
            let q = path_from(w, k2, i);
            assert(p == seq![(k, i / p2(k))] + q);
            lemma_path_max_level(w, k2, i, v - 1);
            if t > 0 {
                lemma_path_levels(w, k2, i, t - 1, v - 1);
            }
        }
    }
}

/// No node on a path from level `k` lies above level `k`.
pub proof fn lemma_path_max_level(w: nat, k: nat, i: nat, t: int)
    requires
        0 <= t < path_from(w, k, i).len(),
    ensures
        path_from(w, k, i)[t].0 <= k,
    decreases k,
{
    let p = path_from(w, k, i);
    if k > 0 && t > 0 {
        let k2 = first_real(w, (k - 1) as nat, 0, i);
        if k2 < k {
            let q = path_from(w, k2, i);
            assert(p == seq![(k, i / p2(k))] + q);
            lemma_path_max_level(w, k2, i, t - 1);
        }
    }
}

pub proof fn lemma_p2_32()
    ensures
        p2(32) == 0x1_0000_0000,
{
    reveal_with_fuel(p2, 33);
}

/// `2^k` for `k <= 32`.
pub fn pow2(k: u32) -> (r: u64)
    requires
        k <= 32,
    ensures
        r == p2(k as nat),
        r <= 0x1_0000_0000,
{
    proof {
        lemma_p2_32();
    }
    let mut r: u64 = 1;
    let mut i: u32 = 0;
    while i < k
        invariant
            i <= k <= 32,
            r == p2(i as nat),
            p2(32) == 0x1_0000_0000,
        decreases k - i,
    {
        proof {
            lemma_p2_pos(i as nat);
            lemma_p2_mono((i + 1) as nat, 32);
        }
        r = r * 2;
        i = i + 1;
    }
    proof {
        lemma_p2_mono(k as nat, 32);
    }
    r
}

/// The level of a node index: its number of trailing one bits.
pub fn node_level(x: u32) -> (k: u32)
    ensures
        k == level(x as nat),
        k <= 32,
{
    proof {
        lemma_p2_32();
    }
    let mut y: u32 = x;
    let mut k: u32 = 0;
    while y % 2 == 1
        invariant
            level(x as nat) == k + level(y as nat),
            k <= 32,
            (y as nat) < p2((32 - k) as nat),
        decreases y,
    {
        proof {
            lemma_p2_pos((31 - k) as nat);
            assert(p2((32 - k) as nat) == 2 * p2((31 - k) as nat)) by {
                if k == 32 {
                    assert(p2(0) == 1);
                }
            }
        }
        y = y / 2;
        k = k + 1;
    }
    k
}

/// Number of nodes of a tree with `size` leaves.
pub fn node_width_of(size: u32) -> (w: u32)
    requires
        1 <= size <= 0x8000_0000,
    ensures
        w == node_width(size as nat),
        w % 2 == 1,
{
    2 * (size - 1) + 1
}

/// The root of a tree with `size` leaves.
pub fn root(size: u32) -> (r: u32)
    requires
        1 <= size <= 0x8000_0000,
    ensures
        r == idx(root_level(node_width(size as nat)), 0),
        (r as nat) < node_width(size as nat),
{
    let w = node_width_of(size) as u64;
    proof {
        lemma_root_level(w as nat);
        lemma_p2_32();
        lemma_idx_zero(root_level(w as nat));
    }
    let mut k: u32 = 0;
    let mut p: u64 = 1;
    while p * 2 <= w
        invariant
            p == p2(k as nat),
            p <= w,
            w < 0x1_0000_0000,
            k <= 32,
            is_root_level(w as nat, root_level(w as nat)),
            k <= root_level(w as nat),
            p2(32) == 0x1_0000_0000,
        decreases w - p,
    {
        proof {
            lemma_p2_pos(k as nat);
            if k >= root_level(w as nat) {
                lemma_p2_mono(root_level(w as nat) + 1, (k + 1) as nat);
            }
            if k >= 32 {
                lemma_p2_mono(32, k as nat);
            }
        }
        p = p * 2;
        k = k + 1;
    }
    proof {
        lemma_p2_pos(k as nat);
        if k < root_level(w as nat) {
            lemma_p2_mono((k + 1) as nat, root_level(w as nat));
        }
        assert(k == root_level(w as nat));
    }
    (p - 1) as u32
}

/// The left child of a node above the leaves.
pub fn left(x: u32) -> (r: u32)
    requires
        level(x as nat) >= 1,
    ensures
        r as nat == idx(left_of(level(x as nat), pos(x as nat)).0, left_of(level(x as nat), pos(x as nat)).1),
        r < x,
{
    let k = node_level(x);
    let half = pow2(k - 1);
    proof {
        lemma_idx_of_coords(x as nat);
        lemma_children(k as nat, pos(x as nat));
        lemma_p2_pos((k - 1) as nat);
    }
    (x as u64 - half) as u32
}

/// The right child of a node above the leaves in a tree with `size` leaves:
/// the unshifted right child when it exists, otherwise the first node that
/// exists on its leftmost descent.
pub fn right(x: u32, size: u32) -> (r: u32)
    requires
        1 <= size <= 0x8000_0000,
        level(x as nat) >= 1,
        (x as nat) < node_width(size as nat),
    ensures
        r as nat == idx(
            right_of(node_width(size as nat), level(x as nat), pos(x as nat)).0,
            right_of(node_width(size as nat), level(x as nat), pos(x as nat)).1,
        ),
        (r as nat) < node_width(size as nat),
        r > x,
{
    let w = node_width_of(size) as u64;
    let k = node_level(x);
    let ghost a = pos(x as nat);
    let mut kr: u32 = k - 1;
    let ghost mut ar: nat = 2 * a + 1;
    let mut r: u64 = x as u64 + pow2(kr);
    proof {
        lemma_idx_of_coords(x as nat);
        lemma_children(k as nat, a);
        lemma_idx_odd(k as nat, a);
    }
    while r >= w
        invariant
            r as nat == idx(kr as nat, ar),
            r == x + p2(kr as nat),
            right_chain(w as nat, kr as nat, ar) == right_of(w as nat, k as nat, a),
            (x as nat) < w,
            x % 2 == 1,
            w % 2 == 1,
            w < 0x1_0000_0000,
            kr < 32,
        decreases kr,
    {
        proof {
            if kr == 0 {
                assert(p2(0) == 1);
                assert(false);
            }
            lemma_children(kr as nat, ar);
            lemma_p2_pos((kr - 1) as nat);
        }
        let half = pow2(kr - 1);
        r = r - half;
        kr = kr - 1;
        proof {
            ar = 2 * ar;
        }
    }
    r as u32
}

/// The nodes on the way from the root down to leaf `leaf` of a tree with `size`
/// leaves, root first.
pub fn leaf_path_down(leaf: u32, size: u32) -> (path: Vec<u32>)
    requires
        1 <= size <= 0x8000_0000,
        leaf < size,
    ensures
        path@.len() == leaf_path(node_width(size as nat), leaf as nat).len(),
        forall|t: int|
            0 <= t < path@.len() ==> path@[t] as nat == idx(
                #[trigger] leaf_path(node_width(size as nat), leaf as nat)[t].0,
                leaf_path(node_width(size as nat), leaf as nat)[t].1,
            ),
{
    let w = node_width_of(size) as u64;
    let ghost wn = w as nat;
    let ghost i = leaf as nat;
    let ghost kroot = root_level(wn);
    let r = root(size);
    let mut cur: u64 = r as u64;
    let mut k: u32 = node_level(r);
    proof {
        lemma_coords_of_idx(kroot, 0);
        lemma_root_level(wn);
        lemma_p2_32();
        if kroot >= 32 {
            lemma_p2_mono(32, kroot);
        }
        lemma_under_root(wn, kroot, 0, i);
        assert(idx(0, i) == 2 * i);
        assert((kroot - 0) as nat == kroot);
    }
    let mut path: Vec<u32> = Vec::new();
    path.push(cur as u32);
    proof {
        assert(i / p2(kroot) == 0);
        lemma_path_from(wn, kroot, i);
    }
    while k > 0
        invariant
            wn == w,
            w == node_width(size as nat),
            w < 0x1_0000_0000,
            2 * i < wn,
            i == leaf,
            k <= kroot < 32,
            cur as nat == idx(k as nat, i / p2(k as nat)),
            (cur as nat) < wn,
            path@.len() >= 1,
            path@.len() + path_from(wn, k as nat, i).len() - 1 == leaf_path(wn, i).len(),
            forall|t: int|
                0 <= t < path@.len() ==> path@[t] as nat == idx(
                    #[trigger] leaf_path(wn, i)[t].0,
                    leaf_path(wn, i)[t].1,
                ),
            forall|t: int|
                0 <= t < path_from(wn, k as nat, i).len() ==> #[trigger] path_from(wn, k as nat, i)[t]
                    == leaf_path(wn, i)[path@.len() - 1 + t],
        decreases k,
    {
        let ghost k_old = k;
        let ghost pf_old = path_from(wn, k as nat, i);
        proof {
            lemma_path_from(wn, k as nat, i);
            lemma_first_real_bounds(wn, (k - 1) as nat, 0, i);
        }
        let mut kk: u32 = k;
        let mut node: u64 = cur;
        loop
            invariant
                wn == w,
                w < 0x1_0000_0000,
                2 * i < wn,
                i == leaf,
                1 <= k <= kroot < 32,
                k == k_old,
                kk <= k,
                node as nat == idx(kk as nat, i / p2(kk as nat)),
                kk < k ==> first_real(wn, (k - 1) as nat, 0, i) == first_real(wn, kk as nat, 0, i),
                kk == k ==> node == cur,
            ensures
                kk < k,
                node as nat == idx(kk as nat, i / p2(kk as nat)),
                first_real(wn, (k - 1) as nat, 0, i) == kk,
            decreases kk,
        {
            if kk < k && (node < w || kk == 0) {
                proof {
                    if kk > 0 {
                        assert((kk - 0) as nat == kk);
                    }
                }
                break;
            }
            let half = pow2(kk - 1);
            let q = leaf as u64 / half;
            proof {
                lemma_div_p2_step(i, (kk - 1) as nat);
                assert((kk - 1) as nat + 1 == kk as nat);
                lemma_children(kk as nat, i / p2(kk as nat));
                lemma_subtree_bounds(0, i, kk as nat);
                assert((kk - 0) as nat == kk as nat);
                assert(i / 1 == i) by {
                    assert(p2(0) == 1);
                }
                lemma_p2_mono(kk as nat, 32);
                if kk < k {
                    assert((kk - 1 - 0) as nat == (kk - 1) as nat);
                }
            }
            if q % 2 == 0 {
                node = node - half;
            } else {
                node = node + half;
            }
            kk = kk - 1;
        }
        proof {
            assert(pf_old == seq![(k_old as nat, i / p2(k_old as nat))] + path_from(wn, kk as nat, i));
            assert(pf_old[1] == (kk as nat, i / p2(kk as nat)));
            lemma_path_from(wn, kk as nat, i);
        }
        cur = node;
        k = kk;
        path.push(cur as u32);
        proof {
            assert forall|t: int| 0 <= t < path_from(wn, k as nat, i).len() implies #[trigger] path_from(
                wn,
                k as nat,
                i,
            )[t] == leaf_path(wn, i)[path@.len() - 1 + t] by {
                assert(path_from(wn, k as nat, i)[t] == pf_old[t + 1]);
            }
            assert forall|t: int| 0 <= t < path@.len() implies path@[t] as nat == idx(
                #[trigger] leaf_path(wn, i)[t].0,
                leaf_path(wn, i)[t].1,
            ) by {
                if t == path@.len() - 1 {
                    assert(leaf_path(wn, i)[t] == path_from(wn, k as nat, i)[0]);
                }
            }
        }
    }
    proof {
        lemma_path_from(wn, 0, i);
    }
    path
}

} // verus!
