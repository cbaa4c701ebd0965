//! The integer side of SCRFD face detection: the feature-pyramid levels,
//! the anchor grid, and greedy non-maximum suppression over a precomputed
//! overlap relation.

use vstd::prelude::*;

verus! {

/// Side of the square detector input.
pub const DET_SIZE: usize = 640;

/// Anchors per feature-map cell.
pub const NUM_ANCHORS: usize = 2;

/// The feature-pyramid levels as `(stride, anchors)` pairs, finest first.
pub open spec fn fpn_level_table() -> Seq<(usize, usize)> {
    seq![(8usize, 12800usize), (16usize, 3200usize), (32usize, 800usize)]
}

/// The feature-pyramid levels as `(stride, anchors)` pairs, finest first.
pub fn fpn_levels() -> (r: Vec<(usize, usize)>)
    ensures
        r@ == fpn_level_table(),
{
    let mut r: Vec<(usize, usize)> = Vec::new();
    r.push((8, 12800));
    r.push((16, 3200));
    r.push((32, 800));
    assert(r@ =~= fpn_level_table());
    r
}

/// Each level has `NUM_ANCHORS` anchors on every cell of its
/// `(DET_SIZE / stride)²` grid, and the strides divide the input size.
pub proof fn lemma_fpn_levels_cover_grid()
    ensures
        forall|l: int| 0 <= l < fpn_level_table().len() ==> {
            let (stride, anchors) = #[trigger] fpn_level_table()[l];
            &&& DET_SIZE % stride == 0
            &&& anchors == (DET_SIZE / stride) * (DET_SIZE / stride) * NUM_ANCHORS
        },
{
    assert forall|l: int| 0 <= l < fpn_level_table().len() implies {
        let (stride, anchors) = #[trigger] fpn_level_table()[l];
        &&& DET_SIZE % stride == 0
        &&& anchors == (DET_SIZE / stride) * (DET_SIZE / stride) * NUM_ANCHORS
    } by {
        if l == 0 {
            assert(fpn_level_table()[0] == (8usize, 12800usize));
            assert((640usize / 8usize) * (640usize / 8usize) * 2 == 12800);
        } else if l == 1 {
            assert(fpn_level_table()[1] == (16usize, 3200usize));
            assert((640usize / 16usize) * (640usize / 16usize) * 2 == 3200);
        } else {
            assert(fpn_level_table()[2] == (32usize, 800usize));
            assert((640usize / 32usize) * (640usize / 32usize) * 2 == 800);
        }
    }
}

/// Pixel coordinates `(x, y)` of the centre of anchor `anchor_idx` on the
/// level with the given stride: anchors come `NUM_ANCHORS` to a cell, and
/// cells run row by row over a grid of `DET_SIZE / stride` columns.
pub open spec fn anchor_center_spec(anchor_idx: int, stride: int) -> (int, int) {
    let side = DET_SIZE as int / stride;
    let cell = anchor_idx / NUM_ANCHORS as int;
    ((cell % side) * stride, (cell / side) * stride)
}

/// Centre of anchor `anchor_idx` on the level with the given stride.
pub fn anchor_center(anchor_idx: usize, stride: usize) -> (r: (usize, usize))
    requires
        0 < stride <= DET_SIZE,
        anchor_idx < (DET_SIZE / stride) * (DET_SIZE / stride) * NUM_ANCHORS,
    ensures
        r.0 as int == anchor_center_spec(anchor_idx as int, stride as int).0,
        r.1 as int == anchor_center_spec(anchor_idx as int, stride as int).1,
        r.0 < DET_SIZE,
        r.1 < DET_SIZE,
{
    let side = DET_SIZE / stride;
    let cell = anchor_idx / NUM_ANCHORS;
    proof {
        assert(side >= 1) by (nonlinear_arith) requires 0 < stride <= 640, side == 640usize / stride;
        assert(side * stride <= 640) by (nonlinear_arith) requires 0 < stride, side == 640usize / stride;
        assert(cell < side * side) by (nonlinear_arith)
            requires anchor_idx < side * side * 2, cell == anchor_idx / 2;
        assert(cell / side < side) by (nonlinear_arith) requires cell < side * side, side >= 1;
        assert(cell % side < side) by (nonlinear_arith) requires side >= 1;
        assert((cell % side) * stride < 640) by (nonlinear_arith)
            requires cell % side < side, side * stride <= 640, stride > 0;
        assert((cell / side) * stride < 640) by (nonlinear_arith)
            requires cell / side < side, side * stride <= 640, stride > 0;
    }
    ((cell % side) * stride, (cell / side) * stride)
}

/// Candidate `c` overlaps one of the already kept candidates.
pub open spec fn suppressed_by(overlaps: Seq<Seq<bool>>, c: int, kept: Seq<usize>) -> bool {
    exists|t: int| 0 <= t < kept.len() && #[trigger] overlaps[c][kept[t] as int]
}

/// Greedy suppression over the first `n` candidates (best first): a
/// candidate is kept unless it overlaps a candidate kept before it.
pub open spec fn greedy_kept(overlaps: Seq<Seq<bool>>, n: nat) -> Seq<usize>
    decreases n,
{
    if n == 0 {
        Seq::empty()
    } else {
        let k = greedy_kept(overlaps, (n - 1) as nat);
        if suppressed_by(overlaps, n - 1, k) {
            k
        } else {
            k.push((n - 1) as usize)
        }
    }
}

/// Greedy non-maximum suppression. Candidates are ordered best first, and
/// `overlaps[i][j]` says that candidate `i` overlaps candidate `j` beyond
/// the threshold. Returns the indices of the kept candidates, in order.
pub fn nms_select(overlaps: &Vec<Vec<bool>>) -> (kept: Vec<usize>)
    requires
        forall|i: int| 0 <= i < overlaps@.len() ==> #[trigger] overlaps@[i]@.len() == overlaps@.len(),
    ensures
        kept@ == greedy_kept(overlaps.deep_view(), overlaps@.len() as nat),
{
    let n = overlaps.len();
    let ghost ov = overlaps.deep_view();
    let mut kept: Vec<usize> = Vec::new();
    let mut c: usize = 0;
    while c < n
        invariant
            n == overlaps@.len(),
            ov == overlaps.deep_view(),
            forall|i: int| 0 <= i < n ==> #[trigger] overlaps@[i]@.len() == n,
            c <= n,
            kept@ == greedy_kept(ov, c as nat),
            forall|t: int| 0 <= t < kept@.len() ==> #[trigger] kept@[t] < c,
        decreases n - c,
    {
        let row = &overlaps[c];
        assert(row@ == ov[c as int]);
        let mut hit = false;
        let mut t: usize = 0;
        while t < kept.len()
            invariant
                n == overlaps@.len(),
                row@.len() == n,
                row@ == ov[c as int],
                c < n,
                forall|s: int| 0 <= s < kept@.len() ==> #[trigger] kept@[s] < c,
                t <= kept@.len(),
                hit == exists|s: int| 0 <= s < t && #[trigger] ov[c as int][kept@[s] as int],
            decreases kept@.len() - t,
        {
            if row[kept[t]] {
                hit = true;
            }
            t = t + 1;
        }
        assert(hit == suppressed_by(ov, c as int, kept@));
        if !hit {
            kept.push(c);
        }
        c = c + 1;
    }
    kept
}

/// The kept indices are strictly increasing (so the kept candidates stay
/// best first) and each lies below `n`.
pub proof fn lemma_greedy_kept_increasing(overlaps: Seq<Seq<bool>>, n: nat)
    requires
        n <= usize::MAX,
    ensures
        forall|a: int, b: int|
            #![trigger greedy_kept(overlaps, n)[a], greedy_kept(overlaps, n)[b]]
            0 <= a < b < greedy_kept(overlaps, n).len() ==> greedy_kept(overlaps, n)[a]
                < greedy_kept(overlaps, n)[b],
        forall|a: int| 0 <= a < greedy_kept(overlaps, n).len() ==> #[trigger] greedy_kept(overlaps, n)[a] < n,
    decreases n,
{
    if n > 0 {
        lemma_greedy_kept_increasing(overlaps, (n - 1) as nat);
        let k = greedy_kept(overlaps, (n - 1) as nat);
        let r = greedy_kept(overlaps, n);
        assert forall|a: int| 0 <= a < r.len() implies #[trigger] r[a] < n by {
            if a < k.len() {
                assert(r[a] == k[a]);
            }
        }
        assert forall|a: int, b: int| #![trigger r[a], r[b]] 0 <= a < b < r.len() implies r[a] < r[b] by {
            assert(r[a] == k[a]);
            if b < k.len() {
                assert(r[b] == k[b]);
            } else {
                assert(k[a] < n - 1);
            }
        }
    }
}

/// No kept candidate overlaps a candidate kept before it.
pub proof fn lemma_greedy_kept_disjoint(overlaps: Seq<Seq<bool>>, n: nat)
    requires
        n <= usize::MAX,
    ensures
        forall|a: int, b: int|
            #![trigger greedy_kept(overlaps, n)[a], greedy_kept(overlaps, n)[b]]
            0 <= a < b < greedy_kept(overlaps, n).len() ==> !overlaps[greedy_kept(overlaps, n)[b] as int][greedy_kept(
                overlaps,
                n,
            )[a] as int],
    decreases n,
{
    if n > 0 {
        lemma_greedy_kept_disjoint(overlaps, (n - 1) as nat);
        let k = greedy_kept(overlaps, (n - 1) as nat);
        if !suppressed_by(overlaps, n - 1, k) {
            let r = greedy_kept(overlaps, n);
            assert forall|a: int, b: int| #![trigger r[a], r[b]] 0 <= a < b < r.len() implies !overlaps[r[b] as int][r[a] as int] by {
                if b == r.len() - 1 {
                    assert(r[a] == k[a]);
                    if overlaps[r[b] as int][r[a] as int] {
                        assert(overlaps[n - 1][k[a] as int]);
                    }
                } else {
                    assert(r[a] == k[a] && r[b] == k[b]);
                }
            }
        }
    }
}

/// Every dropped candidate overlaps a kept candidate that comes before it.
pub proof fn lemma_greedy_dropped_overlap(overlaps: Seq<Seq<bool>>, n: nat)
    requires
        n <= usize::MAX,
    ensures
        forall|c: usize|
            c < n && !(#[trigger] greedy_kept(overlaps, n).contains(c)) ==> exists|a: int|
                0 <= a < greedy_kept(overlaps, n).len() && greedy_kept(overlaps, n)[a] < c
                    && #[trigger] overlaps[c as int][greedy_kept(overlaps, n)[a] as int],
    decreases n,
{
    if n > 0 {
        lemma_greedy_dropped_overlap(overlaps, (n - 1) as nat);
        lemma_greedy_kept_increasing(overlaps, (n - 1) as nat);
        let k = greedy_kept(overlaps, (n - 1) as nat);
        let r = greedy_kept(overlaps, n);
        assert forall|c: usize| c < n && !(#[trigger] r.contains(c)) implies exists|a: int|
            0 <= a < r.len() && r[a] < c && #[trigger] overlaps[c as int][r[a] as int] by {
            if c == n - 1 {
                if !suppressed_by(overlaps, n - 1, k) {
                    assert(r[k.len() as int] == c);
                    assert(r.contains(c));
                }
                let t = choose|t: int| 0 <= t < k.len() && #[trigger] overlaps[n - 1][k[t] as int];
                assert(r[t] == k[t]);
                assert(overlaps[c as int][r[t] as int]);
            } else {
                if k.contains(c) {
                    let i = choose|i: int| 0 <= i < k.len() && k[i] == c;
                    assert(r[i] == k[i]);
                    assert(r.contains(c));
                }
                assert(!k.contains(c));
                let a = choose|a: int| 0 <= a < k.len() && k[a] < c && #[trigger] overlaps[c as int][k[a] as int];
                assert(r[a] == k[a]);
                assert(overlaps[c as int][r[a] as int]);
            }
        }
    }
}

/// When no candidate overlaps another, every candidate is kept.
pub proof fn lemma_greedy_keeps_all_disjoint(overlaps: Seq<Seq<bool>>, n: nat)
    requires
        n <= usize::MAX,
        forall|i: int, j: int| 0 <= j < i < n ==> !#[trigger] overlaps[i][j],
    ensures
        greedy_kept(overlaps, n) == Seq::new(n, |i: int| i as usize),
    decreases n,
{
    if n > 0 {
        lemma_greedy_keeps_all_disjoint(overlaps, (n - 1) as nat);
        lemma_greedy_kept_increasing(overlaps, (n - 1) as nat);
        let k = greedy_kept(overlaps, (n - 1) as nat);
        if suppressed_by(overlaps, n - 1, k) {
            let t = choose|t: int| 0 <= t < k.len() && #[trigger] overlaps[n - 1][k[t] as int];
            assert(k[t] < n - 1);
        }
        assert(greedy_kept(overlaps, n) =~= Seq::new(n, |i: int| i as usize));
    }
}

} // verus!
