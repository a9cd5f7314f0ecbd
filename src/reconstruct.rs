use rayon::iter::{IndexedParallelIterator, IntoParallelIterator, ParallelIterator};
use vstd::prelude::*;

use crate::error::Error;
use crate::perm::{is_permutation, lemma_missing_index};
use crate::pixels::Image;
use crate::similarity::{border_cost, compute_border_abs_diff, Direction, TileView};
use crate::sns::{lemma_cell_fits, lemma_grid_cell, DimensionParams, SnsImpl};

verus! {

/// Upper bound on one border cost: four channels of at most 255 over at most
/// `u32::MAX` pixels.
const MAX_BORDER_COST: u128 = 1020 * 4294967295;

impl SnsImpl {
    /// `img` is divided by `p` into this grid.
    pub open spec fn ready(&self, img: &Image, p: DimensionParams) -> bool {
        &&& self.wf()
        &&& img.wf()
        &&& img.width == p.width
        &&& img.height == p.height
        &&& self.fits(p)
    }

    /// The cost of placing tile `t` at the next free position after
    /// `placed`: against the tile above it in the first column, against the
    /// tile to its left elsewhere.
    pub open spec fn placement_cost(
        &self,
        img: &Image,
        p: DimensionParams,
        placed: Seq<usize>,
        t: int,
    ) -> nat {
        let pos = placed.len() as int;
        let xs = self.x_split as int;
        if pos % xs == 0 {
            border_cost(
                img,
                self.tile_spec(p, placed[pos - xs] as int),
                self.tile_spec(p, t),
                Direction::Down,
            )
        } else {
            border_cost(
                img,
                self.tile_spec(p, placed[pos - 1] as int),
                self.tile_spec(p, t),
                Direction::Right,
            )
        }
    }

    /// The first tile below `n` that is not yet placed and whose placement
    /// cost is lowest, or -1 when every tile below `n` is placed.
    pub open spec fn best_among(
        &self,
        img: &Image,
        p: DimensionParams,
        placed: Seq<usize>,
        n: nat,
    ) -> int
        decreases n,
    {
        if n == 0 {
            -1
        } else {
            let b = self.best_among(img, p, placed, (n - 1) as nat);
            let t = n - 1;
            if !placed.contains(t as usize) && (b < 0 || self.placement_cost(img, p, placed, t)
                < self.placement_cost(img, p, placed, b)) {
                t
            } else {
                b
            }
        }
    }

    /// The first `n` positions of the greedy assembly that starts from tile
    /// `start`.
    pub open spec fn greedy_prefix(&self, img: &Image, p: DimensionParams, start: usize, n: nat) -> Seq<
        usize,
    >
        decreases n,
    {
        if n == 0 {
            seq![]
        } else if n == 1 {
            seq![start]
        } else {
            let prev = self.greedy_prefix(img, p, start, (n - 1) as nat);
            prev.push(self.best_among(img, p, prev, self.total_splits as nat) as usize)
        }
    }

    /// The full greedy assembly that starts from tile `start`.
    pub open spec fn greedy(&self, img: &Image, p: DimensionParams, start: usize) -> Seq<usize> {
        self.greedy_prefix(img, p, start, self.total_splits as nat)
    }

    /// The seams that position `pos` closes in arrangement `arr`: with the
    /// tile above it and with the tile to its left, where they exist.
    pub open spec fn seams_at(&self, img: &Image, p: DimensionParams, arr: Seq<usize>, pos: int) -> nat {
        let xs = self.x_split as int;
        (if pos >= xs {
            border_cost(
                img,
                self.tile_spec(p, arr[pos - xs] as int),
                self.tile_spec(p, arr[pos] as int),
                Direction::Down,
            )
        } else {
            0
        }) + (if pos % xs != 0 {
            border_cost(
                img,
                self.tile_spec(p, arr[pos - 1] as int),
                self.tile_spec(p, arr[pos] as int),
                Direction::Right,
            )
        } else {
            0
        })
    }

    /// The sum of the seams closed by the first `n` positions of `arr`.
    pub open spec fn arrangement_cost(
        &self,
        img: &Image,
        p: DimensionParams,
        arr: Seq<usize>,
        n: nat,
    ) -> nat
        decreases n,
    {
        if n == 0 {
            0
        } else {
            self.arrangement_cost(img, p, arr, (n - 1) as nat) + self.seams_at(
                img,
                p,
                arr,
                n - 1,
            )
        }
    }

    /// The global cost of arrangement `arr`: every vertical and every
    /// horizontal seam between neighbouring tiles.
    pub open spec fn global_cost(&self, img: &Image, p: DimensionParams, arr: Seq<usize>) -> nat {
        self.arrangement_cost(img, p, arr, arr.len())
    }

    /// The global cost of the greedy assembly from `start`.
    pub open spec fn candidate_cost(&self, img: &Image, p: DimensionParams, start: usize) -> nat {
        self.global_cost(img, p, self.greedy(img, p, start))
    }

    /// The first start below `n` whose assembly has the lowest global cost.
    pub open spec fn best_start(&self, img: &Image, p: DimensionParams, n: nat) -> usize
        decreases n,
    {
        if n <= 1 {
            0
        } else {
            let b = self.best_start(img, p, (n - 1) as nat);
            let t = (n - 1) as usize;
            if self.candidate_cost(img, p, t) < self.candidate_cost(img, p, b) {
                t
            } else {
                b
            }
        }
    }

    /// The arrangement that decoding returns.
    pub open spec fn reconstruction(&self, img: &Image, p: DimensionParams) -> Seq<usize> {
        self.greedy(img, p, self.best_start(img, p, self.total_splits as nat))
    }
}

impl SnsImpl {
    /// The greedy choice is -1 exactly when every tile below `n` is placed;
    /// otherwise it is an unplaced tile below `n`.
    pub proof fn lemma_best_among_valid(&self, img: &Image, p: DimensionParams, placed: Seq<usize>, n: nat)
        requires
            n <= usize::MAX,
        ensures
            (self.best_among(img, p, placed, n) == -1) <==> (forall|t: usize| t < n ==> placed.contains(t)),
            self.best_among(img, p, placed, n) >= -1,
            self.best_among(img, p, placed, n) >= 0 ==> self.best_among(img, p, placed, n) < n
                && !placed.contains(self.best_among(img, p, placed, n) as usize),
        decreases n,
    {
        if n > 0 {
            self.lemma_best_among_valid(img, p, placed, (n - 1) as nat);
            if self.best_among(img, p, placed, n) == -1 {
                assert forall|t: usize| t < n implies placed.contains(t) by {
                    if t < n - 1 {
                    } else {
                        assert(t == n - 1);
                    }
                }
            }
        }
    }

    /// Every prefix of a greedy assembly lists distinct tiles of the grid.
    pub proof fn lemma_greedy_prefix_valid(&self, img: &Image, p: DimensionParams, start: usize, k: nat)
        requires
            self.wf(),
            start < self.total_splits,
            k <= self.total_splits,
        ensures
            self.greedy_prefix(img, p, start, k).len() == k,
            self.greedy_prefix(img, p, start, k).no_duplicates(),
            forall|i: int|
                0 <= i < k ==> #[trigger] self.greedy_prefix(img, p, start, k)[i] < self.total_splits,
        decreases k,
    {
        if k > 1 {
            let prev = self.greedy_prefix(img, p, start, (k - 1) as nat);
            self.lemma_greedy_prefix_valid(img, p, start, (k - 1) as nat);
            let n = self.total_splits as nat;
            lemma_missing_index(prev, n);
            self.lemma_best_among_valid(img, p, prev, n);
            let b = self.best_among(img, p, prev, n);
            assert(b >= 0);
            let cur = prev.push(b as usize);
            assert(cur == self.greedy_prefix(img, p, start, k));
            assert forall|i: int, j: int| 0 <= i < cur.len() && 0 <= j < cur.len() && i != j implies cur[i]
                != cur[j] by {
                if i == k - 1 {
                    assert(cur[j] == prev[j]);
                    assert(prev.contains(prev[j]));
                } else if j == k - 1 {
                    assert(cur[i] == prev[i]);
                    assert(prev.contains(prev[i]));
                }
            }
        }
    }

    /// The arrangement that decoding returns lists every tile exactly once.
    pub proof fn lemma_reconstruction_is_permutation(&self, img: &Image, p: DimensionParams)
        requires
            self.wf(),
        ensures
            is_permutation(self.reconstruction(img, p), self.total_splits as nat),
    {
        self.lemma_total_positive();
        self.lemma_best_start_bound(img, p, self.total_splits as nat);
        self.lemma_greedy_prefix_valid(
            img,
            p,
            self.best_start(img, p, self.total_splits as nat),
            self.total_splits as nat,
        );
    }

    /// A grid has at least one tile.
    pub proof fn lemma_total_positive(&self)
        requires
            self.wf(),
        ensures
            self.total_splits >= 1,
    {
        assert(self.x_split * self.y_split >= 1) by (nonlinear_arith)
            requires
                self.x_split >= 1,
                self.y_split >= 1,
        ;
    }

    /// The best start lies below `n` when `n` is positive.
    pub proof fn lemma_best_start_bound(&self, img: &Image, p: DimensionParams, n: nat)
        requires
            1 <= n <= usize::MAX,
        ensures
            self.best_start(img, p, n) < n,
        decreases n,
    {
        if n > 1 {
            self.lemma_best_start_bound(img, p, (n - 1) as nat);
        }
    }

    /// The window of tile `idx`.
    fn tile_view(&self, p: &DimensionParams, idx: usize) -> (r: TileView)
        requires
            self.wf(),
            self.fits(*p),
            idx < self.total_splits,
        ensures
            r == self.tile_spec(*p, idx as int),
            r.x + r.width <= p.width,
            r.y + r.height <= p.height,
    {
        let xs: usize = self.x_split as usize;
        proof {
            assert(self.y_split * xs == self.total_splits) by (nonlinear_arith)
                requires
                    self.total_splits == xs * self.y_split,
            ;
            lemma_grid_cell(idx as int, xs as int, self.y_split as int);
            lemma_cell_fits((idx % xs) as int, p.sub_width as int, xs as int);
            lemma_cell_fits((idx / xs) as int, p.sub_height as int, self.y_split as int);
        }
        let col: u32 = (idx % xs) as u32;
        let row: u32 = (idx / xs) as u32;
        TileView { x: col * p.sub_width, y: row * p.sub_height, width: p.sub_width, height: p.sub_height }
    }
}

impl SnsImpl {
    /// The greedy choice for the position after `placed`: the first unplaced
    /// tile with the lowest placement cost.
    fn nearest_available(
        &self,
        img: &Image,
        params: &DimensionParams,
        placed: &Vec<usize>,
        available: &Vec<bool>,
    ) -> (r: usize)
        requires
            self.ready(img, *params),
            1 <= placed@.len() < self.total_splits,
            placed@.no_duplicates(),
            forall|i: int| 0 <= i < placed@.len() ==> placed@[i] < self.total_splits,
            available@.len() == self.total_splits,
            forall|t: usize| t < self.total_splits ==> available@[t as int] == !placed@.contains(t),
        ensures
            r == self.best_among(img, *params, placed@, self.total_splits as nat),
            r < self.total_splits,
            !placed@.contains(r),
    {
        let n = self.total_splits;
        let pos = placed.len();
        let xs: usize = self.x_split as usize;
        let dir: Direction;
        let reference: usize;
        if pos % xs == 0 {
            assert(pos >= xs) by (nonlinear_arith)
                requires
                    pos % xs == 0,
                    pos >= 1,
                    xs >= 1,
            ;
            reference = placed[pos - xs];
            dir = Direction::Down;
        } else {
            assert(pos >= 1) by (nonlinear_arith)
                requires
                    pos % xs != 0,
                    xs >= 1,
            ;
            reference = placed[pos - 1];
            dir = Direction::Right;
        }
        let mine = self.tile_view(params, reference);
        let ghost pl = placed@;
        let mut best: usize = n;
        let mut best_cost: u64 = 0;
        let mut t: usize = 0;
        while t < n
            invariant
                self.ready(img, *params),
                n == self.total_splits,
                pl == placed@,
                t <= n,
                available@.len() == n,
                forall|u: usize| u < n ==> available@[u as int] == !pl.contains(u),
                mine == self.tile_spec(*params, reference as int),
                mine.fits(img),
                pos == pl.len(),
                xs == self.x_split,
                pos % xs == 0 ==> reference == pl[pos - xs] && dir == Direction::Down && pos >= xs,
                pos % xs != 0 ==> reference == pl[pos - 1] && dir == Direction::Right,
                best == n <==> self.best_among(img, *params, pl, t as nat) == -1,
                best != n ==> best == self.best_among(img, *params, pl, t as nat) && best_cost
                    == self.placement_cost(img, *params, pl, best as int),
            decreases n - t,
        {
            proof {
                self.lemma_best_among_valid(img, *params, pl, t as nat);
            }
            if available[t] {
                let theirs = self.tile_view(params, t);
                let c = compute_border_abs_diff(img, &mine, &theirs, dir);
                if best == n || c < best_cost {
                    best = t;
                    best_cost = c;
                }
            }
            t = t + 1;
        }
        proof {
            lemma_missing_index(pl, n as nat);
            self.lemma_best_among_valid(img, *params, pl, n as nat);
        }
        best
    }

    /// The greedy assembly that starts from tile `start`.
    fn greedy_arrangement(&self, img: &Image, params: &DimensionParams, start: usize) -> (r: Vec<
        usize,
    >)
        requires
            self.ready(img, *params),
            start < self.total_splits,
        ensures
            r@ == self.greedy(img, *params, start),
            is_permutation(r@, self.total_splits as nat),
    {
        let n = self.total_splits;
        let mut available: Vec<bool> = vec![true; n];
        let mut placed: Vec<usize> = Vec::with_capacity(n);
        placed.push(start);
        available.set(start, false);
        proof {
            assert(placed@ =~= self.greedy_prefix(img, *params, start, 1));
            assert forall|u: usize| u < n implies available@[u as int] == !placed@.contains(u) by {
                if u == start {
                    assert(placed@[0] == start);
                }
            }
        }
        let mut k: usize = 1;
        while k < n
            invariant
                self.ready(img, *params),
                n == self.total_splits,
                start < n,
                1 <= k <= n,
                placed@ == self.greedy_prefix(img, *params, start, k as nat),
                available@.len() == n,
                forall|u: usize| u < n ==> available@[u as int] == !placed@.contains(u),
            decreases n - k,
        {
            proof {
                self.lemma_greedy_prefix_valid(img, *params, start, k as nat);
            }
            let next = self.nearest_available(img, params, &placed, &available);
            let ghost prev = placed@;
            placed.push(next);
            available.set(next, false);
            proof {
                assert(placed@ == prev.push(next));
                assert forall|u: usize| u < n implies available@[u as int] == !placed@.contains(u) by {
                    if u == next {
                        assert(placed@[k as int] == next);
                    } else {
                        if placed@.contains(u) {
                            let i = choose|i: int| 0 <= i < placed@.len() && placed@[i] == u;
                            assert(i < k);
                            assert(prev[i] == u);
                        }
                        if prev.contains(u) {
                            let i = choose|i: int| 0 <= i < prev.len() && prev[i] == u;
                            assert(placed@[i] == u);
                        }
                    }
                }
            }
            k = k + 1;
        }
        proof {
            self.lemma_greedy_prefix_valid(img, *params, start, n as nat);
        }
        placed
    }

    /// The global cost of `indices`: every vertical and every horizontal seam
    /// between neighbouring tiles of the arrangement.
    pub fn compute_total_abs_diff(&self, img: &Image, indices: &Vec<usize>, params: &DimensionParams) -> (r:
        u128)
        requires
            self.ready(img, *params),
            indices@.len() == self.total_splits,
            forall|i: int| 0 <= i < indices@.len() ==> indices@[i] < self.total_splits,
        ensures
            r == self.global_cost(img, *params, indices@),
    {
        let n = self.total_splits;
        let xs: usize = self.x_split as usize;
        let mut similarity: u128 = 0;
        let mut pos: usize = 0;
        while pos < n
            invariant
                self.ready(img, *params),
                n == self.total_splits,
                xs == self.x_split,
                indices@.len() == n,
                forall|i: int| 0 <= i < indices@.len() ==> indices@[i] < n,
                pos <= n,
                similarity == self.arrangement_cost(img, *params, indices@, pos as nat),
                similarity <= 2 * MAX_BORDER_COST * pos,
            decreases n - pos,
        {
            let here = self.tile_view(params, indices[pos]);
            let mut seams: u128 = 0;
            if pos >= xs {
                let above = self.tile_view(params, indices[pos - xs]);
                seams = compute_border_abs_diff(img, &above, &here, Direction::Down) as u128;
            }
            if pos % xs != 0 {
                assert(pos >= 1) by (nonlinear_arith)
                    requires
                        pos % xs != 0,
                        xs >= 1,
                ;
                let left = self.tile_view(params, indices[pos - 1]);
                seams = seams + compute_border_abs_diff(img, &left, &here, Direction::Right) as u128;
            }
            assert(similarity + seams <= 2 * MAX_BORDER_COST * (pos + 1)) by (nonlinear_arith)
                requires
                    similarity <= 2 * MAX_BORDER_COST * pos,
                    seams <= 2 * MAX_BORDER_COST,
            ;
            assert(2 * MAX_BORDER_COST * (pos + 1) <= 2 * MAX_BORDER_COST * usize::MAX) by (nonlinear_arith)
                requires
                    pos + 1 <= usize::MAX,
            ;
            assert(usize::MAX <= u64::MAX);
            assert(2 * MAX_BORDER_COST * usize::MAX <= u128::MAX) by (nonlinear_arith)
                requires
                    usize::MAX <= u64::MAX,
            ;
            similarity = similarity + seams;
            pos = pos + 1;
        }
        similarity
    }

    /// The greedy assembly from `start` together with its global cost.
    pub fn evaluate_candidate(&self, img: &Image, params: &DimensionParams, start: usize) -> (r: (
        Vec<usize>,
        u128,
    ))
        requires
            self.ready(img, *params),
            start < self.total_splits,
        ensures
            r.0@ == self.greedy(img, *params, start),
            r.1 == self.candidate_cost(img, *params, start),
    {
        let indices = self.greedy_arrangement(img, params, start);
        let cost = self.compute_total_abs_diff(img, &indices, params);
        (indices, cost)
    }
}

/// Relies on rayon's `into_par_iter` over a range, `map`, and
/// `collect_into_vec`, which for an indexed parallel iterator stores the
/// result for `start` at index `start`. Each candidate is evaluated by
/// `SnsImpl::evaluate_candidate`, on its own data.
#[verifier::external_body]
fn evaluate_all_candidates(sns: &SnsImpl, img: &Image, params: &DimensionParams) -> (r: Vec<
    (Vec<usize>, u128),
>)
    requires
        sns.ready(img, *params),
    ensures
        r@.len() == sns.total_splits,
        forall|s: int|
            0 <= s < r@.len() ==> (#[trigger] r@[s]).0@ == sns.greedy(img, *params, s as usize) && r@[s].1
                == sns.candidate_cost(img, *params, s as usize),
{
    let mut out = Vec::new();
    (0..sns.total_splits).into_par_iter().map(|start| sns.evaluate_candidate(img, params, start))
        .collect_into_vec(&mut out);
    out
}

impl SnsImpl {
    /// Searches for the arrangement of the tiles of `img` with the least
    /// border discontinuity: one greedy assembly per starting tile, the one
    /// with the lowest global cost winning, the lowest start on ties.
    /// `Err(Convert)` when `params` does not describe `img` divided by this
    /// grid.
    pub fn decode(&self, img: &Image, params: &DimensionParams) -> (r: Result<Vec<usize>, Error>)
        requires
            self.wf(),
            img.wf(),
        ensures
            match r {
                Ok(perm) => {
                    &&& self.ready(img, *params)
                    &&& perm@ == self.reconstruction(img, *params)
                    &&& is_permutation(perm@, self.total_splits as nat)
                },
                Err(e) => !self.ready(img, *params) && e == Error::Convert,
            },
    {
        if img.width != params.width || img.height != params.height || !self.divides(params) {
            return Err(Error::Convert);
        }
        let mut candidates = evaluate_all_candidates(self, img, params);
        let n = self.total_splits;
        proof {
            self.lemma_total_positive();
        }
        let mut best: usize = 0;
        let mut best_cost: u128 = candidates[0].1;
        let mut s: usize = 1;
        while s < n
            invariant
                self.ready(img, *params),
                n == self.total_splits,
                candidates@.len() == n,
                forall|i: int|
                    0 <= i < candidates@.len() ==> (#[trigger] candidates@[i]).0@ == self.greedy(
                        img,
                        *params,
                        i as usize,
                    ) && candidates@[i].1 == self.candidate_cost(img, *params, i as usize),
                1 <= s <= n,
                best == self.best_start(img, *params, s as nat),
                best < s,
                best_cost == self.candidate_cost(img, *params, best),
            decreases n - s,
        {
            if candidates[s].1 < best_cost {
                best = s;
                best_cost = candidates[s].1;
            }
            s = s + 1;
        }
        let (perm, _) = candidates.swap_remove(best);
        proof {
            self.lemma_reconstruction_is_permutation(img, *params);
        }
        Ok(perm)
    }
}

} // verus!
