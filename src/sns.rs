use vstd::prelude::*;
use vstd::arithmetic::div_mod::{
    lemma_fundamental_div_mod,
    lemma_fundamental_div_mod_converse,
    lemma_mod_bound,
    lemma_multiply_divide_lt,
};

use crate::error::Error;
use crate::perm::{is_permutation, lemma_permuted_multiset};
use crate::pixels::{lemma_pixel_in_bounds, Image};
use crate::similarity::TileView;

verus! {

/// A grid of `x_split` columns by `y_split` rows of tiles.
pub struct SnsImpl {
    pub x_split: u32,
    pub y_split: u32,
    pub total_splits: usize,
}

/// The pixel sizes of an image and of each of its tiles.
#[derive(Debug, Clone, Copy, PartialEq, Eq, Structural)]
pub struct DimensionParams {
    pub width: u32,
    pub height: u32,
    pub sub_width: u32,
    pub sub_height: u32,
}

impl SnsImpl {
    /// Both split counts are positive and `total_splits` is their product.
    pub open spec fn wf(&self) -> bool {
        &&& self.x_split >= 1
        &&& self.y_split >= 1
        &&& self.total_splits == self.x_split * self.y_split
    }

    /// `p` divides the image into this grid with nothing left over.
    pub open spec fn fits(&self, p: DimensionParams) -> bool {
        &&& p.width == self.x_split * p.sub_width
        &&& p.height == self.y_split * p.sub_height
    }

    /// The window of tile `idx` (row-major) in an image divided as `p`.
    pub open spec fn tile_spec(&self, p: DimensionParams, idx: int) -> TileView {
        TileView {
            x: ((idx % self.x_split as int) * p.sub_width) as u32,
            y: ((idx / self.x_split as int) * p.sub_height) as u32,
            width: p.sub_width,
            height: p.sub_height,
        }
    }

    /// The pixel of the input that lands at column `x`, row `y` of the output
    /// when destination tile `d` receives source tile `perm[d]`.
    pub open spec fn source_pixel(&self, p: DimensionParams, perm: Seq<usize>, x: int, y: int) -> (
        int,
        int,
    ) {
        let xs = self.x_split as int;
        let d = (y / p.sub_height as int) * xs + x / p.sub_width as int;
        let s = perm[d] as int;
        (
            (s % xs) * p.sub_width + x % p.sub_width as int,
            (s / xs) * p.sub_height + y % p.sub_height as int,
        )
    }

    /// The bytes of the image that `arrange_splits` builds.
    pub open spec fn arranged(&self, p: DimensionParams, img: &Image, perm: Seq<usize>) -> Seq<u8> {
        Seq::new(
            (4 * p.width * p.height) as nat,
            |i: int|
                {
                    let q = i / 4;
                    let xy = self.source_pixel(p, perm, q % p.width as int, q / p.width as int);
                    img.channel(xy.0, xy.1, i % 4)
                },
        )
    }

    /// The inputs on which every tile copy of `arrange_splits` stays inside
    /// both images: the image has the size `p` gives, `p` divides it into
    /// this grid, and `perm` names one source tile for each destination tile.
    pub open spec fn arrangeable(&self, img: &Image, p: DimensionParams, perm: Seq<usize>) -> bool {
        &&& img.width == p.width
        &&& img.height == p.height
        &&& self.fits(p)
        &&& perm.len() == self.total_splits
        &&& forall|d: int| 0 <= d < perm.len() ==> perm[d] < self.total_splits
    }

    pub fn new(x_split: u32, y_split: u32) -> (r: SnsImpl)
        requires
            x_split >= 1,
            y_split >= 1,
            x_split * y_split <= usize::MAX,
        ensures
            r.wf(),
            r.x_split == x_split,
            r.y_split == y_split,
            r.total_splits == x_split * y_split,
    {
        let total_splits: usize = (x_split as usize) * (y_split as usize);
        SnsImpl { x_split, y_split, total_splits }
    }

    /// Splits the image's dimensions into tile dimensions, or reports that
    /// they are not multiples of the split counts.
    pub fn compute_dimension_params(&self, img: &Image) -> (r: Result<DimensionParams, Error>)
        requires
            self.wf(),
        ensures
            match r {
                Ok(p) => {
                    &&& img.width % self.x_split == 0
                    &&& img.height % self.y_split == 0
                    &&& p.width == img.width
                    &&& p.height == img.height
                    &&& p.sub_width == img.width / self.x_split
                    &&& p.sub_height == img.height / self.y_split
                    &&& p.sub_width * self.x_split == img.width
                    &&& p.sub_height * self.y_split == img.height
                },
                Err(e) => {
                    &&& (img.width % self.x_split != 0 || img.height % self.y_split != 0)
                    &&& e == (Error::DimensionMismatch {
                        width: img.width,
                        height: img.height,
                        x_split: self.x_split,
                        y_split: self.y_split,
                    })
                },
            },
    {
        let width = img.width;
        let height = img.height;
        if width % self.x_split != 0 || height % self.y_split != 0 {
            return Err(
                Error::DimensionMismatch {
                    width,
                    height,
                    x_split: self.x_split,
                    y_split: self.y_split,
                },
            );
        }
        let sub_width = width / self.x_split;
        let sub_height = height / self.y_split;
        proof {
            lemma_fundamental_div_mod(width as int, self.x_split as int);
            lemma_fundamental_div_mod(height as int, self.y_split as int);
            assert(sub_width * self.x_split == self.x_split * sub_width) by (nonlinear_arith);
            assert(sub_height * self.y_split == self.y_split * sub_height) by (nonlinear_arith);
        }
        Ok(DimensionParams { width, height, sub_width, sub_height })
    }

    /// `params` divides an image into this grid with nothing left over.
    pub fn divides(&self, params: &DimensionParams) -> (r: bool)
        requires
            self.wf(),
        ensures
            r == self.fits(*params),
    {
        let xs: u64 = self.x_split as u64;
        let ys: u64 = self.y_split as u64;
        proof {
            assert(xs * params.sub_width <= u32::MAX * u32::MAX) by (nonlinear_arith)
                requires
                    xs <= u32::MAX,
                    params.sub_width <= u32::MAX,
            ;
            assert(ys * params.sub_height <= u32::MAX * u32::MAX) by (nonlinear_arith)
                requires
                    ys <= u32::MAX,
                    params.sub_height <= u32::MAX,
            ;
        }
        (params.width as u64) == xs * (params.sub_width as u64) && (params.height as u64) == ys * (
        params.sub_height as u64)
    }
}

/// Every entry of `v` is below `n`.
fn all_below(v: &Vec<usize>, n: usize) -> (r: bool)
    ensures
        r == forall|i: int| 0 <= i < v@.len() ==> v@[i] < n,
{
    let mut i: usize = 0;
    while i < v.len()
        invariant
            i <= v@.len(),
            forall|j: int| 0 <= j < i ==> v@[j] < n,
        decreases v@.len() - i,
    {
        if v[i] >= n {
            return false;
        }
        i = i + 1;
    }
    true
}

/// A coordinate below `split * sub` lies in cell `v / sub`, at offset
/// `v % sub` inside it.
pub proof fn lemma_grid_cell(v: int, sub: int, split: int)
    requires
        0 <= v < split * sub,
        split >= 0,
    ensures
        sub > 0,
        0 <= v / sub < split,
        0 <= v % sub < sub,
        (v / sub) * sub + v % sub == v,
{
    assert(sub > 0) by (nonlinear_arith)
        requires
            0 <= v < split * sub,
            split >= 0,
    ;
    lemma_fundamental_div_mod(v, sub);
    lemma_mod_bound(v, sub);
    assert(sub * split == split * sub) by (nonlinear_arith);
    lemma_multiply_divide_lt(v, sub, split);
    assert(v / sub >= 0) by (nonlinear_arith)
        requires
            v >= 0,
            sub > 0,
    ;
    assert((v / sub) * sub == sub * (v / sub)) by (nonlinear_arith);
}

/// Offset `r` inside cell `q` of a grid of `split` cells of size `sub` stays
/// below `split * sub`.
pub proof fn lemma_cell_offset(q: int, r: int, sub: int, split: int) by (nonlinear_arith)
    requires
        0 <= q < split,
        0 <= r < sub,
    ensures
        0 <= q * sub + r < split * sub,
{
}

/// A cell below `split` of size `sub` ends at or before `split * sub`.
pub proof fn lemma_cell_fits(q: int, sub: int, split: int) by (nonlinear_arith)
    requires
        0 <= q < split,
        sub >= 0,
    ensures
        0 <= q * sub,
        q * sub + sub <= split * sub,
{
}

impl SnsImpl {
    /// Copies source tile `indices_from[d]` of `img` into destination tile `d`
    /// of a new image, for every destination tile.
    pub fn arrange_splits(&self, img: &Image, params: &DimensionParams, indices_from: &Vec<usize>) -> (r:
        Result<Image, Error>)
        requires
            self.wf(),
            img.wf(),
        ensures
            match r {
                Ok(out) => {
                    &&& self.arrangeable(img, *params, indices_from@)
                    &&& out.wf()
                    &&& out.width == params.width
                    &&& out.height == params.height
                    &&& out.data@ == self.arranged(*params, img, indices_from@)
                },
                Err(e) => !self.arrangeable(img, *params, indices_from@) && e == Error::Convert,
            },
    {
        if img.width != params.width || img.height != params.height {
            return Err(Error::Convert);
        }
        if !self.divides(params) {
            return Err(Error::Convert);
        }
        if indices_from.len() != self.total_splits || !all_below(indices_from, self.total_splits) {
            return Err(Error::Convert);
        }
        let ghost perm = indices_from@;
        let w: usize = params.width as usize;
        let h: usize = params.height as usize;
        let sw: usize = params.sub_width as usize;
        let sh: usize = params.sub_height as usize;
        let xsu: usize = self.x_split as usize;
        let n_bytes: usize = img.data.len();
        proof {
            assert(w * h <= n_bytes) by (nonlinear_arith)
                requires
                    n_bytes == 4 * w * h,
            ;
        }
        let n_pixels: usize = w * h;
        let mut out: Vec<u8> = Vec::with_capacity(n_bytes);
        let mut p: usize = 0;
        while p < n_pixels
            invariant
                self.wf(),
                img.wf(),
                self.arrangeable(img, *params, perm),
                indices_from@ == perm,
                w == params.width,
                h == params.height,
                sw == params.sub_width,
                sh == params.sub_height,
                xsu == self.x_split,
                n_pixels == w * h,
                n_bytes == img.data@.len(),
                p <= n_pixels,
                out@.len() == 4 * p,
                forall|i: int| 0 <= i < out@.len() ==> out@[i] == #[trigger] self.arranged(*params, img, perm)[i],
            decreases n_pixels - p,
        {
            let x: usize = p % w;
            let y: usize = p / w;
            proof {
                assert(w * h == h * w) by (nonlinear_arith);
                lemma_grid_cell(p as int, w as int, h as int);
                lemma_grid_cell(x as int, sw as int, xsu as int);
                lemma_grid_cell(y as int, sh as int, self.y_split as int);
                lemma_cell_offset((y / sh) as int, (x / sw) as int, xsu as int, self.y_split as int);
                assert(self.y_split * xsu == self.total_splits) by (nonlinear_arith)
                    requires self.total_splits == xsu * self.y_split;
            }
            let d: usize = (y / sh) * xsu + x / sw;
            proof {
                assert(self.y_split * xsu == self.total_splits) by (nonlinear_arith)
                    requires self.total_splits == xsu * self.y_split;
            }
            let s: usize = indices_from[d];
            proof {
                lemma_grid_cell(s as int, xsu as int, self.y_split as int);
                lemma_cell_offset((s % xsu) as int, (x % sw) as int, sw as int, xsu as int);
                lemma_cell_offset((s / xsu) as int, (y % sh) as int, sh as int, self.y_split as int);
                assert(xsu * sw == w);
                assert(self.y_split * sh == h);
            }
            let sx: usize = (s % xsu) * sw + x % sw;
            let sy: usize = (s / xsu) * sh + y % sh;
            proof {
                lemma_pixel_in_bounds(w as int, h as int, sx as int, sy as int);
                lemma_pixel_in_bounds(w as int, h as int, x as int, y as int);
            }
            let base: usize = 4 * (sy * w + sx);
            let ghost old_out = out@;
            out.push(img.data[base]);
            out.push(img.data[base + 1]);
            out.push(img.data[base + 2]);
            out.push(img.data[base + 3]);
            proof {
                assert forall|c: int| 0 <= c < 4 implies #[trigger] out@[4 * p + c] == self.arranged(
                    *params,
                    img,
                    perm,
                )[4 * p + c] by {
                    lemma_fundamental_div_mod_converse(4 * p + c, 4, p as int, c);
                    assert(p < w * h);
                    assert(4 * p + c < 4 * w * h) by (nonlinear_arith)
                        requires p < w * h, 0 <= c < 4;
                }
                assert forall|i: int| 0 <= i < out@.len() implies out@[i] == #[trigger] self.arranged(
                    *params,
                    img,
                    perm,
                )[i] by {
                    if i >= 4 * p {
                        assert(out@[4 * p + (i - 4 * p)] == self.arranged(*params, img, perm)[4 * p + (i - 4 * p)]);
                    } else {
                        assert(out@[i] == old_out[i]);
                    }
                }
            }
            p = p + 1;
        }
        proof {
            assert(4 * p == 4 * w * h) by (nonlinear_arith)
                requires p == w * h;
            assert(out@ =~= self.arranged(*params, img, perm));
        }
        Ok(Image { width: params.width, height: params.height, data: out })
    }
}

impl SnsImpl {
    /// Arranging with the identity permutation reproduces the input image
    /// byte for byte.
    pub proof fn lemma_arrange_identity(&self, img: &Image, p: DimensionParams, perm: Seq<usize>)
        requires
            self.wf(),
            img.wf(),
            self.arrangeable(img, p, perm),
            forall|d: int| 0 <= d < perm.len() ==> perm[d] == d,
        ensures
            self.arranged(p, img, perm) == img.data@,
    {
        let w = p.width as int;
        let h = p.height as int;
        let sw = p.sub_width as int;
        let sh = p.sub_height as int;
        let xs = self.x_split as int;
        let ys = self.y_split as int;
        let out = self.arranged(p, img, perm);
        assert forall|i: int| 0 <= i < out.len() implies out[i] == img.data@[i] by {
            let q = i / 4;
            let c = i % 4;
            lemma_fundamental_div_mod(i, 4);
            assert(0 <= q < w * h) by (nonlinear_arith)
                requires
                    0 <= i < 4 * w * h,
                    q == i / 4,
            ;
            assert(w * h == h * w) by (nonlinear_arith);
            lemma_grid_cell(q, w, h);
            let x = q % w;
            let y = q / w;
            lemma_grid_cell(x, sw, xs);
            lemma_grid_cell(y, sh, ys);
            let d = (y / sh) * xs + x / sw;
            lemma_cell_offset(y / sh, x / sw, xs, ys);
            assert(ys * xs == self.total_splits) by (nonlinear_arith)
                requires
                    self.total_splits == xs * ys,
            ;
            lemma_fundamental_div_mod_converse(d, xs, y / sh, x / sw);
            assert(perm[d] == d);
            assert(self.source_pixel(p, perm, x, y) == (x, y));
            assert(img.offset(x, y, c) == i) by (nonlinear_arith)
                requires
                    i == 4 * q + c,
                    q == y * w + x,
                    img.offset(x, y, c) == 4 * (y * w + x) + c,
            ;
            assert(img.offset(x, y, c) == 4 * (y * img.width + x) + c);
            assert(q == y * w + x);
        }
        assert(out =~= img.data@);
    }

    /// Each destination tile `d` of an arrangement holds, pixel for pixel,
    /// source tile `perm[d]` of the input.
    pub proof fn lemma_arrange_moves_tiles(
        &self,
        img: &Image,
        p: DimensionParams,
        perm: Seq<usize>,
        d: int,
        i: int,
        j: int,
        c: int,
    )
        requires
            self.wf(),
            img.wf(),
            self.arrangeable(img, p, perm),
            0 <= d < self.total_splits,
            0 <= i < p.sub_width,
            0 <= j < p.sub_height,
            0 <= c < 4,
        ensures
            ({
                let dst = self.tile_spec(p, d);
                let src = self.tile_spec(p, perm[d] as int);
                self.arranged(p, img, perm)[img.offset(dst.x + i, dst.y + j, c)] == img.channel(
                    src.x + i,
                    src.y + j,
                    c,
                )
            }),
    {
        let w = p.width as int;
        let h = p.height as int;
        let sw = p.sub_width as int;
        let sh = p.sub_height as int;
        let xs = self.x_split as int;
        let ys = self.y_split as int;
        assert(ys * xs == self.total_splits) by (nonlinear_arith)
            requires
                self.total_splits == xs * ys,
        ;
        lemma_grid_cell(d, xs, ys);
        let col = d % xs;
        let row = d / xs;
        lemma_cell_offset(col, i, sw, xs);
        lemma_cell_offset(row, j, sh, ys);
        let x = col * sw + i;
        let y = row * sh + j;
        let s = perm[d] as int;
        lemma_grid_cell(s, xs, ys);
        lemma_cell_offset(s % xs, i, sw, xs);
        lemma_cell_offset(s / xs, j, sh, ys);
        lemma_cell_fits(col, sw, xs);
        lemma_cell_fits(row, sh, ys);
        lemma_cell_fits(s % xs, sw, xs);
        lemma_cell_fits(s / xs, sh, ys);
        let dst = self.tile_spec(p, d);
        let src = self.tile_spec(p, s);
        assert(dst.x + i == x && dst.y + j == y);
        assert(src.x + i == (s % xs) * sw + i && src.y + j == (s / xs) * sh + j);
        // the output pixel (x, y) and its place in the buffer
        lemma_fundamental_div_mod_converse(x, sw, col, i);
        lemma_fundamental_div_mod_converse(y, sh, row, j);
        lemma_pixel_in_bounds(w, h, x, y);
        let q = y * w + x;
        lemma_fundamental_div_mod_converse(q, w, y, x);
        let k = 4 * q + c;
        lemma_fundamental_div_mod_converse(k, 4, q, c);
        assert(img.offset(x, y, c) == k);
        assert(self.source_pixel(p, perm, x, y) == ((s % xs) * sw + i, (s / xs) * sh + j));
    }
}

impl SnsImpl {
    /// The bytes of tile `t` of `img`, row by row.
    pub open spec fn tile_bytes(&self, p: DimensionParams, img: &Image, t: int) -> Seq<u8> {
        let v = self.tile_spec(p, t);
        Seq::new(
            (4 * p.sub_width * p.sub_height) as nat,
            |k: int|
                {
                    let q = k / 4;
                    img.channel(v.x + q % p.sub_width as int, v.y + q / p.sub_width as int, k % 4)
                },
        )
    }

    /// The contents of every tile of `img`, in tile order.
    pub open spec fn tiles(&self, p: DimensionParams, img: &Image) -> Seq<Seq<u8>> {
        Seq::new(self.total_splits as nat, |t: int| self.tile_bytes(p, img, t))
    }

    /// Arranging by a permutation only relocates tiles: the output holds the
    /// same multiset of tile contents as the input.
    pub proof fn lemma_arrange_conserves_tiles(
        &self,
        img: &Image,
        p: DimensionParams,
        perm: Seq<usize>,
        out: &Image,
    )
        requires
            self.wf(),
            img.wf(),
            self.arrangeable(img, p, perm),
            is_permutation(perm, self.total_splits as nat),
            out.width == p.width,
            out.height == p.height,
            out.data@ == self.arranged(p, img, perm),
        ensures
            self.tiles(p, out).to_multiset() == self.tiles(p, img).to_multiset(),
    {
        let sw = p.sub_width as int;
        let sh = p.sub_height as int;
        let a = self.tiles(p, out);
        let b = self.tiles(p, img);
        assert forall|d: int| 0 <= d < a.len() implies a[d] == b[perm[d] as int] by {
            let ta = self.tile_bytes(p, out, d);
            let tb = self.tile_bytes(p, img, perm[d] as int);
            assert forall|k: int| 0 <= k < ta.len() implies ta[k] == tb[k] by {
                let q = k / 4;
                let c = k % 4;
                lemma_fundamental_div_mod(k, 4);
                assert(0 <= q < sh * sw) by (nonlinear_arith)
                    requires
                        0 <= k < 4 * sw * sh,
                        q == k / 4,
                ;
                lemma_grid_cell(q, sw, sh);
                self.lemma_arrange_moves_tiles(img, p, perm, d, q % sw, q / sw, c);
            }
            assert(ta =~= tb);
        }
        lemma_permuted_multiset(a, b, perm);
    }
}

} // verus!
