//! Slice an RGBA image into a grid of equal tiles, shuffle the tiles, and
//! rebuild a plausible original arrangement from a shuffled image alone by a
//! greedy search driven by how well tile borders match.
use vstd::prelude::*;

pub mod error;
pub mod perm;
pub mod pixels;
pub mod random;
pub mod reconstruct;
pub mod similarity;
pub mod sns;

use perm::is_permutation;

pub use error::Error;
pub use pixels::Image;
pub use random::{get_shuffled_indices, TileRng};
pub use similarity::{compute_border_abs_diff, Direction, TileView};
pub use sns::{DimensionParams, SnsImpl};

verus! {

/// The grid of `x_split` columns by `y_split` rows.
pub open spec fn grid(x_split: u32, y_split: u32) -> SnsImpl {
    SnsImpl { x_split, y_split, total_splits: (x_split * y_split) as usize }
}

/// The image's dimensions are multiples of the split counts.
pub open spec fn divisible(img: &Image, x_split: u32, y_split: u32) -> bool {
    img.width % x_split == 0 && img.height % y_split == 0
}

/// The tile geometry of `img` split `x_split` by `y_split`.
pub open spec fn split_params(img: &Image, x_split: u32, y_split: u32) -> DimensionParams {
    DimensionParams {
        width: img.width,
        height: img.height,
        sub_width: (img.width / x_split) as u32,
        sub_height: (img.height / y_split) as u32,
    }
}

/// The error for an image whose dimensions are not multiples of the splits.
pub open spec fn mismatch(img: &Image, x_split: u32, y_split: u32) -> Error {
    Error::DimensionMismatch { width: img.width, height: img.height, x_split, y_split }
}

/// Validates the geometry and, where it holds, returns the grid and its
/// tile sizes.
fn prepare(img: &Image, x_split: u32, y_split: u32) -> (r: Result<(SnsImpl, DimensionParams), Error>)
    requires
        img.wf(),
        x_split >= 1,
        y_split >= 1,
        x_split * y_split <= usize::MAX,
    ensures
        match r {
            Ok((sns, params)) => {
                &&& divisible(img, x_split, y_split)
                &&& sns == grid(x_split, y_split)
                &&& params == split_params(img, x_split, y_split)
                &&& sns.ready(img, params)
            },
            Err(e) => !divisible(img, x_split, y_split) && e == mismatch(img, x_split, y_split),
        },
{
    let sns = SnsImpl::new(x_split, y_split);
    let params = sns.compute_dimension_params(img)?;
    proof {
        assert(x_split * params.sub_width == params.sub_width * x_split) by (nonlinear_arith);
        assert(y_split * params.sub_height == params.sub_height * y_split) by (nonlinear_arith);
    }
    Ok((sns, params))
}

/// Shuffles the tiles of `img` with a permutation drawn from `rng`.
pub fn encode_image_with_rng(img: &Image, x_split: u32, y_split: u32, rng: &mut TileRng) -> (r: Result<
    Image,
    Error,
>)
    requires
        img.wf(),
        x_split >= 1,
        y_split >= 1,
        x_split * y_split <= usize::MAX,
    ensures
        match r {
            Ok(out) => {
                &&& divisible(img, x_split, y_split)
                &&& out.wf()
                &&& out.width == img.width
                &&& out.height == img.height
                &&& exists|perm: Seq<usize>|
                    #[trigger] is_permutation(perm, (x_split * y_split) as nat) && out.data@ == grid(
                        x_split,
                        y_split,
                    ).arranged(split_params(img, x_split, y_split), img, perm)
            },
            Err(e) => !divisible(img, x_split, y_split) && e == mismatch(img, x_split, y_split),
        },
{
    let (sns, params) = prepare(img, x_split, y_split)?;
    let indices = sns.get_shuffled_indices(rng);
    let out = sns.arrange_splits(img, &params, &indices);
    match out {
        Ok(out) => {
            assert(is_permutation(indices@, (x_split * y_split) as nat));
            Ok(out)
        },
        Err(e) => Err(e),
    }
}

/// Shuffles the tiles of `img` with a generator freshly seeded from the
/// operating system's entropy source.
pub fn encode_image(img: &Image, x_split: u32, y_split: u32) -> (r: Result<Image, Error>)
    requires
        img.wf(),
        x_split >= 1,
        y_split >= 1,
        x_split * y_split <= usize::MAX,
    ensures
        match r {
            Ok(out) => {
                &&& divisible(img, x_split, y_split)
                &&& out.wf()
                &&& out.width == img.width
                &&& out.height == img.height
                &&& exists|perm: Seq<usize>|
                    #[trigger] is_permutation(perm, (x_split * y_split) as nat) && out.data@ == grid(
                        x_split,
                        y_split,
                    ).arranged(split_params(img, x_split, y_split), img, perm)
            },
            Err(e) => if divisible(img, x_split, y_split) {
                e == Error::EntropyUnavailable
            } else {
                e == mismatch(img, x_split, y_split)
            },
        },
{
    let _ = prepare(img, x_split, y_split)?;
    let mut rng = TileRng::from_entropy()?;
    encode_image_with_rng(img, x_split, y_split, &mut rng)
}

/// Rebuilds the most plausible arrangement of the tiles of `img`: the
/// tiles are moved as the reconstruction search decides.
pub fn decode_image(img: &Image, x_split: u32, y_split: u32) -> (r: Result<Image, Error>)
    requires
        img.wf(),
        x_split >= 1,
        y_split >= 1,
        x_split * y_split <= usize::MAX,
    ensures
        match r {
            Ok(out) => {
                let sns = grid(x_split, y_split);
                let params = split_params(img, x_split, y_split);
                &&& divisible(img, x_split, y_split)
                &&& out.wf()
                &&& out.width == img.width
                &&& out.height == img.height
                &&& out.data@ == sns.arranged(params, img, sns.reconstruction(img, params))
            },
            Err(e) => !divisible(img, x_split, y_split) && e == mismatch(img, x_split, y_split),
        },
{
    let (sns, params) = prepare(img, x_split, y_split)?;
    let indices = match sns.decode(img, &params) {
        Ok(indices) => indices,
        Err(e) => return Err(e),
    };
    sns.arrange_splits(img, &params, &indices)
}

} // verus!
