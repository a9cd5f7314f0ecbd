use vstd::prelude::*;

use crate::pixels::Image;

verus! {

/// Which edge of the first tile is compared against the opposite edge of the
/// second.
#[derive(Debug, Clone, Copy, PartialEq, Eq, Structural)]
pub enum Direction {
    Up,
    Down,
    Left,
    Right,
}

/// A rectangular window onto an image: its top-left pixel and its size.
#[derive(Debug, Clone, Copy, PartialEq, Eq, Structural)]
pub struct TileView {
    pub x: u32,
    pub y: u32,
    pub width: u32,
    pub height: u32,
}

impl TileView {
    /// The window lies inside `img`.
    pub open spec fn fits(&self, img: &Image) -> bool {
        self.x + self.width <= img.width && self.y + self.height <= img.height
    }
}

/// Absolute difference of two channel values.
pub open spec fn channel_diff(a: u8, b: u8) -> nat {
    if a >= b {
        (a - b) as nat
    } else {
        (b - a) as nat
    }
}

/// Sum over the four channels of the absolute differences between the pixel
/// at `(x1, y1)` and the pixel at `(x2, y2)`.
pub open spec fn pixel_diff(img: &Image, x1: int, y1: int, x2: int, y2: int) -> nat {
    channel_diff(img.channel(x1, y1, 0), img.channel(x2, y2, 0)) + channel_diff(
        img.channel(x1, y1, 1),
        img.channel(x2, y2, 1),
    ) + channel_diff(img.channel(x1, y1, 2), img.channel(x2, y2, 2)) + channel_diff(
        img.channel(x1, y1, 3),
        img.channel(x2, y2, 3),
    )
}

/// Sum of `pixel_diff` over `n` pixel pairs that start at `(x1, y1)` and
/// `(x2, y2)` and step together one pixel to the right (`along_row`) or one
/// pixel down.
pub open spec fn seam_cost(
    img: &Image,
    x1: int,
    y1: int,
    x2: int,
    y2: int,
    along_row: bool,
    n: nat,
) -> nat
    decreases n,
{
    if n == 0 {
        0
    } else {
        let k = n - 1;
        seam_cost(img, x1, y1, x2, y2, along_row, (n - 1) as nat) + if along_row {
            pixel_diff(img, x1 + k, y1, x2 + k, y2)
        } else {
            pixel_diff(img, x1, y1 + k, x2, y2 + k)
        }
    }
}

/// How discontinuous the seam is when `theirs` is placed next to `mine` on the
/// side `dir`: the summed channel differences along the touching edges. A
/// window without rows or columns has no edge, and costs nothing.
pub open spec fn border_cost(img: &Image, mine: TileView, theirs: TileView, dir: Direction) -> nat {
    let w = mine.width as int;
    let h = mine.height as int;
    match dir {
        Direction::Up => if h == 0 {
            0
        } else {
            seam_cost(img, mine.x as int, mine.y as int, theirs.x as int, theirs.y + h - 1, true, w as nat)
        },
        Direction::Down => if h == 0 {
            0
        } else {
            seam_cost(img, mine.x as int, mine.y + h - 1, theirs.x as int, theirs.y as int, true, w as nat)
        },
        Direction::Left => if w == 0 {
            0
        } else {
            seam_cost(img, mine.x as int, mine.y as int, theirs.x + w - 1, theirs.y as int, false, h as nat)
        },
        Direction::Right => if w == 0 {
            0
        } else {
            seam_cost(img, mine.x + w - 1, mine.y as int, theirs.x as int, theirs.y as int, false, h as nat)
        },
    }
}

fn abs_diff_u8(a: u8, b: u8) -> (r: u64)
    ensures
        r == channel_diff(a, b),
{
    if a >= b {
        (a - b) as u64
    } else {
        (b - a) as u64
    }
}

fn pixel_abs_diff(img: &Image, x1: u32, y1: u32, x2: u32, y2: u32) -> (r: u64)
    requires
        img.wf(),
        x1 < img.width,
        y1 < img.height,
        x2 < img.width,
        y2 < img.height,
    ensures
        r == pixel_diff(img, x1 as int, y1 as int, x2 as int, y2 as int),
        r <= 1020,
{
    let p = img.pixel(x1, y1);
    let q = img.pixel(x2, y2);
    abs_diff_u8(p[0], q[0]) + abs_diff_u8(p[1], q[1]) + abs_diff_u8(p[2], q[2]) + abs_diff_u8(
        p[3],
        q[3],
    )
}

/// Sums `pixel_diff` along a seam of `n` pixel pairs.
fn seam_abs_diff(
    img: &Image,
    x1: u32,
    y1: u32,
    x2: u32,
    y2: u32,
    along_row: bool,
    n: u32,
) -> (r: u64)
    requires
        img.wf(),
        along_row ==> x1 + n <= img.width && x2 + n <= img.width && y1 < img.height && y2
            < img.height,
        !along_row ==> y1 + n <= img.height && y2 + n <= img.height && x1 < img.width && x2
            < img.width,
    ensures
        r == seam_cost(img, x1 as int, y1 as int, x2 as int, y2 as int, along_row, n as nat),
        r <= 1020 * n,
{
    let mut sum: u64 = 0;
    let mut k: u32 = 0;
    while k < n
        invariant
            k <= n,
            img.wf(),
            along_row ==> x1 + n <= img.width && x2 + n <= img.width && y1 < img.height && y2
                < img.height,
            !along_row ==> y1 + n <= img.height && y2 + n <= img.height && x1 < img.width && x2
                < img.width,
            sum == seam_cost(img, x1 as int, y1 as int, x2 as int, y2 as int, along_row, k as nat),
            sum <= 1020 * k,
        decreases n - k,
    {
        let d = if along_row {
            pixel_abs_diff(img, x1 + k, y1, x2 + k, y2)
        } else {
            pixel_abs_diff(img, x1, y1 + k, x2, y2 + k)
        };
        sum = sum + d;
        k = k + 1;
    }
    sum
}

/// The summed per-channel absolute difference along the edges where
/// `theirs` would touch `mine` if placed on the side `dir` of it.
pub fn compute_border_abs_diff(img: &Image, mine: &TileView, theirs: &TileView, dir: Direction) -> (r: u64)
    requires
        img.wf(),
        mine.fits(img),
        theirs.fits(img),
        mine.width == theirs.width,
        mine.height == theirs.height,
    ensures
        r == border_cost(img, *mine, *theirs, dir),
        r <= 1020 * if dir == Direction::Up || dir == Direction::Down {
            mine.width
        } else {
            mine.height
        },
{
    let w = mine.width;
    let h = mine.height;
    match dir {
        Direction::Up => if h == 0 {
            0
        } else {
            seam_abs_diff(img, mine.x, mine.y, theirs.x, theirs.y + h - 1, true, w)
        },
        Direction::Down => if h == 0 {
            0
        } else {
            seam_abs_diff(img, mine.x, mine.y + h - 1, theirs.x, theirs.y, true, w)
        },
        Direction::Left => if w == 0 {
            0
        } else {
            seam_abs_diff(img, mine.x, mine.y, theirs.x + w - 1, theirs.y, false, h)
        },
        Direction::Right => if w == 0 {
            0
        } else {
            seam_abs_diff(img, mine.x + w - 1, mine.y, theirs.x, theirs.y, false, h)
        },
    }
}

} // verus!
