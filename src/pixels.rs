use vstd::prelude::*;

verus! {

/// An RGBA image with 8 bits per channel, stored row-major, four bytes per
/// pixel.
#[derive(Debug, Clone)]
pub struct Image {
    pub width: u32,
    pub height: u32,
    pub data: Vec<u8>,
}

impl Image {
    /// The buffer holds exactly four bytes for every pixel.
    pub open spec fn wf(&self) -> bool {
        self.data@.len() == 4 * self.width * self.height
    }

    /// Position in `data` of channel `c` of the pixel at column `x`, row `y`.
    pub open spec fn offset(&self, x: int, y: int, c: int) -> int {
        4 * (y * self.width + x) + c
    }

    /// Channel `c` of the pixel at column `x`, row `y`.
    pub open spec fn channel(&self, x: int, y: int, c: int) -> u8 {
        self.data@[self.offset(x, y, c)]
    }

    /// A black, fully transparent image.
    pub fn new(width: u32, height: u32) -> (r: Image)
        requires
            4 * width * height <= usize::MAX,
        ensures
            r.wf(),
            r.width == width,
            r.height == height,
            forall|i: int| 0 <= i < r.data@.len() ==> r.data@[i] == 0u8,
    {
        let n: u128 = pixel_bytes(width, height);
        Image { width, height, data: vec![0u8; n as usize] }
    }

    /// Wraps a raw row-major RGBA buffer; `None` when its length is not four
    /// bytes per pixel.
    pub fn from_raw(width: u32, height: u32, data: Vec<u8>) -> (r: Option<Image>)
        ensures
            r.is_some() <==> data@.len() == 4 * width * height,
            r.is_some() ==> r.unwrap().wf() && r.unwrap().width == width && r.unwrap().height
                == height && r.unwrap().data@ == data@,
    {
        if data.len() as u128 == pixel_bytes(width, height) {
            Some(Image { width, height, data })
        } else {
            None
        }
    }

    pub fn width(&self) -> (r: u32)
        ensures
            r == self.width,
    {
        self.width
    }

    pub fn height(&self) -> (r: u32)
        ensures
            r == self.height,
    {
        self.height
    }

    /// The raw row-major RGBA bytes.
    pub fn as_raw(&self) -> (r: &Vec<u8>)
        ensures
            r@ == self.data@,
    {
        &self.data
    }

    /// The four channels of the pixel at column `x`, row `y`.
    pub fn pixel(&self, x: u32, y: u32) -> (r: [u8; 4])
        requires
            self.wf(),
            x < self.width,
            y < self.height,
        ensures
            forall|c: int| 0 <= c < 4 ==> r[c] == self.channel(x as int, y as int, c),
    {
        proof {
            lemma_pixel_in_bounds(self.width as int, self.height as int, x as int, y as int);
        }
        let len: usize = self.data.len();
        let base: usize = 4 * ((y as usize) * (self.width as usize) + (x as usize));
        [self.data[base], self.data[base + 1], self.data[base + 2], self.data[base + 3]]
    }
}

/// The number of bytes that a `width` x `height` image takes.
pub fn pixel_bytes(width: u32, height: u32) -> (r: u128)
    ensures
        r == 4 * width * height,
{
    proof {
        assert(4 * width * height <= 4 * u32::MAX * u32::MAX) by (nonlinear_arith)
            requires
                width <= u32::MAX,
                height <= u32::MAX,
        ;
        assert(4 * width <= 4 * u32::MAX);
    }
    4 * (width as u128) * (height as u128)
}

/// The last byte of a pixel inside a `width` x `height` image lies inside its
/// buffer.
pub proof fn lemma_pixel_in_bounds(width: int, height: int, x: int, y: int) by (nonlinear_arith)
    requires
        0 <= x < width,
        0 <= y < height,
    ensures
        0 <= y * width + x < width * height,
        4 * (y * width + x) + 3 < 4 * width * height,
{
}

} // verus!
