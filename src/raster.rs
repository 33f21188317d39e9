//! The image being rendered: a row-major raster of RGB byte triplets.
use vstd::prelude::*;

verus! {

/// Where the triplet of pixel `(x, y)` starts in a raster `width` pixels
/// wide: rows top to bottom, pixels left to right within a row.
pub open spec fn pixel_offset(width: nat, x: nat, y: nat) -> nat {
    (y * width + x) * 3
}

/// `bytes` with the three bytes from `at` on replaced by `rgb`.
pub open spec fn with_triplet(bytes: Seq<u8>, at: int, rgb: Seq<u8>) -> Seq<u8> {
    bytes.update(at, rgb[0]).update(at + 1, rgb[1]).update(at + 2, rgb[2])
}

/// A `width` by `height` image whose pixels start black. Each pixel is
/// written independently of the others.
pub struct Image {
    width: usize,
    height: usize,
    data: Vec<u8>,
}

impl Image {
    /// The image's width in pixels.
    pub closed spec fn width_spec(&self) -> nat {
        self.width as nat
    }

    /// The image's height in pixels.
    pub closed spec fn height_spec(&self) -> nat {
        self.height as nat
    }

    /// The raster's bytes, three per pixel, in row-major order.
    pub closed spec fn bytes(&self) -> Seq<u8> {
        self.data@
    }

    /// The raster holds exactly one RGB triplet per pixel.
    pub open spec fn wf(&self) -> bool {
        self.bytes().len() == self.width_spec() * self.height_spec() * 3
    }

    /// The three bytes of pixel `(x, y)`.
    pub open spec fn pixel_spec(&self, x: nat, y: nat) -> Seq<u8> {
        let o = pixel_offset(self.width_spec(), x, y) as int;
        self.bytes().subrange(o, o + 3)
    }

    /// An all-black `width` by `height` image; `None` where its raster would
    /// not fit in memory's address range.
    pub fn new(width: usize, height: usize) -> (r: Option<Image>)
        ensures
            r.is_none() <==> width * height * 3 > usize::MAX,
            r matches Some(img) ==> {
                &&& img.wf()
                &&& img.width_spec() == width
                &&& img.height_spec() == height
                &&& forall|k: int| 0 <= k < img.bytes().len() ==> img.bytes()[k] == 0
            },
    {
        let n = match width.checked_mul(height) {
            Some(p) => p.checked_mul(3),
            None => None,
        };
        match n {
            Some(n) => {
                let mut data: Vec<u8> = Vec::new();
                let mut i: usize = 0;
                while i < n
                    invariant
                        0 <= i <= n,
                        data@.len() == i,
                        forall|k: int| 0 <= k < i ==> data@[k] == 0,
                    decreases n - i,
                {
                    data.push(0);
                    i += 1;
                }
                Some(Image { width, height, data })
            },
            None => {
                proof {
                    if width * height <= usize::MAX {
                        assert(width * height * 3 > usize::MAX);
                    } else {
                        assert(width * height * 3 > usize::MAX) by (nonlinear_arith)
                            requires
                                width * height > usize::MAX,
                        ;
                    }
                }
                None
            },
        }
    }

    /// The image's width in pixels.
    pub fn width(&self) -> (r: usize)
        ensures
            r == self.width_spec(),
    {
        self.width
    }

    /// The image's height in pixels.
    pub fn height(&self) -> (r: usize)
        ensures
            r == self.height_spec(),
    {
        self.height
    }

    /// The raster's bytes, three per pixel, in row-major order.
    pub fn as_bytes(&self) -> (r: &Vec<u8>)
        ensures
            r@ == self.bytes(),
    {
        &self.data
    }

    /// Writes the colour `rgb` to pixel `(x, y)`, leaving every other pixel
    /// as it was.
    pub fn set_pixel(&mut self, x: usize, y: usize, rgb: [u8; 3])
        requires
            old(self).wf(),
            x < old(self).width_spec(),
            y < old(self).height_spec(),
        ensures
            final(self).wf(),
            final(self).width_spec() == old(self).width_spec(),
            final(self).height_spec() == old(self).height_spec(),
            final(self).bytes() == with_triplet(
                old(self).bytes(),
                pixel_offset(old(self).width_spec(), x as nat, y as nat) as int,
                rgb@,
            ),
            final(self).pixel_spec(x as nat, y as nat) == rgb@,
            forall|x2: nat, y2: nat|
                #![trigger final(self).pixel_spec(x2, y2)]
                x2 < old(self).width_spec() && y2 < old(self).height_spec() && (x2 != x || y2 != y)
                    ==> final(self).pixel_spec(x2, y2) == old(self).pixel_spec(x2, y2),
    {
        let len = self.data.len();
        proof {
            lemma_offset_in_raster(self.width as nat, self.height as nat, x as nat, y as nat);
        }
        let o = (y * self.width + x) * 3;
        assert(o + 2 < len);
        self.data.set(o, rgb[0]);
        self.data.set(o + 1, rgb[1]);
        self.data.set(o + 2, rgb[2]);
        proof {
            let w = self.width as nat;
            let h = self.height as nat;
            assert(self.pixel_spec(x as nat, y as nat) =~= rgb@);
            assert forall|x2: nat, y2: nat|
                x2 < w && y2 < h && (x2 != x || y2 != y) implies #[trigger] self.pixel_spec(x2, y2)
                == old(self).pixel_spec(x2, y2) by {
                lemma_offset_in_raster(w, h, x2, y2);
                lemma_distinct_pixels(w, x as nat, y as nat, x2, y2);
                assert(self.pixel_spec(x2, y2) =~= old(self).pixel_spec(x2, y2));
            }
        }
    }

    /// The colour of pixel `(x, y)`.
    pub fn pixel(&self, x: usize, y: usize) -> (r: [u8; 3])
        requires
            self.wf(),
            x < self.width_spec(),
            y < self.height_spec(),
        ensures
            r@ == self.pixel_spec(x as nat, y as nat),
    {
        let len = self.data.len();
        proof {
            lemma_offset_in_raster(self.width as nat, self.height as nat, x as nat, y as nat);
        }
        let o = (y * self.width + x) * 3;
        assert(o + 2 < len);
        let r = [self.data[o], self.data[o + 1], self.data[o + 2]];
        assert(r@ =~= self.pixel_spec(x as nat, y as nat));
        r
    }
}

/// Distinct pixels have distinct places in row-major order.
proof fn lemma_distinct_pixels(width: nat, x: nat, y: nat, x2: nat, y2: nat)
    requires
        x < width,
        x2 < width,
        x != x2 || y != y2,
    ensures
        y * width + x != y2 * width + x2,
{
    if y < y2 {
        assert(y * width + x < y2 * width + x2) by (nonlinear_arith)
            requires
                x < width,
                y < y2,
        ;
    } else if y2 < y {
        assert(y2 * width + x2 < y * width + x) by (nonlinear_arith)
            requires
                x2 < width,
                y2 < y,
        ;
    }
}

/// The triplet of a pixel inside the image lies inside the raster.
proof fn lemma_offset_in_raster(width: nat, height: nat, x: nat, y: nat)
    requires
        x < width,
        y < height,
    ensures
        pixel_offset(width, x, y) + 3 <= width * height * 3,
        y * width + x < width * height,
{
    assert(y * width + x < width * height) by (nonlinear_arith)
        requires
            x < width,
            y < height,
    ;
    assert(pixel_offset(width, x, y) + 3 <= width * height * 3) by (nonlinear_arith)
        requires
            y * width + x < width * height,
    ;
}

} // verus!
