//! The frame buffer shared by the render workers and the preview: a flat
//! array of bytes, four to a pixel (red, green, blue and a constant alpha).

use crate::ppm::{file, gamma, gamma_rgb, gamma_table, write_image, Pixel8};
use vstd::prelude::*;

verus! {

/// Width of the preview in pixels.
pub const WIDTH: u32 = 800;

/// Height of the preview in pixels.
pub const HEIGHT: u32 = 600;

/// Bytes held for each pixel.
pub const CHANNELS: usize = 4;

/// The value of every alpha byte, and of every colour byte before the first
/// write.
pub const OPAQUE: u8 = 0xff;

/// A `width` by `height` grid of pixels in row-major order. Pixel `p` owns the
/// bytes `4p .. 4p + 4`; the last of them is the alpha byte and never changes.
#[derive(Debug)]
pub struct Framebuffer {
    bytes: Vec<u8>,
    width: usize,
    height: usize,
}

impl View for Framebuffer {
    type V = Seq<u8>;

    /// The bytes of the buffer, pixel after pixel.
    closed spec fn view(&self) -> Seq<u8> {
        self.bytes@
    }
}

impl Framebuffer {
    /// Whether the buffer holds four bytes for each of its pixels and every
    /// alpha byte is `OPAQUE`. Every buffer made by `new` is well formed, and
    /// `write` keeps it so.
    pub closed spec fn wf(&self) -> bool {
        &&& self.bytes@.len() == 4 * (self.width * self.height)
        &&& 4 * (self.width * self.height) <= usize::MAX
        &&& forall|p: int| 0 <= p < self.width * self.height ==> #[trigger] self.bytes@[4 * p + 3] == OPAQUE
    }

    /// What well-formedness says of the bytes.
    pub proof fn lemma_wf(&self)
        requires
            self.wf(),
        ensures
            self@.len() == 4 * self.pixels(),
            forall|p: int| 0 <= p < self.pixels() ==> #[trigger] self@[4 * p + 3] == OPAQUE,
    {
    }

    /// The width in pixels.
    pub closed spec fn cols(&self) -> nat {
        self.width as nat
    }

    /// The height in pixels.
    pub closed spec fn rows(&self) -> nat {
        self.height as nat
    }

    /// The number of pixels.
    pub open spec fn pixels(&self) -> nat {
        self.cols() * self.rows()
    }

    /// The three colour bytes of pixel `p`.
    pub open spec fn rgb(&self, p: int) -> (u8, u8, u8) {
        (self@[4 * p], self@[4 * p + 1], self@[4 * p + 2])
    }

    /// The bytes of a buffer in which pixel `p` holds the given colour and
    /// every other byte is as in `bytes`.
    pub open spec fn with_rgb(bytes: Seq<u8>, p: int, r: u8, g: u8, b: u8) -> Seq<u8> {
        bytes.update(4 * p, r).update(4 * p + 1, g).update(4 * p + 2, b)
    }

    proof fn lemma_fits(&self)
        requires
            self.wf(),
        ensures
            self.pixels() == self.width * self.height,
            4 * self.pixels() == self.bytes@.len(),
            4 * self.pixels() <= usize::MAX,
    {
    }

    /// A buffer of the given size with every byte set to `OPAQUE`.
    pub fn new(width: usize, height: usize) -> (fb: Framebuffer)
        requires
            4 * (width * height) <= usize::MAX,
        ensures
            fb.wf(),
            fb.cols() == width,
            fb.rows() == height,
            fb@ == Seq::new((4 * (width * height)) as nat, |i: int| OPAQUE),
    {
        let count: usize = width * height;
        let len: usize = 4 * count;
        let mut bytes: Vec<u8> = Vec::new();
        let mut i: usize = 0;
        while i < len
            invariant
                i <= len,
                bytes@ == Seq::new(i as nat, |k: int| OPAQUE),
            decreases len - i,
        {
            bytes.push(OPAQUE);
            i += 1;
            assert(bytes@ =~= Seq::new(i as nat, |k: int| OPAQUE));
        }
        Framebuffer { bytes, width, height }
    }

    /// The width in pixels.
    pub fn width(&self) -> (w: usize)
        ensures
            w == self.cols(),
    {
        self.width
    }

    /// The height in pixels.
    pub fn height(&self) -> (h: usize)
        ensures
            h == self.rows(),
    {
        self.height
    }

    /// The number of pixels.
    pub fn pixel_count(&self) -> (n: usize)
        requires
            self.wf(),
        ensures
            n == self.pixels(),
            self@.len() == 4 * n,
    {
        proof {
            self.lemma_fits();
        }
        self.width * self.height
    }

    /// The bytes of the buffer, as the preview copies them to the screen.
    pub fn as_bytes(&self) -> (bytes: &[u8])
        ensures
            bytes@ == self@,
    {
        self.bytes.as_slice()
    }

    /// The colour held for pixel `index`.
    pub fn read(&self, index: usize) -> (rgb: (u8, u8, u8))
        requires
            self.wf(),
            index < self.pixels(),
        ensures
            rgb == self.rgb(index as int),
    {
        proof {
            self.lemma_fits();
        }
        let at: usize = 4 * index;
        (self.bytes[at], self.bytes[at + 1], self.bytes[at + 2])
    }

    /// Stores a colour for pixel `index`. No other pixel changes, and neither
    /// does any alpha byte.
    pub fn write(&mut self, index: usize, r: u8, g: u8, b: u8)
        requires
            old(self).wf(),
            index < old(self).pixels(),
        ensures
            final(self).wf(),
            final(self).cols() == old(self).cols(),
            final(self).rows() == old(self).rows(),
            final(self)@ == Framebuffer::with_rgb(old(self)@, index as int, r, g, b),
            final(self).rgb(index as int) == (r, g, b),
            forall|p: int| 0 <= p < old(self).pixels() && p != index
                ==> final(self).rgb(p) == old(self).rgb(p),
    {
        proof {
            self.lemma_fits();
        }
        let at: usize = 4 * index;
        self.bytes.set(at, r);
        self.bytes.set(at + 1, g);
        self.bytes.set(at + 2, b);
    }
}

/// Pixel `p` of a buffer `width` wide, ready for writing: its column, its
/// row and its colour, gamma-encoded.
pub open spec fn encoded_at(bytes: Seq<u8>, width: int, p: int) -> Pixel8 {
    ((p % width) as usize, (p / width) as usize, gamma_rgb((bytes[4 * p], bytes[4 * p + 1], bytes[4 * p + 2])))
}

impl Framebuffer {
    /// The pixels of the buffer ready for writing, row after row.
    pub open spec fn encoded(&self) -> Seq<Pixel8> {
        Seq::new(self.pixels(), |p: int| encoded_at(self@, self.cols() as int, p))
    }

    /// The text of the image file that shows the buffer: the header, then
    /// every pixel row after row, each channel gamma-encoded as it is
    /// written. The buffer itself stays linear.
    pub fn to_ppm(&self) -> (text: Vec<u8>)
        requires
            self.wf(),
        ensures
            text@ == file(self.cols(), self.rows(), self.encoded()),
    {
        proof {
            self.lemma_fits();
        }
        let table = gamma_table();
        let count: usize = self.width * self.height;
        let mut pixels: Vec<Pixel8> = Vec::new();
        let mut p: usize = 0;
        while p < count
            invariant
                self.wf(),
                count == self.pixels(),
                count == self.width * self.height,
                4 * count == self.bytes@.len(),
                p <= count,
                table@.len() == 256,
                forall|b: int| 0 <= b < 256 ==> #[trigger] table@[b] == gamma(b as u8),
                pixels@ == Seq::new(p as nat, |k: int| encoded_at(self@, self.cols() as int, k)),
            decreases count - p,
        {
            proof {
                assert(self.width > 0) by (nonlinear_arith)
                    requires
                        p < self.width * self.height,
                ;
            }
            let (r, g, b) = self.read(p);
            let rgb: (u8, u8, u8) = (table[r as usize], table[g as usize], table[b as usize]);
            pixels.push((p % self.width, p / self.width, rgb));
            p += 1;
            assert(pixels@ =~= Seq::new(p as nat, |k: int| encoded_at(self@, self.cols() as int, k)));
        }
        write_image(self.width, self.height, &pixels)
    }
}

/// Writes to different pixels do not touch each other: done in either
/// order they leave the same bytes. Within a pass the pixels may therefore
/// be finished in any order.
pub proof fn lemma_writes_commute(bytes: Seq<u8>, p: int, first: (u8, u8, u8), q: int, second: (u8, u8, u8))
    requires
        0 <= p,
        0 <= q,
        p != q,
        4 * p + 4 <= bytes.len(),
        4 * q + 4 <= bytes.len(),
    ensures
        Framebuffer::with_rgb(Framebuffer::with_rgb(bytes, p, first.0, first.1, first.2), q, second.0, second.1, second.2)
            == Framebuffer::with_rgb(
            Framebuffer::with_rgb(bytes, q, second.0, second.1, second.2),
            p,
            first.0,
            first.1,
            first.2,
        ),
{
    let one = Framebuffer::with_rgb(
        Framebuffer::with_rgb(bytes, p, first.0, first.1, first.2),
        q,
        second.0,
        second.1,
        second.2,
    );
    let other = Framebuffer::with_rgb(
        Framebuffer::with_rgb(bytes, q, second.0, second.1, second.2),
        p,
        first.0,
        first.1,
        first.2,
    );
    assert(one =~= other);
}

/// A later write to a pixel replaces an earlier one.
pub proof fn lemma_last_write_wins(bytes: Seq<u8>, p: int, first: (u8, u8, u8), second: (u8, u8, u8))
    requires
        0 <= p,
        4 * p + 4 <= bytes.len(),
    ensures
        Framebuffer::with_rgb(Framebuffer::with_rgb(bytes, p, first.0, first.1, first.2), p, second.0, second.1, second.2)
            == Framebuffer::with_rgb(bytes, p, second.0, second.1, second.2),
{
    let twice = Framebuffer::with_rgb(
        Framebuffer::with_rgb(bytes, p, first.0, first.1, first.2),
        p,
        second.0,
        second.1,
        second.2,
    );
    assert(twice =~= Framebuffer::with_rgb(bytes, p, second.0, second.1, second.2));
}

} // verus!
