//! Pictures as grids of exact colours: what a texture samples and what the
//! frame buffer hands to the image writer.

use vstd::prelude::*;

verus! {

/// A colour whose channels are the fractions `r / scale`, `g / scale` and
/// `b / scale`.
#[derive(Clone, Copy, Debug, PartialEq, Eq, Structural)]
pub struct Color {
    pub r: i64,
    pub g: i64,
    pub b: i64,
    pub scale: i64,
}

/// A pixel: its column, its row and its colour.
pub type Pixel = (usize, usize, Color);

/// How the channels of a pixel lie in raw picture data.
#[derive(Clone, Copy, Debug, PartialEq, Eq, Structural)]
pub enum PixelFormat {
    R8,
    R8G8,
    R8G8B8,
    R8G8B8A8,
    R16,
    R16G16,
    R16G16B16,
    R16G16B16A16,
    R32G32B32FLOAT,
    R32G32B32A32FLOAT,
}

/// Why no picture could be made.
#[derive(Clone, Copy, Debug, PartialEq, Eq, Structural)]
pub enum LoadError {
    /// The data is not an encoded picture that the decoder reads.
    Decode,
    /// Pictures are not read from data in this format.
    UnsupportedFormat,
    /// The data holds fewer pixels than the grid has places.
    SizeMismatch,
}

/// A decoded picture: its size and four bytes (red, green, blue, alpha) for
/// each pixel, row after row.
#[derive(Debug, PartialEq, Eq)]
pub struct Decoded {
    pub width: u32,
    pub height: u32,
    pub rgba: Vec<u8>,
}

/// The number of bytes that hold one pixel and the channel value that stands
/// for full intensity. `None` for the formats that pictures are not read
/// from.
pub open spec fn layout(format: PixelFormat) -> Option<(usize, i64)> {
    match format {
        PixelFormat::R8 => Some((1usize, 255i64)),
        PixelFormat::R8G8 => Some((2usize, 255i64)),
        PixelFormat::R8G8B8 => Some((3usize, 255i64)),
        PixelFormat::R8G8B8A8 => Some((4usize, 255i64)),
        PixelFormat::R16G16 => Some((2usize, 65535i64)),
        PixelFormat::R16G16B16 => Some((3usize, 65535i64)),
        _ => None,
    }
}

/// The colour of the pixel whose bytes start at `at`: the first byte is
/// red, the next two, as far as the pixel has them, are green and blue.
pub open spec fn color_at(data: Seq<u8>, at: int, chunk: int, scale: i64) -> Color {
    Color {
        r: data[at] as i64,
        g: if chunk > 1 {
            data[at + 1] as i64
        } else {
            0
        },
        b: if chunk > 2 {
            data[at + 2] as i64
        } else {
            0
        },
        scale,
    }
}

/// Pixel `i` of a picture `width` wide whose pixels take `chunk` bytes each.
pub open spec fn pixel_at(data: Seq<u8>, chunk: int, scale: i64, width: int, i: int) -> Pixel {
    ((i % width) as usize, (i / width) as usize, color_at(data, i * chunk, chunk, scale))
}

/// What reading a picture of the given size from raw data gives.
pub open spec fn read_raw(format: PixelFormat, width: usize, height: usize, data: Seq<u8>) -> Result<
    Seq<Pixel>,
    LoadError,
> {
    match layout(format) {
        None => Err(LoadError::UnsupportedFormat),
        Some((chunk, scale)) => if data.len() / (chunk as nat) < width * height {
            Err(LoadError::SizeMismatch)
        } else {
            Ok(Seq::new((width * height) as nat, |i: int| pixel_at(data, chunk as int, scale, width as int, i)))
        },
    }
}

/// A picture: `width * height` pixels in row-major order.
#[derive(Debug, PartialEq, Eq)]
pub struct Image {
    pixels: Vec<Pixel>,
    width: usize,
    height: usize,
}

impl View for Image {
    type V = Seq<Pixel>;

    /// The pixels, row after row.
    closed spec fn view(&self) -> Seq<Pixel> {
        self.pixels@
    }
}

impl Clone for Image {
    /// A picture of the same size with the same pixels.
    fn clone(&self) -> (copy: Self)
        ensures
            copy@ == self@,
            copy.cols() == self.cols(),
            copy.rows() == self.rows(),
    {
        proof {
            use_type_invariant(self);
        }
        let mut pixels: Vec<Pixel> = Vec::new();
        let mut i: usize = 0;
        while i < self.pixels.len()
            invariant
                i <= self.pixels@.len(),
                pixels@ == self.pixels@.subrange(0, i as int),
            decreases self.pixels@.len() - i,
        {
            pixels.push(self.pixels[i]);
            i += 1;
            assert(pixels@ =~= self.pixels@.subrange(0, i as int));
        }
        assert(pixels@ =~= self.pixels@);
        Image { pixels, width: self.width, height: self.height }
    }
}

impl Default for Image {
    /// The picture without pixels.
    fn default() -> (image: Image)
        ensures
            image.cols() == 0,
            image.rows() == 0,
            image@ == Seq::<Pixel>::empty(),
    {
        Image::empty()
    }
}

impl Image {
    #[verifier::type_invariant]
    spec fn well_formed(self) -> bool {
        self.wf() && self.is_sound()
    }

    /// The width in pixels.
    pub closed spec fn cols(&self) -> nat {
        self.width as nat
    }

    /// The height in pixels.
    pub closed spec fn rows(&self) -> nat {
        self.height as nat
    }

    /// Whether the picture holds one pixel for each place in its grid, each
    /// carrying its own column and row.
    pub open spec fn wf(&self) -> bool {
        &&& self@.len() == self.cols() * self.rows()
        &&& forall|i: int|
            0 <= i < self@.len() ==> (#[trigger] self@[i]).0 == i % (self.cols() as int) && self@[i].1 == i / (
            self.cols() as int)
    }

    /// Whether every channel of every pixel is a fraction from 0 to 1: a
    /// whole number from 0 to a positive scale, over that scale.
    pub open spec fn is_sound(&self) -> bool {
        forall|i: int|
            0 <= i < self@.len() ==> {
                &&& (#[trigger] self@[i]).2.scale > 0
                &&& 0 <= self@[i].2.r <= self@[i].2.scale
                &&& 0 <= self@[i].2.g <= self@[i].2.scale
                &&& 0 <= self@[i].2.b <= self@[i].2.scale
            }
    }

    /// The picture without pixels.
    pub fn empty() -> (image: Image)
        ensures
            image.wf(),
            image.cols() == 0,
            image.rows() == 0,
            image@ == Seq::<Pixel>::empty(),
    {
        let image = Image { pixels: Vec::new(), width: 0, height: 0 };
        assert(image.cols() * image.rows() == 0);
        image
    }

    /// The width in pixels.
    pub fn width(&self) -> (w: usize)
        ensures
            w == self.cols(),
    {
        self.width
    }

    /// The height in pixels.
    pub fn height(&self) -> (h: usize)
        ensures
            h == self.rows(),
    {
        self.height
    }

    /// The pixels, row after row.
    pub fn pixels(&self) -> (pixels: &Vec<Pixel>)
        ensures
            pixels@ == self@,
    {
        &self.pixels
    }

    /// The colour at column `index.0` of row `index.1`.
    pub fn index(&self, index: (usize, usize)) -> (color: Color)
        requires
            index.1 * self.cols() + index.0 < self.cols() * self.rows(),
        ensures
            color == self@[index.1 * self.cols() + index.0].2,
            self.wf(),
            self.is_sound(),
    {
        proof {
            use_type_invariant(self);
        }
        let (x, y) = index;
        let held: usize = self.pixels.len();
        assert(y * self.width + x < held);
        self.pixels[y * self.width + x].2
    }

    /// Whether `made` is the outcome of reading a picture of the given size
    /// from raw data: the picture with exactly the pixels of `read_raw`, or
    /// its error.
    pub open spec fn is_read(
        made: Result<Image, LoadError>,
        format: PixelFormat,
        width: usize,
        height: usize,
        data: Seq<u8>,
    ) -> bool {
        match read_raw(format, width, height, data) {
            Ok(pixels) => made matches Ok(image) && image.wf() && image.is_sound() && image@ == pixels
                && image.cols() == width && image.rows() == height,
            Err(e) => made matches Err(f) && f == e,
        }
    }

    /// Whether `made` is the picture that a decoder's output stands for:
    /// red, green and blue of each pixel over 255, alpha dropped, where the
    /// output holds a pixel for each place in its grid, and
    /// `LoadError::SizeMismatch` where it holds fewer.
    pub open spec fn is_decoded(made: Result<Image, LoadError>, width: u32, height: u32, rgba: Seq<u8>) -> bool {
        Image::is_read(made, PixelFormat::R8G8B8A8, width as usize, height as usize, rgba)
    }

    /// Whether every pixel has the three channels of a decoded picture:
    /// whole numbers from 0 to 255, over 255.
    pub open spec fn is_eight_bit(&self) -> bool {
        forall|i: int|
            0 <= i < self@.len() ==> {
                &&& (#[trigger] self@[i]).2.scale == 255
                &&& 0 <= self@[i].2.r <= 255
                &&& 0 <= self@[i].2.g <= 255
                &&& 0 <= self@[i].2.b <= 255
            }
    }

    /// Reads a picture of the given size from raw data.
    ///
    /// Each pixel takes as many bytes as the format has channels (of a
    /// 16-bit channel only the first byte is read, against a full intensity
    /// of 65535). The single-channel 16-bit format, the four-channel 16-bit
    /// format and the floating-point formats are not read. The data must
    /// hold at least `width * height` pixels; what follows them is ignored.
    pub fn from_raw(format: PixelFormat, width: usize, height: usize, data: &[u8]) -> (made: Result<
        Image,
        LoadError,
    >)
        ensures
            Image::is_read(made, format, width, height, data@),
    {
        let (chunk, scale): (usize, i64) = match format {
            PixelFormat::R8 => (1, 255),
            PixelFormat::R8G8 => (2, 255),
            PixelFormat::R8G8B8 => (3, 255),
            PixelFormat::R8G8B8A8 => (4, 255),
            PixelFormat::R16G16 => (2, 65535),
            PixelFormat::R16G16B16 => (3, 65535),
            _ => {
                return Err(LoadError::UnsupportedFormat);
            },
        };
        let held: usize = data.len() / chunk;
        let count: usize = match width.checked_mul(height) {
            Some(n) => n,
            None => {
                return Err(LoadError::SizeMismatch);
            },
        };
        if held < count {
            return Err(LoadError::SizeMismatch);
        }
        proof {
            vstd::arithmetic::div_mod::lemma_fundamental_div_mod(data@.len() as int, chunk as int);
            vstd::arithmetic::div_mod::lemma_mod_bound(data@.len() as int, chunk as int);
            assert(chunk * count <= chunk * held) by (nonlinear_arith)
                requires
                    count <= held,
                    chunk >= 0,
            ;
        }
        let mut pixels: Vec<Pixel> = Vec::new();
        let mut i: usize = 0;
        while i < count
            invariant
                1 <= chunk <= 4,
                count == width * height,
                chunk * count <= data@.len() <= usize::MAX,
                i <= count,
                pixels@ == Seq::new(i as nat, |k: int| pixel_at(data@, chunk as int, scale, width as int, k)),
            decreases count - i,
        {
            proof {
                assert(i * chunk + chunk <= chunk * count) by (nonlinear_arith)
                    requires
                        i + 1 <= count,
                        chunk >= 0,
                ;
                assert(width > 0) by (nonlinear_arith)
                    requires
                        i < width * height,
                ;
            }
            let at: usize = i * chunk;
            let r: i64 = data[at] as i64;
            let g: i64 = if chunk > 1 {
                data[at + 1] as i64
            } else {
                0
            };
            let b: i64 = if chunk > 2 {
                data[at + 2] as i64
            } else {
                0
            };
            pixels.push((i % width, i / width, Color { r, g, b, scale }));
            i += 1;
            assert(pixels@ =~= Seq::new(
                i as nat,
                |k: int| pixel_at(data@, chunk as int, scale, width as int, k),
            ));
        }
        let image = Image { pixels, width, height };
        proof {
            assert(image@ =~= read_raw(format, width, height, data@)->Ok_0);
            assert forall|k: int| 0 <= k < image@.len() implies (#[trigger] image@[k]).0 == k % (
            image.cols() as int) && image@[k].1 == k / (image.cols() as int) by {
                assert(width > 0) by (nonlinear_arith)
                    requires
                        k < width * height,
                        0 <= k,
                ;
                lemma_cell_fits(k, width as int, height as int);
            }
        }
        Ok(image)
    }

    /// Decodes an encoded picture (PNG, JPEG, WebP) held in memory.
    ///
    /// What the picture shows is the decoder's to say. Whatever it says, a
    /// picture that comes back holds one pixel for each place in its grid,
    /// each with three 8-bit channels; data that the decoder refuses gives
    /// `LoadError::Decode`, and output of the decoder that does not fill
    /// its grid gives `LoadError::SizeMismatch`.
    pub fn decode(data: &[u8]) -> (made: Result<Image, LoadError>)
        ensures
            match made {
                Ok(image) => image.wf() && image.is_eight_bit(),
                Err(e) => e == LoadError::Decode || e == LoadError::SizeMismatch,
            },
    {
        match load_from_memory(data) {
            Ok(decoded) => Image::from_decoded(&decoded),
            Err(_) => Err(LoadError::Decode),
        }
    }

    /// Makes the picture that a decoder's output stands for: red, green and
    /// blue of each pixel over 255, alpha dropped. The output must hold
    /// four bytes for each place in its grid, or more.
    pub fn from_decoded(decoded: &Decoded) -> (made: Result<Image, LoadError>)
        ensures
            Image::is_decoded(made, decoded.width, decoded.height, decoded.rgba@),
            made matches Ok(image) ==> image.is_eight_bit(),
            made matches Err(e) ==> e == LoadError::SizeMismatch,
    {
        Image::from_raw(PixelFormat::R8G8B8A8, decoded.width as usize, decoded.height as usize, decoded.rgba.as_slice())
    }
}

/// Place `k` of a `width` by `height` grid lies in a column below `width`
/// and a row below `height`.
pub proof fn lemma_cell_fits(k: int, width: int, height: int)
    requires
        0 <= k < width * height,
        width > 0,
    ensures
        0 <= k % width < width,
        0 <= k / width < height,
        k == (k / width) * width + k % width,
{
    vstd::arithmetic::div_mod::lemma_fundamental_div_mod(k, width);
    vstd::arithmetic::div_mod::lemma_mod_bound(k, width);
    vstd::arithmetic::div_mod::lemma_div_pos_is_pos(k, width);
    let q = k / width;
    assert(width * q == q * width) by (nonlinear_arith);
    if q >= height {
        assert(q * width >= height * width) by (nonlinear_arith)
            requires
                q >= height,
                width > 0,
        ;
        assert(height * width == width * height) by (nonlinear_arith);
    }
}

#[verifier::external_type_specification]
#[verifier::external_body]
pub struct ExImageError(image::ImageError);

/// `image::load_from_memory`, followed by a walk over the pixels of the
/// decoded picture that copies the four channels of each. Nothing is
/// claimed of the outcome: what a decoder makes of the bytes is its own
/// affair, and the caller checks what it is handed.
#[verifier::external_body]
fn load_from_memory(data: &[u8]) -> (loaded: Result<Decoded, image::ImageError>) {
    let picture = image::load_from_memory(data)?;
    let (width, height) = image::GenericImageView::dimensions(&picture);
    let mut rgba: Vec<u8> = Vec::new();
    for (_, _, pixel) in image::GenericImageView::pixels(&picture) {
        rgba.extend_from_slice(&pixel.0);
    }
    Ok(Decoded { width, height, rgba })
}

} // verus!
