//! Textures: what colour a surface has at a place.
//!
//! A texture is a single colour, a picture, or a checker pattern over two
//! further textures. Finding the cell of a checker or the pixel of a picture
//! from a point in space is numerical work and the caller's; which texture
//! or colour belongs to a cell or pixel is decided here.

use crate::fault::SceneError;
use crate::raster::{Color, Image, LoadError};
use crate::vec3::{Scalar, Vec3};
use vstd::prelude::*;

verus! {

/// A texture of one of the three kinds.
#[derive(Debug, PartialEq, Eq)]
pub enum TextureEnum {
    SolidColor(SolidColor),
    CheckerTexture(CheckerTexture),
    ImageTexture(ImageTexture),
}

/// The same colour everywhere.
#[derive(Clone, Copy, Debug, PartialEq, Eq, Structural)]
pub struct SolidColor {
    pub color: Vec3,
}

/// A checker pattern in space: cubic cells of edge `scale`, alternately of
/// the even and the odd texture.
#[derive(Debug, PartialEq, Eq)]
pub struct CheckerTexture {
    /// Larger scale values correspond to larger checker sizes.
    scale: Scalar,
    even_texture: Box<TextureEnum>,
    odd_texture: Box<TextureEnum>,
}

/// A picture laid over the surface.
#[derive(Debug, PartialEq, Eq)]
pub struct ImageTexture {
    pub image: Image,
}

/// The colour that a vector of red, green and blue stands for.
pub open spec fn color_of(v: Vec3) -> Color {
    Color { r: v.x.milli, g: v.y.milli, b: v.z.milli, scale: 1000 }
}

/// Whether the cell with the given whole-number coordinates is an even
/// cell: one whose coordinates sum to an even number.
pub open spec fn is_even_cell(x: int, y: int, z: int) -> bool {
    (x + y + z) % 2 == 0
}

/// Whether each channel of `c` is at most the fraction `num / den`.
pub open spec fn within(c: Color, num: int, den: int) -> bool {
    &&& c.r * den <= num * c.scale
    &&& c.g * den <= num * c.scale
    &&& c.b * den <= num * c.scale
}

/// Whether the cell with the given whole-number coordinates is an even
/// cell. The sum is taken without overflow.
pub fn is_even(x_int: i32, y_int: i32, z_int: i32) -> (even: bool)
    ensures
        even == is_even_cell(x_int as int, y_int as int, z_int as int),
{
    let sum: i64 = x_int as i64 + y_int as i64 + z_int as i64;
    sum % 2 == 0
}

impl SolidColor {
    /// The texture of the given colour.
    pub fn new(color: Vec3) -> (made: Self)
        ensures
            made.color == color,
    {
        Self { color }
    }

    /// The texture of the colour with the given channels.
    pub fn new_rgb(r: Scalar, g: Scalar, b: Scalar) -> (made: Self)
        ensures
            made.color == (Vec3 { x: r, y: g, z: b }),
    {
        Self { color: Vec3::new(r, g, b) }
    }

    /// The colour of the texture, which is the same at every place.
    pub fn value(&self) -> (c: Color)
        ensures
            c == color_of(self.color),
    {
        Color { r: self.color.x.milli, g: self.color.y.milli, b: self.color.z.milli, scale: 1000 }
    }
}

impl CheckerTexture {
    /// The edge of a cell.
    pub closed spec fn cell_size(&self) -> Scalar {
        self.scale
    }

    /// The texture of the even cells.
    pub closed spec fn even(&self) -> TextureEnum {
        *self.even_texture
    }

    /// The texture of the odd cells.
    pub closed spec fn odd(&self) -> TextureEnum {
        *self.odd_texture
    }

    /// The checker pattern with cells of edge `scale`.
    pub fn new(scale: Scalar, even_texture: TextureEnum, odd_texture: TextureEnum) -> (made: Self)
        ensures
            made.cell_size() == scale,
            made.even() == even_texture,
            made.odd() == odd_texture,
    {
        CheckerTexture { scale, even_texture: Box::new(even_texture), odd_texture: Box::new(odd_texture) }
    }

    /// The edge of a cell.
    pub fn scale(&self) -> (s: Scalar)
        ensures
            s == self.cell_size(),
    {
        self.scale
    }

    /// The texture of the even cells.
    pub fn even_texture(&self) -> (texture: &TextureEnum)
        ensures
            *texture == self.even(),
    {
        &*self.even_texture
    }

    /// The texture of the odd cells.
    pub fn odd_texture(&self) -> (texture: &TextureEnum)
        ensures
            *texture == self.odd(),
    {
        &*self.odd_texture
    }

    /// The texture of the cell with the given whole-number coordinates:
    /// the even texture where they sum to an even number, else the odd one.
    pub fn texture_at(&self, x_int: i32, y_int: i32, z_int: i32) -> (texture: &TextureEnum)
        ensures
            *texture == if is_even_cell(x_int as int, y_int as int, z_int as int) {
                self.even()
            } else {
                self.odd()
            },
    {
        if is_even(x_int, y_int, z_int) {
            &*self.even_texture
        } else {
            &*self.odd_texture
        }
    }
}

impl ImageTexture {
    /// Decodes an encoded picture held in memory. A picture that comes
    /// back holds one pixel for each place in its grid, each with three
    /// 8-bit channels.
    pub fn load_embedded_image(data: &[u8]) -> (made: Result<Image, LoadError>)
        ensures
            match made {
                Ok(image) => image.wf() && image.is_eight_bit(),
                Err(e) => e == LoadError::Decode || e == LoadError::SizeMismatch,
            },
    {
        Image::decode(data)
    }

    /// The texture that shows `image`.
    pub fn new(image: Image) -> (made: Self)
        ensures
            made.image == image,
    {
        ImageTexture { image }
    }

    /// The colour of the pixel in column `x` of row `y`.
    pub fn color_at(&self, x: usize, y: usize) -> (c: Color)
        requires
            y * self.image.cols() + x < self.image.cols() * self.image.rows(),
        ensures
            c == self.image@[y * self.image.cols() + x].2,
    {
        self.image.index((x, y))
    }
}

/// Whether the scalar lies between 0 and 1, ends included.
pub open spec fn is_unit(s: Scalar) -> bool {
    0 <= s@ <= 1000
}

/// Whether the scalar lies between 0 and 1, ends included.
pub fn in_unit(s: Scalar) -> (unit: bool)
    ensures
        unit == is_unit(s),
{
    0 <= s.milli && s.milli <= 1000
}

impl TextureEnum {
    /// The first fault of the texture, if it has one: a plain colour with a
    /// channel outside of 0 to 1, a checker pattern with cells of size
    /// zero or with a fault in its even or, failing that, its odd texture,
    /// a picture without pixels.
    pub open spec fn fault(self) -> Option<SceneError>
        decreases self,
    {
        match self {
            TextureEnum::SolidColor(solid) => if is_unit(solid.color.x) && is_unit(solid.color.y) && is_unit(
                solid.color.z,
            ) {
                None
            } else {
                Some(SceneError::Color)
            },
            TextureEnum::CheckerTexture(checker) => if checker.cell_size()@ == 0 {
                Some(SceneError::CheckerScale)
            } else if checker.even().fault() is Some {
                checker.even().fault()
            } else {
                checker.odd().fault()
            },
            TextureEnum::ImageTexture(picture) => if picture.image@.len() == 0 {
                Some(SceneError::EmptyPicture)
            } else {
                None
            },
        }
    }

    /// Looks for a fault in the texture and names the first.
    pub fn check(&self) -> (found: Result<(), SceneError>)
        ensures
            match self.fault() {
                None => found is Ok,
                Some(e) => found == Err::<(), SceneError>(e),
            },
        decreases self,
    {
        match self {
            TextureEnum::SolidColor(solid) => {
                if in_unit(solid.color.x) && in_unit(solid.color.y) && in_unit(solid.color.z) {
                    Ok(())
                } else {
                    Err(SceneError::Color)
                }
            },
            TextureEnum::CheckerTexture(checker) => {
                if checker.scale.milli == 0 {
                    return Err(SceneError::CheckerScale);
                }
                match checker.even_texture.check() {
                    Ok(_) => checker.odd_texture.check(),
                    Err(e) => Err(e),
                }
            },
            TextureEnum::ImageTexture(picture) => {
                if picture.image.pixels().len() == 0 {
                    Err(SceneError::EmptyPicture)
                } else {
                    Ok(())
                }
            },
        }
    }

    /// Whether `c` is a colour that the texture can give: its one colour,
    /// the colour of one of its pixels, or a colour that one of the two
    /// textures of its pattern can give.
    pub open spec fn holds(self, c: Color) -> bool
        decreases self,
    {
        match self {
            TextureEnum::SolidColor(solid) => c == color_of(solid.color),
            TextureEnum::CheckerTexture(checker) => checker.even().holds(c) || checker.odd().holds(c),
            TextureEnum::ImageTexture(picture) => exists|k: int|
                0 <= k < picture.image@.len() && c == (#[trigger] picture.image@[k]).2,
        }
    }

    /// Whether no colour written into the texture has a channel above the
    /// fraction `num / den`.
    pub open spec fn capped(self, num: int, den: int) -> bool
        decreases self,
    {
        match self {
            TextureEnum::SolidColor(solid) => within(color_of(solid.color), num, den),
            TextureEnum::CheckerTexture(checker) => checker.even().capped(num, den) && checker.odd().capped(
                num,
                den,
            ),
            TextureEnum::ImageTexture(picture) => forall|k: int|
                0 <= k < picture.image@.len() ==> within((#[trigger] picture.image@[k]).2, num, den),
        }
    }
}

/// A checker pattern gives only what its two textures give.
pub proof fn lemma_checker_holds(checker: CheckerTexture, x: int, y: int, z: int, c: Color)
    requires
        (if is_even_cell(x, y, z) {
            checker.even()
        } else {
            checker.odd()
        }).holds(c),
    ensures
        TextureEnum::CheckerTexture(checker).holds(c),
{
}

/// No colour that a texture gives has a channel above a bound that every
/// colour written into the texture keeps.
pub proof fn lemma_value_is_capped(texture: TextureEnum, c: Color, num: int, den: int)
    requires
        texture.holds(c),
        texture.capped(num, den),
    ensures
        within(c, num, den),
    decreases texture,
{
    match texture {
        TextureEnum::SolidColor(_) => {},
        TextureEnum::CheckerTexture(checker) => {
            if checker.even().holds(c) {
                lemma_value_is_capped(checker.even(), c, num, den);
            } else {
                lemma_value_is_capped(checker.odd(), c, num, den);
            }
        },
        TextureEnum::ImageTexture(picture) => {
            let k = choose|k: int| 0 <= k < picture.image@.len() && c == (#[trigger] picture.image@[k]).2;
            assert(within(picture.image@[k].2, num, den));
        },
    }
}

/// Whether every channel of `c` is a fraction from 0 to 1.
pub open spec fn is_unit_color(c: Color) -> bool {
    &&& c.scale > 0
    &&& 0 <= c.r <= c.scale
    &&& 0 <= c.g <= c.scale
    &&& 0 <= c.b <= c.scale
}

impl TextureEnum {
    /// Whether every picture in the texture is sound, as every picture
    /// that has been made is.
    pub open spec fn pictures_sound(self) -> bool
        decreases self,
    {
        match self {
            TextureEnum::SolidColor(_) => true,
            TextureEnum::CheckerTexture(checker) => checker.even().pictures_sound()
                && checker.odd().pictures_sound(),
            TextureEnum::ImageTexture(picture) => picture.image.is_sound(),
        }
    }
}

/// A texture without fault gives only colours whose channels lie between 0
/// and 1: light that leaves a surface tinted by it is never brighter than
/// the light that arrived, and its largest channel is a probability.
pub proof fn lemma_sound_texture_gives_colors(texture: TextureEnum, c: Color)
    requires
        texture.fault() is None,
        texture.pictures_sound(),
        texture.holds(c),
    ensures
        is_unit_color(c),
    decreases texture,
{
    match texture {
        TextureEnum::SolidColor(_) => {},
        TextureEnum::CheckerTexture(checker) => {
            if checker.even().holds(c) {
                lemma_sound_texture_gives_colors(checker.even(), c);
            } else {
                lemma_sound_texture_gives_colors(checker.odd(), c);
            }
        },
        TextureEnum::ImageTexture(picture) => {
            let k = choose|k: int| 0 <= k < picture.image@.len() && c == (#[trigger] picture.image@[k]).2;
            assert(is_unit_color(picture.image@[k].2));
        },
    }
}

} // verus!
