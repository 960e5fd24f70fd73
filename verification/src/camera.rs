//! The camera: where it stands, what it looks at, how large the picture is
//! and how it is sampled.
//!
//! A camera is checked when it is made, so that the frame derived from it
//! (the viewing directions and the distances between pixels) is well
//! defined. It carries the sample pattern: the offsets within a pixel at
//! which the rays of successive samples are aimed.

use crate::accumulate::{
    lemma_pass_weight, lemma_preview_is_schedule, lemma_total_bounded, preview_schedule, Progressive,
};
use crate::halton::{denominator, halton_sequence, mirror};
use crate::integrator::Path;
use crate::vec3::{Scalar, Vec3};
use std::ops::Range;
use vstd::prelude::*;

verus! {

/// The number of sample offsets that a camera carries.
pub const SAMPLE_COUNT: u64 = 1048576;

/// The nearest distance, in thousandths, at which a bounced ray may hit:
/// closer hits are the ray's own starting point.
pub const NEAR_MILLI: i64 = 1;

/// Bytes taken by one entry of the render order.
pub const CELL_BYTES: usize = 16;

/// Why a camera cannot be made.
#[derive(Clone, Copy, Debug, PartialEq, Eq, Structural)]
pub enum CameraError {
    /// The picture has no pixels, or more than can be listed.
    ImageSize,
    /// The distance to the plane of perfect focus is zero or negative.
    FocusDistance,
    /// The vertical field of view is not between 0 and 180 degrees.
    FieldOfView,
    /// The camera stands at the point it is to look at.
    NoViewDirection,
    /// The up vector is zero or points along the line of sight.
    UpAlongView,
    /// The range of ray parameters holds nothing.
    EmptyRange,
    /// More samples per pixel are asked for than the camera has offsets.
    SampleCount,
}

/// An offset within a pixel: two fractions, each a numerator and its
/// denominator.
pub type Offset = ((u64, u64), (u64, u64));

/// What a camera is made from.
#[derive(Debug, PartialEq, Eq)]
pub struct CameraSetup {
    /// The centre point of the camera.
    pub center: Vec3,
    /// The point the camera looks at.
    pub lookat: Vec3,
    /// The direction that is up in the picture.
    pub up: Vec3,
    /// Distance from the centre to the plane of perfect focus; `None` puts
    /// that plane through the point looked at.
    pub focus_distance: Option<Scalar>,
    /// Variation of angle of rays through each pixel, in degrees. Zero or
    /// less is perfectly sharp everywhere.
    pub defocus_angle: Scalar,
    /// The picture's width in pixels.
    pub image_width: usize,
    /// The picture's height in pixels.
    pub image_height: usize,
    /// Samples per pixel when the picture is rendered in one go.
    pub samples_per_pixel: usize,
    /// The most times a ray may bounce.
    pub max_depth: usize,
    /// The vertical field of view in degrees.
    pub vertical_fov: Scalar,
    /// The nearest and farthest distances to be rendered.
    pub t_range: Range<Scalar>,
}

/// Whether two vectors lie along one line (the zero vector lies along
/// every line).
pub open spec fn collinear(u: Vec3, v: (int, int, int)) -> bool {
    &&& u.y@ * v.2 == u.z@ * v.1
    &&& u.z@ * v.0 == u.x@ * v.2
    &&& u.x@ * v.1 == u.y@ * v.0
}

/// The first fault found in a setup, if it has one.
pub open spec fn fault(setup: CameraSetup) -> Option<CameraError> {
    let view = (
        setup.center.x@ - setup.lookat.x@,
        setup.center.y@ - setup.lookat.y@,
        setup.center.z@ - setup.lookat.z@,
    );
    if setup.image_width == 0 || setup.image_height == 0 || setup.image_width * setup.image_height
        * CELL_BYTES > isize::MAX {
        Some(CameraError::ImageSize)
    } else if setup.focus_distance matches Some(d) && d@ <= 0 {
        Some(CameraError::FocusDistance)
    } else if setup.vertical_fov@ <= 0 || setup.vertical_fov@ >= 180000 {
        Some(CameraError::FieldOfView)
    } else if view == (0int, 0int, 0int) {
        Some(CameraError::NoViewDirection)
    } else if collinear(setup.up, view) {
        Some(CameraError::UpAlongView)
    } else if setup.t_range.start@ >= setup.t_range.end@ {
        Some(CameraError::EmptyRange)
    } else if setup.samples_per_pixel > SAMPLE_COUNT {
        Some(CameraError::SampleCount)
    } else {
        None
    }
}

/// Sample offset `i`: element `i` of the Halton sequence in base 2 for the
/// horizontal offset, in base 3 for the vertical.
pub open spec fn offset_at(i: int) -> Offset {
    (
        (mirror(2, (i + 1) as nat) as u64, denominator(2, (i + 1) as nat) as u64),
        (mirror(3, (i + 1) as nat) as u64, denominator(3, (i + 1) as nat) as u64),
    )
}

/// A checked camera with its sample pattern.
#[derive(Debug)]
pub struct Camera {
    setup: CameraSetup,
    rng_map: Vec<Offset>,
}

impl Camera {
    #[verifier::type_invariant]
    spec fn well_formed(self) -> bool {
        &&& fault(self.setup) is None
        &&& self.rng_map@.len() == SAMPLE_COUNT
        &&& forall|i: int| 0 <= i < SAMPLE_COUNT ==> #[trigger] self.rng_map@[i] == offset_at(i)
    }

    /// What the camera was made from.
    pub closed spec fn config(&self) -> CameraSetup {
        self.setup
    }

    /// Makes a camera, or names the first fault of the setup.
    ///
    /// The setup is refused where the picture has no pixels or too many,
    /// the focus distance is not positive, the field of view is not
    /// strictly between 0 and 180 degrees, the camera stands at the point
    /// it looks at, the up vector is zero or along the line of sight, the
    /// range of ray parameters is empty, or more samples per pixel are
    /// asked for than there are offsets, in this order.
    #[allow(clippy::too_many_arguments)]
    pub fn new(
        center: Vec3,
        lookat: Vec3,
        up: Vec3,
        focus_distance: Option<Scalar>,
        defocus_angle: Scalar,
        image_width: usize,
        image_height: usize,
        samples_per_pixel: usize,
        max_depth: usize,
        vertical_fov: Scalar,
        t_range: Range<Scalar>,
    ) -> (made: Result<Camera, CameraError>)
        ensures
            ({
                let setup = CameraSetup {
                    center,
                    lookat,
                    up,
                    focus_distance,
                    defocus_angle,
                    image_width,
                    image_height,
                    samples_per_pixel,
                    max_depth,
                    vertical_fov,
                    t_range,
                };
                match fault(setup) {
                    None => made matches Ok(camera) && camera.config() == setup,
                    Some(e) => made matches Err(f) && f == e,
                }
            }),
    {
        let setup = CameraSetup {
            center,
            lookat,
            up,
            focus_distance,
            defocus_angle,
            image_width,
            image_height,
            samples_per_pixel,
            max_depth,
            vertical_fov,
            t_range,
        };
        if setup.image_width == 0 || setup.image_height == 0 {
            return Err(CameraError::ImageSize);
        }
        if !cells_fit(setup.image_width, setup.image_height) {
            return Err(CameraError::ImageSize);
        }
        match setup.focus_distance {
            Some(d) => {
                if d.milli <= 0 {
                    return Err(CameraError::FocusDistance);
                }
            },
            None => {},
        }
        if setup.vertical_fov.milli <= 0 || setup.vertical_fov.milli >= 180000 {
            return Err(CameraError::FieldOfView);
        }
        let vx: i128 = setup.center.x.milli as i128 - setup.lookat.x.milli as i128;
        let vy: i128 = setup.center.y.milli as i128 - setup.lookat.y.milli as i128;
        let vz: i128 = setup.center.z.milli as i128 - setup.lookat.z.milli as i128;
        if vx == 0 && vy == 0 && vz == 0 {
            return Err(CameraError::NoViewDirection);
        }
        let ux: i128 = setup.up.x.milli as i128;
        let uy: i128 = setup.up.y.milli as i128;
        let uz: i128 = setup.up.z.milli as i128;
        proof {
            lemma_product_fits(uy as int, vz as int);
            lemma_product_fits(uz as int, vy as int);
            lemma_product_fits(uz as int, vx as int);
            lemma_product_fits(ux as int, vz as int);
            lemma_product_fits(ux as int, vy as int);
            lemma_product_fits(uy as int, vx as int);
        }
        if uy * vz == uz * vy && uz * vx == ux * vz && ux * vy == uy * vx {
            return Err(CameraError::UpAlongView);
        }
        if setup.t_range.start.milli >= setup.t_range.end.milli {
            return Err(CameraError::EmptyRange);
        }
        if setup.samples_per_pixel as u64 > SAMPLE_COUNT {
            return Err(CameraError::SampleCount);
        }
        let rng_map = sample_pattern();
        Ok(Camera { setup, rng_map })
    }

    /// What the camera was made from.
    pub fn setup(&self) -> (setup: &CameraSetup)
        ensures
            *setup == self.config(),
            fault(*setup) is None,
    {
        proof {
            use_type_invariant(self);
        }
        &self.setup
    }

    /// The offset within the pixel at which the ray of sample `i` is
    /// aimed: the radical inverses of `i + 1` in base 2 and in base 3.
    pub fn sample_offset(&self, i: usize) -> (offset: Offset)
        requires
            i < SAMPLE_COUNT,
        ensures
            offset == offset_at(i as int),
    {
        proof {
            use_type_invariant(self);
        }
        self.rng_map[i]
    }

    /// Whether every ray starts at the centre of the camera, so that the
    /// picture is sharp everywhere: so it is with a defocus angle of zero
    /// or less. Otherwise rays start on the defocus disk.
    pub fn is_sharp(&self) -> (sharp: bool)
        ensures
            sharp == (self.config().defocus_angle@ <= 0),
    {
        self.setup.defocus_angle.milli <= 0
    }

    /// The range of ray parameters in which a ray may hit: from just off
    /// the ray's start to the far end of the camera's range.
    pub fn hit_range(&self) -> (range: Range<Scalar>)
        ensures
            range.start@ == NEAR_MILLI,
            range.end == self.config().t_range.end,
    {
        Range { start: Scalar::from_milli(NEAR_MILLI), end: self.setup.t_range.end }
    }

    /// A path for one sample: it starts at depth 0, is bounded by the
    /// camera's depth limit and plays roulette from the first bounce on.
    pub fn new_path(&self) -> (path: Path)
        ensures
            path == Path::start(self.config().max_depth, 0),
    {
        Path::new(self.setup.max_depth, 0)
    }

    /// The pixels of the picture in the order in which they are rendered
    /// and written: row after row from the top, each from left to right.
    /// Entry `i` is the column and the row of pixel `i`.
    pub fn render_order(&self) -> (order: Vec<(usize, usize)>)
        ensures
            order@.len() == self.config().image_width * self.config().image_height,
            forall|i: int|
                0 <= i < order@.len() ==> #[trigger] order@[i] == (
                    (i % self.config().image_width as int) as usize,
                    (i / self.config().image_width as int) as usize,
                ),
    {
        proof {
            use_type_invariant(self);
        }
        let cells = cartesian_product(self.setup.image_height, self.setup.image_width);
        let mut order: Vec<(usize, usize)> = Vec::new();
        let mut i: usize = 0;
        while i < cells.len()
            invariant
                i <= cells@.len(),
                order@.len() == i,
                forall|k: int| 0 <= k < i ==> #[trigger] order@[k] == (cells@[k].1, cells@[k].0),
            decreases cells@.len() - i,
        {
            let (y, x) = cells[i];
            order.push((x, y));
            i += 1;
        }
        order
    }
}

/// A camera has an offset for every sample of every pass of the preview.
pub proof fn lemma_preview_has_offsets(i: int)
    requires
        0 <= i < preview_schedule().len(),
    ensures
        Progressive::pass_at(preview_schedule(), i).first_sample + Progressive::pass_at(
            preview_schedule(),
            i,
        ).new_samples <= SAMPLE_COUNT,
{
    let s = preview_schedule();
    lemma_preview_is_schedule();
    lemma_pass_weight(s, i);
    lemma_total_bounded(s, 256, i + 1);
    assert(256 * (i + 1) <= 256 * 237) by (nonlinear_arith)
        requires
            i + 1 <= 237,
    ;
}

/// Whether a picture of the given size has few enough pixels to be listed.
fn cells_fit(width: usize, height: usize) -> (fit: bool)
    ensures
        fit == (width * height * CELL_BYTES <= isize::MAX),
{
    match width.checked_mul(height) {
        Some(cells) => match cells.checked_mul(16) {
            Some(bytes) => bytes <= isize::MAX as usize,
            None => false,
        },
        None => {
            proof {
                assert(width * height * CELL_BYTES > isize::MAX) by (nonlinear_arith)
                    requires
                        width * height > usize::MAX,
                        CELL_BYTES == 16,
                        usize::MAX >= isize::MAX,
                ;
            }
            false
        },
    }
}

/// The product of a coordinate and a difference of coordinates fits in 128
/// bits.
proof fn lemma_product_fits(a: int, b: int)
    requires
        -0x8000_0000_0000_0000 <= a <= 0x7fff_ffff_ffff_ffff,
        -0xffff_ffff_ffff_ffff <= b <= 0xffff_ffff_ffff_ffff,
    ensures
        -0x8000_0000_0000_0000_0000_0000_0000_0000 <= a * b <= 0x7fff_ffff_ffff_ffff_ffff_ffff_ffff_ffff,
{
    assert(a * b <= 0x8000_0000_0000_0000 * 0xffff_ffff_ffff_ffff) by (nonlinear_arith)
        requires
            -0x8000_0000_0000_0000 <= a <= 0x8000_0000_0000_0000,
            -0xffff_ffff_ffff_ffff <= b <= 0xffff_ffff_ffff_ffff,
    ;
    assert(a * b >= -(0x8000_0000_0000_0000 * 0xffff_ffff_ffff_ffff)) by (nonlinear_arith)
        requires
            -0x8000_0000_0000_0000 <= a <= 0x8000_0000_0000_0000,
            -0xffff_ffff_ffff_ffff <= b <= 0xffff_ffff_ffff_ffff,
    ;
}

/// The sample pattern: the Halton sequences in base 2 and in base 3, side
/// by side.
pub fn sample_pattern() -> (pattern: Vec<Offset>)
    ensures
        pattern@.len() == SAMPLE_COUNT,
        forall|i: int| 0 <= i < SAMPLE_COUNT ==> #[trigger] pattern@[i] == offset_at(i),
{
    let across = halton_sequence(2, SAMPLE_COUNT);
    let down = halton_sequence(3, SAMPLE_COUNT);
    let mut pattern: Vec<Offset> = Vec::new();
    let mut i: usize = 0;
    while i < across.len()
        invariant
            i <= across@.len(),
            across@.len() == SAMPLE_COUNT,
            down@.len() == SAMPLE_COUNT,
            pattern@.len() == i,
            forall|k: int|
                0 <= k < across@.len() ==> {
                    &&& (#[trigger] across@[k]).0 == mirror(2, (k + 1) as nat)
                    &&& across@[k].1 == denominator(2, (k + 1) as nat)
                },
            forall|k: int|
                0 <= k < down@.len() ==> {
                    &&& (#[trigger] down@[k]).0 == mirror(3, (k + 1) as nat)
                    &&& down@[k].1 == denominator(3, (k + 1) as nat)
                },
            forall|k: int| 0 <= k < i ==> #[trigger] pattern@[k] == offset_at(k),
        decreases across@.len() - i,
    {
        pattern.push((across[i], down[i]));
        i += 1;
    }
    pattern
}

/// `itertools::Itertools::cartesian_product` of the rows `0..rows` and the
/// columns `0..columns`, collected. The pairs come row by row, and within a
/// row column by column; there are `rows * columns` of them.
#[verifier::external_body]
fn cartesian_product(rows: usize, columns: usize) -> (cells: Vec<(usize, usize)>)
    requires
        rows * columns * CELL_BYTES <= isize::MAX,
    ensures
        cells@.len() == rows * columns,
        forall|i: int|
            0 <= i < cells@.len() ==> #[trigger] cells@[i] == ((i / columns as int) as usize, (i % columns as int) as usize),
{
    itertools::Itertools::cartesian_product(0..rows, 0..columns).collect()
}

} // verus!
