//! Ready-made cameras and scenes.

use crate::camera::{fault, Camera, CameraSetup, CELL_BYTES};
use crate::framebuffer::{HEIGHT, WIDTH};
use crate::fault::SceneError;
use crate::hittable::{default_uv_a, default_uv_b, default_uv_c, scene_fault, Shape, Sphere, Triangle};
use crate::material::{Lambertian, Material};
use crate::raster::Image;
use crate::texture::{is_unit, CheckerTexture, ImageTexture, SolidColor, TextureEnum};
use crate::vec3::{Scalar, Vec3};
use std::ops::Range;
use std::sync::Arc;
use vstd::prelude::*;

verus! {

/// The depth limit of the ready-made cameras.
pub const MAX_DEPTH: usize = 100;

/// The range of ray parameters of the ready-made cameras: from zero to the
/// largest scalar there is.
pub open spec fn whole_range() -> Range<Scalar> {
    Range { start: Scalar { milli: 0 }, end: Scalar { milli: i64::MAX } }
}

/// The setup shared by the ready-made cameras: the preview's picture size,
/// 32 samples per pixel, the depth limit `MAX_DEPTH`, the whole range of
/// ray parameters.
pub open spec fn preset(
    center: Vec3,
    lookat: Vec3,
    focus_distance: Option<Scalar>,
    defocus_angle: int,
    vertical_fov: int,
) -> CameraSetup {
    CameraSetup {
        center,
        lookat,
        up: Vec3::at(0, 0, 1000),
        focus_distance,
        defocus_angle: Scalar { milli: defocus_angle as i64 },
        image_width: WIDTH as usize,
        image_height: HEIGHT as usize,
        samples_per_pixel: 32,
        max_depth: MAX_DEPTH,
        vertical_fov: Scalar { milli: vertical_fov as i64 },
        t_range: whole_range(),
    }
}

/// A preset is without fault where the camera stands off the vertical
/// through the point it looks at, any given focus distance is positive and
/// the field of view is between 0 and 180 degrees.
proof fn lemma_preset_is_sound(
    center: Vec3,
    lookat: Vec3,
    focus_distance: Option<Scalar>,
    defocus_angle: int,
    vertical_fov: int,
)
    requires
        center.x@ != lookat.x@ || center.y@ != lookat.y@,
        focus_distance matches Some(d) ==> d@ > 0,
        0 < vertical_fov < 180000,
    ensures
        fault(preset(center, lookat, focus_distance, defocus_angle, vertical_fov)) is None,
{
    let setup = preset(center, lookat, focus_distance, defocus_angle, vertical_fov);
    assert(setup.image_width * setup.image_height * CELL_BYTES == 7680000) by (nonlinear_arith)
        requires
            setup.image_width == 800,
            setup.image_height == 600,
            CELL_BYTES == 16,
    ;
    let vx = center.x@ - lookat.x@;
    let vy = center.y@ - lookat.y@;
    assert(1000 * vx == 0 ==> vx == 0) by (nonlinear_arith);
    assert(1000 * vy == 0 ==> vy == 0) by (nonlinear_arith);
    assert(0 * vx == 0 && 0 * vy == 0) by (nonlinear_arith);
    assert(setup.up.z@ == 1000 && setup.up.x@ == 0 && setup.up.y@ == 0);
}

fn preset_camera(
    center: Vec3,
    lookat: Vec3,
    focus_distance: Option<Scalar>,
    defocus_angle: i64,
    vertical_fov: i64,
) -> (camera: Camera)
    requires
        fault(preset(center, lookat, focus_distance, defocus_angle as int, vertical_fov as int)) is None,
    ensures
        camera.config() == preset(center, lookat, focus_distance, defocus_angle as int, vertical_fov as int),
{
    let made = Camera::new(
        center,
        lookat,
        Vec3::z_axis(),
        focus_distance,
        Scalar::from_milli(defocus_angle),
        WIDTH as usize,
        HEIGHT as usize,
        32,
        MAX_DEPTH,
        Scalar::from_milli(vertical_fov),
        Range { start: Scalar::from_milli(0), end: Scalar::from_milli(i64::MAX) },
    );
    match made {
        Ok(camera) => camera,
        Err(_) => vstd::pervasive::unreached(),
    }
}

/// A sharp camera at (3, -5, 0.6) that looks at the origin with a field of
/// view of 20 degrees, focused on the origin.
pub fn cam1() -> (camera: Camera)
    ensures
        camera.config() == preset(Vec3::at(3000, -5000, 600), Vec3::at(0, 0, 0), None, 0, 20000),
{
    proof {
        lemma_preset_is_sound(Vec3::at(3000, -5000, 600), Vec3::at(0, 0, 0), None, 0, 20000);
    }
    preset_camera(Vec3::from_milli(3000, -5000, 600), Vec3::from_milli(0, 0, 0), None, 0, 20000)
}

/// A camera at (14, 3, 10) that looks at the origin with a field of view of
/// 20 degrees, focused at distance 16 with a defocus angle of 0.7 degrees.
pub fn cam2() -> (camera: Camera)
    ensures
        camera.config() == preset(
            Vec3::at(14000, 3000, 10000),
            Vec3::at(0, 0, 0),
            Some(Scalar { milli: 16000 }),
            700,
            20000,
        ),
{
    proof {
        lemma_preset_is_sound(
            Vec3::at(14000, 3000, 10000),
            Vec3::at(0, 0, 0),
            Some(Scalar { milli: 16000 }),
            700,
            20000,
        );
    }
    preset_camera(
        Vec3::from_milli(14000, 3000, 10000),
        Vec3::from_milli(0, 0, 0),
        Some(Scalar::from_milli(16000)),
        700,
        20000,
    )
}

/// A sharp camera at (-14, -10, 7) that looks at (0, 0, 5) with a field of
/// view of 40 degrees, focused on that point.
pub fn widecam() -> (camera: Camera)
    ensures
        camera.config() == preset(Vec3::at(-14000, -10000, 7000), Vec3::at(0, 0, 5000), None, 0, 40000),
{
    proof {
        lemma_preset_is_sound(Vec3::at(-14000, -10000, 7000), Vec3::at(0, 0, 5000), None, 0, 40000);
    }
    preset_camera(Vec3::from_milli(-14000, -10000, 7000), Vec3::from_milli(0, 0, 5000), None, 0, 40000)
}

/// A camera high above the origin, at (0.1, 0.1, 20), that looks down at it
/// with a field of view of 20 degrees, focused on the origin with a defocus
/// angle of 0.7 degrees. It stands a little off the vertical, since a
/// camera cannot look along its up vector.
pub fn topdown_cam() -> (camera: Camera)
    ensures
        camera.config() == preset(Vec3::at(100, 100, 20000), Vec3::at(0, 0, 0), None, 700, 20000),
{
    proof {
        lemma_preset_is_sound(Vec3::at(100, 100, 20000), Vec3::at(0, 0, 0), None, 700, 20000);
    }
    preset_camera(Vec3::from_milli(100, 100, 20000), Vec3::from_milli(0, 0, 0), None, 700, 20000)
}

/// Whether `material` is matte with a checker pattern of the given cell
/// size over two plain colours.
pub open spec fn is_checkered(material: Material, scale: int, even: Vec3, odd: Vec3) -> bool {
    &&& material matches Material::Lambertian(matte)
    &&& matte.texture matches TextureEnum::CheckerTexture(checker)
    &&& checker.cell_size()@ == scale
    &&& checker.even() == TextureEnum::SolidColor(SolidColor { color: even })
    &&& checker.odd() == TextureEnum::SolidColor(SolidColor { color: odd })
}

/// Whether `material` is matte and shows `image`.
pub open spec fn is_pictured(material: Material, image: Image) -> bool {
    &&& material matches Material::Lambertian(matte)
    &&& matte.texture matches TextureEnum::ImageTexture(picture)
    &&& picture.image == image
}

/// Whether `shape` is the sphere with the given centre and radius (both in
/// thousandths), its texture facing along the x-axis.
pub open spec fn is_ball(shape: Shape, center: Vec3, radius: int) -> bool {
    shape matches Shape::Sphere(s) && s.is(center, Scalar { milli: radius as i64 }, s.matter(), Vec3::at(1000, 0, 0))
}

/// Whether `shape` is the triangle with the given corners and the default
/// texture coordinates.
pub open spec fn is_face(shape: Shape, a: Vec3, b: Vec3, c: Vec3) -> bool {
    shape matches Shape::Triangle(t) && t.is(a, b, c, default_uv_a(), default_uv_b(), default_uv_c(), t.material)
}

/// A checkered material is without fault if its cells have a size and its
/// two colours are colours.
pub proof fn lemma_checkered_is_sound(material: Arc<Material>, scale: int, even: Vec3, odd: Vec3)
    requires
        is_checkered(*material, scale, even, odd),
        scale != 0,
        is_unit(even.x) && is_unit(even.y) && is_unit(even.z),
        is_unit(odd.x) && is_unit(odd.y) && is_unit(odd.z),
    ensures
        material.fault() is None,
{
    reveal_with_fuel(TextureEnum::fault, 3);
}

/// A material that shows a picture has the fault of the picture.
pub proof fn lemma_pictured_fault(material: Arc<Material>, image: Image)
    requires
        is_pictured(*material, image),
    ensures
        material.fault() == picture_fault(image),
{
    reveal_with_fuel(TextureEnum::fault, 2);
}

fn checkered(scale: i64, even: Vec3, odd: Vec3) -> (material: Arc<Material>)
    ensures
        is_checkered(*material, scale as int, even, odd),
{
    let even_texture = TextureEnum::SolidColor(SolidColor::new(even));
    let odd_texture = TextureEnum::SolidColor(SolidColor::new(odd));
    let checker_tex = TextureEnum::CheckerTexture(
        CheckerTexture::new(Scalar::from_milli(scale), even_texture, odd_texture),
    );
    Arc::new(Material::Lambertian(Lambertian::new(checker_tex)))
}

fn pictured(image: Image) -> (material: Arc<Material>)
    ensures
        is_pictured(*material, image),
{
    let texture = TextureEnum::ImageTexture(ImageTexture::new(image));
    Arc::new(Material::Lambertian(Lambertian::new(texture)))
}

/// Two spheres of radius 10 that touch at the origin, one centred at
/// (0, -10, 0) and one at (0, 10, 0). They share one matte material, a
/// checker pattern of cell size 0.31 in dark green and light grey.
pub fn gen_checkered() -> (shapes: Vec<Shape>)
    ensures
        shapes@.len() == 2,
        is_ball(shapes@[0], Vec3::at(0, -10000, 0), 10000),
        is_ball(shapes@[1], Vec3::at(0, 10000, 0), 10000),
        shapes@[0].matter() == shapes@[1].matter(),
        is_checkered(*shapes@[0].matter(), 310, Vec3::at(200, 300, 100), Vec3::at(900, 900, 900)),
        scene_fault(shapes@) is None,
{
    let mut shapes: Vec<Shape> = Vec::new();
    let mat = checkered(310, Vec3::from_milli(200, 300, 100), Vec3::from_milli(900, 900, 900));
    let sphere_lower = Shape::Sphere(
        Sphere::new(Vec3::from_milli(0, -10000, 0), Scalar::from_milli(10000), mat.clone()),
    );
    let sphere_upper = Shape::Sphere(Sphere::new(Vec3::from_milli(0, 10000, 0), Scalar::from_milli(10000), mat));
    shapes.push(sphere_lower);
    shapes.push(sphere_upper);
    proof {
        lemma_checkered_is_sound(shapes@[0].matter(), 310, Vec3::at(200, 300, 100), Vec3::at(900, 900, 900));
        assert(shapes@[0].fault() is None);
        assert(shapes@[1].fault() is None);
        crate::hittable::lemma_scene_without_fault(shapes@);
    }
    shapes
}

/// The fault of a picture as a texture: it must have pixels.
pub open spec fn picture_fault(image: Image) -> Option<SceneError> {
    if image@.len() == 0 {
        Some(SceneError::EmptyPicture)
    } else {
        None
    }
}

/// A sphere of radius 2 at the origin that shows `earth_image`. The scene
/// is without fault if the picture has pixels.
pub fn earth_scene(earth_image: Image) -> (shapes: Vec<Shape>)
    ensures
        shapes@.len() == 1,
        is_ball(shapes@[0], Vec3::at(0, 0, 0), 2000),
        is_pictured(*shapes@[0].matter(), earth_image),
        scene_fault(shapes@) == picture_fault(earth_image),
{
    let mut shapes: Vec<Shape> = Vec::new();
    let earth_mat = pictured(earth_image);
    let earth_ball = Shape::Sphere(Sphere::new(Vec3::from_milli(0, 0, 0), Scalar::from_milli(2000), earth_mat));
    shapes.push(earth_ball);
    proof {
        lemma_pictured_fault(shapes@[0].matter(), earth_image);
        assert(shapes@[0].fault() == picture_fault(earth_image));
        assert(shapes@.drop_last() =~= Seq::<Shape>::empty());
        assert(scene_fault(shapes@.drop_last()) is None);
    }
    shapes
}

/// Three triangles that meet at the origin, each spanning two of the axes,
/// and a small sphere between them. The scene is without fault if both
/// pictures have pixels. In the order of the result:
/// a red and blue checkered triangle in the x-y plane,
/// a green and grey checkered triangle in the x-z plane,
/// a sphere of radius 0.3 at (0.4, 0.4, 0.4) that shows `earth_image`,
/// and a triangle in the y-z plane that shows `saul_image`.
pub fn triangle_scene(earth_image: Image, saul_image: Image) -> (shapes: Vec<Shape>)
    ensures
        shapes@.len() == 4,
        is_face(shapes@[0], Vec3::at(0, 0, 0), Vec3::at(1000, 0, 0), Vec3::at(0, 1000, 0)),
        is_checkered(*shapes@[0].matter(), 310, Vec3::at(1000, 0, 0), Vec3::at(0, 0, 1000)),
        is_face(shapes@[1], Vec3::at(1000, 0, 0), Vec3::at(0, 0, 0), Vec3::at(0, 0, 1000)),
        is_checkered(*shapes@[1].matter(), 310, Vec3::at(200, 300, 100), Vec3::at(900, 900, 900)),
        is_ball(shapes@[2], Vec3::at(400, 400, 400), 300),
        is_pictured(*shapes@[2].matter(), earth_image),
        is_face(shapes@[3], Vec3::at(0, 0, 0), Vec3::at(0, 1000, 0), Vec3::at(0, 0, 1000)),
        is_pictured(*shapes@[3].matter(), saul_image),
        scene_fault(shapes@) is None <==> earth_image@.len() > 0 && saul_image@.len() > 0,
{
    let mut shapes: Vec<Shape> = Vec::new();

    let mat1 = checkered(310, Vec3::from_milli(1000, 0, 0), Vec3::from_milli(0, 0, 1000));
    let mat2 = checkered(310, Vec3::from_milli(200, 300, 100), Vec3::from_milli(900, 900, 900));

    let a = Vec3::from_milli(0, 0, 0);
    let b = Vec3::from_milli(1000, 0, 0);
    let c = Vec3::from_milli(0, 1000, 0);
    let tri1 = Shape::Triangle(Triangle::new(a, b, c, mat1));

    let a = Vec3::from_milli(1000, 0, 0);
    let b = Vec3::from_milli(0, 0, 0);
    let c = Vec3::from_milli(0, 0, 1000);
    let tri2 = Shape::Triangle(Triangle::new(a, b, c, mat2));

    let earth_mat = pictured(earth_image);
    let earth_ball = Shape::Sphere(
        Sphere::new(Vec3::from_milli(400, 400, 400), Scalar::from_milli(300), earth_mat),
    );

    let saul_mat = pictured(saul_image);
    let a = Vec3::from_milli(0, 0, 0);
    let b = Vec3::from_milli(0, 1000, 0);
    let c = Vec3::from_milli(0, 0, 1000);
    let saul_tri = Shape::Triangle(Triangle::new(a, b, c, saul_mat));

    shapes.push(tri1);
    shapes.push(tri2);
    shapes.push(earth_ball);
    shapes.push(saul_tri);
    proof {
        lemma_checkered_is_sound(shapes@[0].matter(), 310, Vec3::at(1000, 0, 0), Vec3::at(0, 0, 1000));
        lemma_checkered_is_sound(shapes@[1].matter(), 310, Vec3::at(200, 300, 100), Vec3::at(900, 900, 900));
        lemma_pictured_fault(shapes@[2].matter(), earth_image);
        lemma_pictured_fault(shapes@[3].matter(), saul_image);
        assert(shapes@[0].fault() is None);
        assert(shapes@[1].fault() is None);
        assert(shapes@[2].fault() == picture_fault(earth_image));
        assert(shapes@[3].fault() == picture_fault(saul_image));
        crate::hittable::lemma_scene_without_fault(shapes@);
    }
    shapes
}

/// The corner of a ground plane at height `z` that lies `x_side` half
/// widths along x and `y_side` half lengths along y from the middle, the
/// halves rounded down to a thousandth.
pub open spec fn ground_corner(width: Scalar, length: Scalar, z: Scalar, x_side: int, y_side: int) -> Vec3 {
    Vec3 {
        x: Scalar { milli: (x_side * (width@ / 2)) as i64 },
        y: Scalar { milli: (y_side * (length@ / 2)) as i64 },
        z,
    }
}

/// A rectangle of the given width and length around the origin at height
/// `z`, as two triangles that share the diagonal from the corner at low x
/// and low y to the corner at high x and high y. With `top_is_up` both face
/// upward, else both face downward. Both have the given material, and the
/// scene is without fault if the material is.
pub fn generate_ground_plane(
    width: Scalar,
    length: Scalar,
    z: Scalar,
    material: Arc<Material>,
    top_is_up: bool,
) -> (shapes: Vec<Shape>)
    ensures
        shapes@.len() == 2,
        shapes@[0].matter() == material,
        shapes@[1].matter() == material,
        ({
            let a = ground_corner(width, length, z, -1, -1);
            let b = ground_corner(width, length, z, 1, -1);
            let c = ground_corner(width, length, z, 1, 1);
            let d = ground_corner(width, length, z, -1, 1);
            if top_is_up {
                is_face(shapes@[0], a, b, c) && is_face(shapes@[1], a, c, d)
            } else {
                is_face(shapes@[0], c, b, a) && is_face(shapes@[1], d, c, a)
            }
        }),
        scene_fault(shapes@) is None <==> material.fault() is None,
{
    let half_width = width.half();
    let half_length = length.half();

    let a = Vec3::new(half_width.neg(), half_length.neg(), z);
    let b = Vec3::new(half_width, half_length.neg(), z);
    let c = Vec3::new(half_width, half_length, z);
    let d = Vec3::new(half_width.neg(), half_length, z);

    let mut shapes: Vec<Shape> = Vec::new();
    if top_is_up {
        let tri1 = Triangle::new(a, b, c, material.clone());
        let tri2 = Triangle::new(a, c, d, material.clone());
        shapes.push(Shape::Triangle(tri1));
        shapes.push(Shape::Triangle(tri2));
    } else {
        let tri1 = Triangle::new_opposite_normal(a, b, c, material.clone());
        let tri2 = Triangle::new_opposite_normal(a, c, d, material.clone());
        shapes.push(Shape::Triangle(tri1));
        shapes.push(Shape::Triangle(tri2));
    }
    proof {
        assert(shapes@[0].fault() == material.fault());
        assert(shapes@[1].fault() == material.fault());
        crate::hittable::lemma_scene_without_fault(shapes@);
    }
    shapes
}

} // verus!
