use rt::bvh::AxisAlignedBoundingBox;
use rt::hittable::{bounding_box, Shape, Sphere, Triangle};
use rt::material::{Dielectric, Material};
use rt::vec3::{Scalar, Vec2, Vec3};
use std::ops::Range;
use std::sync::Arc;

fn glass() -> Arc<Material> {
    Arc::new(Material::Dielectric(Dielectric::new(Scalar::from_milli(1500))))
}

fn span(start: i64, end: i64) -> Range<Scalar> {
    Scalar::from_milli(start)..Scalar::from_milli(end)
}

#[test]
fn sphere_keeps_centre_radius_and_material() {
    let material = glass();
    let sphere = Sphere::new(Vec3::from_milli(400, 400, 400), Scalar::from_milli(300), material.clone());
    assert_eq!(sphere.center(), Vec3::from_milli(400, 400, 400));
    assert_eq!(sphere.radius(), Scalar::from_milli(300));
    assert_eq!(sphere.front_direction(), Vec3::from_milli(1000, 0, 0));
    assert!(Arc::ptr_eq(sphere.material(), &material));
    assert_eq!(sphere.bh_node_index(), 0);
}

#[test]
fn sphere_of_negative_radius_has_radius_zero() {
    let sphere = Sphere::new(Vec3::from_milli(0, 0, 0), Scalar::from_milli(-1), glass());
    assert_eq!(sphere.radius(), Scalar::from_milli(0));
    let sphere =
        Sphere::new_facing(Vec3::from_milli(0, 0, 0), Scalar::from_milli(i64::MIN), glass(), Vec3::z_axis());
    assert_eq!(sphere.radius(), Scalar::from_milli(0));
    let sphere = Sphere::new(Vec3::from_milli(0, 0, 0), Scalar::from_milli(0), glass());
    assert_eq!(sphere.radius(), Scalar::from_milli(0));
}

#[test]
fn sphere_faces_where_it_is_told() {
    let sphere = Sphere::new_facing(
        Vec3::from_milli(-1000, 1732, 700),
        Scalar::from_milli(700),
        glass(),
        Vec3::from_milli(3000, -5000, 600),
    );
    assert_eq!(sphere.front_direction(), Vec3::from_milli(3000, -5000, 600));
    assert_eq!(sphere.center(), Vec3::from_milli(-1000, 1732, 700));
    assert_eq!(sphere.radius(), Scalar::from_milli(700));
}

#[test]
fn sphere_box_reaches_one_radius_each_way() {
    let sphere = Sphere::new(Vec3::from_milli(400, -400, 0), Scalar::from_milli(300), glass());
    assert_eq!(sphere.aabb(), AxisAlignedBoundingBox::new(span(100, 700), span(-700, -100), span(-300, 300)));
    let point = Sphere::new(Vec3::from_milli(1, 2, 3), Scalar::from_milli(0), glass());
    assert_eq!(point.aabb(), AxisAlignedBoundingBox::new(span(1, 1), span(2, 2), span(3, 3)));
}

#[test]
fn triangle_has_default_texture_coordinates() {
    let a = Vec3::from_milli(0, 0, 0);
    let b = Vec3::from_milli(1000, 0, 0);
    let c = Vec3::from_milli(0, 1000, 0);
    let triangle = Triangle::new(a, b, c, glass());
    assert_eq!((triangle.a, triangle.b, triangle.c), (a, b, c));
    assert_eq!(triangle.uv_a, Vec2::from_milli(0, 0));
    assert_eq!(triangle.uv_b, Vec2::from_milli(1000, 0));
    assert_eq!(triangle.uv_c, Vec2::from_milli(500, 1000));
    assert_eq!(triangle.bh_node_index(), 0);
}

#[test]
fn triangle_keeps_given_texture_coordinates() {
    let a = Vec3::from_milli(0, 0, 0);
    let b = Vec3::from_milli(1000, 0, 0);
    let c = Vec3::from_milli(0, 1000, 0);
    let triangle = Triangle::new_with_uv(
        a,
        b,
        c,
        Vec2::from_milli(1, 2),
        Vec2::from_milli(3, 4),
        Vec2::from_milli(5, 6),
        glass(),
    );
    assert_eq!((triangle.a, triangle.b, triangle.c), (a, b, c));
    assert_eq!(
        (triangle.uv_a, triangle.uv_b, triangle.uv_c),
        (Vec2::from_milli(1, 2), Vec2::from_milli(3, 4), Vec2::from_milli(5, 6))
    );
}

#[test]
fn opposite_triangle_takes_its_corners_backwards() {
    let a = Vec3::from_milli(0, 0, 0);
    let b = Vec3::from_milli(1000, 0, 0);
    let c = Vec3::from_milli(0, 1000, 0);
    let triangle = Triangle::new_opposite_normal(a, b, c, glass());
    assert_eq!((triangle.a, triangle.b, triangle.c), (c, b, a));
    assert_eq!(triangle.uv_a, Vec2::from_milli(0, 0));
    assert_eq!(triangle.uv_c, Vec2::from_milli(500, 1000));
}

#[test]
fn triangle_box_holds_the_corners_tightly() {
    let triangle = Triangle::new(
        Vec3::from_milli(5, -2, 9),
        Vec3::from_milli(-3, 4, 9),
        Vec3::from_milli(1, 1, 9),
        glass(),
    );
    assert_eq!(triangle.aabb(), AxisAlignedBoundingBox::new(span(-3, 5), span(-2, 4), span(9, 9)));
}

#[test]
fn shifted_triangle_moves_every_corner() {
    let material = glass();
    let triangle = Triangle::new_with_uv(
        Vec3::from_milli(0, 0, 0),
        Vec3::from_milli(1000, 0, 0),
        Vec3::from_milli(0, 1000, 0),
        Vec2::from_milli(1, 2),
        Vec2::from_milli(3, 4),
        Vec2::from_milli(5, 6),
        material.clone(),
    );
    let moved = triangle.shift(Vec3::from_milli(10, -20, 30));
    assert_eq!(moved.a, Vec3::from_milli(10, -20, 30));
    assert_eq!(moved.b, Vec3::from_milli(1010, -20, 30));
    assert_eq!(moved.c, Vec3::from_milli(10, 980, 30));
    assert_eq!((moved.uv_a, moved.uv_b, moved.uv_c), (triangle.uv_a, triangle.uv_b, triangle.uv_c));
    assert!(Arc::ptr_eq(&moved.material, &material));
    assert_eq!(moved.bh_node_index(), 0);
}

#[test]
fn node_index_is_kept_for_the_acceleration_structure() {
    let mut sphere = Shape::Sphere(Sphere::new(Vec3::from_milli(1, 2, 3), Scalar::from_milli(4), glass()));
    let mut triangle = Shape::Triangle(Triangle::new(
        Vec3::from_milli(0, 0, 0),
        Vec3::from_milli(1000, 0, 0),
        Vec3::from_milli(0, 1000, 0),
        glass(),
    ));
    let sphere_box = sphere.aabb();
    let triangle_box = triangle.aabb();
    assert_eq!(sphere.bh_node_index(), 0);
    sphere.set_bh_node_index(17);
    triangle.set_bh_node_index(usize::MAX);
    assert_eq!(sphere.bh_node_index(), 17);
    assert_eq!(triangle.bh_node_index(), usize::MAX);
    assert_eq!(sphere.aabb(), sphere_box);
    assert_eq!(triangle.aabb(), triangle_box);
    match sphere {
        Shape::Sphere(s) => {
            assert_eq!(s.center(), Vec3::from_milli(1, 2, 3));
            assert_eq!(s.radius(), Scalar::from_milli(4));
        }
        Shape::Triangle(_) => panic!("a sphere stays a sphere"),
    }
}

#[test]
fn box_around_no_shape_is_the_box_of_nothing() {
    assert_eq!(bounding_box(&vec![]), AxisAlignedBoundingBox::empty());
}

#[test]
fn box_around_a_scene_holds_every_shape() {
    let shapes = vec![
        Shape::Sphere(Sphere::new(Vec3::from_milli(0, -10000, 0), Scalar::from_milli(10000), glass())),
        Shape::Triangle(Triangle::new(
            Vec3::from_milli(0, 0, 0),
            Vec3::from_milli(30000, 0, 0),
            Vec3::from_milli(0, 1000, 0),
            glass(),
        )),
    ];
    assert_eq!(
        bounding_box(&shapes),
        AxisAlignedBoundingBox::new(span(-10000, 30000), span(-20000, 1000), span(-10000, 10000))
    );
    let one = vec![Shape::Sphere(Sphere::new(Vec3::from_milli(5, 5, 5), Scalar::from_milli(1), glass()))];
    assert_eq!(bounding_box(&one), AxisAlignedBoundingBox::new(span(4, 6), span(4, 6), span(4, 6)));
}

use rt::fault::SceneError;
use rt::hittable::World;
use rt::material::{Lambertian, Metal};
use rt::raster::Image;
use rt::texture::{CheckerTexture, ImageTexture, SolidColor, TextureEnum};

fn plain(r: i64, g: i64, b: i64) -> TextureEnum {
    TextureEnum::SolidColor(SolidColor::new(Vec3::from_milli(r, g, b)))
}

fn ball(material: Material) -> Shape {
    Shape::Sphere(Sphere::new(Vec3::from_milli(0, 0, 0), Scalar::from_milli(1000), Arc::new(material)))
}

fn matte(texture: TextureEnum) -> Material {
    Material::Lambertian(Lambertian::new(texture))
}

#[test]
fn world_without_shapes_is_built_and_holds_nothing() {
    let world = World::build(vec![]).unwrap();
    assert!(world.shapes().is_empty());
    let bounds = world.bounding_box();
    assert_eq!(bounds, AxisAlignedBoundingBox::empty());
    // No point lies in the box of nothing: on every axis it ends before it starts.
    assert!(bounds.x.end.lt(&bounds.x.start));
    assert!(bounds.y.end.lt(&bounds.y.start));
    assert!(bounds.z.end.lt(&bounds.z.start));
}

#[test]
fn world_keeps_sound_shapes_in_order() {
    let shapes = vec![
        ball(matte(plain(0, 500, 1000))),
        Shape::Triangle(Triangle::new(
            Vec3::from_milli(0, 0, 0),
            Vec3::from_milli(5000, 0, 0),
            Vec3::from_milli(0, 5000, 0),
            glass(),
        )),
        ball(Material::Metal(Metal::new_solid(Vec3::from_milli(700, 600, 500), Some(Scalar::from_milli(1000))))),
    ];
    let world = World::build(shapes).unwrap();
    assert_eq!(world.shapes().len(), 3);
    assert!(matches!(world.shapes()[0], Shape::Sphere(_)));
    assert!(matches!(world.shapes()[1], Shape::Triangle(_)));
    assert!(matches!(world.shapes()[2], Shape::Sphere(_)));
    assert_eq!(
        world.bounding_box(),
        AxisAlignedBoundingBox::new(span(-1000, 5000), span(-1000, 5000), span(-1000, 1000))
    );
}

#[test]
fn colour_outside_of_zero_to_one_is_a_fault() {
    for colour in [(1001, 0, 0), (0, -1, 0), (0, 0, 1500), (i64::MIN, 0, 0), (0, i64::MAX, 0)] {
        let texture = plain(colour.0, colour.1, colour.2);
        assert_eq!(texture.check(), Err(SceneError::Color));
        assert_eq!(World::build(vec![ball(matte(texture))]).err(), Some(SceneError::Color));
    }
    assert_eq!(plain(0, 0, 0).check(), Ok(()));
    assert_eq!(plain(1000, 1000, 1000).check(), Ok(()));
}

#[test]
fn checker_with_cells_of_size_zero_is_a_fault() {
    let checker =
        TextureEnum::CheckerTexture(CheckerTexture::new(Scalar::from_milli(0), plain(0, 0, 0), plain(1, 1, 1)));
    assert_eq!(checker.check(), Err(SceneError::CheckerScale));
    assert_eq!(World::build(vec![ball(matte(checker))]).err(), Some(SceneError::CheckerScale));
    let turned =
        TextureEnum::CheckerTexture(CheckerTexture::new(Scalar::from_milli(-310), plain(0, 0, 0), plain(1, 1, 1)));
    assert_eq!(turned.check(), Ok(()));
}

#[test]
fn checker_has_the_faults_of_its_textures_even_first() {
    let bad_even =
        TextureEnum::CheckerTexture(CheckerTexture::new(Scalar::from_milli(0), plain(0, 0, 0), plain(0, 0, 0)));
    let bad_odd = plain(2000, 0, 0);
    let both = TextureEnum::CheckerTexture(CheckerTexture::new(Scalar::from_milli(310), bad_even, bad_odd));
    assert_eq!(both.check(), Err(SceneError::CheckerScale));
    let odd_only =
        TextureEnum::CheckerTexture(CheckerTexture::new(Scalar::from_milli(310), plain(0, 0, 0), plain(2000, 0, 0)));
    assert_eq!(odd_only.check(), Err(SceneError::Color));
    // The size of its own cells comes before the faults of its textures.
    let own = TextureEnum::CheckerTexture(CheckerTexture::new(Scalar::from_milli(0), plain(2000, 0, 0), plain(0, 0, 0)));
    assert_eq!(own.check(), Err(SceneError::CheckerScale));
}

#[test]
fn picture_without_pixels_is_a_fault() {
    let empty = TextureEnum::ImageTexture(ImageTexture::new(Image::empty()));
    assert_eq!(empty.check(), Err(SceneError::EmptyPicture));
    assert_eq!(World::build(vec![ball(matte(empty))]).err(), Some(SceneError::EmptyPicture));
    let image = Image::from_raw(rt::raster::PixelFormat::R8, 1, 1, &[7]).unwrap();
    assert_eq!(TextureEnum::ImageTexture(ImageTexture::new(image)).check(), Ok(()));
}

#[test]
fn metal_blur_outside_of_zero_to_one_is_a_fault() {
    for fuzz in [-1, 1001, i64::MAX] {
        let metal = Material::Metal(Metal::new_solid(Vec3::from_milli(1, 1, 1), Some(Scalar::from_milli(fuzz))));
        assert_eq!(metal.check(), Err(SceneError::Fuzz));
        assert_eq!(World::build(vec![ball(metal)]).err(), Some(SceneError::Fuzz));
    }
    let sharp = Material::Metal(Metal::new_solid(Vec3::from_milli(1, 1, 1), None));
    assert_eq!(sharp.check(), Ok(()));
    // The blur is looked at before the texture.
    let both = Material::Metal(Metal::new_solid(Vec3::from_milli(5000, 1, 1), Some(Scalar::from_milli(2000))));
    assert_eq!(both.check(), Err(SceneError::Fuzz));
    let colour = Material::Metal(Metal::new_solid(Vec3::from_milli(5000, 1, 1), Some(Scalar::from_milli(0))));
    assert_eq!(colour.check(), Err(SceneError::Color));
}

#[test]
fn refractive_index_must_be_positive() {
    for index in [0, -1500, i64::MIN] {
        let clear = Material::Dielectric(Dielectric::new(Scalar::from_milli(index)));
        assert_eq!(clear.check(), Err(SceneError::RefractiveIndex));
        assert_eq!(World::build(vec![ball(clear)]).err(), Some(SceneError::RefractiveIndex));
    }
    assert_eq!(Material::Dielectric(Dielectric::new(Scalar::from_milli(1))).check(), Ok(()));
    // The blur of clear matter is not looked at.
    let frosted = Material::Dielectric(Dielectric::new_frosted(Scalar::from_milli(1500), Scalar::from_milli(5000)));
    assert_eq!(frosted.check(), Ok(()));
}

#[test]
fn sphere_beyond_the_coordinates_is_a_fault() {
    let far = Sphere::new(Vec3::from_milli(i64::MAX, 0, 0), Scalar::from_milli(1), glass());
    assert!(!far.fits());
    assert_eq!(World::build(vec![Shape::Sphere(far)]).err(), Some(SceneError::OutOfBounds));
    let low = Sphere::new(Vec3::from_milli(0, 0, i64::MIN), Scalar::from_milli(1), glass());
    assert!(!low.fits());
    let edge = Sphere::new(Vec3::from_milli(i64::MAX - 5, i64::MIN + 5, 0), Scalar::from_milli(5), glass());
    assert!(edge.fits());
    assert!(World::build(vec![Shape::Sphere(edge)]).is_ok());
    // A sphere out of bounds is named before the fault of its material.
    let both = Sphere::new(
        Vec3::from_milli(i64::MAX, 0, 0),
        Scalar::from_milli(1),
        Arc::new(matte(plain(5000, 0, 0))),
    );
    assert_eq!(Shape::Sphere(both).check(), Err(SceneError::OutOfBounds));
}

#[test]
fn first_faulty_shape_names_the_fault_of_the_world() {
    let shapes = vec![
        ball(matte(plain(1, 2, 3))),
        ball(Material::Dielectric(Dielectric::new(Scalar::from_milli(0)))),
        ball(matte(plain(5000, 2, 3))),
    ];
    assert_eq!(World::build(shapes).err(), Some(SceneError::RefractiveIndex));
    let shapes = vec![
        ball(matte(plain(5000, 2, 3))),
        ball(Material::Dielectric(Dielectric::new(Scalar::from_milli(0)))),
    ];
    assert_eq!(World::build(shapes).err(), Some(SceneError::Color));
}

#[test]
fn ready_made_scenes_are_worlds() {
    assert!(World::build(rt::scenes::gen_checkered()).is_ok());
    let picture = Image::from_raw(rt::raster::PixelFormat::R8, 1, 1, &[7]).unwrap();
    assert!(World::build(rt::scenes::earth_scene(picture.clone())).is_ok());
    assert!(World::build(rt::scenes::triangle_scene(picture.clone(), picture.clone())).is_ok());
    assert_eq!(
        World::build(rt::scenes::triangle_scene(picture.clone(), Image::empty())).err(),
        Some(SceneError::EmptyPicture)
    );
    assert_eq!(World::build(rt::scenes::earth_scene(Image::empty())).err(), Some(SceneError::EmptyPicture));
    let ground = rt::scenes::generate_ground_plane(
        Scalar::from_units(10000),
        Scalar::from_units(10000),
        Scalar::from_milli(-200),
        glass(),
        true,
    );
    assert!(World::build(ground).is_ok());
    let bad = rt::scenes::generate_ground_plane(
        Scalar::from_units(1),
        Scalar::from_units(1),
        Scalar::from_milli(0),
        Arc::new(matte(plain(-1, 0, 0))),
        false,
    );
    assert_eq!(World::build(bad).err(), Some(SceneError::Color));
}

#[test]
fn degenerate_shapes_are_no_fault() {
    // A sphere without radius and a triangle without area can be hit by nothing, but they may stand in a scene.
    let point = Shape::Sphere(Sphere::new(Vec3::from_milli(1, 2, 3), Scalar::from_milli(0), glass()));
    let corner = Vec3::from_milli(4, 5, 6);
    let flat = Shape::Triangle(Triangle::new(corner, corner, corner, glass()));
    let line = Shape::Triangle(Triangle::new(
        Vec3::from_milli(0, 0, 0),
        Vec3::from_milli(1000, 0, 0),
        Vec3::from_milli(2000, 0, 0),
        glass(),
    ));
    let world = World::build(vec![point, flat, line]).unwrap();
    assert_eq!(world.shapes().len(), 3);
    assert_eq!(
        world.bounding_box(),
        AxisAlignedBoundingBox::new(span(0, 2000), span(0, 5), span(0, 6))
    );
}
