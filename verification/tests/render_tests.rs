use raytracer::camera::Camera;
use raytracer::fixed::Fixed;
use raytracer::hittable::{Hittable, HittableList};
use raytracer::light::{PointLight, PointLightPos};
use raytracer::math::Vec3;
use raytracer::ppm::{ppm, push_decimal, push_line, push_signed_decimal};
use raytracer::ray::Ray;
use raytracer::render::{
    draw_jitter, pixel_bytes, pixel_color, pixel_sum, render, sample_color, sample_coordinate,
    to_byte, Frame, Scene,
};
use raytracer::shading::ray_color;
use raytracer::sphere::Sphere;

fn fx(x: f64) -> Fixed {
    Fixed::from_raw((x * 1e12).round() as i64)
}

fn v3(x: f64, y: f64, z: f64) -> Vec3 {
    Vec3::new(fx(x), fx(y), fx(z))
}

fn forward_camera() -> Camera {
    Camera::new(v3(0.0, 0.0, 0.0), v3(0.0, 0.0, -1.0), v3(0.0, 1.0, 0.0), fx(1.0), fx(1.0))
}

fn scene_with(world: HittableList, cam: Camera) -> Scene {
    Scene { world, light: PointLight::new(PointLightPos(v3(5.0, 5.0, -2.0)), v3(1.0, 1.0, 1.0)), cam }
}

#[test]
fn camera_spans_the_image_plane() {
    let cam = forward_camera();
    assert_eq!(cam.origin, v3(0.0, 0.0, 0.0));
    assert_eq!(cam.horizontal, v3(2.0, 0.0, 0.0));
    assert_eq!(cam.vertical, v3(0.0, 2.0, 0.0));
    assert_eq!(cam.lower_left_corner, v3(-1.0, -1.0, -1.0));
}

#[test]
fn camera_width_follows_the_aspect_ratio() {
    let cam = Camera::new(v3(1.0, 2.0, 3.0), v3(1.0, 2.0, 2.0), v3(0.0, 1.0, 0.0), fx(0.5), fx(2.0));
    assert_eq!(cam.origin, v3(1.0, 2.0, 3.0));
    assert_eq!(cam.horizontal, v3(2.0, 0.0, 0.0));
    assert_eq!(cam.vertical, v3(0.0, 1.0, 0.0));
    assert_eq!(cam.lower_left_corner, v3(0.0, 1.5, 2.0));
}

#[test]
fn camera_rays_start_at_the_eye_and_cross_the_plane() {
    let cam = forward_camera();
    assert_eq!(cam.get_ray(fx(0.5), fx(0.5)), Ray::new(v3(0.0, 0.0, 0.0), v3(0.0, 0.0, -1.0)));
    assert_eq!(cam.get_ray(fx(0.0), fx(0.0)).direction, v3(-1.0, -1.0, -1.0));
    assert_eq!(cam.get_ray(fx(1.0), fx(1.0)).direction, v3(1.0, 1.0, -1.0));
    assert_eq!(cam.get_ray(fx(1.0), fx(0.0)).direction, v3(1.0, -1.0, -1.0));
}

#[test]
fn camera_looking_straight_down() {
    let cam = Camera::new(v3(0.0, 0.0, 0.0), v3(0.0, -1.0, 0.0), v3(0.0, 0.0, -1.0), fx(1.0), fx(1.0));
    assert_eq!(cam.get_ray(fx(0.5), fx(0.5)).direction, v3(0.0, -1.0, 0.0));
}

#[test]
fn sample_coordinate_divides_by_one_less_than_the_extent() {
    assert_eq!(sample_coordinate(3, fx(0.5), 8), fx(0.5));
    assert_eq!(sample_coordinate(0, fx(0.0), 8), fx(0.0));
    assert_eq!(sample_coordinate(7, fx(0.0), 8), fx(1.0));
    assert_eq!(sample_coordinate(1, fx(0.25), 6), fx(0.25));
}

#[test]
fn sample_coordinate_of_a_single_pixel_saturates() {
    assert_eq!(sample_coordinate(0, fx(0.0), 1), fx(0.0));
    assert_eq!(sample_coordinate(0, fx(0.5), 1), Fixed::max_value());
}

#[test]
fn sample_colour_is_the_colour_along_the_camera_ray() {
    let mut world = HittableList::new();
    world.add(Hittable::Sphere(Sphere::new(v3(0.0, 0.0, -3.0), fx(1.0), v3(0.9, 0.2, 0.2), fx(0.3))));
    let scene = scene_with(world, forward_camera());
    let frame = Frame { width: 9, height: 5, samples_per_pixel: 1, max_depth: 4 };
    let got = sample_color(&scene, frame, 4, 2, (fx(0.0), fx(0.0)));
    let r = Ray::new(v3(0.0, 0.0, 0.0), v3(0.0, 0.0, -1.0));
    assert_eq!(got, ray_color(&r, &scene.world, &scene.light, 4));
    let corner = sample_color(&scene, frame, 0, 0, (fx(0.0), fx(0.0)));
    let to_corner = Ray::new(v3(0.0, 0.0, 0.0), v3(-1.0, -1.0, -1.0));
    assert_eq!(corner, ray_color(&to_corner, &scene.world, &scene.light, 4));
}

#[test]
fn to_byte_scales_and_clamps() {
    assert_eq!(to_byte(fx(0.0)), 0);
    assert_eq!(to_byte(fx(0.25)), 64);
    assert_eq!(to_byte(fx(0.5)), 128);
    assert_eq!(to_byte(fx(0.999)), 255);
    assert_eq!(to_byte(fx(1.0)), 255);
    assert_eq!(to_byte(fx(40.0)), 255);
    assert_eq!(to_byte(fx(-0.5)), 0);
    assert_eq!(to_byte(Fixed::max_value()), 255);
    assert_eq!(to_byte(fx(0.00390625)), 1);
    assert_eq!(to_byte(fx(0.0039)), 0);
}

#[test]
fn pixel_bytes_take_the_root_of_the_mean() {
    assert_eq!(pixel_bytes(v3(4.0, 4.0, 4.0), 4), (255, 255, 255));
    assert_eq!(pixel_bytes(v3(0.25, 0.5, 1.0), 1), (128, 181, 255));
    assert_eq!(pixel_bytes(v3(1.0, 2.0, 0.0), 4), (128, 181, 0));
    assert_eq!(pixel_bytes(v3(-1.0, 0.0625, 0.0), 1), (0, 64, 0));
    assert_eq!(pixel_bytes(v3(3.0, 0.75, 0.1875), 3), (255, 128, 64));
}

#[test]
fn pixel_bytes_of_no_samples_saturate() {
    assert_eq!(pixel_bytes(v3(0.5, 0.0, -0.5), 0), (255, 0, 0));
}

#[test]
fn pixel_colour_with_no_samples_is_black() {
    let scene = scene_with(HittableList::new(), forward_camera());
    let frame = Frame { width: 4, height: 4, samples_per_pixel: 0, max_depth: 5 };
    assert_eq!(pixel_color(&scene, frame, 1, 1), v3(0.0, 0.0, 0.0));
    let negative = Frame { width: 4, height: 4, samples_per_pixel: -2, max_depth: 5 };
    assert_eq!(pixel_color(&scene, negative, 1, 1), v3(0.0, 0.0, 0.0));
}

#[test]
fn pixel_colour_sums_its_samples() {
    let mut world = HittableList::new();
    world.add(Hittable::Sphere(Sphere::new(v3(0.0, 0.0, -3.0), fx(2.5), v3(0.9, 0.2, 0.2), fx(0.0))));
    let scene = scene_with(world, forward_camera());
    let frame = Frame { width: 101, height: 101, samples_per_pixel: 8, max_depth: 0 };
    assert_eq!(pixel_color(&scene, frame, 50, 50), v3(0.0, 0.0, 0.0));
    let lit = Frame { width: 101, height: 101, samples_per_pixel: 8, max_depth: 3 };
    let sum = pixel_color(&scene, lit, 50, 50);
    let one = sample_color(&scene, lit, 50, 50, (fx(0.0), fx(0.0)));
    assert!(sum.x.gt(one.x.scale_by(4)) && sum.x.lt(one.x.scale_by(12)));
}

trait ScaleBy {
    fn scale_by(self, n: i64) -> Self;
}

impl ScaleBy for Fixed {
    fn scale_by(self, n: i64) -> Fixed {
        self.mul(Fixed::from_int(n))
    }
}

#[test]
fn render_gives_one_pixel_for_each_place() {
    let mut world = HittableList::new();
    world.add(Hittable::Sphere(Sphere::new(v3(0.0, 0.0, -3.0), fx(1.0), v3(0.9, 0.2, 0.2), fx(0.2))));
    let scene = scene_with(world, forward_camera());
    let frame = Frame { width: 4, height: 3, samples_per_pixel: 2, max_depth: 3 };
    assert_eq!(render(&scene, frame).len(), 12);
}

#[test]
fn render_of_an_empty_frame_is_empty() {
    let scene = scene_with(HittableList::new(), forward_camera());
    for (width, height) in [(0, 5), (5, 0), (-1, 5), (5, -1), (0, 0)] {
        let frame = Frame { width, height, samples_per_pixel: 2, max_depth: 3 };
        assert!(render(&scene, frame).is_empty());
    }
}

#[test]
fn render_writes_the_top_row_first() {
    let scene = scene_with(HittableList::new(), forward_camera());
    let frame = Frame { width: 3, height: 9, samples_per_pixel: 4, max_depth: 3 };
    let pixels = render(&scene, frame);
    assert_eq!(pixels.len(), 27);
    let top = pixels[1];
    let bottom = pixels[25];
    assert!(top.0 < bottom.0);
    assert_eq!(top.2, 255);
    assert_eq!(bottom.2, 255);
}

#[test]
fn render_of_the_sky_straight_down_is_white() {
    let down = Camera::new(v3(0.0, 0.0, 0.0), v3(0.0, -1.0, 0.0), v3(0.0, 0.0, -1.0), fx(0.0), fx(1.0));
    let scene = scene_with(HittableList::new(), down);
    let frame = Frame { width: 1, height: 1, samples_per_pixel: 3, max_depth: 5 };
    assert_eq!(render(&scene, frame), vec![(255, 255, 255)]);
}

fn text(bytes: Vec<u8>) -> String {
    String::from_utf8(bytes).unwrap()
}

#[test]
fn decimals_have_no_leading_zero() {
    for (n, digits) in [(0, "0"), (7, "7"), (10, "10"), (255, "255"), (4294967295, "4294967295")] {
        let mut out = Vec::new();
        push_decimal(&mut out, n);
        assert_eq!(text(out), digits);
    }
    let mut out = vec![b'a'];
    push_decimal(&mut out, 120);
    assert_eq!(text(out), "a120");
}

#[test]
fn signed_decimals_carry_a_minus_sign() {
    for (n, digits) in [(0, "0"), (400, "400"), (-3, "-3"), (i32::MAX, "2147483647"), (i32::MIN, "-2147483648")] {
        let mut out = Vec::new();
        push_signed_decimal(&mut out, n);
        assert_eq!(text(out), digits);
    }
}

#[test]
fn pixel_line_holds_three_channels() {
    let mut out = Vec::new();
    push_line(&mut out, (0, 128, 255));
    push_line(&mut out, (9, 10, 99));
    assert_eq!(text(out), "0 128 255\n9 10 99\n");
}

#[test]
fn ppm_text_has_a_head_and_a_line_for_each_pixel() {
    let pixels = vec![(255, 0, 0), (0, 255, 0), (0, 0, 255), (1, 2, 3)];
    assert_eq!(text(ppm(2, 2, &pixels)), "P3\n2 2\n255\n255 0 0\n0 255 0\n0 0 255\n1 2 3\n");
    assert_eq!(text(ppm(0, 0, &Vec::new())), "P3\n0 0\n255\n");
}

#[test]
fn picture_of_the_sky_straight_down_is_one_white_pixel() {
    let down = Camera::new(v3(0.0, 0.0, 0.0), v3(0.0, -1.0, 0.0), v3(0.0, 0.0, -1.0), fx(0.0), fx(1.0));
    let scene = scene_with(HittableList::new(), down);
    let frame = Frame { width: 1, height: 1, samples_per_pixel: 4, max_depth: 5 };
    let pixels = render(&scene, frame);
    assert_eq!(text(ppm(frame.width, frame.height, &pixels)), "P3\n1 1\n255\n255 255 255\n");
}

#[test]
fn jitter_has_a_pair_of_draws_for_each_sample() {
    let frame = Frame { width: 4, height: 4, samples_per_pixel: 50, max_depth: 5 };
    let draws = draw_jitter(frame);
    assert_eq!(draws.len(), 50);
    for (du, dv) in &draws {
        assert!(du.ge(fx(0.0)) && du.lt(fx(1.0)));
        assert!(dv.ge(fx(0.0)) && dv.lt(fx(1.0)));
    }
    assert!(draws.iter().any(|d| d.0 != draws[0].0));
    assert!(draw_jitter(Frame { samples_per_pixel: 0, ..frame }).is_empty());
    assert!(draw_jitter(Frame { samples_per_pixel: -7, ..frame }).is_empty());
}

#[test]
fn pixel_sum_adds_the_sample_of_each_draw() {
    let mut world = HittableList::new();
    world.add(Hittable::Sphere(Sphere::new(v3(0.0, 0.0, -3.0), fx(1.0), v3(0.9, 0.2, 0.2), fx(0.3))));
    let scene = scene_with(world, forward_camera());
    let frame = Frame { width: 9, height: 5, samples_per_pixel: 3, max_depth: 4 };
    let draws = vec![(fx(0.0), fx(0.0)), (fx(0.5), fx(0.25)), (fx(0.999), fx(0.75))];
    let mut expected = v3(0.0, 0.0, 0.0);
    for d in &draws {
        expected = expected.add(sample_color(&scene, frame, 4, 2, *d));
    }
    assert_eq!(pixel_sum(&scene, frame, 4, 2, &draws), expected);
    assert_eq!(pixel_sum(&scene, frame, 4, 2, &Vec::new()), v3(0.0, 0.0, 0.0));
}

#[test]
fn built_in_scene_shows_sphere_floor_and_sky() {
    let mut args = raytracer::scene::Args::new();
    args.scene = raytracer::scene::SceneKind::Sphere;
    args.width = 41;
    args.height = 31;
    let scene = raytracer::scene::build_scene(&args);
    let frame = Frame { width: 41, height: 31, samples_per_pixel: 1, max_depth: 5 };
    let still = (fx(0.0), fx(0.0));

    let ball = sample_color(&scene, frame, 20, 15, still);
    assert!(ball.x.gt(ball.y) && ball.x.gt(ball.z));
    assert!(ball.x.gt(fx(0.1)));

    let sky = sample_color(&scene, frame, 20, 30, still);
    assert!(sky.z.ge(sky.x) && sky.z.gt(fx(0.9)));

    let floor = sample_color(&scene, frame, 20, 0, still);
    assert!(floor.x.gt(fx(0.1)) && floor.x.lt(fx(2.0)));
    assert!(floor.x.sub(floor.y).abs().lt(fx(0.1)));

    let pixels = render(&scene, frame);
    assert_eq!(pixels.len(), 41 * 31);
    let middle = pixels[15 * 41 + 20];
    assert!(middle.0 > middle.1 && middle.0 > middle.2);
}

#[test]
fn every_built_in_scene_renders() {
    for kind in ["sphere", "cube_plane_dim", "all", "all_alt_cam", "custom"] {
        let mut args = raytracer::scene::Args::new();
        args.scene = raytracer::scene::SceneKind::from_name(kind);
        args.width = 12;
        args.height = 9;
        let scene = raytracer::scene::build_scene(&args);
        let frame = Frame { width: 12, height: 9, samples_per_pixel: 2, max_depth: 5 };
        let pixels = render(&scene, frame);
        assert_eq!(pixels.len(), 108);
        assert!(pixels.iter().any(|p| *p != pixels[0]));
    }
}
