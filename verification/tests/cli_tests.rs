use raytracer::cli::{
    dequote, fields, is_whitespace, parse_i32, parse_resolution, resolution, split, split4, split5, trim,
    vec3_parts,
};
use raytracer::fixed::Fixed;
use raytracer::hittable::Hittable;
use raytracer::math::Vec3;
use raytracer::scene::{
    build_scene, clamp01, color_clamped01, color_nonneg, parse_samples, point, same_text, Args,
    SceneKind,
};

fn fx(x: f64) -> Fixed {
    Fixed::from_raw((x * 1e12).round() as i64)
}

fn v3(x: f64, y: f64, z: f64) -> Vec3 {
    Vec3::new(fx(x), fx(y), fx(z))
}

#[test]
fn dequote_strips_one_matching_pair() {
    assert_eq!(dequote("\"abc\""), "abc");
    assert_eq!(dequote("'abc'"), "abc");
    assert_eq!(dequote("\"\""), "");
    assert_eq!(dequote("''"), "");
    assert_eq!(dequote("\"'abc'\""), "'abc'");
    assert_eq!(dequote("'h\u{e9}llo'"), "h\u{e9}llo");
}

#[test]
fn dequote_leaves_other_text_alone() {
    assert_eq!(dequote("abc"), "abc");
    assert_eq!(dequote(""), "");
    assert_eq!(dequote("\""), "\"");
    assert_eq!(dequote("'"), "'");
    assert_eq!(dequote("\"abc'"), "\"abc'");
    assert_eq!(dequote("'abc"), "'abc");
    assert_eq!(dequote("abc\""), "abc\"");
    assert_eq!(dequote(" 'abc'"), " 'abc'");
    assert_eq!(dequote("\u{e9}'"), "\u{e9}'");
}

#[test]
fn trim_drops_white_space_at_both_ends() {
    assert_eq!(trim("  a b \t\n"), "a b");
    assert_eq!(trim("abc"), "abc");
    assert_eq!(trim("   "), "");
    assert_eq!(trim(""), "");
    assert_eq!(trim("\u{a0}x\u{3000}"), "x");
}

#[test]
fn split_cuts_at_every_separator() {
    assert_eq!(split("a;b;c", ';'), vec!["a", "b", "c"]);
    assert_eq!(split("abc", ';'), vec!["abc"]);
    assert_eq!(split("", ';'), vec![""]);
    assert_eq!(split(";", ';'), vec!["", ""]);
    assert_eq!(split("a;;b;", ';'), vec!["a", "", "b", ""]);
    assert_eq!(split("1\u{e9}x2", 'x'), vec!["1\u{e9}", "2"]);
}

#[test]
fn fields_are_trimmed_and_dequoted() {
    assert_eq!(fields("' 0,0,-1 ; \"0.5\" ;x'"), vec!["0,0,-1", "0.5", "x"]);
    assert_eq!(fields(""), vec![""]);
}

#[test]
fn split4_wants_exactly_four_fields() {
    assert_eq!(split4("0,0,-1;0.5;1,0,0;0.2"), Some(("0,0,-1", "0.5", "1,0,0", "0.2")));
    assert_eq!(
        split4("\" 0,0,-1 ; '0.5';\t\"1,0,0\" ;0.2 \""),
        Some(("0,0,-1", "0.5", "1,0,0", "0.2"))
    );
    assert_eq!(split4(";;;"), Some(("", "", "", "")));
    assert_eq!(split4("a;b;c"), None);
    assert_eq!(split4("a;b;c;d;e"), None);
    assert_eq!(split4(""), None);
}

#[test]
fn split5_wants_exactly_five_fields() {
    assert_eq!(split5("1,2,3; 0.3; 0.4; 0,1,0; 0.05"), Some(("1,2,3", "0.3", "0.4", "0,1,0", "0.05")));
    assert_eq!(split5("'a;b;c;d;e'"), Some(("a", "b", "c", "d", "e")));
    assert_eq!(split5("a;b;c;d"), None);
    assert_eq!(split5("a;b;c;d;e;f"), None);
}

#[test]
fn parse_i32_reads_signed_decimals() {
    assert_eq!(parse_i32("0"), Some(0));
    assert_eq!(parse_i32("42"), Some(42));
    assert_eq!(parse_i32("+42"), Some(42));
    assert_eq!(parse_i32("-42"), Some(-42));
    assert_eq!(parse_i32("-0"), Some(0));
    assert_eq!(parse_i32("000123"), Some(123));
    assert_eq!(parse_i32("2147483647"), Some(i32::MAX));
    assert_eq!(parse_i32("-2147483648"), Some(i32::MIN));
    assert_eq!(parse_i32("00000000000000000000000000000007"), Some(7));
}

#[test]
fn parse_i32_refuses_everything_else() {
    for text in ["", "+", "-", "--1", "+-1", "12a", "a12", " 12", "12 ", "1.5", "1e3", "\u{664}"] {
        assert_eq!(parse_i32(text), None);
        assert!(text.parse::<i32>().is_err());
    }
    assert_eq!(parse_i32("2147483648"), None);
    assert_eq!(parse_i32("-2147483649"), None);
    assert_eq!(parse_i32("99999999999999999999999999"), None);
    assert_eq!(parse_i32("-99999999999999999999999999"), None);
}

#[test]
fn parse_resolution_reads_width_and_height() {
    assert_eq!(parse_resolution("640x480"), Some((640, 480)));
    assert_eq!(parse_resolution("640X480"), Some((640, 480)));
    assert_eq!(parse_resolution("1x1"), Some((1, 1)));
    assert_eq!(parse_resolution("+7x8"), Some((7, 8)));
}

#[test]
fn parse_resolution_raises_each_side_to_one() {
    assert_eq!(parse_resolution("0x0"), Some((1, 1)));
    assert_eq!(parse_resolution("-5x300"), Some((1, 300)));
    assert_eq!(parse_resolution("400x-2147483648"), Some((400, 1)));
}

#[test]
fn parse_resolution_refuses_other_text() {
    for text in ["", "640", "640x", "x480", "x", "1x2x3", "ax5", "5xa", "640 x 480", "6.4x4.8", "99999999999x1"] {
        assert_eq!(parse_resolution(text), None);
    }
}

#[test]
fn resolution_of_a_text_in_lower_case() {
    assert_eq!(resolution("12x-3"), Some((12, 1)));
    assert_eq!(resolution("640x480"), Some((640, 480)));
    assert_eq!(resolution("640X480"), None);
    assert_eq!(resolution("12x"), None);
    assert_eq!(resolution("xx"), None);
    assert_eq!(resolution("12"), None);
    assert_eq!(resolution("1x2x3"), None);
}

#[test]
fn white_space_is_what_std_takes_for_it() {
    for n in 0..=0x10FFFFu32 {
        if let Some(c) = char::from_u32(n) {
            assert_eq!(is_whitespace(c), c.is_whitespace());
        }
    }
}

#[test]
fn parse_samples_raises_to_one() {
    assert_eq!(parse_samples("16"), Some(16));
    assert_eq!(parse_samples("0"), Some(1));
    assert_eq!(parse_samples("-4"), Some(1));
    assert_eq!(parse_samples("many"), None);
    assert_eq!(parse_samples(""), None);
}

#[test]
fn same_text_compares_whole_texts() {
    assert!(same_text("all", "all"));
    assert!(same_text("", ""));
    assert!(!same_text("all", "al"));
    assert!(!same_text("all", "alL"));
    assert!(!same_text("", "a"));
}

#[test]
fn scene_kind_by_name() {
    assert_eq!(SceneKind::from_name("sphere"), SceneKind::Sphere);
    assert_eq!(SceneKind::from_name("cube_plane_dim"), SceneKind::CubePlaneDim);
    assert_eq!(SceneKind::from_name("all"), SceneKind::All);
    assert_eq!(SceneKind::from_name("all_alt_cam"), SceneKind::AllAltCam);
    assert_eq!(SceneKind::from_name("custom"), SceneKind::Custom);
    assert_eq!(SceneKind::from_name("Sphere"), SceneKind::All);
    assert_eq!(SceneKind::from_name(""), SceneKind::All);
    assert_eq!(SceneKind::default(), SceneKind::All);
}

#[test]
fn scene_kind_names_its_file() {
    assert_eq!(SceneKind::Sphere.default_out(), "scene_sphere.ppm");
    assert_eq!(SceneKind::CubePlaneDim.default_out(), "scene_cube_plane_dim.ppm");
    assert_eq!(SceneKind::All.default_out(), "scene_all.ppm");
    assert_eq!(SceneKind::AllAltCam.default_out(), "scene_all_alt_cam.ppm");
    assert_eq!(SceneKind::Custom.default_out(), "scene_custom.ppm");
}

#[test]
fn colours_are_held_in_range() {
    assert_eq!(clamp01(fx(1.5)), fx(1.0));
    assert_eq!(clamp01(fx(-0.5)), fx(0.0));
    assert_eq!(clamp01(fx(0.3)), fx(0.3));
    assert_eq!(color_clamped01(v3(-1.0, 0.5, 2.0)), v3(0.0, 0.5, 1.0));
    assert_eq!(color_nonneg(v3(-1.0, 0.5, 2.0)), v3(0.0, 0.5, 2.0));
    assert_eq!(point(820, -500, 0), v3(0.82, -0.5, 0.0));
}

#[test]
fn args_start_from_the_defaults() {
    let args = Args::new();
    assert_eq!(args.scene, SceneKind::All);
    assert_eq!((args.width, args.height, args.samples_per_pixel), (400, 300, 16));
    assert_eq!(args.out, "");
    assert!(args.cam.lookfrom.is_none() && args.cam.lookat.is_none());
    assert!(args.cam.vup.is_none() && args.cam.half_height.is_none());
    assert!(args.light_pos.is_none() && args.light_int.is_none());
    assert!(args.add_spheres.is_empty() && args.add_planes.is_empty());
    assert!(args.add_cubes.is_empty() && args.add_cylinders.is_empty());
}

#[test]
fn settle_names_the_file_after_the_scene() {
    let mut args = Args::new();
    args.scene = SceneKind::Sphere;
    args.settle(None);
    assert_eq!(args.scene, SceneKind::Sphere);
    assert_eq!(args.out, "scene_sphere.ppm");

    let mut named = Args::new();
    named.settle(Some(String::from("out.ppm")));
    assert_eq!(named.scene, SceneKind::All);
    assert_eq!(named.out, "out.ppm");
}

#[test]
fn settle_turns_to_the_custom_scene_where_surfaces_are_added() {
    let mut args = Args::new();
    args.scene = SceneKind::Sphere;
    args.add_cubes.push((v3(0.0, 0.0, -2.0), fx(1.0), v3(0.5, 0.5, 0.5), fx(0.0)));
    args.settle(None);
    assert_eq!(args.scene, SceneKind::Custom);
    assert_eq!(args.out, "scene_custom.ppm");
    assert_eq!(args.add_cubes.len(), 1);
}

#[test]
fn built_in_scenes() {
    let mut args = Args::new();
    args.scene = SceneKind::Sphere;
    let scene = build_scene(&args);
    assert_eq!(scene.world.objects.len(), 2);
    match &scene.world.objects[0] {
        Hittable::Plane(p) => {
            assert_eq!(p.point, v3(0.0, -0.5, 0.0));
            assert_eq!(p.normal, v3(0.0, 1.0, 0.0));
            assert_eq!(p.albedo, v3(0.82, 0.82, 0.82));
            assert_eq!(p.reflectivity, fx(0.15));
        }
        _ => panic!("the floor comes first"),
    }
    match &scene.world.objects[1] {
        Hittable::Sphere(s) => {
            assert_eq!(s.center, v3(0.0, 0.0, -1.3));
            assert_eq!(s.radius, fx(0.5));
            assert_eq!(s.albedo, v3(0.9, 0.2, 0.2));
            assert_eq!(s.reflectivity, fx(0.05));
        }
        _ => panic!("the sphere comes second"),
    }
    assert_eq!(scene.light.position, v3(5.0, 5.0, -2.0));
    assert_eq!(scene.light.intensity, v3(1.0, 1.0, 1.0));
    assert_eq!(scene.cam.origin, v3(0.0, 0.0, 0.0));
    assert_eq!(scene.cam.vertical, v3(0.0, 2.0, 0.0));

    args.scene = SceneKind::CubePlaneDim;
    let dim = build_scene(&args);
    assert_eq!(dim.world.objects.len(), 2);
    assert!(matches!(dim.world.objects[1], Hittable::Cube(_)));
    assert_eq!(dim.light.intensity, v3(0.6, 0.6, 0.6));

    args.scene = SceneKind::All;
    let all = build_scene(&args);
    assert_eq!(all.world.objects.len(), 4);
    match &all.world.objects[1] {
        Hittable::Sphere(s) => assert_eq!(s.reflectivity, fx(0.1)),
        _ => panic!("the sphere comes second"),
    }
    match &all.world.objects[3] {
        Hittable::Cylinder(c) => {
            assert_eq!(c.center, v3(1.4, -0.1, -1.6));
            assert_eq!(c.reflectivity, fx(0.05));
        }
        _ => panic!("the cylinder comes last"),
    }

    args.scene = SceneKind::AllAltCam;
    let alt = build_scene(&args);
    assert_eq!(alt.world.objects.len(), 4);
    assert_eq!(alt.cam.origin, v3(1.6, 0.5, 1.2));
    match &alt.world.objects[3] {
        Hittable::Cylinder(c) => assert_eq!(c.reflectivity, fx(0.08)),
        _ => panic!("the cylinder comes last"),
    }
}

#[test]
fn custom_scene_takes_what_the_caller_adds() {
    let mut args = Args::new();
    args.scene = SceneKind::Custom;
    args.add_spheres.push((v3(0.0, 0.0, -2.0), fx(0.5), v3(1.0, 0.0, 0.0), fx(0.2)));
    args.add_cylinders.push((v3(1.0, 0.0, -2.0), fx(0.3), fx(0.4), v3(0.0, 1.0, 0.0), fx(0.0)));
    let scene = build_scene(&args);
    assert_eq!(scene.world.objects.len(), 3);
    assert!(matches!(scene.world.objects[0], Hittable::Sphere(_)));
    assert!(matches!(scene.world.objects[1], Hittable::Cylinder(_)));
    assert!(matches!(scene.world.objects[2], Hittable::Plane(_)));
    assert_eq!(scene.cam.origin, v3(0.0, 0.5, 1.0));

    args.add_planes.push((v3(0.0, -1.0, 0.0), v3(0.0, 2.0, 0.0), v3(0.5, 0.5, 0.5), fx(0.1)));
    args.add_cubes.push((v3(-1.0, 0.0, -2.0), fx(0.5), v3(0.0, 0.0, 1.0), fx(0.0)));
    let scene = build_scene(&args);
    assert_eq!(scene.world.objects.len(), 4);
    match &scene.world.objects[0] {
        Hittable::Plane(p) => {
            assert_eq!(p.point, v3(0.0, -1.0, 0.0));
            assert_eq!(p.normal, v3(0.0, 1.0, 0.0));
        }
        _ => panic!("planes come first"),
    }
    assert!(matches!(scene.world.objects[1], Hittable::Sphere(_)));
    assert!(matches!(scene.world.objects[2], Hittable::Cube(_)));
    assert!(matches!(scene.world.objects[3], Hittable::Cylinder(_)));
}

#[test]
fn callers_settings_go_before_the_scenes_own() {
    let mut args = Args::new();
    args.scene = SceneKind::Sphere;
    args.width = 200;
    args.height = 100;
    args.cam.lookfrom = Some(v3(0.0, 0.0, 2.0));
    args.cam.lookat = Some(v3(0.0, 0.0, 0.0));
    args.cam.half_height = Some(fx(0.5));
    args.light_pos = Some(v3(1.0, 2.0, 3.0));
    args.light_int = Some(v3(2.0, 2.0, 2.0));
    let scene = build_scene(&args);
    assert_eq!(scene.light.position, v3(1.0, 2.0, 3.0));
    assert_eq!(scene.light.intensity, v3(2.0, 2.0, 2.0));
    assert_eq!(scene.cam.origin, v3(0.0, 0.0, 2.0));
    assert_eq!(scene.cam.vertical, v3(0.0, 1.0, 0.0));
    assert_eq!(scene.cam.horizontal, v3(2.0, 0.0, 0.0));
    assert_eq!(scene.cam.lower_left_corner, v3(-1.0, -0.5, 1.0));
}

#[test]
fn vec3_parts_are_the_first_three() {
    assert_eq!(vec3_parts("1,2,3"), Some(("1", "2", "3")));
    assert_eq!(vec3_parts("' 0.5 , -1 ,\t2e3 '"), Some(("0.5", "-1", "2e3")));
    assert_eq!(vec3_parts("1,2,3,4"), Some(("1", "2", "3")));
    assert_eq!(vec3_parts(",,"), Some(("", "", "")));
    assert_eq!(vec3_parts("1,2"), None);
    assert_eq!(vec3_parts(""), None);
}
