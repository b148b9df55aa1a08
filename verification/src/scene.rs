use crate::camera::Camera;
use crate::cli::parse_i32;
use crate::cli::parse_i32_spec;
use crate::cube::Cube;
use crate::cylinder::Cylinder;
use crate::fixed::Fixed;
use crate::hittable::{Hittable, HittableList};
use crate::light::{PointLight, PointLightPos};
use crate::math::{Color, Point3, Vec3};
use crate::plane::Plane;
use crate::render::Scene;
use crate::sphere::Sphere;
use vstd::prelude::*;
use vstd::string::*;

verus! {

/// Raw value of the tangent of 37.5 degrees: half the height of the image
/// plane for a vertical angle of view of 75 degrees.
pub const NARROW_HALF_HEIGHT_RAW: i64 = 767_326_987_979;

/// Which of the built-in scenes is drawn.
#[derive(Clone, Copy, Debug, PartialEq, Eq, Structural)]
pub enum SceneKind {
    Sphere,
    CubePlaneDim,
    All,
    AllAltCam,
    Custom,
}

impl Default for SceneKind {
    fn default() -> (kind: SceneKind)
        ensures
            kind == SceneKind::All,
    {
        SceneKind::All
    }
}

/// Whether two texts are the same.
pub fn same_text(a: &str, b: &str) -> (same: bool)
    ensures
        same == (a@ == b@),
{
    let n = a.unicode_len();
    if n != b.unicode_len() {
        return false;
    }
    let mut i: usize = 0;
    while i < n
        invariant
            i <= n,
            n == a@.len(),
            n == b@.len(),
            forall|k: int| 0 <= k < i ==> a@[k] == b@[k],
        decreases n - i,
    {
        if a.get_char(i) != b.get_char(i) {
            return false;
        }
        i += 1;
    }
    proof {
        assert(a@ =~= b@);
    }
    true
}

impl SceneKind {
    /// The scene that goes by `name`. An unknown name stands for the scene
    /// with every kind of surface.
    pub open spec fn from_name_spec(name: Seq<char>) -> SceneKind {
        if name == "sphere"@ {
            SceneKind::Sphere
        } else if name == "cube_plane_dim"@ {
            SceneKind::CubePlaneDim
        } else if name == "all"@ {
            SceneKind::All
        } else if name == "all_alt_cam"@ {
            SceneKind::AllAltCam
        } else if name == "custom"@ {
            SceneKind::Custom
        } else {
            SceneKind::All
        }
    }

    /// The name of the file to which a scene is written where the caller
    /// names none.
    pub open spec fn default_out_spec(self) -> Seq<char> {
        match self {
            SceneKind::Sphere => "scene_sphere.ppm"@,
            SceneKind::CubePlaneDim => "scene_cube_plane_dim.ppm"@,
            SceneKind::All => "scene_all.ppm"@,
            SceneKind::AllAltCam => "scene_all_alt_cam.ppm"@,
            SceneKind::Custom => "scene_custom.ppm"@,
        }
    }

    /// The scene that goes by `name`.
    pub fn from_name(name: &str) -> (kind: SceneKind)
        ensures
            kind == SceneKind::from_name_spec(name@),
    {
        if same_text(name, "sphere") {
            SceneKind::Sphere
        } else if same_text(name, "cube_plane_dim") {
            SceneKind::CubePlaneDim
        } else if same_text(name, "all") {
            SceneKind::All
        } else if same_text(name, "all_alt_cam") {
            SceneKind::AllAltCam
        } else if same_text(name, "custom") {
            SceneKind::Custom
        } else {
            SceneKind::All
        }
    }

    /// The name of the file to which a scene is written where the caller
    /// names none.
    pub fn default_out(self) -> (name: &'static str)
        ensures
            name@ == self.default_out_spec(),
    {
        match self {
            SceneKind::Sphere => "scene_sphere.ppm",
            SceneKind::CubePlaneDim => "scene_cube_plane_dim.ppm",
            SceneKind::All => "scene_all.ppm",
            SceneKind::AllAltCam => "scene_all_alt_cam.ppm",
            SceneKind::Custom => "scene_custom.ppm",
        }
    }
}

/// The number of samples that a text asks for, raised to one where it is
/// smaller; `None` where the text is no whole number.
pub open spec fn parse_samples_spec(s: Seq<char>) -> Option<i32> {
    match parse_i32_spec(s) {
        Some(v) => Some(
            if v < 1 {
                1i32
            } else {
                v
            },
        ),
        None => None,
    }
}

/// The number of samples that a text asks for.
pub fn parse_samples(s: &str) -> (res: Option<i32>)
    ensures
        res == parse_samples_spec(s@),
{
    match parse_i32(s) {
        Some(v) => Some(
            if v < 1 {
                1
            } else {
                v
            },
        ),
        None => None,
    }
}

/// `x` held between zero and one.
pub fn clamp01(x: Fixed) -> (r: Fixed)
    ensures
        r == x.max_spec(Fixed::zero_spec()).min_spec(Fixed::one_spec()),
{
    x.max(Fixed::zero()).min(Fixed::one())
}

/// A colour with every channel held between zero and one.
pub open spec fn color_clamped01_spec(v: Vec3) -> Color {
    Vec3 {
        x: v.x.max_spec(Fixed::zero_spec()).min_spec(Fixed::one_spec()),
        y: v.y.max_spec(Fixed::zero_spec()).min_spec(Fixed::one_spec()),
        z: v.z.max_spec(Fixed::zero_spec()).min_spec(Fixed::one_spec()),
    }
}

/// A colour with every channel held between zero and one.
pub fn color_clamped01(v: Vec3) -> (c: Color)
    ensures
        c == color_clamped01_spec(v),
{
    Vec3::new(clamp01(v.x), clamp01(v.y), clamp01(v.z))
}

/// A colour with every channel raised to zero where it is negative.
pub open spec fn color_nonneg_spec(v: Vec3) -> Color {
    Vec3 {
        x: v.x.max_spec(Fixed::zero_spec()),
        y: v.y.max_spec(Fixed::zero_spec()),
        z: v.z.max_spec(Fixed::zero_spec()),
    }
}

/// A colour with every channel raised to zero where it is negative.
pub fn color_nonneg(v: Vec3) -> (c: Color)
    ensures
        c == color_nonneg_spec(v),
{
    Vec3::new(v.x.max(Fixed::zero()), v.y.max(Fixed::zero()), v.z.max(Fixed::zero()))
}

/// What the caller sets of the camera in place of a scene's own.
#[derive(Clone, Copy, Debug)]
pub struct CamOverride {
    pub lookfrom: Option<Point3>,
    pub lookat: Option<Point3>,
    pub vup: Option<Vec3>,
    /// Half the height of the image plane: the tangent of half the
    /// vertical angle of view.
    pub half_height: Option<Fixed>,
}

/// What a picture is asked to show.
pub struct Args {
    pub scene: SceneKind,
    pub width: i32,
    pub height: i32,
    pub out: String,
    pub samples_per_pixel: i32,
    pub cam: CamOverride,
    pub light_pos: Option<Point3>,
    pub light_int: Option<Color>,
    /// Centre, radius, albedo, reflectivity.
    pub add_spheres: Vec<(Point3, Fixed, Color, Fixed)>,
    /// Point, normal, albedo, reflectivity.
    pub add_planes: Vec<(Point3, Vec3, Color, Fixed)>,
    /// Centre, edge length, albedo, reflectivity.
    pub add_cubes: Vec<(Point3, Fixed, Color, Fixed)>,
    /// Centre, radius, half the height, albedo, reflectivity.
    pub add_cylinders: Vec<(Point3, Fixed, Fixed, Color, Fixed)>,
}

impl Args {
    /// The caller adds a surface of some kind.
    pub open spec fn adds_objects(self) -> bool {
        self.add_spheres@.len() > 0 || self.add_planes@.len() > 0 || self.add_cubes@.len() > 0
            || self.add_cylinders@.len() > 0
    }

    /// What is drawn where the caller asks for nothing: the scene with
    /// every kind of surface, 400 by 300 pixels, 16 samples of each.
    pub fn new() -> (args: Args)
        ensures
            args.scene == SceneKind::All,
            args.width == 400,
            args.height == 300,
            args.samples_per_pixel == 16,
            args.out@ == Seq::<char>::empty(),
            args.cam.lookfrom is None,
            args.cam.lookat is None,
            args.cam.vup is None,
            args.cam.half_height is None,
            args.light_pos is None,
            args.light_int is None,
            !args.adds_objects(),
    {
        Args {
            scene: SceneKind::All,
            width: 400,
            height: 300,
            out: String::new(),
            samples_per_pixel: 16,
            cam: CamOverride { lookfrom: None, lookat: None, vup: None, half_height: None },
            light_pos: None,
            light_int: None,
            add_spheres: Vec::new(),
            add_planes: Vec::new(),
            add_cubes: Vec::new(),
            add_cylinders: Vec::new(),
        }
    }

    /// Settles what the options leave open, once all of them are read:
    /// where the caller adds a surface the scene is the caller's own, and
    /// where the caller names no file the picture goes to the file named
    /// after the scene.
    pub fn settle(&mut self, out: Option<String>)
        ensures
            final(self).scene == (if old(self).adds_objects() {
                SceneKind::Custom
            } else {
                old(self).scene
            }),
            final(self).out@ == (match out {
                Some(name) => name@,
                None => final(self).scene.default_out_spec(),
            }),
            final(self).width == old(self).width,
            final(self).height == old(self).height,
            final(self).samples_per_pixel == old(self).samples_per_pixel,
            final(self).cam == old(self).cam,
            final(self).light_pos == old(self).light_pos,
            final(self).light_int == old(self).light_int,
            final(self).add_spheres == old(self).add_spheres,
            final(self).add_planes == old(self).add_planes,
            final(self).add_cubes == old(self).add_cubes,
            final(self).add_cylinders == old(self).add_cylinders,
    {
        if self.add_spheres.len() > 0 || self.add_planes.len() > 0 || self.add_cubes.len() > 0
            || self.add_cylinders.len() > 0 {
            self.scene = SceneKind::Custom;
        }
        self.out = match out {
            Some(name) => name,
            None => self.scene.default_out().to_owned(),
        };
    }
}

/// The vector of `x`, `y` and `z` thousandths.
pub open spec fn point_spec(x: int, y: int, z: int) -> Vec3 {
    Vec3 {
        x: Fixed::from_milli_spec(x),
        y: Fixed::from_milli_spec(y),
        z: Fixed::from_milli_spec(z),
    }
}

/// The vector of `x`, `y` and `z` thousandths.
pub fn point(x: i32, y: i32, z: i32) -> (v: Vec3)
    ensures
        v == point_spec(x as int, y as int, z as int),
{
    Vec3::new(Fixed::from_milli(x), Fixed::from_milli(y), Fixed::from_milli(z))
}

/// The floor of the built-in scenes: the plane half a unit under the
/// origin, light grey.
pub open spec fn floor_spec(reflectivity: int) -> Hittable {
    Hittable::Plane(
        Plane {
            point: point_spec(0, -500, 0),
            normal: point_spec(0, 1000, 0).unit_spec(),
            albedo: point_spec(820, 820, 820),
            reflectivity: Fixed::from_milli_spec(reflectivity),
        },
    )
}

fn floor(reflectivity: i32) -> (h: Hittable)
    ensures
        h == floor_spec(reflectivity as int),
{
    Hittable::Plane(
        Plane::new(
            point(0, -500, 0),
            point(0, 1000, 0),
            point(820, 820, 820),
            Fixed::from_milli(reflectivity),
        ),
    )
}

/// A sphere as a surface of a scene.
pub open spec fn sphere_spec(
    center: Vec3,
    radius: Fixed,
    albedo: Color,
    reflectivity: Fixed,
) -> Hittable {
    Hittable::Sphere(Sphere { center, radius, albedo, reflectivity })
}

/// A cube, given by centre and edge length, as a surface of a scene.
pub open spec fn cube_spec(center: Vec3, size: Fixed, albedo: Color, reflectivity: Fixed) -> Hittable {
    Hittable::Cube(Cube::from_center_size_spec(center, size, albedo, reflectivity))
}

/// A cylinder as a surface of a scene.
pub open spec fn cylinder_spec(
    center: Vec3,
    radius: Fixed,
    half_height: Fixed,
    albedo: Color,
    reflectivity: Fixed,
) -> Hittable {
    Hittable::Cylinder(Cylinder { center, radius, half_height, albedo, reflectivity })
}

/// The red sphere, the blue cube and the green cylinder that stand on the
/// floor of the two scenes with every kind of surface.
pub open spec fn trio_spec(sphere_refl: int, cylinder_refl: int) -> Seq<Hittable> {
    seq![
        sphere_spec(
            point_spec(-800, 0, -1300),
            Fixed::from_milli_spec(500),
            point_spec(900, 200, 200),
            Fixed::from_milli_spec(sphere_refl),
        ),
        cube_spec(
            point_spec(300, -200, -1400),
            Fixed::from_milli_spec(600),
            point_spec(350, 420, 650),
            Fixed::from_milli_spec(0),
        ),
        cylinder_spec(
            point_spec(1400, -100, -1600),
            Fixed::from_milli_spec(300),
            Fixed::from_milli_spec(400),
            point_spec(200, 700, 400),
            Fixed::from_milli_spec(cylinder_refl),
        ),
    ]
}

/// The surfaces that the caller adds: planes first, each with its normal
/// brought to unit length, then spheres, cubes and cylinders; and the
/// floor after them where the caller adds no plane.
pub open spec fn custom_objects_spec(args: Args) -> Seq<Hittable> {
    Seq::new(
        args.add_planes@.len(),
        |i: int|
            Hittable::Plane(
                Plane {
                    point: args.add_planes@[i].0,
                    normal: args.add_planes@[i].1.unit_spec().unit_spec(),
                    albedo: args.add_planes@[i].2,
                    reflectivity: args.add_planes@[i].3,
                },
            ),
    ) + Seq::new(
        args.add_spheres@.len(),
        |i: int|
            sphere_spec(
                args.add_spheres@[i].0,
                args.add_spheres@[i].1,
                args.add_spheres@[i].2,
                args.add_spheres@[i].3,
            ),
    ) + Seq::new(
        args.add_cubes@.len(),
        |i: int|
            cube_spec(
                args.add_cubes@[i].0,
                args.add_cubes@[i].1,
                args.add_cubes@[i].2,
                args.add_cubes@[i].3,
            ),
    ) + Seq::new(
        args.add_cylinders@.len(),
        |i: int|
            cylinder_spec(
                args.add_cylinders@[i].0,
                args.add_cylinders@[i].1,
                args.add_cylinders@[i].2,
                args.add_cylinders@[i].3,
                args.add_cylinders@[i].4,
            ),
    ) + (if args.add_planes@.len() == 0 {
        seq![floor_spec(50)]
    } else {
        Seq::empty()
    })
}

/// The surfaces of the scene that the arguments ask for.
pub open spec fn objects_spec(args: Args) -> Seq<Hittable> {
    match args.scene {
        SceneKind::Sphere => seq![
            floor_spec(150),
            sphere_spec(
                point_spec(0, 0, -1300),
                Fixed::from_milli_spec(500),
                point_spec(900, 200, 200),
                Fixed::from_milli_spec(50),
            ),
        ],
        SceneKind::CubePlaneDim => seq![
            floor_spec(50),
            cube_spec(
                point_spec(0, -200, -1300),
                Fixed::from_milli_spec(600),
                point_spec(250, 280, 350),
                Fixed::from_milli_spec(0),
            ),
        ],
        SceneKind::All => seq![floor_spec(50)] + trio_spec(100, 50),
        SceneKind::AllAltCam => seq![floor_spec(50)] + trio_spec(20, 80),
        SceneKind::Custom => custom_objects_spec(args),
    }
}

/// The light of the scene: five units to the right of the origin, five
/// above and two before it, white, and dimmed in the scene of the cube on
/// the floor; the caller's position and intensity go before these.
pub open spec fn light_spec(args: Args) -> PointLight {
    let intensity = match args.scene {
        SceneKind::CubePlaneDim => point_spec(600, 600, 600),
        _ => point_spec(1000, 1000, 1000),
    };
    PointLight {
        position: match args.light_pos {
            Some(p) => p,
            None => point_spec(5000, 5000, -2000),
        },
        intensity: match args.light_int {
            Some(c) => c,
            None => intensity,
        },
    }
}

/// Where the camera of the scene stands, where it looks, and half the
/// height of its image plane, before the caller's settings.
pub open spec fn scene_view_spec(kind: SceneKind) -> (Point3, Point3, Fixed) {
    match kind {
        SceneKind::Sphere | SceneKind::All => (
            point_spec(0, 0, 0),
            point_spec(0, 0, -1000),
            Fixed::one_spec(),
        ),
        SceneKind::CubePlaneDim => (
            point_spec(0, 0, 0),
            point_spec(0, -100, -1300),
            Fixed::one_spec(),
        ),
        SceneKind::AllAltCam => (
            point_spec(1600, 500, 1200),
            point_spec(100, -200, -1500),
            Fixed::of(NARROW_HALF_HEIGHT_RAW as int),
        ),
        SceneKind::Custom => (
            point_spec(0, 500, 1000),
            point_spec(0, 0, -1000),
            Fixed::of(NARROW_HALF_HEIGHT_RAW as int),
        ),
    }
}

/// The camera of the scene: the caller's settings go before the scene's
/// own; up is the y axis unless the caller says otherwise; the image is as
/// wide for its height as the picture asked for.
pub open spec fn camera_spec(args: Args) -> Camera {
    let own = scene_view_spec(args.scene);
    Camera::new_spec(
        match args.cam.lookfrom {
            Some(p) => p,
            None => own.0,
        },
        match args.cam.lookat {
            Some(p) => p,
            None => own.1,
        },
        match args.cam.vup {
            Some(v) => v,
            None => point_spec(0, 1000, 0),
        },
        match args.cam.half_height {
            Some(h) => h,
            None => own.2,
        },
        Fixed::from_int_spec(args.width as int).div_spec(Fixed::from_int_spec(args.height as int)),
    )
}

fn scene_view(kind: SceneKind) -> (own: (Point3, Point3, Fixed))
    ensures
        own == scene_view_spec(kind),
{
    match kind {
        SceneKind::Sphere | SceneKind::All => (point(0, 0, 0), point(0, 0, -1000), Fixed::one()),
        SceneKind::CubePlaneDim => (point(0, 0, 0), point(0, -100, -1300), Fixed::one()),
        SceneKind::AllAltCam => (
            point(1600, 500, 1200),
            point(100, -200, -1500),
            Fixed::from_raw(NARROW_HALF_HEIGHT_RAW),
        ),
        SceneKind::Custom => (
            point(0, 500, 1000),
            point(0, 0, -1000),
            Fixed::from_raw(NARROW_HALF_HEIGHT_RAW),
        ),
    }
}

fn camera(args: &Args) -> (cam: Camera)
    ensures
        cam == camera_spec(*args),
{
    let own = scene_view(args.scene);
    let aspect_ratio = Fixed::from_int(args.width as i64).div(Fixed::from_int(args.height as i64));
    Camera::new(
        match args.cam.lookfrom {
            Some(p) => p,
            None => own.0,
        },
        match args.cam.lookat {
            Some(p) => p,
            None => own.1,
        },
        match args.cam.vup {
            Some(v) => v,
            None => point(0, 1000, 0),
        },
        match args.cam.half_height {
            Some(h) => h,
            None => own.2,
        },
        aspect_ratio,
    )
}

fn light(args: &Args) -> (l: PointLight)
    ensures
        l == light_spec(*args),
{
    let intensity = match args.scene {
        SceneKind::CubePlaneDim => point(600, 600, 600),
        _ => point(1000, 1000, 1000),
    };
    PointLight::new(
        PointLightPos(
            match args.light_pos {
                Some(p) => p,
                None => point(5000, 5000, -2000),
            },
        ),
        match args.light_int {
            Some(c) => c,
            None => intensity,
        },
    )
}

fn add_trio(world: &mut HittableList, sphere_refl: i32, cylinder_refl: i32)
    ensures
        final(world).objects@ == old(world).objects@ + trio_spec(
            sphere_refl as int,
            cylinder_refl as int,
        ),
{
    world.add(
        Hittable::Sphere(
            Sphere::new(
                point(-800, 0, -1300),
                Fixed::from_milli(500),
                point(900, 200, 200),
                Fixed::from_milli(sphere_refl),
            ),
        ),
    );
    world.add(
        Hittable::Cube(
            Cube::from_center_size(
                point(300, -200, -1400),
                Fixed::from_milli(600),
                point(350, 420, 650),
                Fixed::from_milli(0),
            ),
        ),
    );
    world.add(
        Hittable::Cylinder(
            Cylinder::new(
                point(1400, -100, -1600),
                Fixed::from_milli(300),
                Fixed::from_milli(400),
                point(200, 700, 400),
                Fixed::from_milli(cylinder_refl),
            ),
        ),
    );
    proof {
        assert(world.objects@ =~= old(world).objects@ + trio_spec(
            sphere_refl as int,
            cylinder_refl as int,
        ));
    }
}

fn custom_objects(args: &Args) -> (world: HittableList)
    ensures
        world.objects@ == custom_objects_spec(*args),
{
    let mut world = HittableList::new();
    let ghost planes = Seq::new(
        args.add_planes@.len(),
        |i: int|
            Hittable::Plane(
                Plane {
                    point: args.add_planes@[i].0,
                    normal: args.add_planes@[i].1.unit_spec().unit_spec(),
                    albedo: args.add_planes@[i].2,
                    reflectivity: args.add_planes@[i].3,
                },
            ),
    );
    let ghost spheres = Seq::new(
        args.add_spheres@.len(),
        |i: int|
            sphere_spec(
                args.add_spheres@[i].0,
                args.add_spheres@[i].1,
                args.add_spheres@[i].2,
                args.add_spheres@[i].3,
            ),
    );
    let ghost cubes = Seq::new(
        args.add_cubes@.len(),
        |i: int|
            cube_spec(
                args.add_cubes@[i].0,
                args.add_cubes@[i].1,
                args.add_cubes@[i].2,
                args.add_cubes@[i].3,
            ),
    );
    let ghost cylinders = Seq::new(
        args.add_cylinders@.len(),
        |i: int|
            cylinder_spec(
                args.add_cylinders@[i].0,
                args.add_cylinders@[i].1,
                args.add_cylinders@[i].2,
                args.add_cylinders@[i].3,
                args.add_cylinders@[i].4,
            ),
    );
    let mut i: usize = 0;
    while i < args.add_planes.len()
        invariant
            i <= args.add_planes@.len(),
            planes.len() == args.add_planes@.len(),
            world.objects@ =~= planes.take(i as int),
            forall|k: int|
                0 <= k < planes.len() ==> planes[k] == Hittable::Plane(
                    Plane {
                        point: args.add_planes@[k].0,
                        normal: args.add_planes@[k].1.unit_spec().unit_spec(),
                        albedo: args.add_planes@[k].2,
                        reflectivity: args.add_planes@[k].3,
                    },
                ),
        decreases args.add_planes@.len() - i,
    {
        let item = args.add_planes[i];
        world.add(Hittable::Plane(Plane::new(item.0, item.1.unit(), item.2, item.3)));
        i += 1;
    }
    let mut i: usize = 0;
    while i < args.add_spheres.len()
        invariant
            i <= args.add_spheres@.len(),
            spheres.len() == args.add_spheres@.len(),
            planes.len() == args.add_planes@.len(),
            world.objects@ =~= planes + spheres.take(i as int),
            forall|k: int|
                0 <= k < spheres.len() ==> spheres[k] == sphere_spec(
                    args.add_spheres@[k].0,
                    args.add_spheres@[k].1,
                    args.add_spheres@[k].2,
                    args.add_spheres@[k].3,
                ),
        decreases args.add_spheres@.len() - i,
    {
        let item = args.add_spheres[i];
        world.add(Hittable::Sphere(Sphere::new(item.0, item.1, item.2, item.3)));
        i += 1;
    }
    let mut i: usize = 0;
    while i < args.add_cubes.len()
        invariant
            i <= args.add_cubes@.len(),
            cubes.len() == args.add_cubes@.len(),
            spheres.len() == args.add_spheres@.len(),
            planes.len() == args.add_planes@.len(),
            world.objects@ =~= planes + spheres + cubes.take(i as int),
            forall|k: int|
                0 <= k < cubes.len() ==> cubes[k] == cube_spec(
                    args.add_cubes@[k].0,
                    args.add_cubes@[k].1,
                    args.add_cubes@[k].2,
                    args.add_cubes@[k].3,
                ),
        decreases args.add_cubes@.len() - i,
    {
        let item = args.add_cubes[i];
        world.add(Hittable::Cube(Cube::from_center_size(item.0, item.1, item.2, item.3)));
        i += 1;
    }
    let mut i: usize = 0;
    while i < args.add_cylinders.len()
        invariant
            i <= args.add_cylinders@.len(),
            cylinders.len() == args.add_cylinders@.len(),
            cubes.len() == args.add_cubes@.len(),
            spheres.len() == args.add_spheres@.len(),
            planes.len() == args.add_planes@.len(),
            world.objects@ =~= planes + spheres + cubes + cylinders.take(i as int),
            forall|k: int|
                0 <= k < cylinders.len() ==> cylinders[k] == cylinder_spec(
                    args.add_cylinders@[k].0,
                    args.add_cylinders@[k].1,
                    args.add_cylinders@[k].2,
                    args.add_cylinders@[k].3,
                    args.add_cylinders@[k].4,
                ),
        decreases args.add_cylinders@.len() - i,
    {
        let item = args.add_cylinders[i];
        world.add(Hittable::Cylinder(Cylinder::new(item.0, item.1, item.2, item.3, item.4)));
        i += 1;
    }
    if args.add_planes.len() == 0 {
        world.add(floor(50));
    }
    proof {
        assert(world.objects@ =~= custom_objects_spec(*args));
    }
    world
}

/// The scene that the arguments ask for.
pub fn build_scene(args: &Args) -> (scene: Scene)
    ensures
        scene.world.objects@ == objects_spec(*args),
        scene.light == light_spec(*args),
        scene.cam == camera_spec(*args),
{
    let mut world = HittableList::new();
    match args.scene {
        SceneKind::Sphere => {
            world.add(floor(150));
            world.add(
                Hittable::Sphere(
                    Sphere::new(
                        point(0, 0, -1300),
                        Fixed::from_milli(500),
                        point(900, 200, 200),
                        Fixed::from_milli(50),
                    ),
                ),
            );
        },
        SceneKind::CubePlaneDim => {
            world.add(floor(50));
            world.add(
                Hittable::Cube(
                    Cube::from_center_size(
                        point(0, -200, -1300),
                        Fixed::from_milli(600),
                        point(250, 280, 350),
                        Fixed::from_milli(0),
                    ),
                ),
            );
        },
        SceneKind::All => {
            world.add(floor(50));
            add_trio(&mut world, 100, 50);
        },
        SceneKind::AllAltCam => {
            world.add(floor(50));
            add_trio(&mut world, 20, 80);
        },
        SceneKind::Custom => {
            world = custom_objects(args);
        },
    }
    proof {
        assert(world.objects@ =~= objects_spec(*args));
    }
    Scene { world, light: light(args), cam: camera(args) }
}

} // verus!
