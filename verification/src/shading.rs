use crate::fixed::Fixed;
use crate::hittable::{HitRecord, HittableList};
use crate::light::PointLight;
use crate::math::{reflect, reflect_spec, Color, Point3, Vec3};
use crate::ray::Ray;
use vstd::prelude::*;

verus! {

/// Raw value of the light that reaches every surface: twelve hundredths.
pub const AMBIENT_RAW: i64 = 120_000_000_000;

/// Raw value of the distance by which a shadow ray or a reflected ray starts
/// off the surface, so that it does not strike the surface it leaves: a
/// ten-thousandth.
pub const BIAS_RAW: i64 = 100_000_000;

/// Raw value of the least parameter at which a traced ray may strike: a
/// thousandth.
pub const NEAR_RAW: i64 = 1_000_000_000;

/// The direction from `p` to the light, of unit length, and the distance.
pub open spec fn to_light_spec(p: Point3, light: PointLight) -> (Vec3, Fixed) {
    let to_light = light.position.sub_spec(p);
    let distance = to_light.length_spec();
    (to_light.div_spec(distance), distance)
}

/// The ray from just off the surface at `p` toward the light.
pub open spec fn shadow_ray_spec(normal: Vec3, p: Point3, light: PointLight) -> Ray {
    Ray {
        origin: p.add_spec(normal.scale_spec(Fixed::of(BIAS_RAW as int))),
        direction: to_light_spec(p, light).0,
    }
}

/// Something in the scene stands between the surface at `p` and the light.
pub open spec fn in_shadow_spec(
    normal: Vec3,
    p: Point3,
    light: PointLight,
    world: HittableList,
) -> bool {
    let bias = Fixed::of(BIAS_RAW as int);
    world.hit_spec(
        shadow_ray_spec(normal, p, light),
        bias,
        to_light_spec(p, light).1.sub_spec(bias),
    ) is Some
}

/// The share of the light that the surface at `p` receives: the ambient
/// share, and, out of the shadow, the cosine of the angle between the
/// normal and the direction to the light where that is positive.
pub open spec fn lighting_spec(
    normal: Vec3,
    p: Point3,
    light: PointLight,
    world: HittableList,
) -> Fixed {
    let diffuse = if in_shadow_spec(normal, p, light, world) {
        Fixed::zero_spec()
    } else {
        Fixed::zero_spec().max_spec(Vec3::dot_spec(normal, to_light_spec(p, light).0))
    };
    Fixed::of(AMBIENT_RAW as int).add_spec(diffuse)
}

/// The colour of the surface at `p` under the light alone.
pub open spec fn shade_spec(
    hit_color: Color,
    normal: Vec3,
    p: Point3,
    light: PointLight,
    world: HittableList,
) -> Color {
    hit_color.scale_spec(lighting_spec(normal, p, light, world)).mul_spec(light.intensity)
}

/// The share of the colour that a surface takes from its mirror image.
pub open spec fn mirror_share_spec(rec: HitRecord) -> Fixed {
    rec.reflectivity.clamp_spec(Fixed::zero_spec(), Fixed::one_spec())
}

/// The ray that leaves the surface as the mirror image of `r`.
pub open spec fn mirror_ray_spec(r: Ray, rec: HitRecord) -> Ray {
    Ray {
        origin: rec.p.add_spec(rec.normal.scale_spec(Fixed::of(BIAS_RAW as int))),
        direction: reflect_spec(r.direction.unit_spec(), rec.normal).unit_spec(),
    }
}

/// The colour of the sky in the direction of `r`: white straight down,
/// light blue straight up, and a blend of the two between.
pub open spec fn sky_spec(r: Ray) -> Color {
    let half = Fixed::of(crate::fixed::SCALE / 2);
    let one = Fixed::one_spec();
    let t = half.mul_spec(r.direction.unit_spec().y.add_spec(one));
    let white = Vec3 { x: one, y: one, z: one };
    let blue = Vec3 {
        x: Fixed::of(500_000_000_000),
        y: Fixed::of(700_000_000_000),
        z: one,
    };
    white.scale_spec(one.sub_spec(t)).add_spec(blue.scale_spec(t))
}

/// The blend of a surface's own colour with that of its mirror image.
pub open spec fn blend_spec(local: Color, reflected: Color, share: Fixed) -> Color {
    local.scale_spec(Fixed::one_spec().sub_spec(share)).add_spec(reflected.scale_spec(share))
}

/// The colour that arrives along `r`, following the ray through at most
/// `depth` surfaces: nothing at depth zero; the sky where the ray strikes
/// nothing; else the colour of the surface struck, blended with that of
/// its mirror image where the surface reflects at all.
pub open spec fn ray_color_spec(r: Ray, world: HittableList, light: PointLight, depth: int) -> Color
    decreases depth,
{
    if depth <= 0 {
        Vec3::zero_spec()
    } else {
        match world.hit_spec(r, Fixed::of(NEAR_RAW as int), Fixed::max_value_spec()) {
            Some(rec) => {
                let local = shade_spec(rec.albedo, rec.normal, rec.p, light, world);
                let share = mirror_share_spec(rec);
                if share@ > 0 {
                    blend_spec(
                        local,
                        ray_color_spec(mirror_ray_spec(r, rec), world, light, depth - 1),
                        share,
                    )
                } else {
                    local
                }
            },
            None => sky_spec(r),
        }
    }
}

/// Once the depth is used up a ray brings no colour, whatever it strikes.
pub proof fn lemma_depth_exhausted(r: Ray, world: HittableList, light: PointLight, depth: int)
    requires
        depth <= 0,
    ensures
        ray_color_spec(r, world, light, depth) == Vec3::zero_spec(),
{
}

/// A surface in shadow receives the ambient share of the light and no
/// more.
pub proof fn lemma_shadow_leaves_ambient(
    normal: Vec3,
    p: Point3,
    light: PointLight,
    world: HittableList,
)
    requires
        in_shadow_spec(normal, p, light, world),
    ensures
        lighting_spec(normal, p, light, world)@ == AMBIENT_RAW,
{
    broadcast use Fixed::lemma_of_view;

}

/// Where a ray strikes a surface, its colour is the surface's own colour
/// times one less the mirror share, plus the colour along the mirror ray
/// times the mirror share; with a mirror share of zero it is the surface's
/// own colour and depends on nothing else.
pub proof fn lemma_reflection_blend(
    r: Ray,
    world: HittableList,
    light: PointLight,
    depth: int,
    rec: HitRecord,
)
    requires
        depth > 0,
        world.hit_spec(r, Fixed::of(NEAR_RAW as int), Fixed::max_value_spec()) == Some(rec),
    ensures
        ({
            let local = shade_spec(rec.albedo, rec.normal, rec.p, light, world);
            let reflected = ray_color_spec(mirror_ray_spec(r, rec), world, light, depth - 1);
            let share = mirror_share_spec(rec);
            &&& 0 <= share@ <= crate::fixed::SCALE
            &&& 0 <= rec.reflectivity@ <= crate::fixed::SCALE ==> share == rec.reflectivity
            &&& share@ > 0 ==> ray_color_spec(r, world, light, depth) == local.scale_spec(
                Fixed::one_spec().sub_spec(share),
            ).add_spec(reflected.scale_spec(share))
            &&& share@ == 0 ==> ray_color_spec(r, world, light, depth) == local
        }),
{
    broadcast use Fixed::lemma_of_view;

}

/// The colour of the surface at `p` under the light alone: its own colour
/// times the share of the light that reaches it, tinted by the light.
pub fn shade_lambert_with_shadow(
    hit_color: Color,
    normal: Vec3,
    p: Point3,
    light: &PointLight,
    world: &HittableList,
) -> (c: Color)
    ensures
        c == shade_spec(hit_color, normal, p, *light, *world),
{
    let ambient = Fixed::from_raw(AMBIENT_RAW);

    let to_light_vec = light.position.sub(p);
    let light_dist = to_light_vec.length();
    let to_light_dir = to_light_vec.div(light_dist);

    let shadow_eps = Fixed::from_raw(BIAS_RAW);
    let shadow_origin = p.add(normal.scale(shadow_eps));
    let shadow_ray = Ray::new(shadow_origin, to_light_dir);
    let in_shadow = world.hit(&shadow_ray, shadow_eps, light_dist.sub(shadow_eps)).is_some();

    let diffuse = if in_shadow {
        Fixed::zero()
    } else {
        Fixed::zero().max(Vec3::dot(normal, to_light_dir))
    };
    let lighting = ambient.add(diffuse);
    hit_color.scale(lighting).mul(light.intensity)
}

/// The colour of the sky in the direction of `r`.
pub fn sky(r: &Ray) -> (c: Color)
    ensures
        c == sky_spec(*r),
{
    let half = Fixed::from_raw(crate::fixed::SCALE / 2);
    let one = Fixed::one();
    let unit_dir = r.direction.unit();
    let t = half.mul(unit_dir.y.add(one));
    let white = Vec3::new(one, one, one);
    let blue = Vec3::new(Fixed::from_raw(500_000_000_000), Fixed::from_raw(700_000_000_000), one);
    white.scale(one.sub(t)).add(blue.scale(t))
}

/// The colour that arrives along `r`, following the ray through at most
/// `depth` surfaces.
pub fn ray_color(r: &Ray, world: &HittableList, light: &PointLight, depth: i32) -> (c: Color)
    ensures
        c == ray_color_spec(*r, *world, *light, depth as int),
        depth <= 0 ==> c == Vec3::zero_spec(),
    decreases depth,
{
    if depth <= 0 {
        return Vec3::zero();
    }
    match world.hit(r, Fixed::from_raw(NEAR_RAW), Fixed::max_value()) {
        Some(rec) => {
            let local = shade_lambert_with_shadow(rec.albedo, rec.normal, rec.p, light, world);

            let refl = rec.reflectivity.clamp(Fixed::zero(), Fixed::one());
            if refl.gt(Fixed::zero()) {
                let reflect_dir = reflect(r.direction.unit(), rec.normal).unit();
                let reflect_ray = Ray::new(
                    rec.p.add(rec.normal.scale(Fixed::from_raw(BIAS_RAW))),
                    reflect_dir,
                );
                let reflected = ray_color(&reflect_ray, world, light, depth - 1);
                local.scale(Fixed::one().sub(refl)).add(reflected.scale(refl))
            } else {
                local
            }
        },
        None => sky(r),
    }
}

} // verus!
