use crate::fixed::Fixed;
use crate::math::{Point3, Vec3};
use crate::ray::Ray;
use vstd::prelude::*;

verus! {

/// A pinhole camera: an eye and the image plane at distance one before it.
pub struct Camera {
    pub origin: Point3,
    pub lower_left_corner: Point3,
    pub horizontal: Vec3,
    pub vertical: Vec3,
}

impl Camera {
    /// The camera that looks from `lookfrom` to `lookat` with `vup`
    /// upward. `half_height` is the tangent of half the vertical angle of
    /// view, which is half the height of the image plane; `aspect_ratio`
    /// is width over height.
    pub open spec fn new_spec(
        lookfrom: Point3,
        lookat: Point3,
        vup: Vec3,
        half_height: Fixed,
        aspect_ratio: Fixed,
    ) -> Camera {
        let two = Fixed::from_int_spec(2);
        let viewport_height = two.mul_spec(half_height);
        let viewport_width = aspect_ratio.mul_spec(viewport_height);
        let w = lookfrom.sub_spec(lookat).unit_spec();
        let u = Vec3::cross_spec(vup, w).unit_spec();
        let v = Vec3::cross_spec(w, u);
        let horizontal = u.scale_spec(viewport_width);
        let vertical = v.scale_spec(viewport_height);
        Camera {
            origin: lookfrom,
            lower_left_corner: lookfrom.sub_spec(horizontal.div_spec(two)).sub_spec(
                vertical.div_spec(two),
            ).sub_spec(w),
            horizontal,
            vertical,
        }
    }

    /// The ray from the eye through the point of the image plane that lies
    /// the share `s` of the way across and the share `t` of the way up.
    pub open spec fn get_ray_spec(self, s: Fixed, t: Fixed) -> Ray {
        Ray {
            origin: self.origin,
            direction: self.lower_left_corner.add_spec(self.horizontal.scale_spec(s)).add_spec(
                self.vertical.scale_spec(t),
            ).sub_spec(self.origin),
        }
    }

    /// The camera that looks from `lookfrom` to `lookat` with `vup` upward.
    /// `half_height` is the tangent of half the vertical angle of view;
    /// `aspect_ratio` is width over height.
    pub fn new(
        lookfrom: Point3,
        lookat: Point3,
        vup: Vec3,
        half_height: Fixed,
        aspect_ratio: Fixed,
    ) -> (cam: Camera)
        ensures
            cam == Camera::new_spec(lookfrom, lookat, vup, half_height, aspect_ratio),
    {
        let two = Fixed::from_int(2);
        let viewport_height = two.mul(half_height);
        let viewport_width = aspect_ratio.mul(viewport_height);

        let w = lookfrom.sub(lookat).unit();
        let u = Vec3::cross(vup, w).unit();
        let v = Vec3::cross(w, u);

        let origin = lookfrom;
        let horizontal = u.scale(viewport_width);
        let vertical = v.scale(viewport_height);
        let lower_left_corner = origin.sub(horizontal.div(two)).sub(vertical.div(two)).sub(w);
        Camera { origin, lower_left_corner, horizontal, vertical }
    }

    /// The ray from the eye through the point of the image plane that lies
    /// the share `s` of the way across and the share `t` of the way up.
    pub fn get_ray(&self, s: Fixed, t: Fixed) -> (r: Ray)
        ensures
            r == self.get_ray_spec(s, t),
    {
        Ray::new(
            self.origin,
            self.lower_left_corner.add(self.horizontal.scale(s)).add(self.vertical.scale(t)).sub(
                self.origin,
            ),
        )
    }
}

} // verus!
