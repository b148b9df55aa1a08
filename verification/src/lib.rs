//! A recursive ray tracer in decimal fixed point.
//!
//! A picture is made by sending rays from a pinhole camera through the
//! pixels of an image plane, finding for each ray the nearest surface it
//! strikes, and colouring the point struck by ambient light, by the light
//! of one point source unless something stands in its way, and by the
//! mirror image of the scene, followed through a bounded number of
//! surfaces. A ray that strikes nothing brings the colour of the sky.
//!
//! Every number is a [`fixed::Fixed`]: a whole count of million-millionths
//! that saturates at two million. No operation fails, and each
//! function states what it computes over these numbers exactly.

pub mod camera;
pub mod cli;
pub mod cube;
pub mod cylinder;
pub mod fixed;
pub mod hittable;
pub mod light;
pub mod math;
pub mod plane;
pub mod quadratic;
pub mod ppm;
pub mod ray;
pub mod render;
pub mod scene;
pub mod shading;
pub mod sphere;
pub mod wide;
