use crate::camera::Camera;
use crate::fixed::{Fixed, SCALE};
use crate::hittable::HittableList;
use crate::light::PointLight;
use crate::math::{random_f64, Color, Vec3};
use crate::shading::{ray_color, ray_color_spec};
use vstd::prelude::*;

verus! {

/// Raw value of the brightest channel that is written: a thousandth under
/// one.
pub const BRIGHTEST_RAW: i64 = 999_000_000_000;

/// What a picture is taken of, and from where.
pub struct Scene {
    pub world: HittableList,
    pub light: PointLight,
    pub cam: Camera,
}

/// The size of a picture and the effort spent on each of its pixels.
#[derive(Clone, Copy, Debug, PartialEq, Eq, Structural)]
pub struct Frame {
    pub width: i32,
    pub height: i32,
    pub samples_per_pixel: i32,
    pub max_depth: i32,
}

/// Two draws, each from zero up to one, by which a sample is moved off the
/// corner of its pixel.
pub open spec fn is_jitter(draw: (Fixed, Fixed)) -> bool {
    0 <= draw.0@ < SCALE && 0 <= draw.1@ < SCALE
}

/// The share of the way across `extent` pixels at which a sample lies that
/// is moved by `jitter` off pixel `index`.
pub open spec fn sample_coordinate_spec(index: int, jitter: Fixed, extent: int) -> Fixed {
    Fixed::from_int_spec(index).add_spec(jitter).div_spec(Fixed::from_int_spec(extent - 1))
}

/// The colour of one sample of the pixel in column `i` and row `j`, rows
/// counted from the bottom.
pub open spec fn sample_color_spec(
    scene: Scene,
    frame: Frame,
    i: int,
    j: int,
    draw: (Fixed, Fixed),
) -> Color {
    ray_color_spec(
        scene.cam.get_ray_spec(
            sample_coordinate_spec(i, draw.0, frame.width as int),
            sample_coordinate_spec(j, draw.1, frame.height as int),
        ),
        scene.world,
        scene.light,
        frame.max_depth as int,
    )
}

/// The sum of the colours of the samples that the draws give.
pub open spec fn pixel_sum_spec(
    scene: Scene,
    frame: Frame,
    i: int,
    j: int,
    draws: Seq<(Fixed, Fixed)>,
) -> Color
    decreases draws.len(),
{
    if draws.len() == 0 {
        Vec3::zero_spec()
    } else {
        pixel_sum_spec(scene, frame, i, j, draws.drop_last()).add_spec(
            sample_color_spec(scene, frame, i, j, draws.last()),
        )
    }
}

/// The number of samples taken of a pixel: none where the frame asks for
/// fewer than one.
pub open spec fn sample_count_spec(frame: Frame) -> int {
    if frame.samples_per_pixel > 0 {
        frame.samples_per_pixel as int
    } else {
        0
    }
}

/// `sum` is what some run of draws gives for the pixel in column `i` and
/// row `j`.
pub open spec fn is_pixel_sum(scene: Scene, frame: Frame, i: int, j: int, sum: Color) -> bool {
    exists|draws: Seq<(Fixed, Fixed)>|
        #![trigger pixel_sum_spec(scene, frame, i, j, draws)]
        draws.len() == sample_count_spec(frame) && (forall|k: int|
            0 <= k < draws.len() ==> is_jitter(#[trigger] draws[k])) && sum == pixel_sum_spec(
            scene,
            frame,
            i,
            j,
            draws,
        )
}

/// The byte of a channel: the channel held between zero and the brightest
/// value, times 256, without its fraction.
pub open spec fn to_byte_spec(c: Fixed) -> int {
    c.clamp_spec(Fixed::zero_spec(), Fixed::of(BRIGHTEST_RAW as int)).mul_spec(
        Fixed::from_int_spec(256),
    ).trunc_spec()
}

/// The byte of a channel summed over `samples` samples: the byte of the
/// square root of its mean.
pub open spec fn channel_spec(sum: Fixed, samples: int) -> int {
    to_byte_spec(sum.div_spec(Fixed::from_int_spec(samples)).sqrt_spec())
}

/// The three bytes of a pixel whose samples add up to `sum`.
pub open spec fn pixel_bytes_spec(sum: Color, samples: int) -> (u8, u8, u8) {
    (
        channel_spec(sum.x, samples) as u8,
        channel_spec(sum.y, samples) as u8,
        channel_spec(sum.z, samples) as u8,
    )
}

/// A byte lies between 0 and 255.
pub proof fn lemma_byte_range(c: Fixed)
    ensures
        0 <= to_byte_spec(c) <= 255,
{
    broadcast use Fixed::lemma_of_view;

    let held = c.clamp_spec(Fixed::zero_spec(), Fixed::of(BRIGHTEST_RAW as int));
    let p = held@ * (256 * SCALE);
    assert(0 <= p <= BRIGHTEST_RAW * (256 * SCALE)) by (nonlinear_arith)
        requires
            0 <= held@ <= BRIGHTEST_RAW,
            p == held@ * (256 * SCALE),
    ;
    assert(p / (SCALE as int) == held@ * 256) by (nonlinear_arith)
        requires
            p == held@ * (256 * SCALE),
    ;
    let scaled = held@ * 256;
    assert(0 <= scaled / (SCALE as int) <= 255) by (nonlinear_arith)
        requires
            0 <= scaled <= 255_744_000_000_000,
    ;
}

/// The share of the way across `extent` pixels at which a sample lies
/// that is moved by `jitter` off pixel `index`.
pub fn sample_coordinate(index: i32, jitter: Fixed, extent: i32) -> (c: Fixed)
    ensures
        c == sample_coordinate_spec(index as int, jitter, extent as int),
{
    Fixed::from_int(index as i64).add(jitter).div(Fixed::from_int(extent as i64 - 1))
}

/// The colour of one sample of the pixel in column `i` and row `j`.
pub fn sample_color(scene: &Scene, frame: Frame, i: i32, j: i32, draw: (Fixed, Fixed)) -> (c: Color)
    ensures
        c == sample_color_spec(*scene, frame, i as int, j as int, draw),
{
    let u = sample_coordinate(i, draw.0, frame.width);
    let v = sample_coordinate(j, draw.1, frame.height);
    let r = scene.cam.get_ray(u, v);
    ray_color(&r, &scene.world, &scene.light, frame.max_depth)
}

/// As many pairs of fresh draws as there are samples to a pixel.
pub fn draw_jitter(frame: Frame) -> (draws: Vec<(Fixed, Fixed)>)
    ensures
        draws@.len() == sample_count_spec(frame),
        forall|k: int| 0 <= k < draws@.len() ==> is_jitter(#[trigger] draws@[k]),
{
    let mut draws: Vec<(Fixed, Fixed)> = Vec::new();
    let mut s: i32 = 0;
    while s < frame.samples_per_pixel
        invariant
            0 <= s,
            s <= sample_count_spec(frame),
            draws@.len() == s,
            forall|k: int| 0 <= k < draws@.len() ==> is_jitter(#[trigger] draws@[k]),
        decreases frame.samples_per_pixel - s,
    {
        draws.push((random_f64(), random_f64()));
        s += 1;
    }
    draws
}

/// The sum of the colours of the samples that the draws give for the
/// pixel in column `i` and row `j`.
pub fn pixel_sum(scene: &Scene, frame: Frame, i: i32, j: i32, draws: &Vec<(Fixed, Fixed)>) -> (sum:
    Color)
    ensures
        sum == pixel_sum_spec(*scene, frame, i as int, j as int, draws@),
{
    let mut sum = Vec3::zero();
    let mut k: usize = 0;
    proof {
        assert(draws@.take(0) =~= Seq::empty());
    }
    while k < draws.len()
        invariant
            k <= draws@.len(),
            sum == pixel_sum_spec(*scene, frame, i as int, j as int, draws@.take(k as int)),
        decreases draws@.len() - k,
    {
        let c = sample_color(scene, frame, i, j, draws[k]);
        proof {
            assert(draws@.take(k + 1).drop_last() =~= draws@.take(k as int));
            assert(draws@.take(k + 1).last() == draws@[k as int]);
        }
        sum = sum.add(c);
        k += 1;
    }
    proof {
        assert(draws@.take(k as int) =~= draws@);
    }
    sum
}

/// The sum of the colours of the samples of one pixel, each moved by two
/// fresh draws.
pub fn pixel_color(scene: &Scene, frame: Frame, i: i32, j: i32) -> (sum: Color)
    ensures
        is_pixel_sum(*scene, frame, i as int, j as int, sum),
{
    let draws = draw_jitter(frame);
    pixel_sum(scene, frame, i, j, &draws)
}

/// The byte of a channel: the channel held between zero and the
/// brightest value, times 256, without its fraction.
pub fn to_byte(c: Fixed) -> (b: u8)
    ensures
        b == to_byte_spec(c),
{
    proof {
        lemma_byte_range(c);
    }
    let v: i64 = c.clamp(Fixed::zero(), Fixed::from_raw(BRIGHTEST_RAW)).mul(
        Fixed::from_int(256),
    ).trunc();
    v as u8
}

/// The three bytes of a pixel whose samples add up to `pixel_color`.
pub fn pixel_bytes(pixel_color: Color, samples_per_pixel: i32) -> (rgb: (u8, u8, u8))
    ensures
        rgb == pixel_bytes_spec(pixel_color, samples_per_pixel as int),
{
    let count = Fixed::from_int(samples_per_pixel as i64);
    let r = pixel_color.x.div(count).sqrt();
    let g = pixel_color.y.div(count).sqrt();
    let b = pixel_color.z.div(count).sqrt();
    proof {
        lemma_byte_range(r);
        lemma_byte_range(g);
        lemma_byte_range(b);
    }
    (to_byte(r), to_byte(g), to_byte(b))
}

/// `rgb` is what some run of draws gives for the pixel in column `i` and
/// row `j`.
pub open spec fn is_pixel(scene: Scene, frame: Frame, i: int, j: int, rgb: (u8, u8, u8)) -> bool {
    exists|sum: Color|
        #![trigger is_pixel_sum(scene, frame, i, j, sum)]
        is_pixel_sum(scene, frame, i, j, sum) && rgb == pixel_bytes_spec(
            sum,
            frame.samples_per_pixel as int,
        )
}

/// The pixels of the picture, row after row from the top row down, each
/// row from left to right.
pub fn render(scene: &Scene, frame: Frame) -> (pixels: Vec<(u8, u8, u8)>)
    ensures
        frame.width <= 0 || frame.height <= 0 ==> pixels@.len() == 0,
        frame.width > 0 && frame.height > 0 ==> pixels@.len() == frame.width * frame.height,
        forall|row: int, col: int|
            0 <= row < frame.height && 0 <= col < frame.width ==> is_pixel(
                *scene,
                frame,
                col,
                frame.height - 1 - row,
                #[trigger] pixels@[row * frame.width + col],
            ),
{
    let mut pixels: Vec<(u8, u8, u8)> = Vec::new();
    if frame.width <= 0 || frame.height <= 0 {
        return pixels;
    }
    let mut j: i32 = frame.height;
    while j > 0
        invariant
            frame.width > 0,
            frame.height > 0,
            0 <= j <= frame.height,
            pixels@.len() == (frame.height - j) * frame.width,
            forall|row: int, col: int|
                0 <= row < frame.height - j && 0 <= col < frame.width ==> is_pixel(
                    *scene,
                    frame,
                    col,
                    frame.height - 1 - row,
                    #[trigger] pixels@[row * frame.width + col],
                ),
        decreases j,
    {
        j -= 1;
        let ghost done = frame.height - 1 - j;
        let mut i: i32 = 0;
        while i < frame.width
            invariant
                frame.width > 0,
                frame.height > 0,
                0 <= j < frame.height,
                done == frame.height - 1 - j,
                0 <= i <= frame.width,
                pixels@.len() == done * frame.width + i,
                forall|row: int, col: int|
                    0 <= row < done && 0 <= col < frame.width ==> is_pixel(
                        *scene,
                        frame,
                        col,
                        frame.height - 1 - row,
                        #[trigger] pixels@[row * frame.width + col],
                    ),
                forall|col: int|
                    0 <= col < i ==> is_pixel(
                        *scene,
                        frame,
                        col,
                        j as int,
                        #[trigger] pixels@[done * frame.width + col],
                    ),
            decreases frame.width - i,
        {
            let sum = pixel_color(scene, frame, i, j);
            let rgb = pixel_bytes(sum, frame.samples_per_pixel);
            let ghost before = pixels@;
            pixels.push(rgb);
            proof {
                assert(is_pixel(*scene, frame, i as int, j as int, rgb));
                assert forall|row: int, col: int|
                    0 <= row < done && 0 <= col < frame.width implies is_pixel(
                    *scene,
                    frame,
                    col,
                    frame.height - 1 - row,
                    #[trigger] pixels@[row * frame.width + col],
                ) by {
                    assert(row * frame.width + col < (row + 1) * frame.width) by (nonlinear_arith)
                        requires
                            col < frame.width,
                    ;
                    assert((row + 1) * frame.width <= done * frame.width) by (nonlinear_arith)
                        requires
                            row + 1 <= done,
                            frame.width > 0,
                    ;
                    assert(0 <= row * frame.width + col) by (nonlinear_arith)
                        requires
                            0 <= row,
                            0 <= col,
                            frame.width > 0,
                    ;
                    assert(pixels@[row * frame.width + col] == before[row * frame.width + col]);
                }
                assert forall|col: int| 0 <= col < i + 1 implies is_pixel(
                    *scene,
                    frame,
                    col,
                    j as int,
                    #[trigger] pixels@[done * frame.width + col],
                ) by {
                    if col < i {
                        assert(pixels@[done * frame.width + col] == before[done * frame.width
                            + col]);
                    }
                }
            }
            i += 1;
        }
        proof {
            assert((done + 1) * frame.width == done * frame.width + frame.width)
                by (nonlinear_arith);
        }
    }
    proof {
        assert(frame.height * frame.width == frame.width * frame.height) by (nonlinear_arith);
    }
    pixels
}

} // verus!
