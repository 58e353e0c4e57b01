//! The camera: image dimensions, scan order, the bounded shading recursion
//! and the bytes of the image.
use crate::color::{color_line, push_signed_decimal, signed_decimal, write_color, Color};
use crate::hittable::{HitRecord, Hittable};
use crate::hittable_list::HittableList;
use crate::interval::Interval;
use crate::material::Scattered;
use crate::ray::Ray;
use crate::scalar::{Scalar, INFINITY_BITS};
use crate::vec3::{Point3, Vec3};
use vstd::prelude::*;

verus! {

/// The pattern of `0.001`: the smallest ray parameter at which a surface
/// counts as hit. A scattered ray starts on a surface, and rounding may put
/// its origin a little inside; without the bias it would meet that surface
/// again at once.
pub const SHADOW_BIAS_BITS: u64 = 0x3F50_624D_D2F1_A9FC;

/// The geometry that a camera derives from its configuration, and the render
/// parameters.
#[derive(Clone, Copy, Debug)]
pub struct Camera {
    pub image_height: i32,
    pub image_width: i32,
    pub camera_center: Point3,
    /// The centre of the pixel in the upper left corner.
    pub pixel_00: Point3,
    /// From one pixel to the next in its row.
    pub pixel_delta_u: Vec3,
    /// From one pixel to the one below it.
    pub pixel_delta_v: Vec3,
    pub samples_per_pixel: i32,
    /// One over `samples_per_pixel`.
    pub pixels_samples_scale: Scalar,
    /// The largest number of surfaces that one path may meet.
    pub recursion_depth: usize,
    pub defocus_disk_u: Vec3,
    pub defocus_disk_v: Vec3,
    /// The angle of the cone of rays through one pixel; no lens where it is
    /// zero or less.
    pub defocus_angle: Scalar,
}

/// The vectors of a camera's geometry.
#[derive(Clone, Copy, Debug)]
pub struct Frame {
    pub camera_center: Point3,
    pub pixel_00: Point3,
    pub pixel_delta_u: Vec3,
    pub pixel_delta_v: Vec3,
    pub defocus_disk_u: Vec3,
    pub defocus_disk_v: Vec3,
}

/// One pixel of the image before it is written: its linear colour and the
/// square roots of that colour's components.
#[derive(Clone, Copy, Debug)]
pub struct Pixel {
    pub color: Color,
    pub roots: Color,
}

/// What a ray finds.
#[derive(Clone, Copy, Debug)]
pub enum Probe {
    /// No depth is left: the path ends in black.
    Exhausted,
    /// The ray leaves the scene: the path ends in the background.
    Miss,
    /// The ray meets a surface, whose material decides how it goes on.
    Surface(HitRecord),
}

/// How a path goes on after a surface has scattered it.
#[derive(Clone, Copy, Debug)]
pub struct Bounce {
    /// The factor by which the colour of the rest of the path is dimmed.
    pub attenuation: Color,
    pub ray: Ray,
    /// The depth that is left for the rest of the path.
    pub depth: usize,
}

/// The range of ray parameters that shading admits: `(0.001, +infinity)`.
pub open spec fn shading_range() -> Interval {
    Interval { min: Scalar { bits: SHADOW_BIAS_BITS }, max: Scalar { bits: INFINITY_BITS } }
}

/// The first bytes of an image: `P3`, the width and the height, and the
/// largest level, 255.
pub open spec fn header_bytes(width: int, height: int) -> Seq<u8> {
    seq![80u8, 51u8, 10u8] + signed_decimal(width) + seq![32u8] + signed_decimal(height) + seq![
        10u8,
        50u8,
        53u8,
        53u8,
        10u8,
    ]
}

/// The lines of the pixels, one after the other.
pub open spec fn image_lines(pixels: Seq<Pixel>) -> Seq<u8>
    decreases pixels.len(),
{
    if pixels.len() == 0 {
        Seq::empty()
    } else {
        image_lines(pixels.drop_last()) + color_line(pixels.last().color, pixels.last().roots)
    }
}

/// The depth that is left after a run of surfaces, each of which scatters or
/// absorbs: none once a surface has absorbed the ray or the depth is used up.
pub open spec fn depth_left(depth: usize, scatters: Seq<Scattered>) -> Option<usize>
    decreases scatters.len(),
{
    if scatters.len() == 0 {
        Some(depth)
    } else {
        match depth_left(depth, scatters.drop_last()) {
            Some(d) => match Camera::spec_bounce(scatters.last(), d) {
                Some(b) => Some(b.depth),
                None => None,
            },
            None => None,
        }
    }
}

impl Camera {
    /// The height of an image: `quotient`, the width divided by the aspect
    /// ratio, rounded toward zero, but at least 1.
    pub open spec fn spec_image_height(quotient: Scalar) -> int {
        if quotient.truncated(0) < 1 {
            1
        } else {
            quotient.truncated(0)
        }
    }

    /// The number of pixels of the image.
    pub open spec fn spec_pixel_count(self) -> int {
        if self.image_width > 0 && self.image_height > 0 {
            self.image_width * self.image_height
        } else {
            0
        }
    }

    /// What a ray finds, given the depth that is left and the answer of the
    /// scene.
    pub open spec fn spec_classify(depth: usize, rec: HitRecord) -> Probe {
        if depth == 0 {
            Probe::Exhausted
        } else if rec.is_hit {
            Probe::Surface(rec)
        } else {
            Probe::Miss
        }
    }

    /// How a path goes on from a surface: not at all where the surface
    /// absorbs it or no depth is left, else along the scattered ray with one
    /// less of depth.
    pub open spec fn spec_bounce(scattered: Scattered, depth: usize) -> Option<Bounce> {
        if scattered.is_scattered && depth > 0 {
            Some(
                Bounce {
                    attenuation: scattered.attenuation,
                    ray: scattered.ray,
                    depth: (depth - 1) as usize,
                },
            )
        } else {
            None
        }
    }

    /// The bytes of the image with the given pixels, which come row by row
    /// from the top, each row from the left.
    pub open spec fn spec_render(self, pixels: Seq<Pixel>) -> Seq<u8> {
        header_bytes(self.image_width as int, self.image_height as int) + image_lines(pixels)
    }

    /// Whether the invariant of the type holds: the image has at least one
    /// row.
    pub open spec fn wf(self) -> bool {
        self.image_height >= 1
    }

    /// The height of an image whose width divided by its aspect ratio is
    /// `quotient`.
    pub fn image_height(quotient: Scalar) -> (r: i32)
        ensures
            r == Camera::spec_image_height(quotient),
            r >= 1,
    {
        let image_height: i32 = quotient.to_i32();
        if image_height < 1 {
            1
        } else {
            image_height
        }
    }

    /// A camera for an image of the given width. `quotient` is the width
    /// divided by the aspect ratio, `pixels_samples_scale` one over
    /// `samples_per_pixel`, and `frame` the geometry for an image of
    /// `Camera::image_height(quotient)` rows.
    pub fn new(
        image_width: i32,
        quotient: Scalar,
        samples_per_pixel: i32,
        recursion_depth: usize,
        pixels_samples_scale: Scalar,
        frame: Frame,
        defocus_angle: Scalar,
    ) -> (r: Camera)
        ensures
            r.wf(),
            r.image_width == image_width,
            r.image_height == Camera::spec_image_height(quotient),
            r.samples_per_pixel == samples_per_pixel,
            r.recursion_depth == recursion_depth,
            r.pixels_samples_scale == pixels_samples_scale,
            r.camera_center == frame.camera_center,
            r.pixel_00 == frame.pixel_00,
            r.pixel_delta_u == frame.pixel_delta_u,
            r.pixel_delta_v == frame.pixel_delta_v,
            r.defocus_disk_u == frame.defocus_disk_u,
            r.defocus_disk_v == frame.defocus_disk_v,
            r.defocus_angle == defocus_angle,
    {
        Camera {
            image_height: Camera::image_height(quotient),
            image_width,
            camera_center: frame.camera_center,
            pixel_00: frame.pixel_00,
            pixel_delta_u: frame.pixel_delta_u,
            pixel_delta_v: frame.pixel_delta_v,
            samples_per_pixel,
            pixels_samples_scale,
            recursion_depth,
            defocus_disk_u: frame.defocus_disk_u,
            defocus_disk_v: frame.defocus_disk_v,
            defocus_angle,
        }
    }

    /// Whether rays start on the lens disk rather than in the camera's
    /// centre: they do unless the defocus angle is zero or less.
    pub fn samples_lens(&self) -> (r: bool)
        ensures
            r == !self.defocus_angle.at_most(Scalar { bits: 0 }),
    {
        !self.defocus_angle.le(&Scalar::zero())
    }

    /// The number of pixels of the image.
    pub fn pixel_count(&self) -> (r: u64)
        ensures
            r == self.spec_pixel_count(),
    {
        if self.image_width > 0 && self.image_height > 0 {
            let w: u64 = self.image_width as u64;
            let h: u64 = self.image_height as u64;
            assert(w * h <= 0x7FFF_FFFF * 0x7FFF_FFFF) by (nonlinear_arith)
                requires
                    w <= 0x7FFF_FFFF,
                    h <= 0x7FFF_FFFF,
            ;
            w * h
        } else {
            0
        }
    }

    /// The column and the row of the pixel that is written as number `index`,
    /// counting from 0: rows from the top, each from the left. None where the
    /// image has no such pixel.
    pub fn pixel_at(&self, index: u64) -> (r: Option<(i32, i32)>)
        ensures
            index >= self.spec_pixel_count() ==> r is None,
            index < self.spec_pixel_count() ==> r == Some(
                ((index % self.image_width as u64) as i32, (index / self.image_width as u64) as i32),
            ),
            r matches Some((i, j)) ==> 0 <= i < self.image_width && 0 <= j < self.image_height && j
                * self.image_width + i == index,
    {
        if index >= self.pixel_count() {
            return None;
        }
        let w: u64 = self.image_width as u64;
        let i: u64 = index % w;
        let j: u64 = index / w;
        proof {
            let h = self.image_height as int;
            assert(j < h && j * w + i == index) by (nonlinear_arith)
                requires
                    w > 0,
                    h > 0,
                    index < w * h,
                    i == index % w,
                    j == index / w,
            ;
        }
        Some((i as i32, j as i32))
    }

    /// What a ray finds, given the depth that is left and the answer of the
    /// scene under `shading_range()`.
    pub fn classify(depth: usize, rec: HitRecord) -> (p: Probe)
        ensures
            p == Camera::spec_classify(depth, rec),
    {
        if depth == 0 {
            Probe::Exhausted
        } else if rec.is_hit {
            Probe::Surface(rec)
        } else {
            Probe::Miss
        }
    }

    /// The first step of shading a ray. With no depth left the scene is not
    /// asked. Otherwise the scene is asked with the ray `r` itself for the
    /// nearest surface with a parameter in `(0.001, +infinity)`, and its
    /// answer is classified: a surface where it reports a hit, a miss where
    /// it reports none.
    pub fn ray_color_probe<T: Hittable>(r: &Ray, world: &T, depth: usize) -> (p: Probe)
        ensures
            depth == 0 ==> p == Probe::Exhausted,
            depth > 0 ==> exists|rec: HitRecord|
                call_ensures(T::hit, (world, r, &shading_range()), rec) && (rec.is_hit
                    ==> shading_range().spec_surrounds(rec.t)) && p
                    == #[trigger] Camera::spec_classify(depth, rec),
    {
        if depth == 0 {
            return Probe::Exhausted;
        }
        let interval = Interval::new(Scalar::from_bits(SHADOW_BIAS_BITS), Scalar::infinity());
        assert(interval == shading_range());
        let rec = world.hit(r, &interval);
        Camera::classify(depth, rec)
    }

    /// The second step of shading a ray that met a surface: how the path goes
    /// on after the surface's material has scattered it. Where this is none
    /// the path ends in black; otherwise its colour is the attenuation times
    /// the colour of the scattered ray, shaded with the depth that is left.
    pub fn ray_color_bounce(scattered: &Scattered, depth: usize) -> (r: Option<Bounce>)
        ensures
            r == Camera::spec_bounce(*scattered, depth),
    {
        if scattered.is_scattered && depth > 0 {
            Some(Bounce { attenuation: scattered.attenuation, ray: scattered.ray, depth: depth - 1 })
        } else {
            None
        }
    }

    /// The first bytes of the image.
    pub fn header(&self) -> (out: Vec<u8>)
        ensures
            out@ == header_bytes(self.image_width as int, self.image_height as int),
    {
        let mut out: Vec<u8> = Vec::new();
        out.push(80);
        out.push(51);
        out.push(10);
        push_signed_decimal(&mut out, self.image_width);
        out.push(32);
        push_signed_decimal(&mut out, self.image_height);
        out.push(10);
        out.push(50);
        out.push(53);
        out.push(53);
        out.push(10);
        assert(out@ =~= header_bytes(self.image_width as int, self.image_height as int));
        out
    }

    /// The bytes of the image: the header and one line for each pixel. The
    /// pixels come in scan order; none is returned unless there are as many
    /// as the image has.
    pub fn render(&self, pixels: &Vec<Pixel>) -> (out: Option<Vec<u8>>)
        ensures
            pixels@.len() != self.spec_pixel_count() ==> out is None,
            pixels@.len() == self.spec_pixel_count() ==> out is Some && out.unwrap()@
                == self.spec_render(pixels@),
    {
        if pixels.len() as u64 != self.pixel_count() {
            return None;
        }
        let mut out = self.header();
        let mut k: usize = 0;
        while k < pixels.len()
            invariant
                k <= pixels.len(),
                out@ == self.spec_render(pixels@.take(k as int)),
            decreases pixels.len() - k,
        {
            write_color(&mut out, &pixels[k].color, &pixels[k].roots);
            proof {
                assert(pixels@.take(k + 1).drop_last() =~= pixels@.take(k as int));
                assert(out@ =~= self.spec_render(pixels@.take(k + 1)));
            }
            k += 1;
        }
        proof {
            assert(pixels@.take(k as int) =~= pixels@);
        }
        Some(out)
    }
}

/// An empty scene is missed. Whatever a list without objects answers when it
/// is asked under the shading range, a ray with depth left is classified as
/// a miss, and so is shaded with the background.
pub proof fn lemma_empty_world_is_missed<T: Hittable>(
    world: HittableList<T>,
    r: Ray,
    depth: usize,
    rec: HitRecord,
)
    requires
        world.objects@.len() == 0,
        depth > 0,
        call_ensures(HittableList::<T>::hit, (&world, &r, &shading_range()), rec),
    ensures
        Camera::spec_classify(depth, rec) == Probe::Miss,
{
}

/// Bounded recursion. As long as a path goes on, the depth that is left and
/// the number of surfaces met add up to the depth it started with; so no
/// path meets more surfaces than its depth.
pub proof fn lemma_path_is_bounded(depth: usize, scatters: Seq<Scattered>)
    ensures
        depth_left(depth, scatters) matches Some(d) ==> d + scatters.len() == depth,
        scatters.len() > depth ==> depth_left(depth, scatters) is None,
    decreases scatters.len(),
{
    if scatters.len() > 0 {
        lemma_path_is_bounded(depth, scatters.drop_last());
    }
}

} // verus!
