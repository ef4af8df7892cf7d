//! The camera: the size of the image, the grid of samples within a pixel, the
//! bands of rows that the workers render, and the light that a ray brings back.

use vstd::prelude::*;
use crate::aabb::Aabb;
use crate::hittable_list::hittable::{Flight, HitRecord, Probe, Surface, NEAR};
use crate::hittable_list::material::{ScatterRecord, Scattering};
use crate::hittable_list::{hit_post, kernel_ready, sight_spec, HitObject, Kernel};
use crate::onb::pdf::{sampler_ready, value_post, Pdf, Sampler};
use crate::onb::Onb;
use crate::rtweekend::interval::Interval;
use crate::rtweekend::ray::Ray;
use crate::rtweekend::scalar::INFINITY;
use crate::rtweekend::INF;
use crate::rtweekend::vec3::{Color, Point3, Vec3};

verus! {

/// Rank of 0.5: half a pixel.
pub const HALF: i64 = 0x3FE0_0000_0000_0000;

/// Rank of -0.5.
pub const NEG_HALF: i64 = -0x3FE0_0000_0000_0000;

/// The offsets from the centre of a pixel that lie within the pixel.
pub open spec fn pixel_spec() -> Interval {
    Interval { min: NEG_HALF, max: HALF }
}

/// The parameters of a render that are counted rather than measured, and the
/// colour of the background.
#[derive(Clone, Copy, Debug, PartialEq, Eq)]
pub struct Camera {
    /// Rendered image width in pixels.
    pub width: u32,
    /// Rendered image height in pixels, at least 1.
    pub height: u32,
    /// The samples asked for per pixel.
    pub samples_per_pixel: u32,
    /// The side of the square grid of samples actually taken per pixel.
    pub sqrt_spp: u32,
    /// The largest number of bounces of a path.
    pub max_depth: u32,
    /// The colour that a ray brings back from nowhere.
    pub background: Color,
}

/// `root` is the integer square root of `n`.
pub open spec fn is_sqrt(root: u32, n: u32) -> bool {
    root * root <= n < (root + 1) * (root + 1)
}

/// The rows of band `index` among `num_threads` bands of an image of `height`
/// rows: every band has `height / num_threads` rows, and the last one takes
/// the remainder as well.
pub open spec fn band_spec(height: u32, num_threads: u32, index: u32) -> (int, int) {
    let block_height = height as int / num_threads as int;
    (
        index * block_height,
        if index == num_threads - 1 {
            height as int
        } else {
            (index + 1) * block_height
        },
    )
}

/// The largest `root` whose square does not exceed `n`.
pub fn integer_sqrt(n: u32) -> (root: u32)
    ensures
        is_sqrt(root, n),
{
    let target: u64 = n as u64;
    let mut root: u64 = 0;
    while (root + 1) * (root + 1) <= target
        invariant
            root <= 65535,
            root * root <= target,
            (root + 1) * (root + 1) <= 0x1_0000_0000,
            target == n,
        decreases 65536 - root,
    {
        assert(root + 1 <= 65535) by (nonlinear_arith)
            requires
                (root + 1) * (root + 1) <= target,
                target <= 0xFFFF_FFFF,
        ;
        root += 1;
        assert((root + 1) * (root + 1) <= 0x1_0000_0000) by (nonlinear_arith)
            requires
                root <= 65535,
        ;
    }
    root as u32
}

impl Camera {
    /// The raster of an image `width` wide whose aspect ratio asks for `rows`
    /// rows: the height is `rows` but at least 1, and the samples of a pixel
    /// form the largest square grid that `samples_per_pixel` pays for.
    pub fn initialize(
        width: u32,
        rows: u32,
        samples_per_pixel: u32,
        max_depth: u32,
        background: Color,
    ) -> (cam: Camera)
        ensures
            cam.width == width,
            cam.height == if rows < 1 {
                1
            } else {
                rows
            },
            cam.samples_per_pixel == samples_per_pixel,
            is_sqrt(cam.sqrt_spp, samples_per_pixel),
            cam.max_depth == max_depth,
            cam.background == background,
    {
        let height = if rows < 1 {
            1
        } else {
            rows
        };
        Camera {
            width,
            height,
            samples_per_pixel,
            sqrt_spp: integer_sqrt(samples_per_pixel),
            max_depth,
            background,
        }
    }

    /// The rows that worker `index` of `num_threads` renders: from the first
    /// returned row up to, but not including, the second.
    pub fn band(&self, index: u32, num_threads: u32) -> (rows: (u32, u32))
        requires
            index < num_threads,
        ensures
            (rows.0 as int, rows.1 as int) == band_spec(self.height, num_threads, index),
            rows.0 <= rows.1 <= self.height,
    {
        let block_height = self.height / num_threads;
        proof {
            lemma_band_fits(self.height, num_threads, index);
        }
        let start_y = index * block_height;
        let end_y = if index == num_threads - 1 {
            self.height
        } else {
            (index + 1) * block_height
        };
        (start_y, end_y)
    }

    /// Where the pixel in column `i` of row `j` stands in the framebuffer,
    /// which holds the image row by row.
    pub fn pixel_index(&self, i: u32, j: u32) -> (index: usize)
        requires
            i < self.width,
            j < self.height,
            self.width * self.height <= usize::MAX,
        ensures
            index == j * self.width + i,
            index < self.width * self.height,
    {
        proof {
            assert(j * self.width + i < self.width * self.height) by (nonlinear_arith)
                requires
                    i < self.width,
                    j < self.height,
            ;
        }
        j as usize * self.width as usize + i as usize
    }

    /// The cell of the sample grid that sample number `sample` falls in: its
    /// column and its row. The samples of a pixel are numbered row by row.
    pub fn cell(&self, sample: u32) -> (at: (u32, u32))
        requires
            self.sqrt_spp > 0,
        ensures
            at.0 == sample % self.sqrt_spp,
            at.1 == sample / self.sqrt_spp,
            at.0 < self.sqrt_spp,
            sample < self.sqrt_spp * self.sqrt_spp ==> at.1 < self.sqrt_spp,
            sample == at.1 * self.sqrt_spp + at.0,
    {
        proof {
            let k = self.sqrt_spp as int;
            let s = sample as int;
            assert(s == (s / k) * k + s % k && 0 <= s % k < k) by (nonlinear_arith)
                requires
                    k > 0,
                    s >= 0,
            ;
            if s < k * k {
                assert(s / k < k) by (nonlinear_arith)
                    requires
                        k > 0,
                        0 <= s < k * k,
                        s == (s / k) * k + s % k,
                        0 <= s % k,
                ;
            }
        }
        (sample % self.sqrt_spp, sample / self.sqrt_spp)
    }
}

/// `color` is a colour that the pixel in column `i` of row `j` may get: what
/// `average` makes of the colours that `sample` gives for the cells of the
/// sample grid, taken row by row.
pub open spec fn rendered<S, A>(i: u32, j: u32, side: u32, color: Color, sample: &S, average: &A)
    -> bool where S: Fn(u32, u32, u32, u32) -> Color, A: Fn(&Vec<Color>) -> Color {
    exists|colors: Vec<Color>| #[trigger]
        average.ensures((&colors,), color) && sampled_all(i, j, side, colors@, sample)
}

/// `colors` holds one colour that `sample` may give for each cell of the
/// sample grid of the pixel in column `i` of row `j`, the cells taken row by
/// row.
pub open spec fn sampled_all<S: Fn(u32, u32, u32, u32) -> Color>(
    i: u32,
    j: u32,
    side: u32,
    colors: Seq<Color>,
    sample: &S,
) -> bool {
    &&& colors.len() == side * side
    &&& forall|n: int|
        0 <= n < colors.len() ==> sample.ensures(
            (i, j, (n % (side as int)) as u32, (n / (side as int)) as u32),
            #[trigger] colors[n],
        )
}

impl Camera {
    /// Renders the rows from `start_y` up to `end_y`: the pixels of these
    /// rows, row by row. `sample` gives the colour of one sample of a pixel,
    /// named by the column and the row of the pixel and of the cell of the
    /// sample grid; `average` turns the colours of a pixel's samples into the
    /// colour of the pixel.
    pub fn render_block<S, A>(&self, start_y: u32, end_y: u32, sample: &S, average: &A) -> (rows:
        Vec<Color>) where S: Fn(u32, u32, u32, u32) -> Color, A: Fn(&Vec<Color>) -> Color
        requires
            start_y <= end_y,
            (end_y - start_y) * self.width <= usize::MAX,
            self.sqrt_spp * self.sqrt_spp <= u32::MAX,
            forall|i: u32, j: u32, si: u32, sj: u32| #[trigger] sample.requires((i, j, si, sj)),
            forall|colors: Vec<Color>| #[trigger] average.requires((&colors,)),
        ensures
            rows@.len() == (end_y - start_y) * self.width,
            forall|p: int|
                0 <= p < rows@.len() ==> rendered(
                    (p % (self.width as int)) as u32,
                    (start_y + p / (self.width as int)) as u32,
                    self.sqrt_spp,
                    #[trigger] rows@[p],
                    sample,
                    average,
                ),
    {
        let width = self.width as usize;
        let side = self.sqrt_spp;
        let total: usize = (end_y - start_y) as usize * width;
        let mut rows: Vec<Color> = Vec::new();
        let mut p: usize = 0;
        while p < total
            invariant
                p <= total,
                total == (end_y - start_y) * self.width,
                width == self.width,
                side == self.sqrt_spp,
                side * side <= u32::MAX,
                start_y <= end_y,
                rows@.len() == p,
                forall|i: u32, j: u32, si: u32, sj: u32| #[trigger] sample.requires((i, j, si, sj)),
                forall|colors: Vec<Color>| #[trigger] average.requires((&colors,)),
                forall|q: int|
                    0 <= q < p ==> rendered(
                        (q % (self.width as int)) as u32,
                        (start_y + q / (self.width as int)) as u32,
                        self.sqrt_spp,
                        #[trigger] rows@[q],
                        sample,
                        average,
                    ),
            decreases total - p,
        {
            proof {
                lemma_pixel_place(p as int, width as int, (end_y - start_y) as int);
            }
            let i: u32 = (p % width) as u32;
            let j: u32 = start_y + (p / width) as u32;
            let mut colors: Vec<Color> = Vec::new();
            let count: u32 = side * side;
            let mut n: u32 = 0;
            while n < count
                invariant
                    n <= count,
                    count == side * side,
                    colors@.len() == n,
                    forall|i: u32, j: u32, si: u32, sj: u32| #[trigger]
                        sample.requires((i, j, si, sj)),
                    forall|m: int|
                        0 <= m < n ==> sample.ensures(
                            (i, j, (m % (side as int)) as u32, (m / (side as int)) as u32),
                            #[trigger] colors@[m],
                        ),
                decreases count - n,
            {
                assert(side > 0) by (nonlinear_arith)
                    requires
                        n < side * side,
                ;
                let color = sample(i, j, n % side, n / side);
                colors.push(color);
                n += 1;
            }
            let pixel = average(&colors);
            assert(sampled_all(i, j, side, colors@, sample));
            assert(rendered(i, j, side, pixel, sample, average));
            rows.push(pixel);
            p += 1;
        }
        rows
    }

    /// Puts the rows that a worker rendered from row `start_y` on into the
    /// framebuffer and leaves every other pixel as it is.
    pub fn place_band(&self, frame: &mut Vec<Color>, start_y: u32, rows: &Vec<Color>)
        requires
            start_y * self.width + rows.len() <= old(frame).len(),
        ensures
            final(frame)@.len() == old(frame)@.len(),
            forall|p: int|
                0 <= p < rows@.len() ==> #[trigger] final(frame)@[start_y * self.width + p]
                    == rows@[p],
            forall|q: int|
                0 <= q < old(frame)@.len() && !(start_y * self.width <= q < start_y * self.width
                    + rows@.len()) ==> #[trigger] final(frame)@[q] == old(frame)@[q],
    {
        let ghost before = frame@;
        proof {
            assert(0 <= start_y * self.width) by (nonlinear_arith);
        }
        let first: usize = start_y as usize * self.width as usize;
        let mut p: usize = 0;
        while p < rows.len()
            invariant
                p <= rows.len(),
                first == start_y * self.width,
                first + rows.len() <= frame.len(),
                frame@.len() == before.len(),
                forall|k: int| 0 <= k < p ==> #[trigger] frame@[first + k] == rows@[k],
                forall|q: int|
                    0 <= q < before.len() && !(first <= q < first + rows@.len())
                        ==> #[trigger] frame@[q] == before[q],
            decreases rows.len() - p,
        {
            frame.set(first + p, rows[p]);
            p += 1;
        }
    }
}

/// Pixel number `p` of a band of `rows` rows stands in a column and a row of the
/// band.
proof fn lemma_pixel_place(p: int, width: int, rows: int)
    requires
        0 <= p < rows * width,
        0 <= width,
        0 <= rows,
    ensures
        width > 0,
        0 <= p % width < width,
        0 <= p / width < rows,
{
    assert(width > 0) by (nonlinear_arith)
        requires
            0 <= p < rows * width,
            0 <= width,
    ;
    assert(0 <= p / width < rows) by (nonlinear_arith)
        requires
            0 <= p < rows * width,
            width > 0,
    ;
}

/// The offset of a sample from the centre of its pixel, kept within the pixel:
/// each of the two measured offsets is clamped to half a pixel either way.
pub fn sample_square_stratified(px: i64, py: i64) -> (offset: Vec3)
    ensures
        offset.e[0] == pixel_spec().clamp_spec(px),
        offset.e[1] == pixel_spec().clamp_spec(py),
        offset.e[2] == 0,
        pixel_spec().contains_spec(offset.e[0]),
        pixel_spec().contains_spec(offset.e[1]),
{
    let pixel = Interval { min: NEG_HALF, max: HALF };
    Vec3 { e: [pixel.clamp(px), pixel.clamp(py), 0] }
}

proof fn lemma_band_fits(height: u32, num_threads: u32, index: u32)
    requires
        index < num_threads,
    ensures
        0 <= index * (height as int / num_threads as int) <= (index + 1) * (height as int
            / num_threads as int) <= height,
{
    let block = height as int / num_threads as int;
    let n = num_threads as int;
    let i = index as int;
    assert(block * n <= height && block >= 0) by (nonlinear_arith)
        requires
            block == height as int / n,
            n > 0,
            height >= 0,
    ;
    assert(0 <= i * block <= (i + 1) * block <= n * block) by (nonlinear_arith)
        requires
            0 <= i < n,
            block >= 0,
    ;
}

/// The bands tile the image: the first starts at row 0, each band starts where
/// the one before it ends, and the last ends with the image.
pub proof fn lemma_bands_tile(height: u32, num_threads: u32, index: u32)
    requires
        index < num_threads,
    ensures
        band_spec(height, num_threads, 0).0 == 0,
        band_spec(height, num_threads, (num_threads - 1) as u32).1 == height,
        0 <= band_spec(height, num_threads, index).0 <= band_spec(height, num_threads, index).1
            <= height,
        index + 1 < num_threads ==> band_spec(height, num_threads, index).1 == band_spec(
            height,
            num_threads,
            (index + 1) as u32,
        ).0,
{
    lemma_band_fits(height, num_threads, index);
}

/// Every cell of the sample grid is the cell of exactly one sample number
/// below the square of the grid's side.
pub proof fn lemma_cells_cover(sqrt_spp: u32, si: u32, sj: u32)
    requires
        si < sqrt_spp,
        sj < sqrt_spp,
    ensures
        0 <= sj * sqrt_spp + si < sqrt_spp * sqrt_spp,
        (sj * sqrt_spp + si) % (sqrt_spp as int) == si,
        (sj * sqrt_spp + si) / (sqrt_spp as int) == sj,
{
    let k = sqrt_spp as int;
    let (a, b) = (si as int, sj as int);
    assert(0 <= b * k + a < k * k) by (nonlinear_arith)
        requires
            0 <= a < k,
            0 <= b < k,
    ;
    vstd::arithmetic::div_mod::lemma_fundamental_div_mod_converse(b * k + a, k, b, a);
}

/// The arithmetic that shading leaves to its caller.
pub struct Shader<X, Y, Z, V, W> {
    /// The value, at a hit, of the texture of the material there.
    pub texture: X,
    /// What is measured at a hit for the material there to scatter the ray.
    pub measure: Y,
    /// The cosine between the normal at a hit and a direction, and that cosine
    /// divided by pi.
    pub cosines: Z,
    /// The light of a mirror or a glass: what it emits plus what comes in,
    /// attenuated.
    pub specular: V,
    /// The light of a sampled surface: what it emits plus what comes in,
    /// attenuated and weighted by the density of the surface over the density
    /// of the sample.
    pub sampled: W,
}

/// The shader can be asked anything.
pub open spec fn shader_ready<X, Y, Z, V, W>(shader: &Shader<X, Y, Z, V, W>) -> bool where
    X: Fn(&HitRecord) -> Color,
    Y: Fn(&Ray, &HitRecord) -> Scattering,
    Z: Fn(&HitRecord, &Vec3) -> (i64, i64),
    V: Fn(&Color, &Color, &Color) -> Color,
    W: Fn(&Color, &Color, &Color, i64, i64) -> Color,
 {
    &&& forall|rec: HitRecord| #[trigger] shader.texture.requires((&rec,))
    &&& forall|r: Ray, rec: HitRecord| #[trigger] shader.measure.requires((&r, &rec))
    &&& forall|rec: HitRecord, direction: Vec3| #[trigger]
        shader.cosines.requires((&rec, &direction))
    &&& forall|emission: Color, incoming: Color, attenuation: Color| #[trigger]
        shader.specular.requires((&emission, &incoming, &attenuation))
    &&& forall|emission: Color, incoming: Color, attenuation: Color, surface: i64, sample: i64|
     #[trigger]
        shader.sampled.requires((&emission, &incoming, &attenuation, surface, sample))
}

/// A density by which a sample can be weighted: a positive number.
pub open spec fn usable(pdf_val: i64) -> bool {
    0 < pdf_val <= INFINITY
}

/// The strategy by which the direction of a sampled bounce is drawn: towards
/// the lights or as the surface scatters, with equal chance.
pub open spec fn mixed_spec<'a>(lights: &'a HitObject, ori: Point3, surface: Pdf<'a>) -> Pdf<'a> {
    Pdf::Mixturepdf {
        first: Box::new(Pdf::Hittablepdf { objects: lights, ori }),
        second: Box::new(surface),
    }
}

impl Camera {
    /// `color` is a colour that `ray_color` may return for the ray `r` with
    /// `depth` bounces left: black when no bounce is left, else what follows
    /// from some hit that the search for a hit may return.
    pub open spec fn may_color<B, P, S, I, O, N, F, C, D, M, U, G, T, X, Y, Z, V, W>(
        self,
        r: Ray,
        depth: int,
        world: HitObject,
        lights: HitObject,
        color: Color,
        kernel: &Kernel<B, P, S, I, O, N, F>,
        sampler: &Sampler<C, D, M, U, G, T>,
        shader: &Shader<X, Y, Z, V, W>,
    ) -> bool where
        B: Fn(&Ray, &Aabb) -> [(i64, i64); 3],
        P: Fn(&Ray, &HitObject) -> Probe,
        S: Fn(&Ray, &HitObject, i64) -> Surface,
        I: Fn(&Ray, &HitObject) -> Ray,
        O: Fn(&HitObject, &HitRecord) -> HitRecord,
        N: Fn(i64) -> i64,
        F: Fn(&Ray, &HitObject, i64, i64) -> Flight,
        C: Fn(&Onb, &Vec3) -> i64,
        D: Fn(&HitObject, &Point3, &Vec3, &HitRecord) -> i64,
        M: Fn(&Vec<i64>) -> i64,
        U: Fn() -> Vec3,
        G: Fn(&Onb) -> Vec3,
        T: Fn(&HitObject, &Point3) -> Vec3,
        X: Fn(&HitRecord) -> Color,
        Y: Fn(&Ray, &HitRecord) -> Scattering,
        Z: Fn(&HitRecord, &Vec3) -> (i64, i64),
        V: Fn(&Color, &Color, &Color) -> Color,
        W: Fn(&Color, &Color, &Color, i64, i64) -> Color,

        decreases depth, 4nat,
    {
        if depth <= 0 {
            color.is_zero()
        } else {
            exists|found: Option<HitRecord>|
                #[trigger] hit_post(world, r, sight_spec(), kernel, found) && self.after_hit(
                    found,
                    r,
                    depth,
                    world,
                    lights,
                    color,
                    kernel,
                    sampler,
                    shader,
                )
        }
    }

    /// What the colour is once the search for a hit has returned: the
    /// background where nothing is hit, else what follows from the light that
    /// the surface emits and from how it scatters the ray.
    pub open spec fn after_hit<B, P, S, I, O, N, F, C, D, M, U, G, T, X, Y, Z, V, W>(
        self,
        found: Option<HitRecord>,
        r: Ray,
        depth: int,
        world: HitObject,
        lights: HitObject,
        color: Color,
        kernel: &Kernel<B, P, S, I, O, N, F>,
        sampler: &Sampler<C, D, M, U, G, T>,
        shader: &Shader<X, Y, Z, V, W>,
    ) -> bool where
        B: Fn(&Ray, &Aabb) -> [(i64, i64); 3],
        P: Fn(&Ray, &HitObject) -> Probe,
        S: Fn(&Ray, &HitObject, i64) -> Surface,
        I: Fn(&Ray, &HitObject) -> Ray,
        O: Fn(&HitObject, &HitRecord) -> HitRecord,
        N: Fn(i64) -> i64,
        F: Fn(&Ray, &HitObject, i64, i64) -> Flight,
        C: Fn(&Onb, &Vec3) -> i64,
        D: Fn(&HitObject, &Point3, &Vec3, &HitRecord) -> i64,
        M: Fn(&Vec<i64>) -> i64,
        U: Fn() -> Vec3,
        G: Fn(&Onb) -> Vec3,
        T: Fn(&HitObject, &Point3) -> Vec3,
        X: Fn(&HitRecord) -> Color,
        Y: Fn(&Ray, &HitRecord) -> Scattering,
        Z: Fn(&HitRecord, &Vec3) -> (i64, i64),
        V: Fn(&Color, &Color, &Color) -> Color,
        W: Fn(&Color, &Color, &Color, i64, i64) -> Color,

        decreases depth, 3nat,
    {
        match found {
            None => color == self.background,
            Some(rec) => depth > 0 && exists|
                texture: Color,
                measured: Scattering,
                scattered: Option<ScatterRecord>,
            |
                #![trigger shader.texture.ensures((&rec,), texture), rec.mat.scatter_spec(r, rec, measured, scattered)]
                shader.texture.ensures((&rec,), texture) && shader.measure.ensures(
                    (&r, &rec),
                    measured,
                ) && rec.mat.scatter_spec(r, rec, measured, scattered) && self.after_scatter(
                    rec,
                    rec.mat.emitted_spec(rec.front_face, texture),
                    scattered,
                    r,
                    depth,
                    world,
                    lights,
                    color,
                    kernel,
                    sampler,
                    shader,
                ),
        }
    }

    /// What the colour is once the material has scattered the ray or absorbed
    /// it. An absorbed ray brings back what the surface emits. A mirror or a
    /// glass adds what its one outgoing ray brings back. A sampled surface
    /// draws a direction from the mixture of strategies; if that direction has
    /// a usable density under the mixture, the surface adds what the ray in
    /// that direction brings back, and otherwise it brings back what it emits.
    pub open spec fn after_scatter<B, P, S, I, O, N, F, C, D, M, U, G, T, X, Y, Z, V, W>(
        self,
        rec: HitRecord,
        emission: Color,
        scattered: Option<ScatterRecord>,
        r: Ray,
        depth: int,
        world: HitObject,
        lights: HitObject,
        color: Color,
        kernel: &Kernel<B, P, S, I, O, N, F>,
        sampler: &Sampler<C, D, M, U, G, T>,
        shader: &Shader<X, Y, Z, V, W>,
    ) -> bool where
        B: Fn(&Ray, &Aabb) -> [(i64, i64); 3],
        P: Fn(&Ray, &HitObject) -> Probe,
        S: Fn(&Ray, &HitObject, i64) -> Surface,
        I: Fn(&Ray, &HitObject) -> Ray,
        O: Fn(&HitObject, &HitRecord) -> HitRecord,
        N: Fn(i64) -> i64,
        F: Fn(&Ray, &HitObject, i64, i64) -> Flight,
        C: Fn(&Onb, &Vec3) -> i64,
        D: Fn(&HitObject, &Point3, &Vec3, &HitRecord) -> i64,
        M: Fn(&Vec<i64>) -> i64,
        U: Fn() -> Vec3,
        G: Fn(&Onb) -> Vec3,
        T: Fn(&HitObject, &Point3) -> Vec3,
        X: Fn(&HitRecord) -> Color,
        Y: Fn(&Ray, &HitRecord) -> Scattering,
        Z: Fn(&HitRecord, &Vec3) -> (i64, i64),
        V: Fn(&Color, &Color, &Color) -> Color,
        W: Fn(&Color, &Color, &Color, i64, i64) -> Color,

        decreases depth, 2nat,
    {
        match scattered {
            None => color == emission,
            Some(srec) => depth > 0 && if srec.skip_pdf {
                self.after_mirror(
                    emission,
                    srec.attenuation,
                    srec.skip_pdf_ray,
                    depth,
                    world,
                    lights,
                    color,
                    kernel,
                    sampler,
                    shader,
                )
            } else {
                self.after_draw(
                    rec,
                    emission,
                    srec.attenuation,
                    *srec.pdf_ptr,
                    r,
                    depth,
                    world,
                    lights,
                    color,
                    kernel,
                    sampler,
                    shader,
                )
            },
        }
    }

    /// What the colour is behind a mirror or a glass: what the surface emits
    /// plus what the one outgoing ray brings back, attenuated.
    pub open spec fn after_mirror<B, P, S, I, O, N, F, C, D, M, U, G, T, X, Y, Z, V, W>(
        self,
        emission: Color,
        attenuation: Color,
        onward: Ray,
        depth: int,
        world: HitObject,
        lights: HitObject,
        color: Color,
        kernel: &Kernel<B, P, S, I, O, N, F>,
        sampler: &Sampler<C, D, M, U, G, T>,
        shader: &Shader<X, Y, Z, V, W>,
    ) -> bool where
        B: Fn(&Ray, &Aabb) -> [(i64, i64); 3],
        P: Fn(&Ray, &HitObject) -> Probe,
        S: Fn(&Ray, &HitObject, i64) -> Surface,
        I: Fn(&Ray, &HitObject) -> Ray,
        O: Fn(&HitObject, &HitRecord) -> HitRecord,
        N: Fn(i64) -> i64,
        F: Fn(&Ray, &HitObject, i64, i64) -> Flight,
        C: Fn(&Onb, &Vec3) -> i64,
        D: Fn(&HitObject, &Point3, &Vec3, &HitRecord) -> i64,
        M: Fn(&Vec<i64>) -> i64,
        U: Fn() -> Vec3,
        G: Fn(&Onb) -> Vec3,
        T: Fn(&HitObject, &Point3) -> Vec3,
        X: Fn(&HitRecord) -> Color,
        Y: Fn(&Ray, &HitRecord) -> Scattering,
        Z: Fn(&HitRecord, &Vec3) -> (i64, i64),
        V: Fn(&Color, &Color, &Color) -> Color,
        W: Fn(&Color, &Color, &Color, i64, i64) -> Color,

        decreases depth, 0nat,
    {
        depth > 0 && exists|incoming: Color|
            #![trigger shader.specular.ensures((&emission, &incoming, &attenuation), color)]
            self.may_color(onward, depth - 1, world, lights, incoming, kernel, sampler, shader)
                && shader.specular.ensures((&emission, &incoming, &attenuation), color)
    }

    /// What the colour is on a sampled surface: a direction is drawn from the
    /// mixture of the lights and the surface's own strategy, the density of
    /// the mixture at that direction is taken, and the colour follows from
    /// the two.
    pub open spec fn after_draw<B, P, S, I, O, N, F, C, D, M, U, G, T, X, Y, Z, V, W>(
        self,
        rec: HitRecord,
        emission: Color,
        attenuation: Color,
        surface: Pdf,
        r: Ray,
        depth: int,
        world: HitObject,
        lights: HitObject,
        color: Color,
        kernel: &Kernel<B, P, S, I, O, N, F>,
        sampler: &Sampler<C, D, M, U, G, T>,
        shader: &Shader<X, Y, Z, V, W>,
    ) -> bool where
        B: Fn(&Ray, &Aabb) -> [(i64, i64); 3],
        P: Fn(&Ray, &HitObject) -> Probe,
        S: Fn(&Ray, &HitObject, i64) -> Surface,
        I: Fn(&Ray, &HitObject) -> Ray,
        O: Fn(&HitObject, &HitRecord) -> HitRecord,
        N: Fn(i64) -> i64,
        F: Fn(&Ray, &HitObject, i64, i64) -> Flight,
        C: Fn(&Onb, &Vec3) -> i64,
        D: Fn(&HitObject, &Point3, &Vec3, &HitRecord) -> i64,
        M: Fn(&Vec<i64>) -> i64,
        U: Fn() -> Vec3,
        G: Fn(&Onb) -> Vec3,
        T: Fn(&HitObject, &Point3) -> Vec3,
        X: Fn(&HitRecord) -> Color,
        Y: Fn(&Ray, &HitRecord) -> Scattering,
        Z: Fn(&HitRecord, &Vec3) -> (i64, i64),
        V: Fn(&Color, &Color, &Color) -> Color,
        W: Fn(&Color, &Color, &Color, i64, i64) -> Color,

        decreases depth, 1nat,
    {
        depth > 0 && exists|direction: Vec3, pdf_val: i64|
            #![trigger value_post(mixed_spec(&lights, rec.p, surface), direction, pdf_val, kernel, &sampler.cosine, &sampler.density, &sampler.blend)]
            mixed_spec(&lights, rec.p, surface).may_generate(
                direction,
                &sampler.sphere,
                &sampler.lobe,
                &sampler.toward,
            ) && value_post(
                mixed_spec(&lights, rec.p, surface),
                direction,
                pdf_val,
                kernel,
                &sampler.cosine,
                &sampler.density,
                &sampler.blend,
            ) && self.after_sample(
                rec,
                emission,
                attenuation,
                direction,
                pdf_val,
                r,
                depth,
                world,
                lights,
                color,
                kernel,
                sampler,
                shader,
            )
    }

    /// What the colour is once a direction was drawn with the density
    /// `pdf_val`: if the density is usable, what the surface emits plus what
    /// the ray in that direction brings back, weighted; otherwise what the
    /// surface emits.
    pub open spec fn after_sample<B, P, S, I, O, N, F, C, D, M, U, G, T, X, Y, Z, V, W>(
        self,
        rec: HitRecord,
        emission: Color,
        attenuation: Color,
        direction: Vec3,
        pdf_val: i64,
        r: Ray,
        depth: int,
        world: HitObject,
        lights: HitObject,
        color: Color,
        kernel: &Kernel<B, P, S, I, O, N, F>,
        sampler: &Sampler<C, D, M, U, G, T>,
        shader: &Shader<X, Y, Z, V, W>,
    ) -> bool where
        B: Fn(&Ray, &Aabb) -> [(i64, i64); 3],
        P: Fn(&Ray, &HitObject) -> Probe,
        S: Fn(&Ray, &HitObject, i64) -> Surface,
        I: Fn(&Ray, &HitObject) -> Ray,
        O: Fn(&HitObject, &HitRecord) -> HitRecord,
        N: Fn(i64) -> i64,
        F: Fn(&Ray, &HitObject, i64, i64) -> Flight,
        C: Fn(&Onb, &Vec3) -> i64,
        D: Fn(&HitObject, &Point3, &Vec3, &HitRecord) -> i64,
        M: Fn(&Vec<i64>) -> i64,
        U: Fn() -> Vec3,
        G: Fn(&Onb) -> Vec3,
        T: Fn(&HitObject, &Point3) -> Vec3,
        X: Fn(&HitRecord) -> Color,
        Y: Fn(&Ray, &HitRecord) -> Scattering,
        Z: Fn(&HitRecord, &Vec3) -> (i64, i64),
        V: Fn(&Color, &Color, &Color) -> Color,
        W: Fn(&Color, &Color, &Color, i64, i64) -> Color,

        decreases depth, 0nat,
    {
        if usable(pdf_val) {
            depth > 0 && exists|both: (i64, i64), incoming: Color|
                #![trigger shader.cosines.ensures((&rec, &direction), both), shader.sampled.ensures((&emission, &incoming, &attenuation, rec.mat.scattering_pdf_spec(both.0, both.1), pdf_val), color)]
                shader.cosines.ensures((&rec, &direction), both) && self.may_color(
                    Ray { dir: direction, ori: rec.p, tm: r.tm },
                    depth - 1,
                    world,
                    lights,
                    incoming,
                    kernel,
                    sampler,
                    shader,
                ) && shader.sampled.ensures(
                    (
                        &emission,
                        &incoming,
                        &attenuation,
                        rec.mat.scattering_pdf_spec(both.0, both.1),
                        pdf_val,
                    ),
                    color,
                )
        } else {
            color == emission
        }
    }

    /// The light that arrives along the ray `r` after at most `depth` bounces
    /// through `world`, sampled with a preference for `lights`. The kernel,
    /// the sampler and the shader measure; what is hit, what is emitted, how
    /// the ray is scattered and when the path ends is decided here.
    pub fn ray_color<B, P, S, I, O, N, F, C, D, M, U, G, T, X, Y, Z, V, W>(
        &self,
        r: &Ray,
        depth: i32,
        world: &HitObject,
        lights: &HitObject,
        kernel: &Kernel<B, P, S, I, O, N, F>,
        sampler: &Sampler<C, D, M, U, G, T>,
        shader: &Shader<X, Y, Z, V, W>,
    ) -> (color: Color) where
        B: Fn(&Ray, &Aabb) -> [(i64, i64); 3],
        P: Fn(&Ray, &HitObject) -> Probe,
        S: Fn(&Ray, &HitObject, i64) -> Surface,
        I: Fn(&Ray, &HitObject) -> Ray,
        O: Fn(&HitObject, &HitRecord) -> HitRecord,
        N: Fn(i64) -> i64,
        F: Fn(&Ray, &HitObject, i64, i64) -> Flight,
        C: Fn(&Onb, &Vec3) -> i64,
        D: Fn(&HitObject, &Point3, &Vec3, &HitRecord) -> i64,
        M: Fn(&Vec<i64>) -> i64,
        U: Fn() -> Vec3,
        G: Fn(&Onb) -> Vec3,
        T: Fn(&HitObject, &Point3) -> Vec3,
        X: Fn(&HitRecord) -> Color,
        Y: Fn(&Ray, &HitRecord) -> Scattering,
        Z: Fn(&HitRecord, &Vec3) -> (i64, i64),
        V: Fn(&Color, &Color, &Color) -> Color,
        W: Fn(&Color, &Color, &Color, i64, i64) -> Color,

        requires
            kernel_ready(kernel),
            sampler_ready(sampler),
            shader_ready(shader),
        ensures
            self.may_color(*r, depth as int, *world, *lights, color, kernel, sampler, shader),
        decreases depth,
    {
        if depth <= 0 {
            return Color::new();
        }
        let sight = Interval { min: NEAR, max: INF };
        let found = world.hit(r, &sight, kernel);
        assert(hit_post(*world, *r, sight_spec(), kernel, found));
        let rec = match found {
            Some(rec) => rec,
            None => {
                assert(self.after_hit(
                    found,
                    *r,
                    depth as int,
                    *world,
                    *lights,
                    self.background,
                    kernel,
                    sampler,
                    shader,
                ));
                return self.background;
            },
        };
        let texture = (shader.texture)(&rec);
        let color_from_emission = rec.mat.emitted(&rec, texture);
        let measured = (shader.measure)(r, &rec);
        let scattered = rec.mat.scatter(r, &rec, &measured);
        let ghost outcome = scattered;
        let srec = match scattered {
            Some(srec) => srec,
            None => {
                assert(self.after_scatter(
                    rec,
                    color_from_emission,
                    outcome,
                    *r,
                    depth as int,
                    *world,
                    *lights,
                    color_from_emission,
                    kernel,
                    sampler,
                    shader,
                ));
                assert(self.after_hit(
                    found,
                    *r,
                    depth as int,
                    *world,
                    *lights,
                    color_from_emission,
                    kernel,
                    sampler,
                    shader,
                ));
                return color_from_emission;
            },
        };
        if srec.skip_pdf {
            let incoming = self.ray_color(
                &srec.skip_pdf_ray,
                depth - 1,
                world,
                lights,
                kernel,
                sampler,
                shader,
            );
            let color = (shader.specular)(&color_from_emission, &incoming, &srec.attenuation);
            assert(self.after_mirror(
                color_from_emission,
                srec.attenuation,
                srec.skip_pdf_ray,
                depth as int,
                *world,
                *lights,
                color,
                kernel,
                sampler,
                shader,
            ));
            assert(self.after_scatter(
                rec,
                color_from_emission,
                outcome,
                *r,
                depth as int,
                *world,
                *lights,
                color,
                kernel,
                sampler,
                shader,
            ));
            assert(self.after_hit(
                found,
                *r,
                depth as int,
                *world,
                *lights,
                color,
                kernel,
                sampler,
                shader,
            ));
            return color;
        }
        let attenuation = srec.attenuation;
        let light_ptr = Pdf::Hittablepdf { objects: lights, ori: rec.p };
        let mixed_pdf = Pdf::Mixturepdf { first: Box::new(light_ptr), second: srec.pdf_ptr };
        assert(mixed_pdf == mixed_spec(lights, rec.p, *outcome->0.pdf_ptr));
        let direction = mixed_pdf.generate(&sampler.sphere, &sampler.lobe, &sampler.toward);
        let scattered_ray = Ray { dir: direction, ori: rec.p, tm: r.tm };
        let pdf_val = mixed_pdf.value(
            &direction,
            kernel,
            &sampler.cosine,
            &sampler.density,
            &sampler.blend,
        );
        assert(value_post(
            mixed_pdf,
            direction,
            pdf_val,
            kernel,
            &sampler.cosine,
            &sampler.density,
            &sampler.blend,
        ));
        let color = if 0 < pdf_val && pdf_val <= INFINITY {
            let both = (shader.cosines)(&rec, &direction);
            let scattering_pdf = rec.mat.scattering_pdf(both.0, both.1);
            let incoming = self.ray_color(
                &scattered_ray,
                depth - 1,
                world,
                lights,
                kernel,
                sampler,
                shader,
            );
            (shader.sampled)(&color_from_emission, &incoming, &attenuation, scattering_pdf, pdf_val)
        } else {
            color_from_emission
        };
        assert(self.after_sample(
            rec,
            color_from_emission,
            attenuation,
            direction,
            pdf_val,
            *r,
            depth as int,
            *world,
            *lights,
            color,
            kernel,
            sampler,
            shader,
        ));
        assert(self.after_draw(
            rec,
            color_from_emission,
            attenuation,
            *outcome->0.pdf_ptr,
            *r,
            depth as int,
            *world,
            *lights,
            color,
            kernel,
            sampler,
            shader,
        ));
        assert(self.after_scatter(
            rec,
            color_from_emission,
            outcome,
            *r,
            depth as int,
            *world,
            *lights,
            color,
            kernel,
            sampler,
            shader,
        ));
        assert(self.after_hit(
            found,
            *r,
            depth as int,
            *world,
            *lights,
            color,
            kernel,
            sampler,
            shader,
        ));
        color
    }
}

} // verus!
