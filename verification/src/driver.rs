//! The render driver: the checked configuration of a render, the seed each
//! sample's random source starts from, the colour sum of a pixel, and the
//! parallel sweep over the scanlines that assembles the image buffer.

use crate::hit::{Hit, Roots};
use crate::renderer::Renderer;
use rayon::iter::{IndexedParallelIterator, IntoParallelIterator, ParallelIterator};
use vstd::prelude::*;

verus! {

/// What a render is configured with.
#[derive(Clone, Copy, Debug, PartialEq, Eq, Structural)]
pub struct RenderConfig {
    /// Pixels per scanline.
    pub image_width: u32,
    /// Scanlines per image.
    pub image_height: u32,
    /// Camera rays drawn for each pixel.
    pub samples_per_pixel: u32,
    /// The depth budget of a light path.
    pub max_depth: i32,
    /// The seed from which the seed of every sample is derived.
    pub seed: u64,
}

/// Why a configuration cannot be rendered.
#[derive(Clone, Copy, Debug, PartialEq, Eq, Structural)]
pub enum ConfigError {
    /// The image has no columns.
    ZeroWidth,
    /// The image has no scanlines.
    ZeroHeight,
    /// No camera ray would be drawn for a pixel.
    ZeroSamples,
}

impl RenderConfig {
    /// The first fault of the configuration, if it has one. The fields are
    /// looked at in the order width, height, samples.
    pub open spec fn fault(self) -> Option<ConfigError> {
        if self.image_width == 0 {
            Some(ConfigError::ZeroWidth)
        } else if self.image_height == 0 {
            Some(ConfigError::ZeroHeight)
        } else if self.samples_per_pixel == 0 {
            Some(ConfigError::ZeroSamples)
        } else {
            None
        }
    }

    /// The image has at least one pixel and every pixel at least one sample.
    pub open spec fn valid(self) -> bool {
        self.image_width > 0 && self.image_height > 0 && self.samples_per_pixel > 0
    }

    /// Accepts the configuration, or names its first fault.
    pub fn validate(&self) -> (checked: Result<(), ConfigError>)
        ensures
            checked is Ok <==> self.valid(),
            checked == match self.fault() {
                Some(fault) => Err::<(), ConfigError>(fault),
                None => Ok(()),
            },
    {
        if self.image_width == 0 {
            Err(ConfigError::ZeroWidth)
        } else if self.image_height == 0 {
            Err(ConfigError::ZeroHeight)
        } else if self.samples_per_pixel == 0 {
            Err(ConfigError::ZeroSamples)
        } else {
            Ok(())
        }
    }

    /// The place of a sample among all the samples of a render: scanline
    /// after scanline from scanline 0, within a scanline pixel after pixel
    /// from the left, within a pixel sample after sample.
    pub open spec fn sample_index(self, column: u32, scanline: u32, sample: u32) -> int {
        (scanline * self.image_width + column) * self.samples_per_pixel + sample
    }

    /// The seed of the random source of one sample: the seed of the render
    /// moved on by the place of the sample, wrapping round at the end of
    /// `u64`.
    pub open spec fn spec_sample_seed(&self, column: u32, scanline: u32, sample: u32) -> u64 {
        ((self.seed + self.sample_index(column, scanline, sample)) % 0x1_0000_0000_0000_0000) as u64
    }

    /// Derives the seed of the random source of one sample.
    #[verifier::when_used_as_spec(spec_sample_seed)]
    pub fn sample_seed(&self, column: u32, scanline: u32, sample: u32) -> (seed: u64)
        ensures
            seed == self.sample_seed(column, scanline, sample),
    {
        assert(scanline * self.image_width <= 0xffff_ffff * 0xffff_ffff) by (nonlinear_arith)
            requires
                0 <= scanline <= 0xffff_ffff,
                0 <= self.image_width <= 0xffff_ffff,
        ;
        assert((scanline * self.image_width + column) * self.samples_per_pixel <= 0x1_0000_0000
            * 0xffff_ffff * 0xffff_ffff) by (nonlinear_arith)
            requires
                0 <= scanline * self.image_width + column <= 0x1_0000_0000 * 0xffff_ffff,
                0 <= self.samples_per_pixel <= 0xffff_ffff,
        ;
        let pixel: u128 = (scanline as u128) * (self.image_width as u128) + (column as u128);
        let index: u128 = pixel * (self.samples_per_pixel as u128) + (sample as u128);
        ((self.seed as u128 + index) % 0x1_0000_0000_0000_0000u128) as u64
    }
}

/// No two samples of a render start their random sources from the same
/// seed, as long as the render has no more samples than there are seeds.
pub proof fn law_samples_have_seeds_of_their_own(
    config: RenderConfig,
    column: u32,
    scanline: u32,
    sample: u32,
    other_column: u32,
    other_scanline: u32,
    other_sample: u32,
)
    requires
        config.image_width * config.image_height * config.samples_per_pixel
            <= 0x1_0000_0000_0000_0000,
        column < config.image_width,
        scanline < config.image_height,
        sample < config.samples_per_pixel,
        other_column < config.image_width,
        other_scanline < config.image_height,
        other_sample < config.samples_per_pixel,
        column != other_column || scanline != other_scanline || sample != other_sample,
    ensures
        config.sample_seed(column, scanline, sample) != config.sample_seed(
            other_column,
            other_scanline,
            other_sample,
        ),
{
    let width = config.image_width as int;
    let height = config.image_height as int;
    let samples = config.samples_per_pixel as int;
    let pixel = scanline * width + column;
    let other_pixel = other_scanline * width + other_column;
    assert(0 <= pixel < width * height && 0 <= other_pixel < width * height && (pixel
        == other_pixel ==> scanline == other_scanline && column == other_column))
        by (nonlinear_arith)
        requires
            pixel == scanline * width + column,
            other_pixel == other_scanline * width + other_column,
            0 <= column < width,
            0 <= other_column < width,
            0 <= scanline < height,
            0 <= other_scanline < height,
    ;
    let index = config.sample_index(column, scanline, sample);
    let other_index = config.sample_index(other_column, other_scanline, other_sample);
    assert(0 <= index < width * height * samples && 0 <= other_index < width * height * samples
        && (index == other_index ==> pixel == other_pixel && sample == other_sample))
        by (nonlinear_arith)
        requires
            index == pixel * samples + sample,
            other_index == other_pixel * samples + other_sample,
            0 <= pixel < width * height,
            0 <= other_pixel < width * height,
            0 <= sample < samples,
            0 <= other_sample < samples,
    ;
}

/// `rows` is what a sweep over an image of `image_width` columns and
/// `image_height` scanlines assembles: one row for each scanline, the
/// highest scanline first, so that row 0 is the top of the image, and in
/// each row one value of the pixel function for each column, from the left.
pub open spec fn is_swept<T, Pixel: Fn(u32, u32) -> T>(
    image_width: u32,
    image_height: u32,
    pixel: Pixel,
    rows: Seq<Vec<T>>,
) -> bool {
    &&& rows.len() == image_height
    &&& forall|r: int| 0 <= r < rows.len() ==> (#[trigger] rows[r]).len() == image_width
    &&& forall|r: int, c: int|
        0 <= r < rows.len() && 0 <= c < image_width ==> call_ensures(
            pixel,
            (c as u32, (image_height - 1 - r) as u32),
            #[trigger] rows[r]@[c],
        )
}

/// `row` holds the values of the pixel function on one scanline.
spec fn is_scanline<T, Pixel: Fn(u32, u32) -> T>(
    image_width: u32,
    pixel: Pixel,
    scanline: u32,
    row: Seq<T>,
) -> bool {
    &&& row.len() == image_width
    &&& forall|c: int|
        0 <= c < row.len() ==> call_ensures(pixel, (c as u32, scanline), #[trigger] row[c])
}

/// Evaluates the pixel function along one scanline, from the left.
fn sweep_scanline<T, Pixel: Fn(u32, u32) -> T>(
    image_width: u32,
    pixel: &Pixel,
    scanline: u32,
) -> (row: Vec<T>)
    requires
        forall|column: u32| column < image_width ==> call_requires(*pixel, (column, scanline)),
    ensures
        is_scanline(image_width, *pixel, scanline, row@),
{
    let mut row: Vec<T> = Vec::new();
    let mut column: u32 = 0;
    while column < image_width
        invariant
            column <= image_width,
            forall|column: u32| column < image_width ==> call_requires(*pixel, (column, scanline)),
            is_scanline(column, *pixel, scanline, row@),
        decreases image_width - column,
    {
        let value = pixel(column, scanline);
        row.push(value);
        column = column + 1;
    }
    row
}

/// Runs `row` on the scanlines `image_height - 1` down to `0` on rayon's
/// thread pool: `into_par_iter` on a range of `u32`, then `rev`, `map` and
/// `collect` of rayon's parallel iterators. The contract claims what rayon
/// documents of an indexed parallel iterator collected into a `Vec`: there
/// is one result for each item, and the results stand in the order of the
/// iterator, whichever task finished first.
#[verifier::external_body]
fn par_sweep<Row: Send, Scan: Fn(u32) -> Row + Sync + Send>(image_height: u32, row: Scan) -> (rows:
    Vec<Row>)
    requires
        forall|scanline: u32| scanline < image_height ==> call_requires(row, (scanline,)),
    ensures
        rows.len() == image_height,
        forall|r: int|
            0 <= r < rows.len() ==> call_ensures(
                row,
                ((image_height - 1 - r) as u32,),
                #[trigger] rows[r],
            ),
{
    (0..image_height).into_par_iter().rev().map(row).collect()
}

/// Sweeps the image: the pixel function is called once on every pixel, the
/// scanlines in parallel, and the rows are assembled top row first.
pub fn sweep<T: Send, Pixel: Fn(u32, u32) -> T + Sync>(
    image_width: u32,
    image_height: u32,
    pixel: Pixel,
) -> (rows: Vec<Vec<T>>)
    requires
        forall|column: u32, scanline: u32|
            column < image_width && scanline < image_height ==> call_requires(
                pixel,
                (column, scanline),
            ),
    ensures
        is_swept(image_width, image_height, pixel, rows@),
{
    let shared = &pixel;
    let row = |scanline: u32| -> (r: Vec<T>)
        requires
            scanline < image_height,
        ensures
            is_scanline(image_width, *shared, scanline, r@),
        { sweep_scanline(image_width, shared, scanline) };
    let rows = par_sweep(image_height, row);
    rows
}

impl<
    R,
    C: Copy,
    GetRay: Fn(u32, u32, u64) -> R,
    Crossings: Fn(&R) -> Vec<Option<Roots>>,
    Scatter: Fn(R, Hit) -> Option<(R, C)>,
    Background: Fn(R) -> C,
    Tint: Fn(C, C) -> C,
    Plus: Fn(C, C) -> C,
> Renderer<C, GetRay, Crossings, Scatter, Background, Tint, Plus> {
    /// `color` is a radiance of sample `sample` of a pixel: of the path
    /// that starts with the camera ray shot for the sample from the
    /// sample's seed, with the depth budget of the configuration.
    pub open spec fn is_sample(
        &self,
        config: RenderConfig,
        column: u32,
        scanline: u32,
        sample: u32,
        color: C,
    ) -> bool {
        exists|ray: R| #[trigger]
            call_ensures(
                self.get_ray,
                (column, scanline, config.sample_seed(column, scanline, sample)),
                ray,
            ) && self.is_radiance(None, ray, config.max_depth as int, color)
    }

    /// `sum` is the sum of the first `count` samples of a pixel, added up
    /// in order onto black.
    pub open spec fn is_pixel_sum(
        &self,
        config: RenderConfig,
        column: u32,
        scanline: u32,
        count: int,
        sum: C,
    ) -> bool
        decreases count,
    {
        if count <= 0 {
            sum == self.black
        } else {
            exists|before: C, color: C| #[trigger]
                call_ensures(self.plus, (before, color), sum) && self.is_sample(
                    config,
                    column,
                    scanline,
                    (count - 1) as u32,
                    color,
                ) && self.is_pixel_sum(config, column, scanline, count - 1, before)
        }
    }

    /// The colour sum of one pixel: for each sample a camera ray is shot
    /// from the sample's seed and followed, and the radiances are added up.
    pub fn pixel_color(&self, config: &RenderConfig, column: u32, scanline: u32) -> (sum: C)
        requires
            self.callable(),
        ensures
            self.is_pixel_sum(*config, column, scanline, config.samples_per_pixel as int, sum),
    {
        let mut sum = self.black;
        let mut sample: u32 = 0;
        while sample < config.samples_per_pixel
            invariant
                sample <= config.samples_per_pixel,
                self.callable(),
                self.is_pixel_sum(*config, column, scanline, sample as int, sum),
            decreases config.samples_per_pixel - sample,
        {
            let seed = config.sample_seed(column, scanline, sample);
            let ray = (self.get_ray)(column, scanline, seed);
            let color = self.ray_color(ray, config.max_depth);
            sum = (self.plus)(sum, color);
            sample = sample + 1;
        }
        sum
    }

    /// `rows` is the image buffer of a render of the configuration: a row
    /// for each scanline, the highest scanline first, so that row 0 is the
    /// top of the image, and for each pixel the sum of its samples.
    pub open spec fn is_rendering(&self, config: RenderConfig, rows: Seq<Vec<C>>) -> bool {
        &&& rows.len() == config.image_height
        &&& forall|r: int| 0 <= r < rows.len() ==> (#[trigger] rows[r]).len() == config.image_width
        &&& forall|r: int, c: int|
            0 <= r < rows.len() && 0 <= c < config.image_width ==> self.is_pixel_sum(
                config,
                c as u32,
                (config.image_height - 1 - r) as u32,
                config.samples_per_pixel as int,
                #[trigger] rows[r]@[c],
            )
    }

    /// Where the functions have one outcome each, a pixel has one sum.
    pub proof fn law_pixel_sum_is_unique(
        &self,
        config: RenderConfig,
        column: u32,
        scanline: u32,
        count: int,
        sum: C,
        other: C,
    )
        requires
            self.one_way(),
            self.is_pixel_sum(config, column, scanline, count, sum),
            self.is_pixel_sum(config, column, scanline, count, other),
        ensures
            sum == other,
        decreases count,
    {
        if count > 0 {
            let sample = (count - 1) as u32;
            let (before, color) = choose|before: C, color: C| #[trigger]
                call_ensures(self.plus, (before, color), sum) && self.is_sample(
                    config,
                    column,
                    scanline,
                    sample,
                    color,
                ) && self.is_pixel_sum(config, column, scanline, count - 1, before);
            let (other_before, other_color) = choose|before: C, color: C| #[trigger]
                call_ensures(self.plus, (before, color), other) && self.is_sample(
                    config,
                    column,
                    scanline,
                    sample,
                    color,
                ) && self.is_pixel_sum(config, column, scanline, count - 1, before);
            self.law_pixel_sum_is_unique(config, column, scanline, count - 1, before, other_before);
            let seed = config.sample_seed(column, scanline, sample);
            let ray = choose|ray: R| #[trigger]
                call_ensures(self.get_ray, (column, scanline, seed), ray) && self.is_radiance(
                    None,
                    ray,
                    config.max_depth as int,
                    color,
                );
            let other_ray = choose|ray: R| #[trigger]
                call_ensures(self.get_ray, (column, scanline, seed), ray) && self.is_radiance(
                    None,
                    ray,
                    config.max_depth as int,
                    other_color,
                );
            assert(ray == other_ray);
            self.law_radiance_is_unique(None, ray, config.max_depth as int, color, other_color);
        }
    }

    /// A render can be repeated exactly: where the functions have one
    /// outcome each, two image buffers rendered from one configuration hold
    /// the same colour sum at every pixel.
    pub proof fn law_rendering_repeats(
        &self,
        config: RenderConfig,
        first: Seq<Vec<C>>,
        second: Seq<Vec<C>>,
    )
        requires
            self.one_way(),
            self.is_rendering(config, first),
            self.is_rendering(config, second),
        ensures
            first.len() == second.len(),
            forall|r: int| 0 <= r < first.len() ==> (#[trigger] first[r])@ == second[r]@,
    {
        assert forall|r: int| 0 <= r < first.len() implies (#[trigger] first[r])@
            == second[r]@ by {
            let a = first[r]@;
            let b = second[r]@;
            assert(a.len() == b.len());
            assert forall|c: int| 0 <= c < a.len() implies a[c] == b[c] by {
                assert(a[c] == first[r]@[c]);
                assert(b[c] == second[r]@[c]);
                self.law_pixel_sum_is_unique(
                    config,
                    c as u32,
                    (config.image_height - 1 - r) as u32,
                    config.samples_per_pixel as int,
                    a[c],
                    b[c],
                );
            }
            assert(a =~= b);
        }
    }
}

impl<
    R,
    C: Copy + Send + Sync,
    GetRay: Fn(u32, u32, u64) -> R + Sync,
    Crossings: Fn(&R) -> Vec<Option<Roots>> + Sync,
    Scatter: Fn(R, Hit) -> Option<(R, C)> + Sync,
    Background: Fn(R) -> C + Sync,
    Tint: Fn(C, C) -> C + Sync,
    Plus: Fn(C, C) -> C + Sync,
> Renderer<C, GetRay, Crossings, Scatter, Background, Tint, Plus> {
    /// Renders the image buffer: the unaveraged colour sum of every pixel,
    /// the scanlines in parallel, the rows assembled top row first. A
    /// faulty configuration is refused before anything is rendered.
    pub fn render(&self, config: &RenderConfig) -> (image: Result<Vec<Vec<C>>, ConfigError>)
        requires
            self.callable(),
        ensures
            image is Ok <==> config.valid(),
            image is Ok ==> self.is_rendering(*config, image->Ok_0@),
            image is Err ==> config.fault() == Some(image->Err_0),
    {
        match config.validate() {
            Err(fault) => Err(fault),
            Ok(()) => {
                let pixel = |column: u32, scanline: u32| -> (sum: C)
                    ensures
                        self.is_pixel_sum(
                            *config,
                            column,
                            scanline,
                            config.samples_per_pixel as int,
                            sum,
                        ),
                    { self.pixel_color(config, column, scanline) };
                let rows = sweep(config.image_width, config.image_height, pixel);
                Ok(rows)
            },
        }
    }
}

} // verus!
