//! From a configuration to the text of the image: the image buffer is
//! rendered, every colour sum is turned into a pixel, and the pixels are
//! written out under their header.

use crate::driver::{ConfigError, RenderConfig};
use crate::hit::{Hit, Roots};
use crate::ppm::{has_shape, image_text, rows_text, write_header, write_rows, Rgb};
use crate::renderer::Renderer;
use vstd::prelude::*;

verus! {

/// `pixels` holds, place for place, the pixels that `quantize` makes of the
/// colour sums in `sums`, each sum taken together with the number of
/// samples that went into it.
pub open spec fn is_quantized<C, Quantize: Fn(C, u32) -> Rgb>(
    quantize: Quantize,
    samples_per_pixel: u32,
    sums: Seq<Vec<C>>,
    pixels: Seq<Vec<Rgb>>,
) -> bool {
    &&& pixels.len() == sums.len()
    &&& forall|r: int| 0 <= r < sums.len() ==> (#[trigger] pixels[r]).len() == sums[r].len()
    &&& forall|r: int, c: int|
        0 <= r < sums.len() && 0 <= c < sums[r].len() ==> call_ensures(
            quantize,
            (sums[r]@[c], samples_per_pixel),
            #[trigger] pixels[r]@[c],
        )
}

/// Turning a colour sum into a pixel has one outcome.
pub open spec fn quantizes_one_way<C, Quantize: Fn(C, u32) -> Rgb>(quantize: Quantize) -> bool {
    forall|sum: C, samples: u32, pixel: Rgb, other: Rgb|
        #![trigger
            call_ensures(quantize, (sum, samples), pixel),
            call_ensures(quantize, (sum, samples), other)
        ]
        call_ensures(quantize, (sum, samples), pixel) && call_ensures(
            quantize,
            (sum, samples),
            other,
        ) ==> pixel == other
}

/// Turns the colour sums of one row into pixels, from the left.
fn quantize_row<C: Copy, Quantize: Fn(C, u32) -> Rgb>(
    quantize: &Quantize,
    samples_per_pixel: u32,
    sums: &Vec<C>,
) -> (pixels: Vec<Rgb>)
    requires
        forall|sum: C, samples: u32| call_requires(*quantize, (sum, samples)),
    ensures
        pixels.len() == sums.len(),
        forall|c: int|
            0 <= c < sums.len() ==> call_ensures(
                *quantize,
                (sums@[c], samples_per_pixel),
                #[trigger] pixels@[c],
            ),
{
    let mut pixels: Vec<Rgb> = Vec::new();
    let mut column: usize = 0;
    while column < sums.len()
        invariant
            column <= sums.len(),
            pixels.len() == column,
            forall|sum: C, samples: u32| call_requires(*quantize, (sum, samples)),
            forall|c: int|
                0 <= c < column ==> call_ensures(
                    *quantize,
                    (sums@[c], samples_per_pixel),
                    #[trigger] pixels@[c],
                ),
        decreases sums.len() - column,
    {
        let pixel = quantize(sums[column], samples_per_pixel);
        pixels.push(pixel);
        column = column + 1;
    }
    pixels
}

/// Turns every colour sum of an image buffer into a pixel, row by row.
pub fn quantize_image<C: Copy, Quantize: Fn(C, u32) -> Rgb>(
    quantize: &Quantize,
    samples_per_pixel: u32,
    sums: &Vec<Vec<C>>,
) -> (pixels: Vec<Vec<Rgb>>)
    requires
        forall|sum: C, samples: u32| call_requires(*quantize, (sum, samples)),
    ensures
        is_quantized(*quantize, samples_per_pixel, sums@, pixels@),
{
    let mut pixels: Vec<Vec<Rgb>> = Vec::new();
    let mut row: usize = 0;
    while row < sums.len()
        invariant
            row <= sums.len(),
            forall|sum: C, samples: u32| call_requires(*quantize, (sum, samples)),
            is_quantized(*quantize, samples_per_pixel, sums@.take(row as int), pixels@),
        decreases sums.len() - row,
    {
        let quantized = quantize_row(quantize, samples_per_pixel, &sums[row]);
        pixels.push(quantized);
        row = row + 1;
    }
    assert(sums@.take(sums.len() as int) =~= sums@);
    pixels
}

/// Buffers that hold the same pixels are written as the same lines.
proof fn lemma_same_pixels_same_lines(first: Seq<Vec<Rgb>>, second: Seq<Vec<Rgb>>)
    requires
        first.len() == second.len(),
        forall|r: int| 0 <= r < first.len() ==> (#[trigger] first[r])@ == second[r]@,
    ensures
        rows_text(first) == rows_text(second),
    decreases first.len(),
{
    if first.len() > 0 {
        lemma_same_pixels_same_lines(first.drop_last(), second.drop_last());
        assert(first.last() == first[first.len() - 1]);
    }
}

impl<
    R,
    C: Copy,
    GetRay: Fn(u32, u32, u64) -> R,
    Crossings: Fn(&R) -> Vec<Option<Roots>>,
    Scatter: Fn(R, Hit) -> Option<(R, C)>,
    Background: Fn(R) -> C,
    Tint: Fn(C, C) -> C,
    Plus: Fn(C, C) -> C,
> Renderer<C, GetRay, Crossings, Scatter, Background, Tint, Plus> {
    /// `text` is the text of an image rendered from the configuration:
    /// there is an image buffer of the render whose colour sums, turned
    /// into pixels, are written out under the header of the configured
    /// width and height.
    pub open spec fn is_image<Quantize: Fn(C, u32) -> Rgb>(
        &self,
        config: RenderConfig,
        quantize: Quantize,
        text: Seq<u8>,
    ) -> bool {
        exists|sums: Seq<Vec<C>>, pixels: Seq<Vec<Rgb>>|
            #![trigger is_quantized(quantize, config.samples_per_pixel, sums, pixels)]
            {
                &&& self.is_rendering(config, sums)
                &&& is_quantized(quantize, config.samples_per_pixel, sums, pixels)
                &&& has_shape(pixels, config.image_width, config.image_height)
                &&& text == image_text(config.image_width, config.image_height, pixels)
            }
    }

    /// A render can be repeated to the letter: where the functions have one
    /// outcome each, a configuration has one image text.
    pub proof fn law_image_repeats<Quantize: Fn(C, u32) -> Rgb>(
        &self,
        config: RenderConfig,
        quantize: Quantize,
        text: Seq<u8>,
        other: Seq<u8>,
    )
        requires
            self.one_way(),
            quantizes_one_way(quantize),
            self.is_image(config, quantize, text),
            self.is_image(config, quantize, other),
        ensures
            text == other,
    {
        let (sums, pixels) = choose|sums: Seq<Vec<C>>, pixels: Seq<Vec<Rgb>>|
            #![trigger is_quantized(quantize, config.samples_per_pixel, sums, pixels)]
            {
                &&& self.is_rendering(config, sums)
                &&& is_quantized(quantize, config.samples_per_pixel, sums, pixels)
                &&& has_shape(pixels, config.image_width, config.image_height)
                &&& text == image_text(config.image_width, config.image_height, pixels)
            };
        let (other_sums, other_pixels) = choose|sums: Seq<Vec<C>>, pixels: Seq<Vec<Rgb>>|
            #![trigger is_quantized(quantize, config.samples_per_pixel, sums, pixels)]
            {
                &&& self.is_rendering(config, sums)
                &&& is_quantized(quantize, config.samples_per_pixel, sums, pixels)
                &&& has_shape(pixels, config.image_width, config.image_height)
                &&& other == image_text(config.image_width, config.image_height, pixels)
            };
        self.law_rendering_repeats(config, sums, other_sums);
        assert forall|r: int| 0 <= r < pixels.len() implies (#[trigger] pixels[r])@
            == other_pixels[r]@ by {
            let a = pixels[r]@;
            let b = other_pixels[r]@;
            assert(sums[r]@ == other_sums[r]@);
            assert forall|c: int| 0 <= c < a.len() implies a[c] == b[c] by {
                assert(call_ensures(
                    quantize,
                    (sums[r]@[c], config.samples_per_pixel),
                    pixels[r]@[c],
                ));
                assert(call_ensures(
                    quantize,
                    (other_sums[r]@[c], config.samples_per_pixel),
                    other_pixels[r]@[c],
                ));
            }
            assert(a =~= b);
        }
        lemma_same_pixels_same_lines(pixels, other_pixels);
    }
}

impl<
    R,
    C: Copy + Send + Sync,
    GetRay: Fn(u32, u32, u64) -> R + Sync,
    Crossings: Fn(&R) -> Vec<Option<Roots>> + Sync,
    Scatter: Fn(R, Hit) -> Option<(R, C)> + Sync,
    Background: Fn(R) -> C + Sync,
    Tint: Fn(C, C) -> C + Sync,
    Plus: Fn(C, C) -> C + Sync,
> Renderer<C, GetRay, Crossings, Scatter, Background, Tint, Plus> {
    /// Renders the image and writes it out as text. A faulty configuration
    /// is refused before anything is rendered.
    pub fn render_image<Quantize: Fn(C, u32) -> Rgb>(
        &self,
        config: &RenderConfig,
        quantize: &Quantize,
    ) -> (image: Result<Vec<u8>, ConfigError>)
        requires
            self.callable(),
            forall|sum: C, samples: u32| call_requires(*quantize, (sum, samples)),
        ensures
            image is Ok <==> config.valid(),
            image is Ok ==> self.is_image(*config, *quantize, image->Ok_0@),
            image is Err ==> config.fault() == Some(image->Err_0),
    {
        match self.render(config) {
            Err(fault) => Err(fault),
            Ok(sums) => {
                let pixels = quantize_image(quantize, config.samples_per_pixel, &sums);
                let mut text: Vec<u8> = Vec::new();
                write_header(&mut text, config.image_width, config.image_height);
                write_rows(&mut text, &pixels);
                proof {
                    assert(text@ =~= image_text(config.image_width, config.image_height, pixels@));
                    assert(is_quantized(*quantize, config.samples_per_pixel, sums@, pixels@));
                }
                Ok(text)
            },
        }
    }
}

} // verus!
