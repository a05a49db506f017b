use ray_tracer::driver::{ConfigError, RenderConfig};
use ray_tracer::hit::{Hit, Roots};
use ray_tracer::pipeline::quantize_image;
use ray_tracer::ppm::Rgb;
use ray_tracer::renderer::Renderer;
use std::sync::atomic::{AtomicUsize, Ordering};

fn config(image_width: u32, image_height: u32, samples_per_pixel: u32) -> RenderConfig {
    RenderConfig { image_width, image_height, samples_per_pixel, max_depth: 50, seed: 0 }
}

type Camera = fn(u32, u32, u64) -> u32;
type Crossings = fn(&u32) -> Vec<Option<Roots>>;
type Scatter = fn(u32, Hit) -> Option<(u32, u32)>;
type Background = fn(u32) -> u32;
type Combine = fn(u32, u32) -> u32;

/// A renderer whose camera ray is the place of the pixel, in an empty
/// world: every ray misses and sees itself as background.
fn renderer() -> Renderer<u32, Camera, Crossings, Scatter, Background, Combine, Combine> {
    Renderer {
        black: 0,
        get_ray: |column, scanline, _seed| scanline * 10 + column,
        crossings: |_| Vec::new(),
        scatter: |_, _| None,
        background: |ray| ray,
        tint: |a, b| a * b,
        plus: |a, b| a + b,
    }
}

/// The mean of the samples in the red channel, their number in the green.
fn mean_and_count(sum: u32, samples: u32) -> Rgb {
    Rgb { r: (sum / samples) as u8, g: samples as u8, b: 0 }
}

#[test]
fn quantize_image_keeps_the_shape_and_the_order() {
    let sums = vec![vec![10, 20, 30], vec![], vec![40]];
    let pixels = quantize_image(&mean_and_count, 10, &sums);
    assert_eq!(
        pixels,
        vec![
            vec![
                Rgb { r: 1, g: 10, b: 0 },
                Rgb { r: 2, g: 10, b: 0 },
                Rgb { r: 3, g: 10, b: 0 }
            ],
            vec![],
            vec![Rgb { r: 4, g: 10, b: 0 }],
        ]
    );
}

#[test]
fn quantize_image_of_nothing_is_nothing() {
    let sums: Vec<Vec<u32>> = Vec::new();
    assert_eq!(quantize_image(&mean_and_count, 1, &sums), Vec::<Vec<Rgb>>::new());
}

#[test]
fn quantize_image_calls_the_function_once_for_each_sum() {
    let calls = AtomicUsize::new(0);
    let count = |sum: u32, samples: u32| {
        calls.fetch_add(1, Ordering::SeqCst);
        mean_and_count(sum, samples)
    };
    quantize_image(&count, 1, &vec![vec![1, 2], vec![3, 4], vec![5, 6]]);
    assert_eq!(calls.load(Ordering::SeqCst), 6);
}

#[test]
fn render_image_writes_header_and_pixels_top_row_first() {
    let text = renderer().render_image(&config(3, 2, 4), &mean_and_count);
    assert_eq!(
        text,
        Ok(b"P3\n3 2\n255\n10 4 0\n11 4 0\n12 4 0\n0 4 0\n1 4 0\n2 4 0\n".to_vec())
    );
}

#[test]
fn render_image_of_one_pixel() {
    let text = renderer().render_image(&config(1, 1, 1), &mean_and_count);
    assert_eq!(text, Ok(b"P3\n1 1\n255\n0 1 0\n".to_vec()));
}

#[test]
fn render_image_refuses_a_faulty_configuration() {
    let calls = AtomicUsize::new(0);
    let count = |sum: u32, samples: u32| {
        calls.fetch_add(1, Ordering::SeqCst);
        mean_and_count(sum, samples)
    };
    let r = renderer();
    assert_eq!(r.render_image(&config(0, 2, 4), &count), Err(ConfigError::ZeroWidth));
    assert_eq!(r.render_image(&config(3, 0, 4), &count), Err(ConfigError::ZeroHeight));
    assert_eq!(r.render_image(&config(3, 2, 0), &count), Err(ConfigError::ZeroSamples));
    assert_eq!(calls.load(Ordering::SeqCst), 0);
}
