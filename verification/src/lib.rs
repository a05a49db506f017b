//! The verified core of an offline path tracer.
//!
//! A path tracer renders a scene of analytic surfaces through a virtual
//! camera: for every pixel it follows light paths chosen by chance and
//! averages what they carry. Its geometry and shading are arithmetic on
//! real numbers, which a renderer does in the precision it likes. This
//! library holds everything else, each function with a proved contract:
//!
//! - [`renderer`]: the arithmetic of a renderer, handed over as functions;
//! - [`key`]: integer keys for the parameters of a ray, ordered as the
//!   parameters are;
//! - [`hit`]: the nearest crossing of a ray with the surfaces of a world;
//! - [`integrator`]: one light path, followed until it ends or its depth
//!   budget is spent;
//! - [`driver`]: the configuration of a render, the seeds of its samples,
//!   the colour sum of a pixel and the parallel sweep over the image;
//! - [`ppm`]: the image as plain text;
//! - [`pipeline`]: all of it in a row, from a configuration to the text of
//!   the image;
//! - [`tally`]: totals over lists of counts.
//!
//! The arithmetic of the renderer comes in as functions: the camera ray of
//! a sample, the crossings of a ray, the scattering at a hit, the
//! background, the product and the sum of two colours, the pixel of a
//! colour sum. The contracts say what the library makes of whatever those
//! functions return, and the laws say what follows where each of them has
//! one outcome.

pub mod driver;
pub mod hit;
pub mod integrator;
pub mod key;
pub mod pipeline;
pub mod ppm;
pub mod renderer;
pub mod tally;
