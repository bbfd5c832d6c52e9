//! Escape-time rendering of the Mandelbrot set.
//!
//! The complex plane is modelled in fixed-point arithmetic: a coordinate is
//! an `i64` holding the real value times `SCALE`. Every arithmetic step is
//! therefore exact integer arithmetic, and each component carries a contract
//! that pins its result down to the integer.
//!
//! - [`complex`] holds the fixed-point complex numbers and their arithmetic;
//! - [`plane`] maps a pixel of the image grid to the centre of its cell in a
//!   rectangular viewport of the plane;
//! - [`escape`] runs the bounded escape-time iteration `z <- z*z + c`;
//! - [`palette`] derives the square-root intensity ramp used for colouring;
//! - [`canvas`] is the framebuffer, with its text (PPM) serialisation;
//! - [`render`] drives the whole grid and writes diverging pixels.

pub mod canvas;
pub mod complex;
pub mod escape;
pub mod palette;
pub mod plane;
pub mod render;
