//! A Mandelbrot-set rendering engine.
//!
//! The engine maps every pixel of a viewport onto the complex plane, runs the
//! bounded quadratic recurrence `z <- z*z + c` to obtain an escape-iteration
//! count, colors that count with a fixed smooth polynomial, and assembles the
//! results of disjoint row ranges into a complete frame buffer.  Plane
//! coordinates, zoom factors and pan offsets are fixed-point integers
//! (multiples of `1 / fixed::SCALE`), so every arithmetic step of the engine
//! is exact and verified.

pub mod bitmap;
pub mod color;
pub mod escape;
pub mod fixed;
pub mod partition;
pub mod plane;
pub mod render;
pub mod viewport;
