//! The decisions of a path tracer, verified.
//!
//! A renderer spends its time on arithmetic, but what it draws is settled by
//! a handful of decisions: which of two numbers is smaller, which root of the
//! intersection equation counts as the hit, which object is nearest, how a
//! surface sends a ray on, when a path ends, and which byte a colour becomes.
//! This crate holds those decisions. Numbers are IEEE-754 binary64 values
//! carried as their bit patterns; the arithmetic between two decisions is the
//! caller's.

pub mod scalar;
pub mod vec3;
pub mod interval;
pub mod ray;
pub mod material;
pub mod hittable;
pub mod sampling;
pub mod camera;
pub mod color;
pub mod render;
pub mod scene;
