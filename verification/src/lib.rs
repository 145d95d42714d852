//! A small offline ray tracer: shapes, objects, lights and a scene that
//! resolves what a ray sees.
//!
//! Numbers are carried as IEEE 754 single-precision bit patterns. The crate
//! decides everything that is decided about them: how two numbers compare,
//! which candidate intersections a shape keeps, which object a ray meets first,
//! which lights reach a point, and when the sky is shown. The sums, products,
//! quotients and square roots that produce the numbers are computed by an
//! [`arithmetic::Arithmetic`] that the caller supplies.

pub mod scalar;
pub mod ray;
pub mod light;
pub mod tracable;
pub mod arithmetic;
pub mod nearest;
pub mod shapes;
pub mod objects;
pub mod scene;
pub mod laws;
