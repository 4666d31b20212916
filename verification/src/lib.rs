//! The rules of a ray tracer for scenes of spheres, apart from its arithmetic.
//!
//! Rays are cast into a scene, met by the nearest surface, scattered by its
//! material and followed on, bounce by bounce, until they escape, are
//! absorbed, or have used up their depth. What is decided on that way is
//! decided here: whether a ray meets a sphere and at which of its two roots,
//! which thing of a scene is nearest, what a material does with a ray, where
//! a path ends and which lights are dimmed by which attenuations, how many
//! samples make a pixel, in which order the pixels come and which byte a
//! channel is written as.
//!
//! The arithmetic is the caller's, and is done in IEEE-754 doubles. Points,
//! directions, colours and rays pass through the library as values of the
//! caller's own types, and what has to be worked out on them is asked of the
//! caller: of the closures that a function takes, or of the implementors of
//! [`hittable::Hittable`] and [`material::Material`]. A number on which
//! something is decided enters as its rank (see [`rank`]): a signed integer
//! that orders as the doubles do, with zero for zero and the negated rank for
//! the negated number.
//!
//! - [`rank`]: the rank of a double, and what it says of the double's value.
//! - [`interval`]: windows of ranks.
//! - [`hittable`]: hit records, things that can be hit, and scenes of them.
//! - [`sphere`]: spheres, and the chord that a ray cuts through one.
//! - [`material`]: diffuse, metallic and glass surfaces.
//! - [`camera`]: the path of a ray, the light it brings, and the pixels of an
//!   image.
//! - [`color`]: the byte of a channel.
pub mod camera;
pub mod color;
pub mod hittable;
pub mod interval;
pub mod material;
pub mod rank;
pub mod sphere;
