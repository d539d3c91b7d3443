//! A software 3-D rendering pipeline, verified end to end.
//!
//! Meshes and transform matrices go in; colored, depth-correct pixels
//! come out of an in-memory framebuffer.  Every real-valued quantity
//! is a 16.16 fixed-point scalar (an `i64` carrying the value scaled
//! by 65536), so every stage -- the vector and matrix algebra, the
//! transform-and-project stage, the triangle rasterizer with its
//! depth test -- has an exact arithmetic meaning that its contract
//! states and Verus proves.
//!
//! The core stages are `vector`, `matrix`, `transforms`, `pipeline`,
//! `rasterizer` and `framebuffer`; `laws` collects the properties
//! proved about them.  Around the core sit the demonstration scene
//! (`sphere`, `mesh`, `celestial_body`, `solar_system`, `spaceship`),
//! the camera (`freecam`), and the effects (`skybox`, `warp`,
//! `collision`).

pub mod celestial_body;
pub mod collision;
pub mod fixed;
pub mod framebuffer;
pub mod freecam;
pub mod laws;
pub mod matrix;
pub mod mesh;
pub mod pipeline;
pub mod rasterizer;
pub mod skybox;
pub mod solar_system;
pub mod spaceship;
pub mod sphere;
pub mod transforms;
pub mod trig;
pub mod vector;
pub mod warp;

pub use framebuffer::{Framebuffer, color_from_rgb, lerp_color};
pub use vector::{Vec3, Vec4};
