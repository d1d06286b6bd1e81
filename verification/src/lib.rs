//! Joint-constraint layer of a rigid-body simulator: a damped elastic (spring)
//! joint with optional hard length limits, resolved into velocity impulses by a
//! sequential-impulse solver with warm starting.
//!
//! All quantities are fixed-point numbers (`fx::Fx`), so every step of the
//! impulse law is deterministic and bit-reproducible across runs and machines.

pub mod body;
pub mod codec;
pub mod fx;
pub mod registry;
pub mod solver;
pub mod spring;
pub mod vec3;

pub use body::BodyState;
pub use fx::Fx;
pub use registry::{JointEntry, JointSet};
pub use spring::SpringJoint;
pub use vec3::Vec3;
