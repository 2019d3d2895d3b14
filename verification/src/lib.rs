//! A verified core for a three-body gravity visualiser: fixed-point 3D vector
//! arithmetic, pairwise Newtonian gravitation with semi-implicit Euler
//! integration, and an orbit-camera controller (yaw/pitch rotation about a
//! target plus radial zoom).
//!
//! All quantities are signed 64-bit fixed-point numbers with [`fixed::SCALE`]
//! units to one world unit; the rendering front end converts to and from
//! floating point at its own boundary.

pub mod camera;
pub mod fixed;
pub mod orb;
pub mod sim;
pub mod store;
pub mod vec3_64;
