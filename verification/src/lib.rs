//! Decision core of a traffic simulation: cars on an unbounded plane that steer
//! towards waypoints under a bounded turning rate and a bounded speed.
//!
//! The verifier has no theory of floating point, so this crate never computes
//! with one. Every scalar is a [`single::Single`]: an IEEE-754 binary32 number
//! held by its bit pattern, which the crate orders, compares and selects but
//! never adds or multiplies. Arithmetic and trigonometry are the host's part: it
//! hands them in as function values, and the contracts here say what is handed
//! to those functions and what is done with every value they may return.

pub mod single;
pub mod color;
pub mod point;
pub mod waypoint;
pub mod limits;
pub mod car;
pub mod driver;
pub mod chance;
pub mod label;
pub mod scenario;
