//! Rigid walks: reaching an arbitrary heading and distance in the plane while
//! moving along two fixed directions only.
//!
//! A walk alternates short legs along a primary and a secondary direction so
//! that the path never strays further than an offset from the straight line
//! to the target, and ends on the target.
//!
//! All quantities are exact. Distances are whole numbers of a unit that the
//! caller chooses. Angles are whole numbers too: the presets measure them in
//! billionths of a degree, the general constructor only compares them. The
//! trigonometry of a heading enters as a [`Slope`], the sides of a right
//! triangle, and every distance that leaves the library is a [`Length`], a
//! fraction of two integers.
//!
//! [`WalkPlan`] is the mathematical model of a walk, [`RigidWalk`] the plan
//! that is computed from it, and [`RigidWalkIterFull`] a traversal that emits
//! the steps of a plan one by one. The module [`laws`] holds what is proved of
//! every walk.

pub mod angle;
pub mod closed_form;
pub mod error;
pub mod geometry;
pub mod laws;
pub mod model;
pub mod plan;
mod real_arith;
pub mod sequence;

pub use angle::{
    nearest_multiple, relative_angle, AllowedAngles, ANGLE_LIMIT, EIGHTH_TURN, FULL_TURN, HALF_TURN,
    QUARTER_TURN,
};
pub use error::WalkError;
pub use geometry::{Length, Side, Slope, SLOPE_LIMIT};
pub use model::{path_length, side_at, weighted_sum, Step, WalkPlan};
pub use plan::RigidWalk;
pub use sequence::{RigidWalkIterFull, WalkAct};
