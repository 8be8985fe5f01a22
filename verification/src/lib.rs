//! Guidance core of a simulated intercept drone: attitude history, line-of-sight
//! filters that can be rewound, proportional navigation, target trajectories and the
//! scheduling decisions of the simulated flight test.
//!
//! Timestamps are tick counts of the embassy clock. Everything that needs real-valued
//! arithmetic is reached through small model traits (`LosModel`, `PathModel`, ...) whose
//! methods are plain formulas: every branch, every default and every piece of state is
//! here, and the contracts say which formula is applied to which values.

pub mod args;
pub mod camera;
pub mod chronology;
pub mod clock;
pub mod flight;
pub mod functional;
pub mod los;
pub mod los_estimator;
pub mod observer;
pub mod pronav;
pub mod pursuit;
pub mod rerun_logger;
pub mod rewind;
pub mod trajectory;
pub mod weighing;

pub use args::Args;
pub use flight::Event;
pub use trajectory::{Trajectory, Waypoint};
