//! Proportional navigation towards a target seen by a strap-down camera.

pub mod alpha_beta;
pub mod attitude;
pub mod camera_model;
pub mod eskf;
pub mod guidance;

pub use alpha_beta::AlphaBetaLos;
pub use attitude::{AttitudeBuffer, AttitudeEntry};
pub use camera_model::CameraModel;
pub use eskf::{EskfLos, OosmEskfLos};
pub use guidance::{FlightPhase, ProNav};
