//! Real-time location engine: device registry, rolling distance-measurement
//! history and position estimation by multilateration, together with the
//! message-routing layer that feeds the engine and fans its output out to
//! subscriber groups.
//!
//! All lengths (coordinates and distances) are integers in thousandths of
//! the wire's unit: a distance of `7.07` on the wire is `7070` in the
//! engine, and positions are broadcast back as wire units with three
//! fraction digits (see `json`).

pub mod arith;
pub mod device;
pub mod json;
pub mod lateration;
pub mod measure;
pub mod utils;
pub mod wrapper;
pub mod zone;
