//! The control plane's document vocabulary and its decision logic: the op
//! vocabulary that every mutation travels in, the track-row constructors,
//! the gesture accumulator that folds a drag into one undo step, the undo
//! ancestry walk planner, and the pure planners behind the control-plane
//! commands (mix batches, clip placements, lane arrangements, track
//! removal, pad presses, quantized starts, the demo song).
//!
//! Everything here works on plain values. Locks, the engine, the session
//! store that applies ops, and every wire encoding stay with the caller.

pub mod text;
pub mod types;
pub mod op;
pub mod ops;
pub mod gesture;
pub mod history;
pub mod plane;
pub mod demo;
pub mod transport;
pub mod arrange;
pub mod instrument;
pub mod commit;
pub mod project;
pub mod host;
