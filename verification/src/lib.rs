//! Core of an interactive pointer-driven particle simulation.
//!
//! The library owns the particle store and its grid initializer, the
//! pointer-centred force field and its integrator, the pannable and
//! zoomable camera transform between scene and canvas coordinates, and
//! the interaction state machine that dispatches input events to all of
//! them.  A thin windowing shell around the library polls the events,
//! paces the frames and draws the projected points.
//!
//! Every quantity is a fixed-point number: an `i64` holding the value
//! times [`fixed::SCALE`].  Fixed-point keeps each transform exact, so
//! the camera round trip, the zoom-to-pointer protocol and the field
//! symmetries are proved rather than approximated; the shell converts
//! to and from its own floating point only at its edge.

pub mod camera;
pub mod control;
pub mod field;
pub mod fixed;
pub mod particles;
