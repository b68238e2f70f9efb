//! Core logic of a session-lock coordinator for a graphical display server.
//!
//! The coordinator ("locker") owns one window per physical screen, delegates
//! the lock visuals to an external screensaver subprocess per screen, buffers
//! password input, and releases the screens only after a successful
//! authentication round-trip.  Everything here is the decision logic: it maps
//! control requests, saver lifecycle events and raw input events to state
//! changes and to the commands that a thin driver performs against the
//! display server and the subprocesses.

pub mod safety;
pub mod auth;
pub mod screen;
pub mod locker;
