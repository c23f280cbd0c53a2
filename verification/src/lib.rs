//! Locates the audio output streams ("sink inputs") owned by a process on a
//! PulseAudio-style server and computes volume or mute changes for them.
//!
//! The crate is organised around a small number of verified components:
//!
//! * [`volume`] — conversions between server volume units and percentages,
//!   and the gamma-style delta computation, in exact integer arithmetic.
//! * [`operations`] — the operation requested by the caller.
//! * [`sinkinput`] — snapshots of server-side streams and the matching of
//!   their process-id property tags against a target process id.
//! * [`applier`] — turns an operation and a matched stream into the concrete
//!   mutation to submit to the server.
//! * [`childpids`] — breadth-first discovery of a process's descendants,
//!   used as a fallback when the target process has no stream of its own.
//! * [`session`] — the explicit state machine that drives the server's
//!   asynchronous protocol: connect, enumerate, mutate, with the event pump
//!   itself supplied by the (unverified) caller.

pub mod applier;
pub mod childpids;
pub mod operations;
pub mod session;
pub mod sinkinput;
pub mod volume;
