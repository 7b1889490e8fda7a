//! A single-host IPC service library: a wire codec for length-prefixed
//! request framing, a filesystem-backed endpoint directory that coordinates
//! one server process per named endpoint, an interface model with a
//! deterministic ordinal assignment and the compiler that turns it into the
//! server and client artifacts, and a concrete playlist service built from
//! those pieces.

pub mod error;
pub mod marshal;
pub mod model;
pub mod playlist;
pub mod procdir;
pub mod protocol;
