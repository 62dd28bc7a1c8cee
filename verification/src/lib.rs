//! Composable byte streams: sources, sinks, seekable in-memory cursors and the
//! adaptors that combine them, with their behaviour stated as contracts.
//! Beside them stand network addresses as plain values and the rules for
//! reading a process environment.

pub mod env;
pub mod io;
pub mod net;
