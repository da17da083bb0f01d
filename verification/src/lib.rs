//! A self-updating bootstrap launcher library.
//!
//! The library locates, validates, or fetches a runnable application
//! artifact and prepares the hand-off to it.  It holds the three pieces
//! with real design decisions — the bootstrap orchestration state machine,
//! the appended-payload trailer format, and the runtime-version
//! compatibility check — together with the data types they share.
//! All I/O (filesystem, network, process spawning, dialogs) is performed
//! by a thin driver outside this crate, which feeds the results back in
//! as plain values.

pub mod bootstrap;
pub mod launch;
pub mod models;
pub mod platform;
pub mod payload;
pub mod probe;
pub mod report;
pub mod version;
