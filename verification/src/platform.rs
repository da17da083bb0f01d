//! Resolving the base directory.
//!
//! Where the bootstrap keeps its data is decided once at startup: the
//! current directory in portable mode, otherwise a per-user data
//! directory that a platform capability resolves outside this crate.

use vstd::prelude::*;
use vstd::string::*;
use crate::payload::ReadError;

verus! {

/// How the platform capability for the per-user directory can fail.
#[derive(Clone, Copy, Debug, PartialEq, Eq, Structural)]
pub enum HomeDirError {
    /// The directory exists but has no usable path.
    NoPath,
    /// The directory is not present.
    NotPresent,
    /// The platform reported an unclassified problem.
    Unknown,
}

/// A failure during startup, before the orchestrator begins.
#[derive(Debug, PartialEq, Eq)]
pub enum BootstrapError {
    /// The appended payload could not be read.
    EmbeddedDataError(ReadError),
    /// The payload text is not a well-formed configuration document;
    /// carries the reported reason.
    EmbeddedDataCorrupt(String),
    /// No per-user data directory could be resolved.
    HomeDirMissing,
}

/// Picks the base directory: the current directory in portable mode,
/// otherwise the resolved per-user data directory; resolution failure
/// is fatal only outside portable mode.
pub fn choose_base_dir(portable: bool, data_dir: Result<String, HomeDirError>) -> (r: Result<
    String,
    BootstrapError,
>)
    ensures
        portable ==> (r matches Ok(d) && d@ == "."@),
        !portable ==> match data_dir {
            Ok(d) => (r matches Ok(rd) && rd@ == d@),
            Err(_) => r == Err::<String, BootstrapError>(BootstrapError::HomeDirMissing),
        },
{
    if portable {
        Ok(String::from_str("."))
    } else {
        match data_dir {
            Ok(d) => Ok(d),
            Err(_) => Err(BootstrapError::HomeDirMissing),
        }
    }
}

} // verus!
