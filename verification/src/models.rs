//! The plain data documents the bootstrap works with.

use vstd::prelude::*;

verus! {

/// The configuration carried in the executable's appended payload:
/// where updates are announced, and the product names under which the
/// per-user data directory is resolved.
pub struct BootstrapSettings {
    pub update_url: String,
    pub app_name: String,
    pub org_name: String,
}

/// The update metadata document announced at the update address: a
/// version label and the address of the artifact itself.  Transient,
/// used only during acquisition.
pub struct UpdateMeta {
    pub version: String,
    pub url: String,
}

} // verus!
