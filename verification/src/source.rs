//! Where plugin code comes from.

use vstd::prelude::*;

verus! {

/// A description of where one unit of plugin code originates. Carries no
/// identity of its own; it is consumed by a runtime's load operation.
pub enum PluginSource {
    /// Plugin source code as a string.
    Code(String),
    /// Path to the plugin source file.
    FilePath(String),
    /// Raw bytes of the plugin source.
    Bytes(Vec<u8>),
}

} // verus!
