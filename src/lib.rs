//! The update and plugin-orchestration core of a desktop game launcher.
//!
//! The modules hold the decisions and data transformations of the launcher:
//! the error taxonomy (`errors`), the JSON / component value bridge
//! (`bridge`), the plugin paths and inventory (`plugins`), the artifact
//! server's path rules (`server`), the synchronisation decisions (`sync`),
//! the update check and progress reporting (`updater`), the workspace state
//! across update runs (`workspace`) and the installed-version discovery
//! (`utils`). Everything that touches the disk, the network or the
//! WebAssembly engine lives around this library and hands it plain values.
use vstd::prelude::*;

pub mod bridge;
pub mod errors;
pub mod plugins;
pub mod server;
pub mod sync;
pub mod updater;
pub mod utils;
pub mod workspace;

verus! {

/// Whether any of the execute bits of a Unix permission mode is set; a file
/// whose metadata could not be read (`None`) is not executable.
pub fn is_executable(mode: Option<u32>) -> (r: bool)
    ensures
        r == (mode is Some && mode->Some_0 & 0o111u32 != 0),
{
    match mode {
        Some(m) => m & 0o111u32 != 0,
        None => false,
    }
}

} // verus!
