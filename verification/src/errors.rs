//! Error taxonomy of the recording flow. Each variant carries the child
//! process's exit code where one exists; none carries a recovery action.

use vstd::prelude::*;

verus! {

/// Everything that can go wrong while provisioning the loopback device and
/// launching the recorder.
#[derive(Clone, Copy, Debug, PartialEq, Eq)]
pub enum RecorderError {
    /// The module-loading child ran but exited non-zero.
    ModuleLoadFailure { exit_code: Option<i32> },
    /// The module-removal child ran but exited non-zero.
    ModuleUnloadFailure { exit_code: Option<i32> },
    /// The attempt budget was exhausted without a matching listing block.
    DiscoveryTimeout,
    /// The region-selection helper ran but exited non-zero.
    RegionSelectionFailed { exit_code: Option<i32> },
}

impl RecorderError {
    /// The user-facing diagnostic line for this error.
    pub open spec fn message_spec(self) -> Seq<char> {
        match self {
            RecorderError::ModuleLoadFailure { .. } => "Could not load modules. Are they installed?"@,
            RecorderError::ModuleUnloadFailure { .. } => "Could not unload module."@,
            RecorderError::DiscoveryTimeout => "Max retries reached. Exiting code."@,
            RecorderError::RegionSelectionFailed { .. } => "Region selection failed."@,
        }
    }

    /// Renders the diagnostic line.
    pub fn message(&self) -> (r: String)
        ensures
            r@ == self.message_spec(),
    {
        match self {
            RecorderError::ModuleLoadFailure { .. } => "Could not load modules. Are they installed?".to_owned(),
            RecorderError::ModuleUnloadFailure { .. } => "Could not unload module.".to_owned(),
            RecorderError::DiscoveryTimeout => "Max retries reached. Exiting code.".to_owned(),
            RecorderError::RegionSelectionFailed { .. } => "Region selection failed.".to_owned(),
        }
    }
}

} // verus!
