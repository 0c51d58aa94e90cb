//! Package installation of the core crate: not implemented yet, and always
//! succeeds.
use vstd::prelude::*;

verus! {

/// Why installing packages failed.
#[derive(Debug)]
pub enum PackageError {
    InstallationFailed(String),
    ListLoadingFailed(String),
    IoError(String),
}

/// Installs package sets into a stage.
#[derive(Debug)]
pub struct PackageManager {}

impl PackageManager {
    pub fn new() -> (r: PackageManager) {
        PackageManager {  }
    }

    /// Install the stage1 packages: nothing is done yet, and it succeeds.
    pub fn install_stage1(&self) -> (r: Result<(), PackageError>)
        ensures
            r is Ok,
    {
        Ok(())
    }
}

} // verus!
