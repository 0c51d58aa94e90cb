//! The library cache of a stage: the manager keeps its stage directory;
//! updating is not implemented yet and always succeeds.
use vstd::prelude::*;
use crate::text::owned;

verus! {

/// Why updating the library cache failed.
#[derive(Debug)]
pub enum LdconfigError {
    UpdateFailed(String),
    IoError(String),
}

/// Keeps the library cache of one stage.
#[derive(Debug)]
pub struct LdconfigManager {
    stage_dir: String,
}

impl LdconfigManager {
    pub closed spec fn stage_path(&self) -> Seq<char> {
        self.stage_dir@
    }

    /// A manager for the stage at `stage_dir`.
    pub fn new(stage_dir: &str) -> (r: LdconfigManager)
        ensures
            r.stage_path() == stage_dir@,
    {
        LdconfigManager { stage_dir: owned(stage_dir) }
    }

    /// Update the cache: nothing is done yet, and it succeeds.
    pub fn update(&self) -> (r: Result<(), LdconfigError>)
        ensures
            r is Ok,
    {
        Ok(())
    }
}

} // verus!
