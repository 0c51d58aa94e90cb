//! Image building of the image crate: the builder keeps its directories;
//! building is not implemented yet and always succeeds.
use vstd::prelude::*;
use crate::text::owned;

verus! {

/// Why a build failed.
#[derive(Debug)]
pub enum BuildError {
    BuildFailed(String),
    IoError(String),
}

/// Builds every component of an image from a stage.
#[derive(Debug)]
pub struct ImageBuilder {
    build_dir: String,
    stage_dir: String,
}

impl ImageBuilder {
    pub closed spec fn build_path(&self) -> Seq<char> {
        self.build_dir@
    }

    pub closed spec fn stage_path(&self) -> Seq<char> {
        self.stage_dir@
    }

    /// A builder working in `build_dir` from the stage at `stage_dir`.
    pub fn new(build_dir: &str, stage_dir: &str) -> (r: ImageBuilder)
        ensures
            r.build_path() == build_dir@,
            r.stage_path() == stage_dir@,
    {
        ImageBuilder { build_dir: owned(build_dir), stage_dir: owned(stage_dir) }
    }

    /// Build every component: nothing is done yet, and it succeeds.
    pub fn build_all(&self) -> (r: Result<(), BuildError>)
        ensures
            r is Ok,
    {
        Ok(())
    }
}

} // verus!
