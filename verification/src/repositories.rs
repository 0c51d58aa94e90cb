//! Source repositories of the image crate: the manager keeps its build
//! directory; checking out is not implemented yet and always succeeds.
use vstd::prelude::*;
use crate::text::owned;

verus! {

/// Why a repository operation failed.
#[derive(Debug)]
pub enum RepositoryError {
    GitError(String),
    NotFound(String),
    IoError(String),
}

/// Checks out the sources an image needs.
#[derive(Debug)]
pub struct RepositoryManager {
    build_dir: String,
}

impl RepositoryManager {
    pub closed spec fn build_path(&self) -> Seq<char> {
        self.build_dir@
    }

    /// A manager checking out into `build_dir`.
    pub fn new(build_dir: &str) -> (r: RepositoryManager)
        ensures
            r.build_path() == build_dir@,
    {
        RepositoryManager { build_dir: owned(build_dir) }
    }

    /// Check out every repository: nothing is done yet, and it succeeds.
    pub fn checkout_all(&self) -> (r: Result<(), RepositoryError>)
        ensures
            r is Ok,
    {
        Ok(())
    }
}

} // verus!
