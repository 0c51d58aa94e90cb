//! Running commands in a bubblewrap container rooted at a chroot: the
//! runner keeps its root; running is not implemented yet and succeeds.
use vstd::prelude::*;
use crate::text::owned;

verus! {

/// Why a bubblewrap run failed.
#[derive(Debug)]
pub enum BubblewrapError {
    ExecutionFailed(String),
    SetupFailed(String),
    IoError(String),
}

/// Runs commands inside a chroot directory.
#[derive(Debug)]
pub struct BubblewrapRunner {
    chroot_dir: String,
}

impl BubblewrapRunner {
    pub closed spec fn root(&self) -> Seq<char> {
        self.chroot_dir@
    }

    /// A runner for the chroot at `chroot_dir`.
    pub fn new(chroot_dir: &str) -> (r: BubblewrapRunner)
        ensures
            r.root() == chroot_dir@,
    {
        BubblewrapRunner { chroot_dir: owned(chroot_dir) }
    }

    /// Run `command` with `args`: nothing is run yet, and it succeeds.
    pub fn run(&self, command: &str, args: &[&str]) -> (r: Result<(), BubblewrapError>)
        ensures
            r is Ok,
    {
        Ok(())
    }
}

} // verus!
