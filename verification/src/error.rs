//! The error type shared by the board, image and package-list code.
use vstd::prelude::*;

verus! {

/// What went wrong, with the names a user needs to find it.
#[derive(Debug)]
pub enum Error {
    SandboxNotFound(String),
    TargetNotFound(String),
    BoardNotFound(String),
    BoardConfigParse { file: String, msg: String },
    UnknownArch(String),
    CommandFailed { code: i32, reason: String },
    PackageListNotFound(String),
    SubtractionInDefaults { file: String, atom: String },
}

/// A board-configuration error for `file` saying `msg`.
pub open spec fn is_board_error(e: Error, file: Seq<char>, msg: Seq<char>) -> bool {
    match e {
        Error::BoardConfigParse { file: f, msg: m } => f@ == file && m@ == msg,
        _ => false,
    }
}

/// The outcome of a finished sandbox command: success exactly when its exit
/// code is zero (as `hakoniwa::ExitStatus::success` decides), else the
/// failure with the code and the reason the sandbox gave.
pub fn check_status(code: i32, reason: &str) -> (r: Result<(), Error>)
    ensures
        code == 0 <==> r is Ok,
        r matches Err(e) ==> (e matches Error::CommandFailed { code: c, reason: m } && c == code
            && m@ == reason@),
{
    if code == 0 {
        Ok(())
    } else {
        Err(Error::CommandFailed { code, reason: crate::text::owned(reason) })
    }
}

} // verus!
