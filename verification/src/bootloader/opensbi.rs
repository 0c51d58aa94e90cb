//! OpenSBI, the RISC-V supervisor binary interface.  Vendor SDKs clone a
//! fork and build it as a jump or payload firmware; its outputs are packed
//! into the image, not handed to later stages.
use vstd::prelude::*;
use crate::board::BoardConfig;
use crate::bootloader::{opt_clone, spec_text_or, text_or, CloneRequest, CloneView};
use crate::chroot::{join_strings, joined};
use crate::text::{concat, concat3, copy_string, owned, text_eq};

verus! {

/// The checkout OpenSBI needs: repo and tag both set, else none.
pub open spec fn spec_clone(b: BoardConfig) -> Option<CloneView> {
    match (b.opensbi_repo, b.opensbi_tag) {
        (Some(r), Some(t)) => Some(
            CloneView { repo: r@, tag: t@, dest: "/build/opensbi"@, name: "opensbi"@ },
        ),
        _ => None,
    }
}

/// The firmware flag for `OPENSBI_FW_TYPE`.
pub open spec fn fw_flag(b: BoardConfig) -> Seq<char> {
    match b.opensbi_fw_type {
        Some(t) => if t@ == "jump"@ {
            "FW_JUMP=y"@
        } else if t@ == "payload"@ {
            "FW_PAYLOAD=y"@
        } else {
            ""@
        },
        None => ""@,
    }
}

/// The build command, with the earlier stages' exports `env` in front;
/// none unless the board names a platform and a repo.
pub open spec fn spec_build(b: BoardConfig, env: Seq<Seq<char>>) -> Option<Seq<char>> {
    match (b.opensbi_platform, b.opensbi_repo) {
        (Some(p), Some(_)) => Some(
            joined(env, " "@) + " make -C /build/opensbi PLATFORM="@ + p@ + " CROSS_COMPILE="@
                + b.cross_compile@ + " "@ + fw_flag(b) + " "@ + spec_text_or(b.opensbi_make_flags, ""@)
                + " -j$(nproc)"@,
        ),
        _ => None,
    }
}

/// What OpenSBI checks out, if anything.
pub fn clone_request(board: &BoardConfig) -> (r: Option<CloneRequest>)
    ensures
        opt_clone(r) == spec_clone(*board),
{
    match (&board.opensbi_repo, &board.opensbi_tag) {
        (Some(repo), Some(tag)) => Some(
            CloneRequest {
                repo: copy_string(repo),
                tag: copy_string(tag),
                dest: owned("/build/opensbi"),
                name: owned("opensbi"),
            },
        ),
        _ => None,
    }
}

fn fw_flag_text(board: &BoardConfig) -> (r: &'static str)
    ensures
        r@ == fw_flag(*board),
{
    match &board.opensbi_fw_type {
        Some(t) => if text_eq(t.as_str(), "jump") {
            "FW_JUMP=y"
        } else if text_eq(t.as_str(), "payload") {
            "FW_PAYLOAD=y"
        } else {
            ""
        },
        None => "",
    }
}

/// The shell command that builds OpenSBI, if the board builds it.
pub fn build_command(board: &BoardConfig, env: &Vec<String>) -> (r: Option<String>)
    ensures
        r.deep_view() == spec_build(*board, env.deep_view()),
{
    match (&board.opensbi_platform, &board.opensbi_repo) {
        (Some(platform), Some(_)) => {
            let env_str = join_strings(env, " ");
            let a = concat3(env_str.as_str(), " make -C /build/opensbi PLATFORM=", platform.as_str());
            let b = concat3(a.as_str(), " CROSS_COMPILE=", board.cross_compile.as_str());
            let c = concat3(b.as_str(), " ", fw_flag_text(board));
            let extra = text_or(&board.opensbi_make_flags, "");
            let d = concat3(c.as_str(), " ", extra.as_str());
            Some(concat(d.as_str(), " -j$(nproc)"))
        },
        _ => None,
    }
}

/// OpenSBI hands nothing to later stages.
pub fn exports(board: &BoardConfig) -> (r: Vec<String>)
    ensures
        r@.len() == 0,
{
    Vec::new()
}

} // verus!
