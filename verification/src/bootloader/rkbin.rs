//! Rockchip's prebuilt blobs: checked out, never built.  `RKBIN_DDR` is a
//! glob; the newest blob that is not an eyescan build is picked by the
//! shell when U-Boot reads the exported `ROCKCHIP_TPL=`.
use vstd::prelude::*;
use crate::board::BoardConfig;
use crate::bootloader::{opt_clone, spec_text_or, text_or, CloneRequest, CloneView};
use crate::text::{concat3, copy_string, owned};

verus! {

/// The checkout: the rkbin repo at its tag, `master` by default.
pub open spec fn spec_clone(b: BoardConfig) -> Option<CloneView> {
    match b.rkbin_repo {
        Some(r) => Some(
            CloneView {
                repo: r@,
                tag: spec_text_or(b.rkbin_tag, "master"@),
                dest: "/build/rkbin"@,
                name: "rkbin"@,
            },
        ),
        None => None,
    }
}

/// `ROCKCHIP_TPL=` resolving the DDR blob glob at use time.
pub open spec fn spec_exports(b: BoardConfig) -> Seq<Seq<char>> {
    match (b.rkbin_repo, b.rkbin_ddr) {
        (Some(_), Some(g)) => seq![
            "ROCKCHIP_TPL=$(ls /build/rkbin/"@ + g@
                + " 2>/dev/null | grep -v eyescan | sort -V | tail -1)"@,
        ],
        _ => seq![],
    }
}

/// What rkbin checks out, if anything.
pub fn clone_request(board: &BoardConfig) -> (r: Option<CloneRequest>)
    ensures
        opt_clone(r) == spec_clone(*board),
{
    match &board.rkbin_repo {
        Some(repo) => Some(
            CloneRequest {
                repo: copy_string(repo),
                tag: text_or(&board.rkbin_tag, "master"),
                dest: owned("/build/rkbin"),
                name: owned("rkbin"),
            },
        ),
        None => None,
    }
}

/// The blobs are prebuilt: there is nothing to build.
pub fn build_command(board: &BoardConfig, env: &Vec<String>) -> (r: Option<String>)
    ensures
        r is None,
{
    None
}

/// `ROCKCHIP_TPL=...` for U-Boot, where a DDR blob glob is set.
pub fn exports(board: &BoardConfig) -> (r: Vec<String>)
    ensures
        r.deep_view() == spec_exports(*board),
{
    match (&board.rkbin_repo, &board.rkbin_ddr) {
        (Some(_), Some(glob)) => {
            let mut v: Vec<String> = Vec::new();
            v.push(
                concat3(
                    "ROCKCHIP_TPL=$(ls /build/rkbin/",
                    glob.as_str(),
                    " 2>/dev/null | grep -v eyescan | sort -V | tail -1)",
                ),
            );
            v
        },
        _ => Vec::new(),
    }
}

} // verus!
