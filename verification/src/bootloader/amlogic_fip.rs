//! Amlogic boot FIP: the vendor's signed blobs, BL31 and our U-Boot packed
//! into an SD-bootable image by the repo's `build-fip.sh`.  Runs after
//! U-Boot, whose `u-boot.bin` it consumes.
use vstd::prelude::*;
use crate::board::BoardConfig;
use crate::bootloader::{opt_clone, spec_text_or, text_or, CloneRequest, CloneView};
use crate::text::{concat3, copy_string, owned};

verus! {

/// The checkout: the FIP repo at its tag, `master` by default.
pub open spec fn spec_clone(b: BoardConfig) -> Option<CloneView> {
    match b.fip_repo {
        Some(r) => Some(
            CloneView {
                repo: r@,
                tag: spec_text_or(b.fip_tag, "master"@),
                dest: "/build/fip"@,
                name: "amlogic-fip"@,
            },
        ),
        None => None,
    }
}

/// The packing command, where the board has a FIP repo.
pub open spec fn spec_build(b: BoardConfig) -> Option<Seq<char>> {
    match b.fip_repo {
        Some(_) => Some(
            "mkdir -p /build/u-boot-sd && cd /build/fip && ./build-fip.sh "@ + b.name@
                + " /build/u-boot/u-boot.bin /build/u-boot-sd/"@,
        ),
        None => None,
    }
}

/// What the FIP stage checks out, if anything.
pub fn clone_request(board: &BoardConfig) -> (r: Option<CloneRequest>)
    ensures
        opt_clone(r) == spec_clone(*board),
{
    match &board.fip_repo {
        Some(repo) => Some(
            CloneRequest {
                repo: copy_string(repo),
                tag: text_or(&board.fip_tag, "master"),
                dest: owned("/build/fip"),
                name: owned("amlogic-fip"),
            },
        ),
        None => None,
    }
}

/// The shell command that packs the FIP, if the board has one.
pub fn build_command(board: &BoardConfig, env: &Vec<String>) -> (r: Option<String>)
    ensures
        r.deep_view() == spec_build(*board),
{
    match &board.fip_repo {
        Some(_) => Some(
            concat3(
                "mkdir -p /build/u-boot-sd && cd /build/fip && ./build-fip.sh ",
                board.name.as_str(),
                " /build/u-boot/u-boot.bin /build/u-boot-sd/",
            ),
        ),
        None => None,
    }
}

/// The FIP exports nothing.
pub fn exports(board: &BoardConfig) -> (r: Vec<String>)
    ensures
        r@.len() == 0,
{
    Vec::new()
}

} // verus!
