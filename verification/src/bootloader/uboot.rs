//! U-Boot, usually the last stage: it takes what earlier stages export
//! (`BL31=`, `ROCKCHIP_TPL=`) as make variables without knowing the stages.
use vstd::prelude::*;
use crate::board::BoardConfig;
use crate::bootloader::{opt_clone, spec_text_or, text_or, CloneRequest, CloneView};
use crate::chroot::{join_strings, joined};
use crate::error::{is_board_error, Error};
use crate::text::{concat, concat3, copy_string, owned};

verus! {

/// The message for a U-Boot repo without a ref.
pub open spec fn missing_tag_msg() -> Seq<char> {
    "U_BOOT_REPO is set but U_BOOT_TAG is not, and neither is TAG"@
}

/// What U-Boot checks out: nothing without a repo; a repo without a tag
/// is an error, since the board meant to build U-Boot.
pub open spec fn spec_clone(b: BoardConfig) -> Option<CloneView> {
    match (b.u_boot_repo, b.u_boot_tag) {
        (Some(r), Some(t)) => Some(
            CloneView { repo: r@, tag: t@, dest: "/build/u-boot"@, name: "u-boot"@ },
        ),
        _ => None,
    }
}

/// The build command: configure with the defconfig, then build, each with
/// the earlier stages' exports in front.  `ARCH` is not passed: U-Boot
/// derives it from the defconfig.
pub open spec fn spec_build(b: BoardConfig, env: Seq<Seq<char>>) -> Option<Seq<char>> {
    match b.u_boot_defconfig {
        Some(d) => {
            let e = joined(env, " "@);
            let x = spec_text_or(b.u_boot_make_flags, ""@);
            let head = e + " make -C /build/u-boot CROSS_COMPILE="@ + b.cross_compile@ + " "@ + x;
            Some(head + " "@ + d@ + " && "@ + head + " -j$(nproc)"@)
        },
        None => None,
    }
}

/// What U-Boot checks out, or the error for a repo without a tag.
pub fn clone_request(board: &BoardConfig) -> (r: Result<Option<CloneRequest>, Error>)
    ensures
        (board.u_boot_repo is Some && board.u_boot_tag is None) <==> r is Err,
        r matches Ok(c) ==> opt_clone(c) == spec_clone(*board),
        r matches Err(e) ==> is_board_error(e, board.name@, missing_tag_msg()),
{
    match (&board.u_boot_repo, &board.u_boot_tag) {
        (Some(repo), Some(tag)) => Ok(
            Some(
                CloneRequest {
                    repo: copy_string(repo),
                    tag: copy_string(tag),
                    dest: owned("/build/u-boot"),
                    name: owned("u-boot"),
                },
            ),
        ),
        (Some(_), None) => Err(
            Error::BoardConfigParse {
                file: copy_string(&board.name),
                msg: owned("U_BOOT_REPO is set but U_BOOT_TAG is not, and neither is TAG"),
            },
        ),
        (None, _) => Ok(None),
    }
}

/// The shell command that builds U-Boot, if the board names a defconfig.
pub fn build_command(board: &BoardConfig, env: &Vec<String>) -> (r: Option<String>)
    ensures
        r.deep_view() == spec_build(*board, env.deep_view()),
{
    match &board.u_boot_defconfig {
        Some(defconfig) => {
            let env_str = join_strings(env, " ");
            let extra = text_or(&board.u_boot_make_flags, "");
            let a = concat3(
                env_str.as_str(),
                " make -C /build/u-boot CROSS_COMPILE=",
                board.cross_compile.as_str(),
            );
            let head = concat3(a.as_str(), " ", extra.as_str());
            let b = concat3(head.as_str(), " ", defconfig.as_str());
            let c = concat3(b.as_str(), " && ", head.as_str());
            Some(concat(c.as_str(), " -j$(nproc)"))
        },
        None => None,
    }
}

/// U-Boot's outputs are packed into the image; it exports nothing.
pub fn exports(board: &BoardConfig) -> (r: Vec<String>)
    ensures
        r@.len() == 0,
{
    Vec::new()
}

} // verus!
