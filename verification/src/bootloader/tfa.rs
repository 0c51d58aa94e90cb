//! Trusted Firmware-A: BL31, the EL3 secure monitor that Rockchip and
//! Amlogic SoCs need.  U-Boot takes it through the exported `BL31=`.
use vstd::prelude::*;
use crate::board::BoardConfig;
use crate::bootloader::{opt_clone, spec_text_or, text_or, CloneRequest, CloneView};
use crate::text::{concat3, copy_string, owned};

verus! {

/// The checkout TF-A needs: its repo at its tag, `master` by default.
pub open spec fn spec_clone(b: BoardConfig) -> Option<CloneView> {
    match b.tfa_repo {
        Some(r) => Some(
            CloneView {
                repo: r@,
                tag: spec_text_or(b.tfa_tag, "master"@),
                dest: "/build/tfa"@,
                name: "tfa"@,
            },
        ),
        None => None,
    }
}

/// The build command for BL31, with a repo and a platform set.
pub open spec fn spec_build(b: BoardConfig) -> Option<Seq<char>> {
    match (b.tfa_repo, b.tfa_plat) {
        (Some(_), Some(p)) => Some(
            "make -C /build/tfa PLAT="@ + p@ + " CROSS_COMPILE="@ + b.cross_compile@
                + " bl31 -j$(nproc)"@,
        ),
        _ => None,
    }
}

/// `BL31=` with the built binary, for the stages after TF-A.
pub open spec fn spec_exports(b: BoardConfig) -> Seq<Seq<char>> {
    match (b.tfa_repo, b.tfa_plat) {
        (Some(_), Some(p)) => seq!["BL31=/build/tfa/build/"@ + p@ + "/release/bl31/bl31.elf"@],
        _ => seq![],
    }
}

/// What TF-A checks out, if anything.
pub fn clone_request(board: &BoardConfig) -> (r: Option<CloneRequest>)
    ensures
        opt_clone(r) == spec_clone(*board),
{
    match &board.tfa_repo {
        Some(repo) => Some(
            CloneRequest {
                repo: copy_string(repo),
                tag: text_or(&board.tfa_tag, "master"),
                dest: owned("/build/tfa"),
                name: owned("tfa"),
            },
        ),
        None => None,
    }
}

/// The shell command that builds BL31, if the board builds it.  Earlier
/// stages' exports are not used.
pub fn build_command(board: &BoardConfig, env: &Vec<String>) -> (r: Option<String>)
    ensures
        r.deep_view() == spec_build(*board),
{
    match (&board.tfa_repo, &board.tfa_plat) {
        (Some(_), Some(plat)) => {
            let a = concat3("make -C /build/tfa PLAT=", plat.as_str(), " CROSS_COMPILE=");
            Some(concat3(a.as_str(), board.cross_compile.as_str(), " bl31 -j$(nproc)"))
        },
        _ => None,
    }
}

/// `BL31=...` for U-Boot, where TF-A is built.
pub fn exports(board: &BoardConfig) -> (r: Vec<String>)
    ensures
        r.deep_view() == spec_exports(*board),
{
    match (&board.tfa_repo, &board.tfa_plat) {
        (Some(_), Some(plat)) => {
            let mut v: Vec<String> = Vec::new();
            v.push(concat3("BL31=/build/tfa/build/", plat.as_str(), "/release/bl31/bl31.elf"));
            v
        },
        _ => Vec::new(),
    }
}

/// Where TF-A's `make` leaves BL31 for platform `plat` in the tree `tree`:
/// `build/<plat>/release/` for a release build, `build/<plat>/debug/` for a
/// `DEBUG=1` one.
pub open spec fn bl31_output(tree: Seq<char>, plat: Seq<char>, debug: bool) -> Seq<char> {
    tree + "/build/"@ + plat + (if debug {
        "/debug"@
    } else {
        "/release"@
    }) + "/bl31/bl31.elf"@
}

/// TF-A is built exactly when it exports BL31, and the export names the
/// file that build leaves: the build is a release build of `PLAT=<p>` in
/// `/build/tfa` (no variable besides `PLAT` and `CROSS_COMPILE` is set), so
/// `BL31` points at the release output for `p`.
pub proof fn law_bl31_export_is_what_tfa_builds(b: BoardConfig)
    ensures
        spec_exports(b).len() > 0 <==> spec_build(b) is Some,
        spec_exports(b).len() <= 1,
        b.tfa_repo is Some && b.tfa_plat is Some ==> ({
            let p = b.tfa_plat->0@;
            &&& spec_build(b) == Some(
                "make -C /build/tfa"@ + " PLAT="@ + p + " CROSS_COMPILE="@ + b.cross_compile@
                    + " bl31 -j$(nproc)"@,
            )
            &&& spec_exports(b) == seq!["BL31="@ + bl31_output("/build/tfa"@, p, false)]
        }),
{
    reveal_strlit("make -C /build/tfa PLAT=");
    reveal_strlit("make -C /build/tfa");
    reveal_strlit(" PLAT=");
    reveal_strlit("BL31=/build/tfa/build/");
    reveal_strlit("BL31=");
    reveal_strlit("/build/tfa");
    reveal_strlit("/build/");
    reveal_strlit("/release/bl31/bl31.elf");
    reveal_strlit("/release");
    reveal_strlit("/bl31/bl31.elf");
    if b.tfa_repo is Some && b.tfa_plat is Some {
        let p = b.tfa_plat->0@;
        assert("make -C /build/tfa PLAT="@ + p =~= "make -C /build/tfa"@ + " PLAT="@ + p);
        assert("make -C /build/tfa PLAT="@ + p + " CROSS_COMPILE="@ + b.cross_compile@ + " bl31 -j$(nproc)"@
            =~= "make -C /build/tfa"@ + " PLAT="@ + p + " CROSS_COMPILE="@ + b.cross_compile@
            + " bl31 -j$(nproc)"@);
        assert("BL31=/build/tfa/build/"@ + p + "/release/bl31/bl31.elf"@ =~= "BL31="@ + bl31_output(
            "/build/tfa"@,
            p,
            false,
        ));
    }
}

} // verus!
