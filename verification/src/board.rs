//! Board configuration: the `boards/<name>/board.conf` file, its includes,
//! and the values a build derives from it.
use vstd::prelude::*;
use crate::bootloader;
use crate::conf::{conf_array, conf_get, ConfText};
use crate::error::{is_board_error, Error};
use crate::provider::{
    spec_debootstrap_keys, spec_provider, spec_second_stage, RootfsProvider, SecondStage,
};
use crate::text;
use crate::text::{
    chars_of, concat, concat3, lines_of, owned, slice_of, starts_with_chars, string_of, text_eq,
    trim_chars, trim_in_chars, words_of,
};

verus! {

/// Board configuration loaded from `boards/<name>/board.conf`.
#[derive(Debug, Clone)]
pub struct BoardConfig {
    pub name: String,
    pub arch: String,
    /// `CHOST`; replaces the CHOST derived from the arch.
    pub chost_override: Option<String>,
    /// `BOARD_CFLAGS`; absent means the arch default.
    pub cflags: Option<String>,
    /// `INCLUDE`, kept so hooks can source the same files the loader merged.
    pub includes: Vec<String>,
    pub ldflags: Option<String>,
    pub rustflags: Option<String>,
    /// `BOARD_GCC_VERSION`; absent means the highest installed slot.
    pub gcc_version: Option<String>,
    pub cross_compile: String,
    pub kernel_arch: Option<String>,
    pub rootfs_provider: RootfsProvider,
    /// Suite a debootstrap provider bootstraps (`DEBIAN_SUITE` / `UBUNTU_SUITE`).
    pub suite: Option<String>,
    /// Mirror it bootstraps from (`DEBIAN_MIRROR` / `UBUNTU_MIRROR`).
    pub mirror: Option<String>,
    pub second_stage: SecondStage,
    pub alpine_branch: Option<String>,
    pub alpine_mirror: Option<String>,
    pub alpine_repos: Option<String>,
    pub fedora_release: Option<String>,
    pub fedora_mirror: Option<String>,
    pub buildroot_defconfig: Option<String>,
    pub buildroot_repo: Option<String>,
    pub buildroot_tag: Option<String>,
    pub openwrt_release: Option<String>,
    pub openwrt_target: Option<String>,
    pub openwrt_subtarget: Option<String>,
    pub openwrt_profile: Option<String>,
    pub openwrt_mirror: Option<String>,
    pub openwrt_sha256: Option<String>,
    pub opensbi_repo: Option<String>,
    pub opensbi_tag: Option<String>,
    pub opensbi_platform: Option<String>,
    pub opensbi_fw_type: Option<String>,
    pub opensbi_make_flags: Option<String>,
    pub u_boot_repo: Option<String>,
    pub u_boot_tag: Option<String>,
    pub u_boot_defconfig: Option<String>,
    pub u_boot_make_flags: Option<String>,
    pub grub_platforms: Option<String>,
    pub grub_modules: Option<String>,
    pub syslinux_repo: Option<String>,
    pub syslinux_tag: Option<String>,
    pub tfa_repo: Option<String>,
    pub tfa_tag: Option<String>,
    pub tfa_plat: Option<String>,
    pub rkbin_repo: Option<String>,
    pub rkbin_tag: Option<String>,
    pub rkbin_ddr: Option<String>,
    pub fip_repo: Option<String>,
    pub fip_tag: Option<String>,
    /// `BOOT_PIPELINE`: absent means the default pipeline, `()` no stages.
    pub boot_pipeline: Option<Vec<String>>,
    pub firmware_repo: Option<String>,
    pub firmware_tag: Option<String>,
    pub firmware_overlay: Option<String>,
    pub firmware_dirs: Vec<String>,
    pub kernel_repo: String,
    pub kernel_tag: String,
    pub kernel_defconfig: String,
    /// Looked up board first, then in the defaults, and appended to `.config`.
    pub kernel_config_fragments: Vec<String>,
    pub kernel_dtb_glob: Option<String>,
    pub dracut_modules: Option<String>,
    pub initramfs_install: Vec<String>,
    pub root_dev: Option<String>,
    pub console: Option<String>,
    pub hostname: String,
    pub serial_tty: Option<String>,
    pub serial_baud: Option<String>,
    pub kernel_name: Option<String>,
    pub ramdisk_name: Option<String>,
    pub loglevel: Option<String>,
    /// `BOOT_EXTLINUX`: the board boots through an extlinux.conf.
    pub extlinux: bool,
    pub append: Option<String>,
    pub dtb_name: Option<String>,
    /// `ISA_STRICT`: fail a build whose binaries use extensions the board lacks.
    pub isa_strict: bool,
    pub services: Vec<String>,
    pub build_steps: Vec<String>,
    pub workaround_pkgs: Vec<String>,
    pub workaround_cflags: Vec<String>,
    pub image_name: Option<String>,
    pub compression: Option<String>,
    pub tags: Vec<String>,
    pub description: Option<String>,
}

pub open spec fn or_else(a: Option<Seq<char>>, b: Option<Seq<char>>) -> Option<Seq<char>> {
    match a {
        Some(v) => Some(v),
        None => b,
    }
}

pub open spec fn words_or_empty(a: Option<Seq<char>>) -> Seq<Seq<char>> {
    match a {
        Some(v) => text::words(v),
        None => seq![],
    }
}

pub open spec fn array_or_empty(a: Option<Seq<Seq<char>>>) -> Seq<Seq<char>> {
    match a {
        Some(v) => v,
        None => seq![],
    }
}

/// An array key that may also be written as a space-separated scalar.
pub open spec fn array_or_words(c: Seq<char>, key: Seq<char>) -> Seq<Seq<char>> {
    match conf_array(c, key) {
        Some(v) => v,
        None => words_or_empty(conf_get(c, key)),
    }
}

pub open spec fn is_true_word(v: Seq<char>) -> bool {
    v == "true"@ || v == "yes"@ || v == "1"@
}

pub open spec fn is_false_word(v: Seq<char>) -> bool {
    v == "false"@ || v == "no"@ || v == "0"@
}

/// The first element of `s` that names no bootloader stage.
pub open spec fn first_unknown_stage(s: Seq<Seq<char>>) -> Option<Seq<char>>
    decreases s.len(),
{
    if s.len() == 0 {
        None
    } else if !bootloader::is_stage(s[0]) {
        Some(s[0])
    } else {
        first_unknown_stage(s.drop_first())
    }
}

/// The provider a config text selects (`None` when its value is unknown).
pub open spec fn conf_provider(c: Seq<char>) -> Option<RootfsProvider> {
    match conf_get(c, "ROOTFS_PROVIDER"@) {
        Some(v) => spec_provider(v),
        None => Some(RootfsProvider::Gentoo),
    }
}

pub open spec fn missing_field_msg(key: Seq<char>) -> Seq<char> {
    "missing required field '"@ + key + "'"@
}

/// Why a config text is refused, in the order the checks run; `None` when it
/// is accepted.
pub open spec fn board_parse_error(c: Seq<char>) -> Option<Seq<char>> {
    let pipe = conf_array(c, "BOOT_PIPELINE"@);
    let unknown = match pipe {
        Some(p) => first_unknown_stage(p),
        None => None,
    };
    if unknown is Some {
        Some("unknown BOOT_PIPELINE stage '"@ + unknown.unwrap() + "' (known: "@
            + bootloader::stages_joined() + ")"@)
    } else if conf_provider(c) is None {
        Some("unknown ROOTFS_PROVIDER '"@ + conf_get(c, "ROOTFS_PROVIDER"@).unwrap()
            + "' (valid: gentoo, debian, ubuntu, alpine, fedora, buildroot, openwrt, none)"@)
    } else if conf_get(c, "ROOTFS_SECOND_STAGE"@) is Some && spec_debootstrap_keys(
        conf_provider(c).unwrap(),
    ) is None {
        Some("ROOTFS_SECOND_STAGE '"@ + conf_get(c, "ROOTFS_SECOND_STAGE"@).unwrap()
            + "' only applies to a debootstrap provider (debian, ubuntu)"@)
    } else if conf_get(c, "ROOTFS_SECOND_STAGE"@) is Some && spec_second_stage(
        conf_get(c, "ROOTFS_SECOND_STAGE"@).unwrap(),
    ) is None {
        Some("unknown ROOTFS_SECOND_STAGE '"@ + conf_get(c, "ROOTFS_SECOND_STAGE"@).unwrap()
            + "' (valid: chroot, first-boot)"@)
    } else if conf_get(c, "BOARD_ARCH"@) is None {
        Some(missing_field_msg("BOARD_ARCH"@))
    } else if conf_get(c, "CROSS_COMPILE"@) is None {
        Some(missing_field_msg("CROSS_COMPILE"@))
    } else if conf_get(c, "KERNEL_REPO"@) is None {
        Some(missing_field_msg("KERNEL_REPO"@))
    } else if conf_get(c, "KERNEL_DEFCONFIG"@) is None {
        Some(missing_field_msg("KERNEL_DEFCONFIG"@))
    } else {
        None
    }
}

} // verus!
verus! {

/// `b` is what the config text `c` of board `name` describes.
pub open spec fn parsed_board(b: BoardConfig, name: Seq<char>, c: Seq<char>) -> bool {
    &&& b.name@ == name
    &&& b.arch@ == conf_get(c, "BOARD_ARCH"@).unwrap()
    &&& b.cross_compile@ == conf_get(c, "CROSS_COMPILE"@).unwrap()
    &&& b.kernel_repo@ == conf_get(c, "KERNEL_REPO"@).unwrap()
    &&& b.kernel_defconfig@ == conf_get(c, "KERNEL_DEFCONFIG"@).unwrap()
    &&& b.chost_override.deep_view() == conf_get(c, "CHOST"@)
    &&& b.cflags.deep_view() == conf_get(c, "BOARD_CFLAGS"@)
    &&& b.ldflags.deep_view() == conf_get(c, "BOARD_LDFLAGS"@)
    &&& b.rustflags.deep_view() == conf_get(c, "BOARD_RUSTFLAGS"@)
    &&& b.gcc_version.deep_view() == conf_get(c, "BOARD_GCC_VERSION"@)
    &&& b.kernel_arch.deep_view() == conf_get(c, "KERNEL_ARCH"@)
    &&& b.alpine_branch.deep_view() == conf_get(c, "ALPINE_BRANCH"@)
    &&& b.alpine_mirror.deep_view() == conf_get(c, "ALPINE_MIRROR"@)
    &&& b.alpine_repos.deep_view() == conf_get(c, "ALPINE_REPOS"@)
    &&& b.fedora_release.deep_view() == conf_get(c, "FEDORA_RELEASE"@)
    &&& b.fedora_mirror.deep_view() == conf_get(c, "FEDORA_MIRROR"@)
    &&& b.buildroot_defconfig.deep_view() == conf_get(c, "BUILDROOT_DEFCONFIG"@)
    &&& b.buildroot_repo.deep_view() == conf_get(c, "BUILDROOT_REPO"@)
    &&& b.buildroot_tag.deep_view() == conf_get(c, "BUILDROOT_TAG"@)
    &&& b.openwrt_release.deep_view() == conf_get(c, "OPENWRT_RELEASE"@)
    &&& b.openwrt_target.deep_view() == conf_get(c, "OPENWRT_TARGET"@)
    &&& b.openwrt_subtarget.deep_view() == conf_get(c, "OPENWRT_SUBTARGET"@)
    &&& b.openwrt_profile.deep_view() == conf_get(c, "OPENWRT_PROFILE"@)
    &&& b.openwrt_mirror.deep_view() == conf_get(c, "OPENWRT_MIRROR"@)
    &&& b.openwrt_sha256.deep_view() == conf_get(c, "OPENWRT_SHA256"@)
    &&& b.opensbi_repo.deep_view() == conf_get(c, "OPENSBI_REPO"@)
    &&& b.opensbi_tag.deep_view() == conf_get(c, "OPENSBI_TAG"@)
    &&& b.opensbi_platform.deep_view() == conf_get(c, "OPENSBI_PLATFORM"@)
    &&& b.opensbi_fw_type.deep_view() == conf_get(c, "OPENSBI_FW_TYPE"@)
    &&& b.opensbi_make_flags.deep_view() == conf_get(c, "OPENSBI_MAKE_FLAGS"@)
    &&& b.u_boot_repo.deep_view() == conf_get(c, "U_BOOT_REPO"@)
    &&& b.u_boot_defconfig.deep_view() == conf_get(c, "U_BOOT_DEFCONFIG"@)
    &&& b.u_boot_make_flags.deep_view() == conf_get(c, "U_BOOT_MAKE_FLAGS"@)
    &&& b.grub_platforms.deep_view() == conf_get(c, "GRUB_PLATFORMS"@)
    &&& b.grub_modules.deep_view() == conf_get(c, "GRUB_MODULES"@)
    &&& b.syslinux_repo.deep_view() == conf_get(c, "SYSLINUX_REPO"@)
    &&& b.syslinux_tag.deep_view() == conf_get(c, "SYSLINUX_TAG"@)
    &&& b.tfa_repo.deep_view() == conf_get(c, "TFA_REPO"@)
    &&& b.tfa_tag.deep_view() == conf_get(c, "TFA_TAG"@)
    &&& b.tfa_plat.deep_view() == conf_get(c, "TFA_PLAT"@)
    &&& b.rkbin_repo.deep_view() == conf_get(c, "RKBIN_REPO"@)
    &&& b.rkbin_tag.deep_view() == conf_get(c, "RKBIN_TAG"@)
    &&& b.rkbin_ddr.deep_view() == conf_get(c, "RKBIN_DDR"@)
    &&& b.fip_repo.deep_view() == conf_get(c, "FIP_REPO"@)
    &&& b.fip_tag.deep_view() == conf_get(c, "FIP_TAG"@)
    &&& b.firmware_repo.deep_view() == conf_get(c, "FIRMWARE_REPO"@)
    &&& b.firmware_overlay.deep_view() == conf_get(c, "BOARD_FIRMWARE_OVERLAY"@)
    &&& b.kernel_dtb_glob.deep_view() == conf_get(c, "BOARD_DTB_GLOB"@)
    &&& b.dracut_modules.deep_view() == conf_get(c, "DRACUT_MODULES"@)
    &&& b.root_dev.deep_view() == conf_get(c, "BOOT_ROOT_DEV"@)
    &&& b.console.deep_view() == conf_get(c, "BOOT_CONSOLE"@)
    &&& b.serial_tty.deep_view() == conf_get(c, "BOOT_SERIAL_TTY"@)
    &&& b.serial_baud.deep_view() == conf_get(c, "BOOT_SERIAL_BAUD"@)
    &&& b.kernel_name.deep_view() == conf_get(c, "BOOT_KERNEL_NAME"@)
    &&& b.ramdisk_name.deep_view() == conf_get(c, "BOOT_RAMDISK_NAME"@)
    &&& b.loglevel.deep_view() == conf_get(c, "BOOT_LOGLEVEL"@)
    &&& b.append.deep_view() == conf_get(c, "BOOT_APPEND"@)
    &&& b.dtb_name.deep_view() == conf_get(c, "BOOT_DTB_NAME"@)
    &&& b.image_name.deep_view() == conf_get(c, "IMAGE_NAME"@)
    &&& b.compression.deep_view() == conf_get(c, "COMPRESSION"@)
    &&& b.description.deep_view() == conf_get(c, "DESCRIPTION"@)
    &&& b.u_boot_tag.deep_view() == or_else(conf_get(c, "U_BOOT_TAG"@), conf_get(c, "TAG"@))
    &&& b.firmware_tag.deep_view() == or_else(conf_get(c, "FIRMWARE_TAG"@), conf_get(c, "TAG"@))
    &&& b.kernel_tag@ == match or_else(conf_get(c, "KERNEL_TAG"@), conf_get(c, "TAG"@)) {
        Some(v) => v,
        None => Seq::<char>::empty(),
    }
    &&& b.firmware_dirs.deep_view() == array_or_empty(conf_array(c, "FIRMWARE_DIRS"@))
    &&& b.services.deep_view() == array_or_empty(conf_array(c, "BOOT_SERVICES"@))
    &&& b.build_steps.deep_view() == array_or_empty(conf_array(c, "BUILD_STEPS"@))
    &&& b.workaround_pkgs.deep_view() == array_or_empty(conf_array(c, "WORKAROUND_PKGS"@))
    &&& b.workaround_cflags.deep_view() == array_or_empty(conf_array(c, "WORKAROUND_CFLAGS"@))
    &&& b.includes.deep_view() == words_or_empty(conf_get(c, "INCLUDE"@))
    &&& b.kernel_config_fragments.deep_view() == words_or_empty(conf_get(c, "KERNEL_CONFIG_FRAGMENTS"@))
    &&& b.initramfs_install.deep_view() == array_or_words(c, "INITRAMFS_INSTALL"@)
    &&& b.tags.deep_view() == array_or_words(c, "TAGS"@)
    &&& b.boot_pipeline.deep_view() == conf_array(c, "BOOT_PIPELINE"@)
    &&& b.rootfs_provider == conf_provider(c).unwrap()
    &&& b.suite.deep_view() == match spec_debootstrap_keys(b.rootfs_provider) {
        Some(k) => conf_get(c, k.0),
        None => None,
    }
    &&& b.mirror.deep_view() == match spec_debootstrap_keys(b.rootfs_provider) {
        Some(k) => conf_get(c, k.1),
        None => None,
    }
    &&& b.second_stage == match conf_get(c, "ROOTFS_SECOND_STAGE"@) {
        Some(v) => spec_second_stage(v).unwrap(),
        None => SecondStage::Chroot,
    }
    &&& b.hostname@ == match conf_get(c, "BOOT_HOSTNAME"@) {
        Some(v) => v,
        None => "gentoo"@,
    }
    &&& b.extlinux == match conf_get(c, "BOOT_EXTLINUX"@) {
        Some(v) => is_true_word(v),
        None => false,
    }
    &&& b.isa_strict == match conf_get(c, "ISA_STRICT"@) {
        Some(v) => !is_false_word(v),
        None => true,
    }
}

/// The words of `s`, as owned strings.
fn words_strings(s: &String) -> (r: Vec<String>)
    ensures
        r.deep_view() == text::words(s@),
{
    let cs = chars_of(s.as_str());
    let ws = words_of(cs.as_slice());
    let mut out: Vec<String> = Vec::new();
    let mut i: usize = 0;
    while i < ws.len()
        invariant
            i <= ws@.len(),
            ws@.map_values(|l: Vec<char>| l@) == text::words(s@),
            out.deep_view() == ws@.take(i as int).map_values(|l: Vec<char>| l@),
        decreases ws@.len() - i,
    {
        let ghost before = out.deep_view();
        let w = string_of(ws[i].as_slice());
        out.push(w);
        assert(out.deep_view() =~= before.push(ws@[i as int]@));
        assert(ws@.take(i + 1).map_values(|l: Vec<char>| l@) =~= ws@.take(i as int).map_values(
            |l: Vec<char>| l@,
        ).push(ws@[i as int]@));
        i = i + 1;
    }
    assert(ws@.take(ws@.len() as int) =~= ws@);
    out
}

fn get_or_tag(kv: &ConfText, key: &str) -> (r: Option<String>)
    ensures
        r.deep_view() == or_else(
            crate::conf::last_scalar(kv.scalars_view(), key@),
            crate::conf::last_scalar(kv.scalars_view(), "TAG"@),
        ),
{
    match kv.get(key) {
        Some(v) => Some(v),
        None => kv.get("TAG"),
    }
}

fn array_or_empty_vec(a: Option<Vec<String>>) -> (r: Vec<String>)
    ensures
        r.deep_view() == array_or_empty(a.deep_view()),
{
    match a {
        Some(v) => v,
        None => {
            let v: Vec<String> = Vec::new();
            assert(v.deep_view() =~= Seq::<Seq<char>>::empty());
            v
        },
    }
}

fn scalar_words(kv: &ConfText, key: &str) -> (r: Vec<String>)
    ensures
        r.deep_view() == words_or_empty(crate::conf::last_scalar(kv.scalars_view(), key@)),
{
    match kv.get(key) {
        Some(v) => words_strings(&v),
        None => {
            let v: Vec<String> = Vec::new();
            assert(v.deep_view() =~= Seq::<Seq<char>>::empty());
            v
        },
    }
}

fn array_or_words_vec(kv: &ConfText, key: &str) -> (r: Vec<String>)
    ensures
        r.deep_view() == match crate::conf::last_array(kv.arrays_view(), key@) {
            Some(v) => v,
            None => words_or_empty(crate::conf::last_scalar(kv.scalars_view(), key@)),
        },
{
    match kv.get_array(key) {
        Some(v) => v,
        None => scalar_words(kv, key),
    }
}

fn board_error(path: &str, msg: String) -> (r: Error)
    ensures
        is_board_error(r, path@, msg@),
{
    Error::BoardConfigParse { file: owned(path), msg }
}

fn missing_field(path: &str, key: &str) -> (r: Error)
    ensures
        is_board_error(r, path@, missing_field_msg(key@)),
{
    board_error(path, concat3("missing required field '", key, "'"))
}

/// Parse a board configuration (includes already merged in front of it).
pub fn parse(name: &str, path: &str, content: &str) -> (r: Result<BoardConfig, Error>)
    ensures
        match r {
            Ok(b) => board_parse_error(content@) is None && parsed_board(b, name@, content@),
            Err(e) => board_parse_error(content@) is Some && is_board_error(
                e,
                path@,
                board_parse_error(content@).unwrap(),
            ),
        },
{
    let kv = ConfText::read(content);
    let ghost c = content@;

    // Unknown pipeline stages are refused at load time.
    let boot_pipeline = kv.get_array("BOOT_PIPELINE");
    match &boot_pipeline {
        Some(stages) => {
            let ghost p = stages.deep_view();
            let mut i: usize = 0;
            assert(p.skip(0) =~= p);
            assert(conf_array(c, "BOOT_PIPELINE"@) == Some(p));
            while i < stages.len()
                invariant
                    i <= stages@.len(),
                    p == stages.deep_view(),
                    c == content@,
                    conf_array(c, "BOOT_PIPELINE"@) == Some(p),
                    first_unknown_stage(p) == first_unknown_stage(p.skip(i as int)),
                decreases stages@.len() - i,
            {
                assert(p.skip(i as int).drop_first() =~= p.skip(i + 1));
                assert(p.skip(i as int)[0] == stages@[i as int]@);
                if !bootloader::is_known_stage(stages[i].as_str()) {
                    let m1 = concat3("unknown BOOT_PIPELINE stage '", stages[i].as_str(), "' (known: ");
                    let st = bootloader::stages_text();
                    let msg = concat3(m1.as_str(), st.as_str(), ")");
                    assert(first_unknown_stage(p) == Some(stages@[i as int]@));
                    assert(conf_array(c, "BOOT_PIPELINE"@) == Some(p));
                    return Err(board_error(path, msg));
                }
                i = i + 1;
            }
            assert(p.skip(i as int) =~= Seq::<Seq<char>>::empty());
        },
        None => {},
    }

    let rootfs_provider = match kv.get("ROOTFS_PROVIDER") {
        Some(v) => match RootfsProvider::parse(v.as_str()) {
            Some(p) => p,
            None => {
                let msg = concat3(
                    "unknown ROOTFS_PROVIDER '",
                    v.as_str(),
                    "' (valid: gentoo, debian, ubuntu, alpine, fedora, buildroot, openwrt, none)",
                );
                return Err(board_error(path, msg));
            },
        },
        None => RootfsProvider::default(),
    };
    let deb = rootfs_provider.debootstrap();
    let second_stage = match kv.get("ROOTFS_SECOND_STAGE") {
        Some(v) => {
            if deb.is_none() {
                let msg = concat3(
                    "ROOTFS_SECOND_STAGE '",
                    v.as_str(),
                    "' only applies to a debootstrap provider (debian, ubuntu)",
                );
                return Err(board_error(path, msg));
            }
            match SecondStage::parse(v.as_str()) {
                Some(s) => s,
                None => {
                    let msg = concat3(
                        "unknown ROOTFS_SECOND_STAGE '",
                        v.as_str(),
                        "' (valid: chroot, first-boot)",
                    );
                    return Err(board_error(path, msg));
                },
            }
        },
        None => SecondStage::default(),
    };

    let arch = match kv.get("BOARD_ARCH") {
        Some(v) => v,
        None => return Err(missing_field(path, "BOARD_ARCH")),
    };
    let cross_compile = match kv.get("CROSS_COMPILE") {
        Some(v) => v,
        None => return Err(missing_field(path, "CROSS_COMPILE")),
    };
    let kernel_repo = match kv.get("KERNEL_REPO") {
        Some(v) => v,
        None => return Err(missing_field(path, "KERNEL_REPO")),
    };
    let kernel_defconfig = match kv.get("KERNEL_DEFCONFIG") {
        Some(v) => v,
        None => return Err(missing_field(path, "KERNEL_DEFCONFIG")),
    };

    let suite = match &deb {
        Some(d) => kv.get(d.suite_key),
        None => None,
    };
    let mirror = match &deb {
        Some(d) => kv.get(d.mirror_key),
        None => None,
    };
    let kernel_tag = match get_or_tag(&kv, "KERNEL_TAG") {
        Some(v) => v,
        None => String::new(),
    };
    let hostname = match kv.get("BOOT_HOSTNAME") {
        Some(v) => v,
        None => owned("gentoo"),
    };
    let extlinux = match kv.get("BOOT_EXTLINUX") {
        Some(v) => text_eq(v.as_str(), "true") || text_eq(v.as_str(), "yes") || text_eq(
            v.as_str(),
            "1",
        ),
        None => false,
    };
    let isa_strict = match kv.get("ISA_STRICT") {
        Some(v) => !(text_eq(v.as_str(), "false") || text_eq(v.as_str(), "no") || text_eq(
            v.as_str(),
            "0",
        )),
        None => true,
    };

    let b = BoardConfig {
        name: owned(name),
        arch,
        cross_compile,
        kernel_repo,
        kernel_defconfig,
        kernel_tag,
        rootfs_provider,
        suite,
        mirror,
        second_stage,
        boot_pipeline,
        hostname,
        extlinux,
        isa_strict,
        chost_override: kv.get("CHOST"),
        cflags: kv.get("BOARD_CFLAGS"),
        ldflags: kv.get("BOARD_LDFLAGS"),
        rustflags: kv.get("BOARD_RUSTFLAGS"),
        gcc_version: kv.get("BOARD_GCC_VERSION"),
        kernel_arch: kv.get("KERNEL_ARCH"),
        alpine_branch: kv.get("ALPINE_BRANCH"),
        alpine_mirror: kv.get("ALPINE_MIRROR"),
        alpine_repos: kv.get("ALPINE_REPOS"),
        fedora_release: kv.get("FEDORA_RELEASE"),
        fedora_mirror: kv.get("FEDORA_MIRROR"),
        buildroot_defconfig: kv.get("BUILDROOT_DEFCONFIG"),
        buildroot_repo: kv.get("BUILDROOT_REPO"),
        buildroot_tag: kv.get("BUILDROOT_TAG"),
        openwrt_release: kv.get("OPENWRT_RELEASE"),
        openwrt_target: kv.get("OPENWRT_TARGET"),
        openwrt_subtarget: kv.get("OPENWRT_SUBTARGET"),
        openwrt_profile: kv.get("OPENWRT_PROFILE"),
        openwrt_mirror: kv.get("OPENWRT_MIRROR"),
        openwrt_sha256: kv.get("OPENWRT_SHA256"),
        opensbi_repo: kv.get("OPENSBI_REPO"),
        opensbi_tag: kv.get("OPENSBI_TAG"),
        opensbi_platform: kv.get("OPENSBI_PLATFORM"),
        opensbi_fw_type: kv.get("OPENSBI_FW_TYPE"),
        opensbi_make_flags: kv.get("OPENSBI_MAKE_FLAGS"),
        u_boot_repo: kv.get("U_BOOT_REPO"),
        u_boot_defconfig: kv.get("U_BOOT_DEFCONFIG"),
        u_boot_make_flags: kv.get("U_BOOT_MAKE_FLAGS"),
        grub_platforms: kv.get("GRUB_PLATFORMS"),
        grub_modules: kv.get("GRUB_MODULES"),
        syslinux_repo: kv.get("SYSLINUX_REPO"),
        syslinux_tag: kv.get("SYSLINUX_TAG"),
        tfa_repo: kv.get("TFA_REPO"),
        tfa_tag: kv.get("TFA_TAG"),
        tfa_plat: kv.get("TFA_PLAT"),
        rkbin_repo: kv.get("RKBIN_REPO"),
        rkbin_tag: kv.get("RKBIN_TAG"),
        rkbin_ddr: kv.get("RKBIN_DDR"),
        fip_repo: kv.get("FIP_REPO"),
        fip_tag: kv.get("FIP_TAG"),
        firmware_repo: kv.get("FIRMWARE_REPO"),
        firmware_overlay: kv.get("BOARD_FIRMWARE_OVERLAY"),
        kernel_dtb_glob: kv.get("BOARD_DTB_GLOB"),
        dracut_modules: kv.get("DRACUT_MODULES"),
        root_dev: kv.get("BOOT_ROOT_DEV"),
        console: kv.get("BOOT_CONSOLE"),
        serial_tty: kv.get("BOOT_SERIAL_TTY"),
        serial_baud: kv.get("BOOT_SERIAL_BAUD"),
        kernel_name: kv.get("BOOT_KERNEL_NAME"),
        ramdisk_name: kv.get("BOOT_RAMDISK_NAME"),
        loglevel: kv.get("BOOT_LOGLEVEL"),
        append: kv.get("BOOT_APPEND"),
        dtb_name: kv.get("BOOT_DTB_NAME"),
        image_name: kv.get("IMAGE_NAME"),
        compression: kv.get("COMPRESSION"),
        description: kv.get("DESCRIPTION"),
        u_boot_tag: get_or_tag(&kv, "U_BOOT_TAG"),
        firmware_tag: get_or_tag(&kv, "FIRMWARE_TAG"),
        firmware_dirs: array_or_empty_vec(kv.get_array("FIRMWARE_DIRS")),
        services: array_or_empty_vec(kv.get_array("BOOT_SERVICES")),
        build_steps: array_or_empty_vec(kv.get_array("BUILD_STEPS")),
        workaround_pkgs: array_or_empty_vec(kv.get_array("WORKAROUND_PKGS")),
        workaround_cflags: array_or_empty_vec(kv.get_array("WORKAROUND_CFLAGS")),
        includes: scalar_words(&kv, "INCLUDE"),
        kernel_config_fragments: scalar_words(&kv, "KERNEL_CONFIG_FRAGMENTS"),
        initramfs_install: array_or_words_vec(&kv, "INITRAMFS_INSTALL"),
        tags: array_or_words_vec(&kv, "TAGS"),    };
    Ok(b)
}

} // verus!

verus! {

/// The steps `image build` runs for a board that does not list its own.
pub open spec fn default_build_steps() -> Seq<Seq<char>> {
    seq!["deps"@, "checkout"@, "bootloader"@, "kernel"@, "assemble"@, "pack"@]
}

/// The value of the first `INCLUDE=` line of `ls`, if any.
pub open spec fn include_value(ls: Seq<Seq<char>>) -> Option<Seq<char>>
    decreases ls.len(),
{
    if ls.len() == 0 {
        None
    } else {
        match text::strip_prefix(text::trim(ls[0]), "INCLUDE="@) {
            Some(v) => Some(v),
            None => include_value(ls.drop_first()),
        }
    }
}

/// The `INCLUDE` list a board declares: the first `INCLUDE=` line, unquoted,
/// split at whitespace.
pub open spec fn spec_includes_of(content: Seq<char>) -> Seq<Seq<char>> {
    match include_value(text::lines(content)) {
        Some(v) => text::words(text::trim_in(text::trim(v), '"', '\'')),
        None => seq![],
    }
}

/// The text the parser reads: each include followed by a newline, then the
/// board's own file.
pub open spec fn merged_text(includes: Seq<Seq<char>>, content: Seq<char>) -> Seq<char>
    decreases includes.len(),
{
    if includes.len() == 0 {
        content
    } else {
        includes[0] + "\n"@ + merged_text(includes.drop_first(), content)
    }
}

/// The arches whose GNU triple names the `pc` vendor: the x86 family.
pub open spec fn is_pc_arch(arch: Seq<char>) -> bool {
    arch == "i386"@ || arch == "i486"@ || arch == "i586"@ || arch == "i686"@ || arch == "x86_64"@
}

/// The arch-to-CHOST table: the triple it lists for `arch`, if it lists one
/// (`i586` gives `i586-pc-linux-gnu`).
pub open spec fn spec_chost_for_arch(arch: Seq<char>) -> Option<Seq<char>> {
    if is_pc_arch(arch) {
        Some(arch + "-pc-linux-gnu"@)
    } else {
        None
    }
}

/// The CHOST derived from an arch: the table's entry, else
/// `<arch>-unknown-linux-gnu`.
pub open spec fn spec_arch_chost(arch: Seq<char>) -> Seq<char> {
    match spec_chost_for_arch(arch) {
        Some(c) => c,
        None => arch + "-unknown-linux-gnu"@,
    }
}

/// The CHOST a board builds for: its `CHOST`, else the one derived from its
/// arch.
pub open spec fn spec_chost(b: BoardConfig) -> Seq<char> {
    match b.chost_override {
        Some(c) => c@,
        None => spec_arch_chost(b.arch@),
    }
}

/// Looks `arch` up in the arch-to-CHOST table.
pub fn chost_for_arch(arch: &str) -> (r: Option<String>)
    ensures
        match r {
            Some(c) => spec_chost_for_arch(arch@) == Some(c@),
            None => spec_chost_for_arch(arch@) is None,
        },
{
    if text_eq(arch, "i386") || text_eq(arch, "i486") || text_eq(arch, "i586") || text_eq(
        arch,
        "i686",
    ) || text_eq(arch, "x86_64") {
        Some(concat(arch, "-pc-linux-gnu"))
    } else {
        None
    }
}

/// The CHOST derived from an arch: the table's entry, else
/// `<arch>-unknown-linux-gnu`.
pub fn arch_chost(arch: &str) -> (r: String)
    ensures
        r@ == spec_arch_chost(arch@),
{
    match chost_for_arch(arch) {
        Some(c) => c,
        None => concat(arch, "-unknown-linux-gnu"),
    }
}

/// The CFLAGS a board builds with: its `BOARD_CFLAGS`, else the arch default.
pub open spec fn spec_effective_cflags(b: BoardConfig, arch_default: Seq<char>) -> Seq<char> {
    match b.cflags {
        Some(c) => c@,
        None => arch_default,
    }
}

/// The first workaround flag set that cannot name a store key.
pub open spec fn first_bad_workaround(fs: Seq<Seq<char>>) -> Option<Seq<char>>
    decreases fs.len(),
{
    if fs.len() == 0 {
        None
    } else {
        match crate::cflags::cflags_refusal(fs[0]) {
            Some(m) => Some(m),
            None => first_bad_workaround(fs.drop_first()),
        }
    }
}

/// Why a board's CFLAGS are refused, if they are.
pub open spec fn cflags_problem(b: BoardConfig, arch_default: Seq<char>) -> Option<Seq<char>> {
    let own = crate::cflags::cflags_refusal(spec_effective_cflags(b, arch_default));
    if own is Some {
        Some("BOARD_CFLAGS: "@ + own.unwrap())
    } else if b.workaround_pkgs@.len() != b.workaround_cflags@.len() {
        Some("WORKAROUND_PKGS has "@ + crate::hash::decimal(b.workaround_pkgs@.len())
            + " entries and WORKAROUND_CFLAGS has "@ + crate::hash::decimal(
            b.workaround_cflags@.len(),
        ) + "; they are read pairwise"@)
    } else if first_bad_workaround(b.workaround_cflags.deep_view()) is Some {
        Some("WORKAROUND_CFLAGS: "@ + first_bad_workaround(b.workaround_cflags.deep_view()).unwrap())
    } else {
        None
    }
}

impl BoardConfig {
    /// The steps this board builds through: its own list, or the default.
    pub fn effective_build_steps(&self) -> (r: Vec<&str>)
        ensures
            r@.map_values(|s: &str| s@) == if self.build_steps@.len() == 0 {
                default_build_steps()
            } else {
                self.build_steps.deep_view()
            },
    {
        let mut out: Vec<&str> = Vec::new();
        if self.build_steps.len() == 0 {
            out.push("deps");
            out.push("checkout");
            out.push("bootloader");
            out.push("kernel");
            out.push("assemble");
            out.push("pack");
            assert(out@.map_values(|s: &str| s@) =~= default_build_steps());
        } else {
            let mut i: usize = 0;
            while i < self.build_steps.len()
                invariant
                    i <= self.build_steps@.len(),
                    out@.map_values(|s: &str| s@) == self.build_steps.deep_view().take(i as int),
                decreases self.build_steps@.len() - i,
            {
                let ghost before = out@.map_values(|s: &str| s@);
                out.push(self.build_steps[i].as_str());
                assert(out@.map_values(|s: &str| s@) =~= before.push(self.build_steps@[i as int]@));
                assert(self.build_steps.deep_view().take(i + 1) =~= self.build_steps.deep_view().take(
                    i as int,
                ).push(self.build_steps@[i as int]@));
                i = i + 1;
            }
            assert(self.build_steps.deep_view().take(i as int) =~= self.build_steps.deep_view());
        }
        out
    }

    /// The CHOST triple: `CHOST` from board.conf, else the one derived from
    /// the arch (`i586-pc-linux-gnu`, `riscv64-unknown-linux-gnu`).
    pub fn chost(&self) -> (r: String)
        ensures
            r@ == spec_chost(*self),
    {
        match &self.chost_override {
            Some(c) => c.clone(),
            None => arch_chost(self.arch.as_str()),
        }
    }

    /// Effective CFLAGS: the board's own, else `arch_default`, the default
    /// for its arch.
    pub fn effective_cflags(&self, arch_default: &str) -> (r: String)
        ensures
            r@ == spec_effective_cflags(*self, arch_default@),
    {
        match &self.cflags {
            Some(c) => c.clone(),
            None => owned(arch_default),
        }
    }

    /// Effective firmware checkout ref: `FIRMWARE_TAG` (which falls back to
    /// `TAG`), else the U-Boot tag, else `main`.
    pub fn effective_firmware_tag(&self) -> (r: String)
        ensures
            r@ == match self.firmware_tag {
                Some(t) => t@,
                None => match self.u_boot_tag {
                    Some(t) => t@,
                    None => "main"@,
                },
            },
    {
        match &self.firmware_tag {
            Some(t) => t.clone(),
            None => match &self.u_boot_tag {
                Some(t) => t.clone(),
                None => owned("main"),
            },
        }
    }
}

/// The `INCLUDE` list a board declares, read before parsing because it
/// decides what the parse input is.
pub fn includes_of(content: &str) -> (r: Vec<String>)
    ensures
        r.deep_view() == spec_includes_of(content@),
{
    let cs = chars_of(content);
    let ls = lines_of(cs.as_slice());
    let ghost lv = ls@.map_values(|l: Vec<char>| l@);
    let prefix = chars_of("INCLUDE=");
    proof {
        reveal_strlit("INCLUDE=");
    }
    let mut i: usize = 0;
    assert(lv.skip(0) =~= lv);
    while i < ls.len()
        invariant
            i <= ls@.len(),
            lv == ls@.map_values(|l: Vec<char>| l@),
            lv == text::lines(content@),
            prefix@ == "INCLUDE="@,
            prefix@.len() == 8,
            include_value(lv) == include_value(lv.skip(i as int)),
        decreases ls@.len() - i,
    {
        assert(lv.skip(i as int).drop_first() =~= lv.skip(i + 1));
        assert(lv.skip(i as int)[0] == ls@[i as int]@);
        let line = trim_chars(ls[i].as_slice());
        if starts_with_chars(line.as_slice(), prefix.as_slice()) {
            let n = line.len();
            let value = slice_of(line.as_slice(), 8, n);
            assert(value@ =~= line@.skip(8));
            let t = trim_chars(value.as_slice());
            let u = trim_in_chars(t.as_slice(), '"', '\'');
            let s = string_of(u.as_slice());
            return words_strings(&s);
        }
        i = i + 1;
    }
    assert(lv.skip(i as int) =~= Seq::<Seq<char>>::empty());
    let v: Vec<String> = Vec::new();
    assert(v.deep_view() =~= Seq::<Seq<char>>::empty());
    v
}

/// The text the parser reads for a board whose includes read `includes`.
pub fn merge_includes(includes: &Vec<String>, content: &str) -> (r: String)
    ensures
        r@ == merged_text(includes.deep_view(), content@),
{
    let mut out = String::new();
    let mut i: usize = 0;
    let ghost iv = includes.deep_view();
    assert(iv.skip(0) =~= iv);
    while i < includes.len()
        invariant
            i <= includes@.len(),
            iv == includes.deep_view(),
            out@ + merged_text(iv.skip(i as int), content@) == merged_text(iv, content@),
        decreases includes@.len() - i,
    {
        assert(iv.skip(i as int).drop_first() =~= iv.skip(i + 1));
        assert(iv.skip(i as int)[0] == includes@[i as int]@);
        let ghost before = out@;
        out.append(includes[i].as_str());
        out.append("\n");
        assert(before + merged_text(iv.skip(i as int), content@) =~= out@ + merged_text(
            iv.skip(i + 1),
            content@,
        ));
        i = i + 1;
    }
    assert(iv.skip(i as int) =~= Seq::<Seq<char>>::empty());
    let ghost before = out@;
    out.append(content);
    assert(out@ =~= before + content@);
    out
}

/// Refuse a board whose CFLAGS cannot name a binary-package cache, before
/// any of it is built.
pub fn check_cflags(board: &BoardConfig, path: &str, arch_default: &str) -> (r: Result<(), Error>)
    ensures
        match r {
            Ok(()) => cflags_problem(*board, arch_default@) is None,
            Err(e) => cflags_problem(*board, arch_default@) is Some && is_board_error(
                e,
                path@,
                cflags_problem(*board, arch_default@).unwrap(),
            ),
        },
{
    let own = board.effective_cflags(arch_default);
    match crate::cflags::check(own.as_str()) {
        Ok(()) => {},
        Err(m) => return Err(board_error(path, concat("BOARD_CFLAGS: ", m.as_str()))),
    }
    let np = board.workaround_pkgs.len();
    let nc = board.workaround_cflags.len();
    if np != nc {
        let a = crate::hash::decimal_string(np as u64);
        let b = crate::hash::decimal_string(nc as u64);
        let m1 = concat3("WORKAROUND_PKGS has ", a.as_str(), " entries and WORKAROUND_CFLAGS has ");
        let msg = concat3(m1.as_str(), b.as_str(), "; they are read pairwise");
        return Err(board_error(path, msg));
    }
    let ghost fs = board.workaround_cflags.deep_view();
    let mut i: usize = 0;
    assert(fs.skip(0) =~= fs);
    while i < nc
        invariant
            i <= nc,
            nc == board.workaround_cflags@.len(),
            nc == board.workaround_pkgs@.len(),
            crate::cflags::cflags_refusal(spec_effective_cflags(*board, arch_default@)) is None,
            fs == board.workaround_cflags.deep_view(),
            first_bad_workaround(fs) == first_bad_workaround(fs.skip(i as int)),
        decreases nc - i,
    {
        assert(fs.skip(i as int).drop_first() =~= fs.skip(i + 1));
        assert(fs.skip(i as int)[0] == board.workaround_cflags@[i as int]@);
        match crate::cflags::check(board.workaround_cflags[i].as_str()) {
            Ok(()) => {},
            Err(m) => return Err(board_error(path, concat("WORKAROUND_CFLAGS: ", m.as_str()))),
        }
        i = i + 1;
    }
    assert(fs.skip(i as int) =~= Seq::<Seq<char>>::empty());
    Ok(())
}

/// Why the CFLAGS of the board a config text describes are refused.
pub open spec fn conf_cflags_problem(c: Seq<char>, arch_default: Seq<char>) -> Option<Seq<char>> {
    let own = crate::cflags::cflags_refusal(
        match conf_get(c, "BOARD_CFLAGS"@) {
            Some(v) => v,
            None => arch_default,
        },
    );
    let pkgs = array_or_empty(conf_array(c, "WORKAROUND_PKGS"@));
    let fl = array_or_empty(conf_array(c, "WORKAROUND_CFLAGS"@));
    if own is Some {
        Some("BOARD_CFLAGS: "@ + own.unwrap())
    } else if pkgs.len() != fl.len() {
        Some("WORKAROUND_PKGS has "@ + crate::hash::decimal(pkgs.len())
            + " entries and WORKAROUND_CFLAGS has "@ + crate::hash::decimal(fl.len())
            + "; they are read pairwise"@)
    } else if first_bad_workaround(fl) is Some {
        Some("WORKAROUND_CFLAGS: "@ + first_bad_workaround(fl).unwrap())
    } else {
        None
    }
}

/// Why a board file with its includes is refused, in the order the checks
/// run; `None` when it loads.
pub open spec fn load_problem(includes: Seq<Seq<char>>, content: Seq<char>, arch_default: Seq<
    char,
>) -> Option<Seq<char>> {
    let c = merged_text(includes, content);
    match board_parse_error(c) {
        Some(m) => Some(m),
        None => conf_cflags_problem(c, arch_default),
    }
}

proof fn lemma_cflags_problem_of_parsed(b: BoardConfig, name: Seq<char>, c: Seq<char>, d: Seq<char>)
    requires
        parsed_board(b, name, c),
    ensures
        cflags_problem(b, d) == conf_cflags_problem(c, d),
{
    assert(b.workaround_pkgs@.len() == b.workaround_pkgs.deep_view().len());
    assert(b.workaround_cflags@.len() == b.workaround_cflags.deep_view().len());
}

/// Build a board from its own file and the texts of its includes (in the
/// order `includes_of` lists them): merge, parse, and refuse CFLAGS that
/// cannot name a cache.  `arch_default` is the default CFLAGS of the arch.
pub fn assemble(
    name: &str,
    path: &str,
    content: &str,
    includes: &Vec<String>,
    arch_default: &str,
) -> (r: Result<BoardConfig, Error>)
    ensures
        match r {
            Ok(b) => load_problem(includes.deep_view(), content@, arch_default@) is None
                && parsed_board(b, name@, merged_text(includes.deep_view(), content@)),
            Err(e) => load_problem(includes.deep_view(), content@, arch_default@) is Some
                && is_board_error(
                e,
                path@,
                load_problem(includes.deep_view(), content@, arch_default@).unwrap(),
            ),
        },
{
    let merged = merge_includes(includes, content);
    let board = parse(name, path, merged.as_str())?;
    proof {
        lemma_cflags_problem_of_parsed(board, name@, merged@, arch_default@);
    }
    check_cflags(&board, path, arch_default)?;
    Ok(board)
}

} // verus!

verus! {

/// A minimal board for `arch`, used when no board is named: nothing set but
/// its name, arch and cross prefix (the CHOST derived from the arch, then `-`).
pub fn default_board_config(arch: &str) -> (r: BoardConfig)
    ensures
        r.name@ == arch@,
        r.arch@ == arch@,
        r.chost_override is None,
        r.cflags is None,
        r.includes@.len() == 0,
        r.ldflags is None,
        r.rustflags is None,
        r.gcc_version is None,
        r.cross_compile@ == spec_arch_chost(arch@) + "-"@,
        r.kernel_arch is None,
        r.rootfs_provider == RootfsProvider::Gentoo,
        r.suite is None,
        r.mirror is None,
        r.second_stage == SecondStage::Chroot,
        r.alpine_branch is None,
        r.alpine_mirror is None,
        r.alpine_repos is None,
        r.fedora_release is None,
        r.fedora_mirror is None,
        r.buildroot_defconfig is None,
        r.buildroot_repo is None,
        r.buildroot_tag is None,
        r.openwrt_release is None,
        r.openwrt_target is None,
        r.openwrt_subtarget is None,
        r.openwrt_profile is None,
        r.openwrt_mirror is None,
        r.openwrt_sha256 is None,
        r.opensbi_repo is None,
        r.opensbi_tag is None,
        r.opensbi_platform is None,
        r.opensbi_fw_type is None,
        r.opensbi_make_flags is None,
        r.u_boot_repo is None,
        r.u_boot_tag is None,
        r.u_boot_defconfig is None,
        r.u_boot_make_flags is None,
        r.grub_platforms is None,
        r.grub_modules is None,
        r.syslinux_repo is None,
        r.syslinux_tag is None,
        r.tfa_repo is None,
        r.tfa_tag is None,
        r.tfa_plat is None,
        r.rkbin_repo is None,
        r.rkbin_tag is None,
        r.rkbin_ddr is None,
        r.fip_repo is None,
        r.fip_tag is None,
        r.boot_pipeline is None,
        r.firmware_repo is None,
        r.firmware_tag is None,
        r.firmware_overlay is None,
        r.firmware_dirs@.len() == 0,
        r.kernel_repo@.len() == 0,
        r.kernel_tag@.len() == 0,
        r.kernel_defconfig@.len() == 0,
        r.kernel_config_fragments@.len() == 0,
        r.kernel_dtb_glob is None,
        r.dracut_modules is None,
        r.initramfs_install@.len() == 0,
        r.root_dev is None,
        r.console is None,
        r.hostname@ == "gentoo"@,
        r.serial_tty is None,
        r.serial_baud is None,
        r.kernel_name is None,
        r.ramdisk_name is None,
        r.loglevel is None,
        !r.extlinux,
        r.append is None,
        r.dtb_name is None,
        r.isa_strict,
        r.services@.len() == 0,
        r.build_steps@.len() == 0,
        r.workaround_pkgs@.len() == 0,
        r.workaround_cflags@.len() == 0,
        r.image_name is None,
        r.compression is None,
        r.tags@.len() == 0,
        r.description is None,
{
    let chost = arch_chost(arch);
    let cross = concat(chost.as_str(), "-");
    BoardConfig {
        name: owned(arch),
        arch: owned(arch),
        chost_override: None,
        cflags: None,
        includes: Vec::new(),
        ldflags: None,
        rustflags: None,
        gcc_version: None,
        cross_compile: cross,
        kernel_arch: None,
        rootfs_provider: RootfsProvider::Gentoo,
        suite: None,
        mirror: None,
        second_stage: SecondStage::Chroot,
        alpine_branch: None,
        alpine_mirror: None,
        alpine_repos: None,
        fedora_release: None,
        fedora_mirror: None,
        buildroot_defconfig: None,
        buildroot_repo: None,
        buildroot_tag: None,
        openwrt_release: None,
        openwrt_target: None,
        openwrt_subtarget: None,
        openwrt_profile: None,
        openwrt_mirror: None,
        openwrt_sha256: None,
        opensbi_repo: None,
        opensbi_tag: None,
        opensbi_platform: None,
        opensbi_fw_type: None,
        opensbi_make_flags: None,
        u_boot_repo: None,
        u_boot_tag: None,
        u_boot_defconfig: None,
        u_boot_make_flags: None,
        grub_platforms: None,
        grub_modules: None,
        syslinux_repo: None,
        syslinux_tag: None,
        tfa_repo: None,
        tfa_tag: None,
        tfa_plat: None,
        rkbin_repo: None,
        rkbin_tag: None,
        rkbin_ddr: None,
        fip_repo: None,
        fip_tag: None,
        boot_pipeline: None,
        firmware_repo: None,
        firmware_tag: None,
        firmware_overlay: None,
        firmware_dirs: Vec::new(),
        kernel_repo: String::new(),
        kernel_tag: String::new(),
        kernel_defconfig: String::new(),
        kernel_config_fragments: Vec::new(),
        kernel_dtb_glob: None,
        dracut_modules: None,
        initramfs_install: Vec::new(),
        root_dev: None,
        console: None,
        hostname: owned("gentoo"),
        serial_tty: None,
        serial_baud: None,
        kernel_name: None,
        ramdisk_name: None,
        loglevel: None,
        extlinux: false,
        append: None,
        dtb_name: None,
        isa_strict: true,
        services: Vec::new(),
        build_steps: Vec::new(),
        workaround_pkgs: Vec::new(),
        workaround_cflags: Vec::new(),
        image_name: None,
        compression: None,
        tags: Vec::new(),
        description: None,
    }
}

} // verus!

verus! {

/// The value of `key` the includes give: that of the last include that
/// assigns it.
pub open spec fn included_value(includes: Seq<Seq<char>>, key: Seq<char>) -> Option<Seq<char>>
    decreases includes.len(),
{
    if includes.len() == 0 {
        None
    } else {
        let later = included_value(includes.drop_first(), key);
        if later is Some {
            later
        } else {
            crate::conf::conf_get(includes[0], key)
        }
    }
}

/// The array `key` the includes give: that of the last include that
/// assigns it.
pub open spec fn included_array(includes: Seq<Seq<char>>, key: Seq<char>) -> Option<Seq<Seq<char>>>
    decreases includes.len(),
{
    if includes.len() == 0 {
        None
    } else {
        let later = included_array(includes.drop_first(), key);
        if later is Some {
            later
        } else {
            crate::conf::conf_array(includes[0], key)
        }
    }
}

/// Includes go in front of the board's own lines and the last assignment
/// wins: a key the board's file assigns has the board's value, whatever
/// its includes say; any other key has the value of the last include that
/// assigns it.
pub proof fn law_board_wins_over_includes(includes: Seq<Seq<char>>, content: Seq<char>, key: Seq<char>)
    ensures
        crate::conf::conf_get(merged_text(includes, content), key) == (if crate::conf::conf_get(content, key) is Some {
            crate::conf::conf_get(content, key)
        } else {
            included_value(includes, key)
        }),
        crate::conf::conf_array(merged_text(includes, content), key) == (if crate::conf::conf_array(content, key) is Some {
            crate::conf::conf_array(content, key)
        } else {
            included_array(includes, key)
        }),
    decreases includes.len(),
{
    if includes.len() > 0 {
        law_board_wins_over_includes(includes.drop_first(), content, key);
        crate::conf::lemma_conf_join(includes[0], merged_text(includes.drop_first(), content), key);
    }
}

} // verus!
