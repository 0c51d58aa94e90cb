use crossdev_stages::binpkg_meta::{drift, split_pv, Toolchain};
use crossdev_stages::board::{default_board_config, BoardConfig};
use crossdev_stages::cflags::{canonicalize, check};
use crossdev_stages::chroot::binfmt_handler;
use crossdev_stages::image::{atom_cpn, extlinux_conf, extlinux_fdt, kernel_config_fragments};
use crossdev_stages::isa::{parse_arch, set_minus, strip_version};
use crossdev_stages::manifest::{parse_partitions, ManifestBuilder};
use crossdev_stages::package_list::{merge, parse, Entry};

const ARCH_CFLAGS: &str = "-O2 -pipe";

#[test]
fn a_package_name_splits_at_the_version() {
    assert_eq!(split_pv("gcc-16.2.9999"), Some(("gcc", "16.2.9999")));
    assert_eq!(split_pv("glibc-2.43-r2"), Some(("glibc", "2.43-r2")));
    assert_eq!(
        split_pv("clang-crossdev-wrappers-21"),
        Some(("clang-crossdev-wrappers", "21"))
    );
    assert_eq!(split_pv("no-version-here"), None);
}

#[test]
fn a_cache_with_no_stamp_reports_no_drift() {
    let mut now = Toolchain::new();
    now.insert("gcc".into(), "16.2.9999".into());
    assert!(drift(&Toolchain::new(), &now).is_empty());
}

#[test]
fn a_moved_toolchain_is_named_in_both_directions() {
    let mut old = Toolchain::new();
    old.insert("gcc".into(), "16.1.0".into());
    old.insert("rust-std".into(), "1.94.1".into());
    let mut new = Toolchain::new();
    new.insert("gcc".into(), "16.2.9999".into());
    new.insert("glibc".into(), "2.43-r2".into());
    let moved = drift(&old, &new);
    assert!(moved.contains(&"gcc 16.1.0 -> 16.2.9999".to_string()));
    assert!(moved.contains(&"glibc 2.43-r2 (new)".to_string()));
    assert!(moved.contains(&"rust-std gone".to_string()));
}

#[test]
fn each_arch_names_the_handler_that_would_run_it() {
    assert_eq!(binfmt_handler("riscv64"), Some("qemu-riscv64"));
    assert_eq!(binfmt_handler("armv7a"), Some("qemu-arm"));
    assert_eq!(binfmt_handler("i586"), Some("qemu-i386"));
}

#[test]
fn the_host_architecture_needs_no_handler() {
    assert_eq!(binfmt_handler("x86_64"), None);
}

fn board_with(fragments: &[&str]) -> BoardConfig {
    let mut board = default_board_config("riscv64");
    board.name = "demo".into();
    board.kernel_config_fragments = fragments.iter().map(|s| s.to_string()).collect();
    board
}

#[test]
fn no_fragments_generates_nothing() {
    assert!(kernel_config_fragments(&board_with(&[])).is_empty());
}

#[test]
fn a_fragment_is_looked_up_board_first_then_defaults() {
    let script = kernel_config_fragments(&board_with(&["riscv64-no-vector"]));
    assert!(script.contains("/scripts/boards/demo/kernel-config/riscv64-no-vector"));
    assert!(script.contains("/scripts/defaults/kernel-config/riscv64-no-vector"));
    assert!(script.contains("kernel config lost"));
    assert!(script.contains("came back on"));
}

fn extlinux_board() -> BoardConfig {
    let mut board = board_with(&[]);
    board.extlinux = true;
    board.kernel_name = Some("Image".into());
    board.root_dev = Some("PARTUUID=${BOOT_PART_UUID_2}".into());
    board.console = Some("ttyS2,1500000".into());
    board.append = Some("earlycon".into());
    board.kernel_dtb_glob = Some("arch/arm64/boot/dts/rockchip/rk3568-odroid-m1.dtb".into());
    board
}

#[test]
fn an_exact_dtb_path_names_the_device_tree_by_itself() {
    let board = extlinux_board();
    assert_eq!(
        extlinux_fdt(&board).unwrap().as_deref(),
        Some("rk3568-odroid-m1.dtb")
    );
}

#[test]
fn a_dtb_glob_has_to_be_narrowed_by_hand() {
    let mut board = extlinux_board();
    board.kernel_dtb_glob = Some("arch/arm64/boot/dts/rockchip/*.dtb".into());
    assert!(extlinux_fdt(&board).is_err());
    board.dtb_name = Some("rk3588s-odroid-m2.dtb".into());
    assert_eq!(
        extlinux_fdt(&board).unwrap().as_deref(),
        Some("rk3588s-odroid-m2.dtb")
    );
}

#[test]
fn the_written_config_is_an_extlinux_file_with_the_partuuid_expanded() {
    let script = extlinux_conf(&extlinux_board(), ARCH_CFLAGS).unwrap();
    assert!(script.contains("export BOOT_PART_UUID_2="));
    let body = script.split("<<EOF\n").nth(1).unwrap();
    assert_eq!(
        body,
        "DEFAULT linux\n\
         TIMEOUT 30\n\
         LABEL linux\n    \
         MENU LABEL demo\n    \
         LINUX /Image\n    \
         FDT /rk3568-odroid-m1.dtb\n    \
         APPEND root=PARTUUID=${BOOT_PART_UUID_2} rw rootwait \
         rootfstype=ext4 console=ttyS2,1500000 earlycon\n\
         EOF\n"
    );
}

#[test]
fn extlinux_without_a_kernel_name_is_rejected() {
    let mut board = extlinux_board();
    board.kernel_name = None;
    assert!(extlinux_conf(&board, ARCH_CFLAGS).is_err());
}

#[test]
fn an_atom_reduces_to_the_directory_that_would_hold_it() {
    assert_eq!(atom_cpn("media-libs/mesa"), Some(("media-libs", "mesa")));
    assert_eq!(atom_cpn("=sys-apps/busybox-1.38.0"), Some(("sys-apps", "busybox")));
    assert_eq!(atom_cpn(">=media-libs/x264-0.164"), Some(("media-libs", "x264")));
    assert_eq!(atom_cpn("dev-lang/rust:stable"), Some(("dev-lang", "rust")));
    assert_eq!(
        atom_cpn("media-plugins/gst-plugins-v4l2"),
        Some(("media-plugins", "gst-plugins-v4l2"))
    );
    assert_eq!(atom_cpn("no-category-here"), None);
}

#[test]
fn a_revision_goes_with_the_version() {
    assert_eq!(atom_cpn("=sys-libs/glibc-2.43-r2"), Some(("sys-libs", "glibc")));
    assert_eq!(atom_cpn("~dev-libs/libfoo-1.0_rc1-r3:0/1"), Some(("dev-libs", "libfoo")));
    assert_eq!(atom_cpn("x11-libs/gtk+-3.24.41"), Some(("x11-libs", "gtk+")));
}

#[test]
fn a_version_suffix_is_not_part_of_the_name() {
    assert_eq!(strip_version("zicsr2p0"), "zicsr");
    assert_eq!(strip_version("i2p1"), "i");
    assert_eq!(strip_version("zvl256b"), "zvl256b");
    assert_eq!(strip_version("zvl256b1p0"), "zvl256b");
    assert_eq!(strip_version("c"), "c");
}

#[test]
fn an_attribute_string_reduces_to_its_extensions() {
    let set = parse_arch("rv64i2p1_m2p0_a2p1_f2p2_d2p2_c2p0_zicsr2p0_zifencei2p0");
    assert!(
        set.contains(&"i".to_string())
            && set.contains(&"c".to_string())
            && set.contains(&"zifencei".to_string())
    );
    assert!(!set.iter().any(|e| e.starts_with("rv")));
    assert_eq!(set.len(), 8);
}

#[test]
fn a_board_without_compressed_instructions_shows_c_as_extra() {
    let board = parse_arch("rv32i2p1_m2p0_a2p1");
    let binary = parse_arch("rv32i2p1_m2p0_a2p1_c2p0");
    let extra = set_minus(&binary, &board);
    assert_eq!(extra, vec!["c".to_string()]);
}

fn builder_with(entries: &[(&str, &str, &str, &str)]) -> ManifestBuilder {
    let mut b = ManifestBuilder::new(&default_board_config("aarch64"));
    for (name, tag, commit, kind) in entries {
        let probe = format!("{kind}\n{commit}\n");
        b.record_probe(
            name,
            "https://example.invalid/repo.git",
            tag,
            &format!("/build/{name}"),
            &probe,
        );
    }
    b
}

#[test]
fn pinned_sha_against_a_stale_tree_is_a_mismatch() {
    let b = builder_with(&[(
        "kernel",
        "4e69c1856bfd9ffb7e9d335a25842fa211628929",
        "8d3ae59288f1e7d58d76558a6ee96d533bc5019f",
        "git",
    )]);
    let found = b.pin_mismatches();
    assert_eq!(found.len(), 1);
    assert!(found[0].contains("kernel"));
}

#[test]
fn pinned_sha_that_matches_is_clean() {
    let sha = "4e69c1856bfd9ffb7e9d335a25842fa211628929";
    assert!(builder_with(&[("kernel", sha, sha, "git")]).pin_mismatches().is_empty());
    let upper = sha.to_ascii_uppercase();
    assert!(builder_with(&[("kernel", &upper, sha, "git")]).pin_mismatches().is_empty());
}

#[test]
fn named_tags_and_branches_claim_nothing() {
    for tag in ["v7.2", "master", "linux-6.6.y"] {
        assert!(builder_with(&[(
            "kernel",
            tag,
            "8d3ae59288f1e7d58d76558a6ee96d533bc5019f",
            "git",
        )])
        .pin_mismatches()
        .is_empty());
    }
}

#[test]
fn non_git_sources_are_not_compared() {
    let sha = "4e69c1856bfd9ffb7e9d335a25842fa211628929";
    assert!(builder_with(&[("kernel", sha, "deadbeef", "local")]).pin_mismatches().is_empty());
    assert!(builder_with(&[("kernel", sha, "", "missing")]).pin_mismatches().is_empty());
}

#[test]
fn skips_preceding_filesystem_images() {
    let cfg = r#"
image rootfs.ext4 {
    ext4 { label = "rootfs" }
    size = 5G
}

image bootfs.fat32 {
    vfat { label = "boot" }
    size = 128M
}

image sdcard.img {
    hdimage { partition-table-type = gpt }
    partition rootfs {
        image = "rootfs.ext4"
        offset = "131M"
    }
}
"#;
    let parts = parse_partitions(cfg);
    assert_eq!(parts.len(), 1);
    assert_eq!(parts[0].name, "rootfs");
}

#[test]
fn parses_k230_layout() {
    let cfg = r#"
image foo.img {
    hdimage { partition-table-type = gpt }
    partition uboot_spl_1 {
        image = "u-boot/fn_u-boot-spl.bin"
        offset = "1024K"
        size = "512K"
    }
    partition rootfs {
        image = "rootfs.ext4"
        offset = "131M"
        size = ""
        partition-type-uuid = "root-riscv64"
    }
}
"#;
    let parts = parse_partitions(cfg);
    assert_eq!(parts.len(), 2);
    assert_eq!(parts[0].name, "uboot_spl_1");
    assert_eq!(parts[0].offset.as_deref(), Some("1024K"));
    assert_eq!(parts[0].image.as_deref(), Some("u-boot/fn_u-boot-spl.bin"));
    assert_eq!(parts[1].name, "rootfs");
    assert_eq!(parts[1].size, None);
}

fn atoms_owned(entries: &[Entry]) -> Vec<String> {
    entries.iter().map(|e| e.atom.clone()).collect()
}

#[test]
fn parse_subtraction_line() {
    let entries = parse("-app-editors/vim\nsys-process/htop\n");
    assert_eq!(entries[0].atom, "app-editors/vim");
    assert!(entries[0].remove);
    assert_eq!(entries[1].atom, "sys-process/htop");
    assert!(!entries[1].remove);
}

#[test]
fn merge_subtracts_default() {
    let base = parse("app-editors/vim\nsys-process/htop\n");
    let overlay = parse("-app-editors/vim\nnet-analyzer/nmap\n");
    let merged = merge(base, overlay);
    assert_eq!(atoms_owned(&merged), vec!["sys-process/htop", "net-analyzer/nmap"]);
}

#[test]
fn merge_subtracting_unlisted_atom_is_noop() {
    let base = parse("app-editors/vim\n");
    let overlay = parse("-net-misc/curl\n");
    let merged = merge(base, overlay);
    assert_eq!(atoms_owned(&merged), vec!["app-editors/vim"]);
}

#[test]
fn keywords_still_parse() {
    let entries = parse("sys-boot/syslinux **\n");
    assert_eq!(entries[0].atom, "sys-boot/syslinux");
    assert_eq!(entries[0].keywords.as_deref(), Some("**"));
    assert!(!entries[0].remove);
}

#[test]
fn a_key_that_would_differ_per_machine_is_refused() {
    assert!(check("-O2 -march=native -pipe").is_err());
}

#[test]
fn flags_that_would_silently_merge_two_boards_are_refused() {
    assert!(check("-O2 -march=armv8-a -mcpu=cortex-a76").is_err());
}

#[test]
fn every_board_in_the_tree_passes() {
    for cflags in [
        "-O3 -march=rv64gcv_zvl256b -pipe",
        "-O3 -march=rv64gcv_zvl128b -pipe",
        "-O3 -march=rv64gcv_zvl512b -pipe",
        "-O3 -mcpu=cortex-a76.cortex-a55+crc+crypto -pipe",
        "-O3 -mcpu=cortex-a55+crc+crypto -pipe",
        "-O2 -march=armv7ve -mtune=cortex-a15.cortex-a7 -mfpu=neon-vfpv4 -mfloat-abi=hard -pipe",
        "-march=pentium-mmx -O2 -pipe",
    ] {
        assert!(check(cflags).is_ok(), "{cflags}");
    }
}

#[test]
fn reordering_yields_same_hash() {
    let (_, a) = canonicalize("-O2 -g -march=cortex-a76+crc");
    let (_, b) = canonicalize("-march=cortex-a76+crc -g -O2");
    assert_eq!(a, b);
}

#[test]
fn different_arch_differs() {
    let (_, a) = canonicalize("-O2 -march=cortex-a55");
    let (_, b) = canonicalize("-O2 -march=cortex-a76");
    assert_ne!(a, b);
}

#[test]
fn last_wins_o_level() {
    let (_, a) = canonicalize("-O3 -O2 -march=cortex-a55");
    let (_, b) = canonicalize("-O2 -march=cortex-a55");
    assert_eq!(a, b);
}

#[test]
fn hash_is_16_lowercase_hex() {
    let (_, h) = canonicalize("-O2 -march=rv64gc_zba_zbb");
    assert_eq!(h.len(), 16);
    assert!(h.bytes().all(|b| b.is_ascii_hexdigit() && !b.is_ascii_uppercase()));
}

#[test]
fn a_board_wins_over_its_includes_and_later_includes_over_earlier() {
    let soc = "BOARD_ARCH=riscv64\nCROSS_COMPILE=riscv64-linux-gnu-\nKERNEL_REPO=https://k\nKERNEL_DEFCONFIG=defconfig\nKERNEL_TAG=v6.1\nBOOT_HOSTNAME=soc\n".to_string();
    let role = "BOOT_HOSTNAME=capture\nKERNEL_TAG=v6.3".to_string();
    let content = "INCLUDE=\"soc role\"\nKERNEL_TAG=v6.6\n";
    assert_eq!(crossdev_stages::board::includes_of(content), vec!["soc", "role"]);
    let b = crossdev_stages::board::assemble("b", "boards/b/board.conf", content, &vec![soc, role], "-O2 -pipe").unwrap();
    assert_eq!(b.kernel_tag, "v6.6");
    assert_eq!(b.hostname, "capture");
    assert_eq!(b.arch, "riscv64");
}

#[test]
fn an_x86_arch_derives_a_pc_chost() {
    let b = default_board_config("i586");
    assert_eq!(b.chost(), "i586-pc-linux-gnu");
    assert_eq!(b.cross_compile, "i586-pc-linux-gnu-");
    assert_eq!(crossdev_stages::board::chost_for_arch("x86_64"), Some("x86_64-pc-linux-gnu".to_string()));
}

#[test]
fn an_arch_outside_the_table_falls_back_to_unknown() {
    let b = default_board_config("riscv64");
    assert_eq!(b.chost(), "riscv64-unknown-linux-gnu");
    assert_eq!(b.cross_compile, "riscv64-unknown-linux-gnu-");
    assert_eq!(crossdev_stages::board::chost_for_arch("riscv64"), None);
    let mut o = default_board_config("i686");
    o.chost_override = Some("i686-gentoo-linux-musl".to_string());
    assert_eq!(o.chost(), "i686-gentoo-linux-musl");
}
