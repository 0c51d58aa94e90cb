use crossdev_stages::container::export_file_name;
use crossdev_stages::manifest::sha256sum_result;
use crossdev_stages::status::{build_state, sandbox_state, source_rows, sources_line, LockEntry};
use crossdev_stages::store::{board_store_state, StoreEntry};
use crossdev_stages::binpkg_meta::{parse_stamp, stamp_text, Toolchain};
use crossdev_stages::board::default_board_config;
use crossdev_stages::container::{
    annotate_cmd, destroy_command, fallback_resolv, idmaps, in_cache, pack_command, resolv_target, restore_action,
    subid_range, unpack_command, MountPlan, Restore,
};
use crossdev_stages::error::Error;
use crossdev_stages::image_cmd::{checksum_line, sha256_hex};
use crossdev_stages::isa::{compare, expected_of, parse_scan, probe_command, report_lines};
use crossdev_stages::maint::{cleanup_total_line, recover_message, removal_line, stage_arch, stale_stages};
use crossdev_stages::package_check::{listed_atoms_of, missing_entry, no_such_package, repo_locations};
use crossdev_stages::sandbox::{image_next, image_start, DockerWrapper, ImageState, Outcome, SandboxError, Step};
use crossdev_stages::update::{
    commit_range, error_line, locate_all_locks, locate_lock, no_cache_msg, tag_commit, LockCandidate,
};

// ── ISA ─────────────────────────────────────────────────────────────────────

#[test]
fn scan_lines_split_at_the_first_tab() {
    let got = parse_scan("/usr/bin/a\trv64imac\nnoise\n/lib/x.so\trv64gc\textra\n");
    assert_eq!(
        got,
        vec![
            ("/usr/bin/a".to_string(), "rv64imac".to_string()),
            ("/lib/x.so".to_string(), "rv64gc\textra".to_string()),
        ]
    );
}

#[test]
fn the_probe_compiles_with_the_board_flags() {
    let b = default_board_config("riscv64");
    assert_eq!(
        probe_command(&b, "-march=rv64gc"),
        "set -e\n         : > /tmp/isa-probe.c\n         riscv64-unknown-linux-gnu-gcc -march=rv64gc -c -o /tmp/isa-probe.o /tmp/isa-probe.c\n         riscv64-unknown-linux-gnu-readelf -A /tmp/isa-probe.o"
    );
}

#[test]
fn a_probe_without_an_attribute_expects_nothing() {
    assert!(expected_of("no attributes here\n").is_empty());
    assert_eq!(expected_of("  Tag_RISCV_arch: \"rv64i2p1_m2p0_a2p1\"\n"), vec!["a", "i", "m"]);
}

#[test]
fn the_isa_report_puts_faults_first() {
    let expected = expected_of("Tag_RISCV_arch: \"rv64i2p1_m2p0_a2p1\"");
    let found = vec![
        ("/bin/a".to_string(), "rv64i2p1_m2p0_a2p1_c2p0".to_string()),
        ("/bin/b".to_string(), "rv64i2p1_m2p0_a2p1_c2p0".to_string()),
        ("/bin/c".to_string(), "rv64i2p1_m2p0".to_string()),
    ];
    let report = compare(&expected, &found);
    let (lines, fatal) = report_lines(&report, "/build/gen/root");
    assert!(fatal);
    assert_eq!(
        lines,
        vec![
            "ISA check: 3 binaries under /build/gen/root, board ISA a i m",
            "    2 binaries use c, which this board does not have",
            "        /bin/a",
            "        /bin/b",
            "    1 binaries built without a (slower, but they run)",
            "        /bin/c",
        ]
    );
}

#[test]
fn an_isa_scan_that_found_nothing_is_no_pass() {
    let expected = expected_of("Tag_RISCV_arch: \"rv64i2p1\"");
    let report = compare(&expected, &vec![]);
    let (lines, fatal) = report_lines(&report, "/target");
    assert!(!fatal);
    assert_eq!(lines[1], "    no binary carried an ISA attribute; nothing was verified");
}

// ── Package lists ───────────────────────────────────────────────────────────

#[test]
fn package_list_lines_name_atoms_with_their_line() {
    let got = listed_atoms_of("# c\nsys-apps/foo\n-dev-libs/bar\n\n>=net-misc/openssh-9.0:0 ~amd64\nnoslash\n");
    let views: Vec<(usize, &str, &str, &str)> =
        got.iter().map(|a| (a.line, a.atom.as_str(), a.category.as_str(), a.package.as_str())).collect();
    assert_eq!(
        views,
        vec![(2, "sys-apps/foo", "sys-apps", "foo"), (5, ">=net-misc/openssh-9.0:0", "net-misc", "openssh")]
    );
    assert_eq!(missing_entry("defaults/target-packages.txt", &got[0]), "defaults/target-packages.txt:2: sys-apps/foo");
}

#[test]
fn unknown_packages_are_listed_in_one_error() {
    assert!(no_such_package("milkv", &vec![]).is_ok());
    match no_such_package("milkv", &vec!["a:1: x".to_string(), "b:2: y".to_string()]) {
        Err(Error::BoardConfigParse { file, msg }) => {
            assert_eq!(file, "milkv");
            assert_eq!(msg, "no such package:\n  a:1: x\n  b:2: y");
        }
        other => panic!("unexpected {other:?}"),
    }
}

#[test]
fn repos_conf_locations_are_relative_to_the_sandbox() {
    let got = repo_locations("[gentoo]\nlocation = /var/db/repos/gentoo\nsync-type = rsync\n location=/usr/local/overlay \n");
    assert_eq!(got, vec!["var/db/repos/gentoo", "usr/local/overlay"]);
}

// ── Locks ───────────────────────────────────────────────────────────────────

fn cand(has_lock: bool, board: Option<&str>, git: bool) -> LockCandidate {
    LockCandidate { has_lock, board: board.map(|b| b.to_string()), has_git_sources: git }
}

#[test]
fn the_newest_usable_lock_is_checked() {
    let c = vec![cand(false, Some("a"), true), cand(true, Some("b"), false), cand(true, Some("a"), true), cand(true, Some("b"), true)];
    assert_eq!(locate_lock(&c, None).unwrap(), 2);
    assert_eq!(locate_lock(&c, Some("b")).unwrap(), 3);
    match locate_lock(&c, Some("c")) {
        Err(Error::CommandFailed { code, reason }) => {
            assert_eq!(code, 1);
            assert_eq!(reason, "no build.lock.toml with git sources for board 'c'");
        }
        other => panic!("unexpected {other:?}"),
    }
    match locate_lock(&vec![], None) {
        Err(Error::CommandFailed { reason, .. }) => assert_eq!(reason, "no build.lock.toml with git sources in any build"),
        other => panic!("unexpected {other:?}"),
    }
}

#[test]
fn every_board_gets_its_newest_usable_lock() {
    let c = vec![
        cand(true, Some("a"), true),
        cand(true, Some("a"), true),
        cand(true, Some("b"), false),
        cand(true, None, true),
        cand(true, Some("b"), true),
    ];
    assert_eq!(locate_all_locks(&c), vec![0, 4]);
}

#[test]
fn source_checks_use_git_revision_syntax() {
    assert_eq!(tag_commit("v1.0"), "v1.0^{commit}");
    assert_eq!(commit_range("abc", "def"), "abc..def");
    assert_eq!(no_cache_msg("/s/x.git"), "no cache at /s/x.git (run `image build` first)");
    assert_eq!(error_line("kernel", "boom"), "[kernel] error: boom");
}

// ── Housekeeping ────────────────────────────────────────────────────────────

#[test]
fn a_stage3_name_carries_its_arch() {
    assert_eq!(stage_arch("stage3-amd64-openrc-20240101T000000Z.tar.xz"), "amd64");
    assert_eq!(stage_arch("stage3-riscv64"), "riscv64");
    assert_eq!(stage_arch("random.tar"), "unknown");
}

#[test]
fn only_the_newest_stage3_of_each_arch_is_kept() {
    let files = vec![
        ("stage3-amd64-a".to_string(), 10u128),
        ("stage3-amd64-b".to_string(), 30u128),
        ("stage3-arm64-a".to_string(), 5u128),
        ("stage3-amd64-c".to_string(), 30u128),
        ("notes.txt".to_string(), 1u128),
    ];
    assert_eq!(stale_stages(&files), vec!["stage3-amd64-a", "stage3-amd64-c"]);
}

#[test]
fn housekeeping_reports_what_it_did() {
    assert_eq!(removal_line("build", "milkv", true), "Would remove build: milkv");
    assert_eq!(removal_line("stage", "s.tar", false), "Removed stage: s.tar");
    assert_eq!(cleanup_total_line(3, false), "3 item(s) cleaned up.");
    assert_eq!(cleanup_total_line(0, true), "0 item(s) would be removed.");
    assert_eq!(recover_message(0, true), "No stale sandbox mounts found.");
    assert_eq!(recover_message(2, true), "2 stale mount(s) would be unmounted.");
    assert_eq!(recover_message(1, false), "Recovered 1 stale mount(s).");
}

// ── Checksums ───────────────────────────────────────────────────────────────

#[test]
fn the_checksum_is_sha256_in_lowercase_hex() {
    assert_eq!(sha256_hex(b"abc"), "ba7816bf8f01cfea414140de5dae2223b00361a396177a9cb410ff61f20015ad");
    assert_eq!(sha256_hex(b""), "e3b0c44298fc1c149afbf4c8996fb92427ae41e4649b934ca495991b7852b855");
    assert_eq!(checksum_line("abcd", "img.xz"), "abcd  img.xz\n");
}

// ── Containers ──────────────────────────────────────────────────────────────

#[test]
fn the_first_matching_subid_line_decides() {
    let text = "root:100000:65536\nalice:200000:65536\n1000:300000:10\n";
    assert_eq!(subid_range(text, "alice", "1000"), Some((200000, 65536)));
    assert_eq!(subid_range(text, "bob", "1000"), Some((300000, 10)));
    assert_eq!(subid_range(text, "bob", "1001"), None);
    assert_eq!(subid_range("alice:x:1\nalice:1:1\n", "alice", "1000"), None);
    assert_eq!(subid_range("alice:1:4294967296\n", "alice", "1000"), None);
}

#[test]
fn the_caller_is_root_inside_with_its_subordinate_range_after() {
    assert_eq!(idmaps(1000, Some((100000, 65536))), vec![(0, 1000, 1), (1, 100000, 65536)]);
    assert_eq!(idmaps(1000, None), vec![(0, 1000, 1)]);
}

#[test]
fn paths_are_shown_under_the_cache_mount() {
    assert_eq!(in_cache("/home/u/.cache/xd/stages/a.tar", "/home/u/.cache/xd"), "/cache/stages/a.tar");
    assert_eq!(in_cache("/c/x", "/c/"), "/cache/x");
    assert_eq!(in_cache("/c", "/c"), "/cache/");
    assert_eq!(in_cache("/other/x", "/c"), "/cache//other/x");
    assert_eq!(in_cache("/cx/y", "/c"), "/cache//cx/y");
}

#[test]
fn tarballs_keep_owners_and_skip_pseudo_filesystems() {
    assert_eq!(
        unpack_command("/cache/s.tar.xz", "/cache/t"),
        "mkdir -p /cache/t && tar --overwrite -xpf /cache/s.tar.xz --xattrs-include='*.*' --numeric-owner --exclude='./dev' -C /cache/t"
    );
    assert_eq!(
        pack_command("none", "/cache/o.tar", "/cache/t"),
        "tar -cp --xattrs --xattrs-include='*.*' --numeric-owner --exclude='./dev' --exclude='./proc' --exclude='./sys' --exclude='./run' --exclude='./tmp' -f /cache/o.tar -C /cache/t ."
    );
    assert!(pack_command("gzip", "/o", "/t").starts_with("tar -cp-z --xattrs"));
    assert!(pack_command("xz", "/o", "/t").starts_with("tar -cp-J --xattrs"));
    assert_eq!(destroy_command("/cache/x"), "rm -rf /cache/x");
}

#[test]
fn a_failed_command_is_reported_with_its_text() {
    match annotate_cmd(Error::CommandFailed { code: 2, reason: "boom".into() }, "ls /x") {
        Error::CommandFailed { code, reason } => {
            assert_eq!(code, 2);
            assert_eq!(reason, "ls /x: boom");
        }
        other => panic!("unexpected {other:?}"),
    }
    assert!(matches!(annotate_cmd(Error::BoardNotFound("b".into()), "ls"), Error::BoardNotFound(ref b) if b == "b"));
}

#[test]
fn systemd_resolvers_are_not_mounted() {
    assert_eq!(resolv_target("/run/systemd/resolve/stub-resolv.conf"), None);
    assert_eq!(resolv_target("/etc/resolv.conf").as_deref(), Some("etc/resolv.conf"));
    assert!(fallback_resolv().starts_with("nameserver 1.1.1.1\n"));
}

#[test]
fn unmounted_targets_are_put_back() {
    assert_eq!(restore_action("/sb/var/log", true), Restore::CreateDir);
    assert_eq!(restore_action("/sb/etc/resolv.conf", false), Restore::WriteResolv);
    assert_eq!(restore_action("/sb/etc/resolv.conf", true), Restore::Nothing);
    assert_eq!(restore_action("/sb/myvar/log", false), Restore::Nothing);
}

#[test]
fn a_runner_mounts_in_a_fixed_order() {
    let mut m = MountPlan::new();
    m.with_target("/t");
    m.with_build("/b", "/proj");
    m.with_cache("/c");
    let binds = m.binds("/logs", true);
    let got: Vec<(&str, &str, bool)> = binds.iter().map(|b| (b.0.as_str(), b.1.as_str(), b.2)).collect();
    assert_eq!(
        got,
        vec![
            ("/logs", "/var/log", true),
            ("/etc/resolv.conf", "/etc/resolv.conf", false),
            ("/t", "/target", true),
            ("/b", "/build", true),
            ("/c", "/cache", true),
            ("/proj", "/scripts", false),
        ]
    );
    assert_eq!(MountPlan::new().binds("/l", false).len(), 1);
}

// ── Docker ──────────────────────────────────────────────────────────────────

fn ran(success: bool, stdout: &str, stderr: &str) -> Outcome {
    Outcome::Ran { success, stdout: stdout.to_string(), stderr: stderr.to_string() }
}

#[test]
fn a_missing_image_is_pulled() {
    let (s, step) = image_start("gentoo/stage3");
    assert_eq!(s, ImageState::Inspect);
    assert!(matches!(step, Step::Run(ref a) if a == &vec!["inspect", "--type=image", "gentoo/stage3"]));
    let (s, step) = image_next("gentoo/stage3", s, &ran(false, "", "no such image"));
    assert_eq!(s, ImageState::Pull);
    assert!(matches!(step, Step::Run(ref a) if a == &vec!["pull", "gentoo/stage3"]));
    let (_, step) = image_next("gentoo/stage3", s, &ran(false, "", "denied"));
    assert!(matches!(step, Step::Finish(Err(SandboxError::ContainerCreationFailed(ref m))) if m == "Failed to pull image: denied"));
    let (_, step) = image_next("gentoo/stage3", ImageState::Inspect, &ran(true, "[]", ""));
    assert!(matches!(step, Step::Finish(Ok(()))));
}

#[test]
fn docker_command_lines_follow_the_cli() {
    assert_eq!(
        DockerWrapper::create_container_args("c1", "img", &["sleep", "infinity"], Some("/w")),
        vec!["create", "--name", "c1", "img", "-w", "/w", "sleep", "infinity"]
    );
    assert_eq!(DockerWrapper::exec_command_args("c1", &["ls", "-l"], None), vec!["exec", "c1", "ls", "-l"]);
    assert_eq!(DockerWrapper::exec_command_args("c1", &["ls"], Some("/w")), vec!["exec", "-w", "/w", "c1", "ls"]);
    assert_eq!(DockerWrapper::remove_container_args("c1", true), vec!["rm", "-f", "c1"]);
    assert_eq!(DockerWrapper::remove_container_args("c1", false), vec!["rm", "c1"]);
    assert_eq!(DockerWrapper::start_container_args("c1"), vec!["start", "c1"]);
}

#[test]
fn docker_outcomes_become_results() {
    assert_eq!(DockerWrapper::create_container_result(&ran(true, "abc\n", "")).unwrap(), "abc");
    assert!(matches!(
        DockerWrapper::create_container_result(&ran(false, "", "conflict")),
        Err(SandboxError::ContainerCreationFailed(ref m)) if m == "Failed to create container: conflict"
    ));
    assert!(matches!(
        DockerWrapper::exec_command_result(&Outcome::SpawnFailed("no docker".into())),
        Err(SandboxError::CommandExecutionFailed(ref m)) if m == "Failed to execute command: no docker"
    ));
    assert_eq!(DockerWrapper::exec_command_result(&ran(true, "out\n", "")).unwrap(), "out\n");
    assert!(DockerWrapper::start_container_result(&ran(true, "", "")).is_ok());
    assert!(DockerWrapper::remove_container_result(&ran(false, "", "x")).is_err());
    assert!(DockerWrapper::is_available(&ran(true, "Docker version 27", "")));
    assert!(!DockerWrapper::is_available(&Outcome::SpawnFailed("missing".into())));
}

// ── Build-environment stamps ────────────────────────────────────────────────

#[test]
fn a_stamp_reads_back_the_toolchain_it_records() {
    let mut t = Toolchain::new();
    t.insert("gcc".to_string(), "14.2.1_p20241221".to_string());
    t.insert("binutils".to_string(), "2.43".to_string());
    t.insert("glibc".to_string(), "2.40-r8".to_string());
    let text = stamp_text(&t);
    assert!(text.starts_with("# What produced the binary packages here."));
    assert!(text.ends_with("glibc: 2.40-r8\n"));
    let back = parse_stamp(&text);
    assert_eq!(back.entries(), t.entries());
}

// ── Status ──────────────────────────────────────────────────────────────────

fn stored(chost: &str, key: &str, complete: bool) -> StoreEntry {
    StoreEntry { chost: chost.into(), key: key.into(), complete, path: format!("/store/{chost}/{key}") }
}

#[test]
fn a_board_store_is_ready_partial_missing_or_unknown() {
    let stores = vec![stored("rv", "h-gcc14", false), stored("rv", "h-gcc15", true), stored("arm", "x-gcc15", false)];
    assert_eq!(board_store_state(&vec![], &stores), "unknown");
    assert_eq!(board_store_state(&vec!["rv/h-gcc14".into(), "rv/h-gcc15".into()], &stores), "ready");
    assert_eq!(board_store_state(&vec!["arm/x-gcc15".into()], &stores), "partial");
    assert_eq!(board_store_state(&vec!["arm/y-gcc15".into()], &stores), "missing");
}

#[test]
fn status_names_sandbox_and_build_states() {
    assert_eq!(sandbox_state(true, true), "prepared");
    assert_eq!(sandbox_state(false, true), "bare");
    assert_eq!(sandbox_state(false, false), "unpacked");
    assert_eq!(build_state(true), "packed");
    assert_eq!(build_state(false), "incomplete");
}

fn locked_entry(name: &str, tag: &str, commit: &str, kind: Option<&str>) -> LockEntry {
    LockEntry { name: name.into(), tag: tag.into(), commit: commit.into(), kind: kind.map(|k| k.into()) }
}

#[test]
fn lock_sources_are_shown_short_and_flag_branches() {
    let sources = vec![
        locked_entry("kernel", "v6.6", "0123456789abcdef", Some("git")),
        locked_entry("uboot", "master", "abc", None),
    ];
    assert_eq!(sources_line(&sources), "      sources: kernel v6.6@01234567 | uboot master@abc*");
    assert_eq!(
        source_rows("milkv/20250101T000000Z", &sources),
        vec![
            "source\tmilkv/20250101T000000Z\tkernel\tv6.6\t0123456789abcdef\tgit",
            "source\tmilkv/20250101T000000Z\tuboot\tmaster\tabc\tunknown",
        ]
    );
}

#[test]
fn sha256sum_output_gives_the_digest_or_the_failure() {
    assert_eq!(sha256sum_result("/img", true, Some(0), "abc123  /img\n", "").unwrap(), "abc123");
    match sha256sum_result("/img", false, Some(2), "", " no such file \n") {
        Err(Error::CommandFailed { code, reason }) => {
            assert_eq!(code, 2);
            assert_eq!(reason, "sha256sum /img: no such file");
        }
        other => panic!("unexpected {other:?}"),
    }
    match sha256sum_result("/img", true, Some(0), " x", "") {
        Err(Error::CommandFailed { code, reason }) => {
            assert_eq!(code, 1);
            assert_eq!(reason, "sha256sum /img: empty output");
        }
        other => panic!("unexpected {other:?}"),
    }
    assert!(matches!(sha256sum_result("/i", false, None, "", ""), Err(Error::CommandFailed { code: 1, .. })));
}

#[test]
fn an_exported_stage_is_named_by_arch_target_and_compression() {
    assert_eq!(export_file_name("riscv64", "rv-1", "xz"), "stage3-riscv64-rv-1.tar.xz");
    assert_eq!(export_file_name("riscv64", "rv-1", "gzip"), "stage3-riscv64-rv-1.tar.gz");
    assert_eq!(export_file_name("riscv64", "rv-1", "none"), "stage3-riscv64-rv-1.tar");
}
