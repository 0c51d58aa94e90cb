use crossdev_stages::abi::{report_from_scan, verdict};
use crossdev_stages::binpkg_meta::{parse_index, report_line};
use crossdev_stages::board::default_board_config;
use crossdev_stages::bootloader::{build_plan, clone_plan, pipeline};
use crossdev_stages::cache::{is_tbz2, CacheConfig, CacheEntry, CacheStrategy, CacheVerificationReport, CrossdevCache};
use crossdev_stages::crossdev::{setup_next, CrossdevEnvironment, CrossdevError, SetupProgress};
use crossdev_stages::error::{check_status, Error};
use crossdev_stages::image_cmd::{apply_pins, bundle_entries, is_usable_lock, LockedSource};
use crossdev_stages::manifest::ManifestBuilder;
use crossdev_stages::stage::{SandboxRegistry, SandboxStatus, StageError};
use crossdev_stages::update::{repo_cache_dir, repo_cache_name, short, summary_line, tag_refspecs};

// ── Sandbox registry ────────────────────────────────────────────────────────

#[test]
fn sandbox_names_stay_distinct_through_upserts_and_removals() {
    let mut reg = SandboxRegistry::new();
    for name in ["a", "b", "a", "c", "b", "a"] {
        reg.upsert_sandbox(SandboxRegistry::create_sandbox_state(name, SandboxStatus::New)).unwrap();
    }
    reg.remove_sandbox("c").unwrap();
    assert!(reg.remove_sandbox("c").is_err());
    reg.upsert_sandbox(SandboxRegistry::create_sandbox_state("c", SandboxStatus::New)).unwrap();
    let names: Vec<&str> = reg.list_sandboxes().iter().map(|s| s.name.as_str()).collect();
    assert_eq!(names, vec!["b", "a", "c"]);
}

#[test]
fn a_recorded_sandbox_is_found_again() {
    let mut reg = SandboxRegistry::new();
    let s = SandboxRegistry::create_sandbox_state("riscv", SandboxStatus::New);
    reg.upsert_sandbox(s).unwrap();
    let got = reg.get_sandbox("riscv").unwrap();
    assert_eq!(got.name, "riscv");
    assert_eq!(got.state, SandboxStatus::New);
    assert!(reg.get_sandbox("arm").is_none());
}

#[test]
fn recording_a_sandbox_twice_keeps_one_entry() {
    let mut reg = SandboxRegistry::new();
    let s = SandboxRegistry::create_sandbox_state("riscv", SandboxStatus::Prepared);
    reg.upsert_sandbox(s.clone()).unwrap();
    reg.upsert_sandbox(s).unwrap();
    assert_eq!(reg.list_sandboxes().len(), 1);
}

#[test]
fn a_later_record_replaces_the_earlier_one() {
    let mut reg = SandboxRegistry::new();
    reg.upsert_sandbox(SandboxRegistry::create_sandbox_state("a", SandboxStatus::New)).unwrap();
    reg.upsert_sandbox(SandboxRegistry::create_sandbox_state("b", SandboxStatus::New)).unwrap();
    reg.upsert_sandbox(SandboxRegistry::create_sandbox_state("a", SandboxStatus::Error)).unwrap();
    let names: Vec<&str> = reg.list_sandboxes().iter().map(|s| s.name.as_str()).collect();
    assert_eq!(names, vec!["b", "a"]);
    assert_eq!(reg.get_sandbox("a").unwrap().state, SandboxStatus::Error);
}

#[test]
fn removing_a_new_sandbox_restores_the_registry() {
    let mut reg = SandboxRegistry::new();
    reg.upsert_sandbox(SandboxRegistry::create_sandbox_state("a", SandboxStatus::New)).unwrap();
    reg.upsert_sandbox(SandboxRegistry::create_sandbox_state("b", SandboxStatus::New)).unwrap();
    let removed = reg.remove_sandbox("b").unwrap();
    assert_eq!(removed.name, "b");
    let names: Vec<&str> = reg.list_sandboxes().iter().map(|s| s.name.as_str()).collect();
    assert_eq!(names, vec!["a"]);
}

#[test]
fn removing_an_unknown_sandbox_names_it() {
    let mut reg = SandboxRegistry::new();
    match reg.remove_sandbox("ghost") {
        Err(StageError::ConfigError(m)) => assert_eq!(m, "Sandbox 'ghost' not found"),
        other => panic!("unexpected {other:?}"),
    }
}

#[test]
fn a_new_sandbox_state_is_stamped_by_the_hour() {
    let s = SandboxRegistry::create_sandbox_state("x", SandboxStatus::StageLoaded);
    assert_eq!(s.created_at, s.last_updated);
    // `%Y%m%dT%H`: eight digits, a `T`, two digits.
    assert_eq!(s.created_at.len(), 11);
    assert_eq!(s.created_at.as_bytes()[8], b'T');
    assert!(s.loaded_stage.is_none());
}

// ── Command status ──────────────────────────────────────────────────────────

#[test]
fn a_zero_exit_is_success() {
    assert!(check_status(0, "ignored").is_ok());
}

#[test]
fn a_nonzero_exit_carries_code_and_reason() {
    match check_status(2, "emerge failed") {
        Err(Error::CommandFailed { code, reason }) => {
            assert_eq!(code, 2);
            assert_eq!(reason, "emerge failed");
        }
        other => panic!("unexpected {other:?}"),
    }
}

// ── Cache ───────────────────────────────────────────────────────────────────

fn custom_cache(root: &str) -> CrossdevCache {
    let config = CacheConfig { strategy: CacheStrategy::Custom(root.to_string()), ..CacheConfig::default() };
    CrossdevCache::new(config).unwrap()
}

#[test]
fn a_custom_cache_lays_out_under_its_root() {
    let c = custom_cache("/var/cache/xd");
    assert_eq!(c.cache_dir(), "/var/cache/xd");
    assert_eq!(c.distfiles_dir(), "/var/cache/xd/distfiles");
    assert_eq!(c.binpkgs_dir(), "/var/cache/xd/binpkgs");
    assert_eq!(c.binpkg_path("dev-libs", "zlib", "1.3"), "/var/cache/xd/binpkgs/dev-libs/zlib-1.3.tbz2");
    assert_eq!(c.distfile_path("zlib-1.3.tar.xz"), "/var/cache/xd/distfiles/zlib-1.3.tar.xz");
}

#[test]
fn a_missing_file_is_not_in_the_cache() {
    let c = custom_cache("/nonexistent/crossdev-cache-root");
    assert!(!c.has_distfile("zlib-1.3.tar.xz"));
    assert!(!c.has_binpkg("dev-libs", "zlib", "1.3"));
}

#[test]
fn the_default_limit_is_ten_gigabytes() {
    let c = custom_cache("/c");
    assert_eq!(c.max_size_bytes(), 10240 * 1024 * 1024);
    let small = CacheVerificationReport { distfile_size: 1, binpkg_size: 2, ..Default::default() };
    assert!(!c.exceeds_limit(&small));
    let big = CacheVerificationReport { distfile_size: 10240 * 1024 * 1024, binpkg_size: 1, ..Default::default() };
    assert!(c.exceeds_limit(&big));
}

const MB: u64 = 1024 * 1024;
const DAY: u64 = 86400;

fn small_cache() -> CrossdevCache {
    let config = CacheConfig {
        strategy: CacheStrategy::Custom("/c".to_string()),
        max_size_mb: 3,
        max_age_days: 30,
        ..CacheConfig::default()
    };
    CrossdevCache::new(config).unwrap()
}

fn entry(binpkg: bool, size: u64, accessed: u64) -> CacheEntry {
    CacheEntry { binpkg, size, accessed }
}

#[test]
fn a_cache_within_its_limits_is_left_alone() {
    let c = small_cache();
    let now = 100 * DAY;
    let es = vec![entry(true, MB, now - DAY), entry(false, 2 * MB, now - 2 * DAY)];
    let (r, gone) = c.cleanup(&es, now);
    assert_eq!((r.removed_distfiles, r.removed_binpkgs, r.freed_space), (0, 0, 0));
    assert_eq!(gone, vec![false, false]);
}

#[test]
fn the_oldest_entries_go_first_until_the_cache_fits() {
    let c = small_cache();
    let now = 100 * DAY;
    // 6 MB against a 3 MB limit: the two oldest (3 MB) have to go.
    let es = vec![
        entry(true, 2 * MB, now - DAY),
        entry(false, 2 * MB, now - 5 * DAY),
        entry(true, MB, now - 3 * DAY),
        entry(true, MB, now - 2 * DAY),
    ];
    let (r, gone) = c.cleanup(&es, now);
    assert_eq!(gone, vec![false, true, true, false]);
    assert_eq!((r.removed_distfiles, r.removed_binpkgs, r.freed_space), (1, 1, 3 * MB));
}

#[test]
fn entries_past_the_age_limit_go_even_when_the_cache_fits() {
    let c = small_cache();
    let now = 100 * DAY;
    let es = vec![entry(false, 10, now - 31 * DAY), entry(true, 20, now - 30 * DAY)];
    let (r, gone) = c.cleanup(&es, now);
    assert_eq!(gone, vec![true, false]);
    assert_eq!((r.removed_distfiles, r.removed_binpkgs, r.freed_space), (1, 0, 10));
}

#[test]
fn only_tbz2_files_count_as_binary_packages() {
    assert!(is_tbz2("zlib-1.3.tbz2"));
    assert!(!is_tbz2("zlib-1.3.tar.xz"));
    assert!(!is_tbz2(".tbz2"));
    assert!(!is_tbz2("tbz2"));
    let entries = vec![
        (true, "a-1.tbz2".to_string(), 10u64),
        (true, "Packages".to_string(), 5u64),
        (false, "b-1.tbz2".to_string(), 7u64),
    ];
    let r = CacheVerificationReport::tally(&vec![3u64, 4u64], &entries);
    assert_eq!((r.distfile_count, r.distfile_size), (2, 7));
    assert_eq!((r.binpkg_count, r.binpkg_size), (1, 10));
    assert_eq!(r.total_size(), 17);
}

// ── ABI check ───────────────────────────────────────────────────────────────

const SCAN: &str = "D\tlibc.so.6\tGLIBC_2.34\n\
N\t/usr/bin/x\tlibc.so.6\tGLIBC_2.38\n\
N\t/usr/bin/y\tlibc.so.6\tGLIBC_2.34\n\
N\t/usr/bin/z\tlibfoo.so.1\tFOO_1\n\
N\t/usr/bin/w\tlibfoo.so.1\tFOO_1\n\
noise line\n";

#[test]
fn unmet_versions_are_reported_most_files_first() {
    let r = report_from_scan(SCAN);
    assert_eq!(r.scanned, 4);
    assert_eq!(r.libraries, 1);
    assert_eq!(r.unsatisfied.len(), 2);
    assert_eq!(r.unsatisfied[0].soname, "libfoo.so.1");
    assert_eq!(r.unsatisfied[0].version, "");
    assert_eq!(r.unsatisfied[0].count, 2);
    assert_eq!(r.unsatisfied[0].examples, vec!["/usr/bin/z", "/usr/bin/w"]);
    assert_eq!(r.unsatisfied[1].soname, "libc.so.6");
    assert_eq!(r.unsatisfied[1].version, "GLIBC_2.38");
    assert_eq!(r.unsatisfied[1].examples, vec!["/usr/bin/x"]);
}

#[test]
fn the_verdict_names_each_unmet_version() {
    let (lines, fatal) = verdict(&report_from_scan(SCAN));
    assert!(fatal);
    assert_eq!(
        lines,
        vec![
            "ABI check: 4 binaries against 1 versioned libraries in the image",
            "    2 binaries need libfoo.so.1, which the image does not ship",
            "        /usr/bin/z",
            "        /usr/bin/w",
            "    1 binaries need GLIBC_2.38 from libc.so.6, which this image's copy does not define",
            "        /usr/bin/x",
        ]
    );
}

#[test]
fn an_empty_scan_verifies_nothing_and_fails_nothing() {
    let (lines, fatal) = verdict(&report_from_scan(""));
    assert!(!fatal);
    assert_eq!(lines[1], "    no binary carried a version requirement; nothing was verified");
}

// ── Bootloader plans ────────────────────────────────────────────────────────

#[test]
fn a_board_without_a_pipeline_runs_opensbi_then_uboot() {
    let b = default_board_config("riscv64");
    assert_eq!(pipeline(&b), vec!["opensbi", "uboot"]);
}

#[test]
fn an_unknown_stage_stops_the_plan_with_its_name() {
    let mut b = default_board_config("aarch64");
    b.boot_pipeline = Some(vec!["tfa".to_string(), "grub2".to_string()]);
    let plan = build_plan(&b);
    match plan.error {
        Some(Error::BoardConfigParse { msg, .. }) => assert_eq!(msg, "unknown BOOT_PIPELINE stage 'grub2'"),
        other => panic!("unexpected {other:?}"),
    }
    let clones = clone_plan(&b);
    assert!(clones.error.is_some());
}

#[test]
fn an_empty_pipeline_plans_nothing() {
    let mut b = default_board_config("riscv64");
    b.boot_pipeline = Some(vec![]);
    let plan = build_plan(&b);
    assert!(plan.commands.is_empty() && plan.error.is_none());
    let clones = clone_plan(&b);
    assert!(clones.requests.is_empty() && clones.error.is_none());
}

#[test]
fn opensbi_checks_out_where_repo_and_tag_are_set() {
    let mut b = default_board_config("riscv64");
    b.boot_pipeline = Some(vec!["opensbi".to_string()]);
    b.opensbi_repo = Some("https://github.com/riscv/opensbi".to_string());
    b.opensbi_tag = Some("v1.5".to_string());
    let clones = clone_plan(&b);
    assert!(clones.error.is_none());
    assert_eq!(clones.requests.len(), 1);
    assert_eq!(clones.requests[0].dest, "/build/opensbi");
    assert_eq!(clones.requests[0].tag, "v1.5");
}

// ── Lock files ──────────────────────────────────────────────────────────────

fn locked(name: &str, commit: &str, kind: Option<&str>) -> LockedSource {
    LockedSource { name: name.to_string(), commit: commit.to_string(), kind: kind.map(|k| k.to_string()) }
}

#[test]
fn a_lock_without_git_commits_pins_nothing() {
    assert!(!is_usable_lock(&vec![locked("kernel", "", Some("git")), locked("stage3", "abc", Some("file"))]));
    assert!(is_usable_lock(&vec![locked("kernel", "abc123", Some("git"))]));
}

#[test]
fn pins_replace_the_tags_of_the_checkouts_the_board_has() {
    let mut b = default_board_config("riscv64");
    b.u_boot_repo = Some("https://example.org/u-boot".to_string());
    b.u_boot_tag = Some("v2024.01".to_string());
    b.kernel_tag = "v6.6".to_string();
    let lock = vec![
        locked("uboot", "1111111111111111", Some("git")),
        locked("opensbi", "2222222222222222", Some("git")),
        locked("kernel", "3333333333333333", Some("git")),
    ];
    let n = apply_pins(&mut b, &lock);
    assert_eq!(n, 2);
    assert_eq!(b.u_boot_tag.as_deref(), Some("1111111111111111"));
    // The board has no OpenSBI checkout, so its pin has nowhere to go.
    assert_eq!(b.opensbi_tag, None);
    assert_eq!(b.kernel_tag, "3333333333333333");
    // The firmware follows its own pin, not U-Boot's.
    assert_eq!(b.firmware_tag, None);
}

#[test]
fn bundle_lines_drop_comments_and_mark_optional_entries() {
    let got = bundle_entries("# header\nboot/Image\n\n optional: boot/extra.dtb # maybe\noptional:\n");
    assert_eq!(got, vec![(false, "boot/Image".to_string()), (true, "boot/extra.dtb".to_string())]);
}

// ── Source updates ──────────────────────────────────────────────────────────

#[test]
fn a_repo_is_cached_under_owner_and_name() {
    assert_eq!(repo_cache_name("https://github.com/torvalds/linux.git/", "kernel"), "torvalds-linux");
    assert_eq!(repo_cache_name("not a url", "kernel"), "kernel");
    assert_eq!(repo_cache_dir("/src", "https://github.com/riscv/opensbi", "x"), "/src/riscv-opensbi.git");
}

#[test]
fn commits_are_shortened_to_twelve_characters() {
    assert_eq!(short("0123456789abcdef"), "0123456789ab");
    assert_eq!(short("abc"), "abc");
}

#[test]
fn a_tag_is_tried_as_tag_and_as_branch() {
    let (t, h) = tag_refspecs("v1.0");
    assert_eq!(t, "refs/tags/v1.0:refs/tags/v1.0");
    assert_eq!(h, "refs/heads/v1.0:refs/heads/v1.0");
}

#[test]
fn the_summary_counts_each_outcome() {
    assert_eq!(summary_line(2, 5, 1), "Summary: 2 updatable, 5 up-to-date, 1 error");
    assert_eq!(summary_line(0, 0, 3), "Summary: 0 updatable, 0 up-to-date, 3 errors");
}

// ── Binary package headers ──────────────────────────────────────────────────

#[test]
fn the_packages_header_ends_at_the_first_blank_line() {
    let ix = parse_index("PACKAGES: 12\nPROFILE: default/linux/riscv\nPACKAGES: 13\n\nCPV: x\nCHOST: no\n");
    assert_eq!(ix.packages.as_deref(), Some("13"));
    assert_eq!(ix.profile.as_deref(), Some("default/linux/riscv"));
    assert_eq!(ix.chost, None);
    let line = report_line("rv64", &Some(ix), &vec!["gcc".to_string()]);
    assert_eq!(line, "binpkgs rv64: 13 packages, profile default/linux/riscv, toolchain gcc");
    assert_eq!(report_line("rv64", &None, &vec![]), "binpkgs rv64: empty");
}

// ── Crossdev ────────────────────────────────────────────────────────────────

#[test]
fn the_host_target_is_added_to_llvm_targets_once() {
    let env = CrossdevEnvironment::new("riscv64-unknown-linux-gnu", "/usr/riscv64", "default", "-O2", "RISCV");
    assert_eq!(env.llvm_targets("X86"), "RISCV X86");
    assert_eq!(env.llvm_targets("RISCV"), "RISCV");
}

fn drive(env: &CrossdevEnvironment, outcomes: &[Result<(), String>]) -> (usize, SetupProgress) {
    let steps = env.package_use_steps();
    let mut i = 0;
    let mut ran = 0;
    loop {
        ran += 1;
        match setup_next(&steps, i, &outcomes[i]) {
            SetupProgress::Next(j) => i = j,
            other => return (ran, other),
        }
    }
}

#[test]
fn package_use_setup_succeeds_when_every_file_is_written() {
    let env = CrossdevEnvironment::new("riscv64-unknown-linux-gnu", "/usr/riscv64", "default", "-O2", "RISCV");
    let ok: Vec<Result<(), String>> = vec![Ok(()), Ok(()), Ok(()), Ok(())];
    let (ran, end) = drive(&env, &ok);
    assert_eq!(ran, 4);
    assert!(matches!(end, SetupProgress::Done));
}

#[test]
fn package_use_setup_stops_at_the_first_failed_file() {
    let env = CrossdevEnvironment::new("riscv64-unknown-linux-gnu", "/usr/riscv64", "default", "-O2", "RISCV");
    let outcomes: Vec<Result<(), String>> =
        vec![Ok(()), Err("exit 1".to_string()), Err("never run".to_string()), Ok(())];
    let (ran, end) = drive(&env, &outcomes);
    assert_eq!(ran, 2);
    match end {
        SetupProgress::Failed(CrossdevError::ConfigFileError(m)) => {
            assert_eq!(m, "Failed to create clang package.use")
        }
        other => panic!("unexpected {:?}", other),
    }
    let last: Vec<Result<(), String>> =
        vec![Ok(()), Ok(()), Ok(()), Err("disk full".to_string())];
    match drive(&env, &last).1 {
        SetupProgress::Failed(CrossdevError::ConfigFileError(m)) => {
            assert_eq!(m, "Failed to create rust package.use: disk full")
        }
        other => panic!("unexpected {:?}", other),
    }
}

// ── Manifest ────────────────────────────────────────────────────────────────

#[test]
fn a_new_manifest_is_stamped_with_the_time() {
    let b = default_board_config("riscv64");
    let m = ManifestBuilder::new(&b);
    assert_eq!(m.board(), "riscv64");
    // RFC 3339: a date, `T`, a time.
    assert!(m.started_at().len() >= 20);
    assert_eq!(m.started_at().as_bytes()[10], b'T');
}
