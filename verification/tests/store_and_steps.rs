use crossdev_stages::binpkg_meta::Toolchain;
use crossdev_stages::store::{built_by_line, pad_right, removed_line, store_line, unused_binpkg_heading, unused_store_heading};
use crossdev_stages::board::default_board_config;
use crossdev_stages::build_step::{
    assemble_verdict, build_complete_line, hook_script, step_actions, step_banner, step_done_line, HookKind,
    StepAction,
};
use crossdev_stages::cflags::canonicalize;
use crossdev_stages::error::Error;
use crossdev_stages::package_list::parse_base;
use crossdev_stages::store::{board_store_keys, ensure_live_nonempty, store_key, unused_entries, LiveSet, StoreEntry};

fn entry(chost: &str, key: &str) -> StoreEntry {
    StoreEntry {
        chost: chost.into(),
        key: key.into(),
        complete: true,
        path: format!("/store/{chost}/{key}"),
    }
}

#[test]
fn live_entry_survives_stale_sibling_collected() {
    let chost = "riscv64-unknown-linux-gnu";
    let live = vec![store_key(chost, "0123456789abcdef", "15")];
    let entries = vec![
        entry(chost, "0123456789abcdef-gcc15"),
        entry(chost, "0123456789abcdef-gcc14"),
        entry(chost, "fedcba9876543210-gcc15"),
    ];
    let unused = unused_entries(entries, &live);
    let keys: Vec<_> = unused.iter().map(|e| e.rel_key()).collect();
    assert_eq!(
        keys,
        vec![
            format!("{chost}/0123456789abcdef-gcc14"),
            format!("{chost}/fedcba9876543210-gcc15"),
        ]
    );
}

#[test]
fn binpkg_dirs_classify_without_gcc_spec() {
    let chost = "riscv64-unknown-linux-gnu";
    let live = vec![format!("{chost}/0123456789abcdef")];
    let entries = vec![entry(chost, "0123456789abcdef"), entry(chost, "fedcba9876543210")];
    let unused = unused_entries(entries, &live);
    let keys: Vec<_> = unused.iter().map(|e| e.rel_key()).collect();
    assert_eq!(keys, vec![format!("{chost}/fedcba9876543210")]);
}

#[test]
fn empty_live_set_refuses_to_gc() {
    let live = LiveSet { store: vec![], binpkgs: vec![] };
    assert!(ensure_live_nonempty(&live, "/nowhere/boards").is_err());
    let nonempty = LiveSet {
        store: vec![store_key("riscv64-unknown-linux-gnu", "0123456789abcdef", "15")],
        binpkgs: vec![],
    };
    assert!(ensure_live_nonempty(&nonempty, "/nowhere/boards").is_ok());
}

#[test]
fn refusing_to_gc_names_the_boards_root() {
    let live = LiveSet { store: vec![], binpkgs: vec![] };
    match ensure_live_nonempty(&live, "/nowhere/boards") {
        Err(Error::CommandFailed { code, reason }) => {
            assert_eq!(code, 1);
            assert_eq!(reason, "no boards found under /nowhere/boards; refusing to gc");
        }
        other => panic!("unexpected {other:?}"),
    }
}

fn toolchain_hash(arch: &str) -> String {
    let b = default_board_config(arch);
    canonicalize(&b.effective_cflags("-O2 -pipe")).1
}

#[test]
fn board_keys_use_gcc_version_verbatim() {
    let mut b = default_board_config("riscv64");
    b.gcc_version = Some("15.2.1_p20260214".into());
    let hash = toolchain_hash("riscv64");
    assert_eq!(
        board_store_keys(&b, &hash, &vec!["14".into()]),
        vec![store_key(&b.chost(), &hash, "15.2.1_p20260214")]
    );
}

#[test]
fn board_keys_fall_back_to_sandbox_default_specs() {
    let b = default_board_config("riscv64");
    let hash = toolchain_hash("riscv64");
    assert_eq!(
        board_store_keys(&b, &hash, &vec!["14".into(), "15".into()]),
        vec![store_key(&b.chost(), &hash, "14"), store_key(&b.chost(), &hash, "15")]
    );
}

#[test]
fn a_store_key_joins_chost_hash_and_gcc_spec() {
    assert_eq!(
        store_key("riscv64-unknown-linux-gnu", "0123456789abcdef", "15"),
        "riscv64-unknown-linux-gnu/0123456789abcdef-gcc15"
    );
}

#[test]
fn defaults_reject_subtraction() {
    let err = parse_base("net-misc/openssh\n-app-editors/vim\n", "defaults/target-packages.txt").unwrap_err();
    assert!(matches!(
        err,
        Error::SubtractionInDefaults { ref atom, .. } if atom == "app-editors/vim"
    ));
}

// ── Build steps ─────────────────────────────────────────────────────────────

#[test]
fn a_finished_step_does_nothing() {
    assert_eq!(step_actions("kernel", true, true, true, true), Some(vec![]));
}

#[test]
fn an_override_replaces_the_whole_step() {
    assert_eq!(
        step_actions("kernel", false, true, true, true),
        Some(vec![StepAction::RunScript("override-kernel.sh".into()), StepAction::MarkDone])
    );
}

#[test]
fn hooks_run_around_the_default_work() {
    assert_eq!(
        step_actions("assemble", false, false, true, true),
        Some(vec![
            StepAction::RunScript("pre-assemble.sh".into()),
            StepAction::RunDefault,
            StepAction::RunScript("post-assemble.sh".into()),
            StepAction::MarkDone,
        ])
    );
    assert_eq!(
        step_actions("deps", false, false, false, false),
        Some(vec![StepAction::RunDefault, StepAction::MarkDone])
    );
}

#[test]
fn an_unknown_step_is_skipped() {
    assert_eq!(step_actions("flash", false, false, false, false), None);
}

#[test]
fn hook_files_are_named_by_kind_and_step() {
    assert_eq!(hook_script(HookKind::Pre, "checkout"), "pre-checkout.sh");
    assert_eq!(hook_script(HookKind::Post, "pack"), "post-pack.sh");
    assert_eq!(hook_script(HookKind::Override, "deps"), "override-deps.sh");
}

#[test]
fn steps_are_announced_and_timed() {
    assert_eq!(step_banner(0, 6, "deps"), "==> [1/6] deps...");
    assert_eq!(step_done_line("kernel", 185), "    kernel done (3m 5s)");
    assert_eq!(build_complete_line(7207), "Build complete: 2h 0m 7s");
}

#[test]
fn an_image_that_cannot_load_its_binaries_fails() {
    match assemble_verdict(Some(true), true, Some(true), true) {
        Err(Error::CommandFailed { code, reason }) => {
            assert_eq!(code, 1);
            assert_eq!(reason, "the image cannot load its own binaries");
        }
        other => panic!("unexpected {other:?}"),
    }
}

#[test]
fn foreign_extensions_fail_only_a_strict_board() {
    assert!(assemble_verdict(Some(false), true, Some(true), false).is_ok());
    match assemble_verdict(Some(false), true, Some(true), true) {
        Err(Error::CommandFailed { reason, .. }) => {
            assert_eq!(reason, "binaries use extensions this board does not have")
        }
        other => panic!("unexpected {other:?}"),
    }
    assert!(assemble_verdict(None, true, None, true).is_ok());
    assert!(assemble_verdict(Some(false), false, Some(true), true).is_ok());
}

// ── Store listings ──────────────────────────────────────────────────────────

#[test]
fn columns_are_padded_by_characters() {
    assert_eq!(pad_right("ab", 4), "ab  ");
    assert_eq!(pad_right("abcdef", 4), "abcdef");
    assert_eq!(pad_right("\u{e9}", 3), "\u{e9}  ");
    assert_eq!(pad_right("ab", 4), format!("{:<4}", "ab"));
}

#[test]
fn store_lines_and_headings_follow_the_listing_format() {
    assert_eq!(
        store_line("riscv64-unknown-linux-gnu", "0123456789abcdef-gcc15", true),
        format!("  {:<32} {:<34} complete", "riscv64-unknown-linux-gnu", "0123456789abcdef-gcc15")
    );
    assert!(store_line("c", "k", false).ends_with(" partial"));
    assert_eq!(unused_store_heading(1), "1 unused store entry:");
    assert_eq!(unused_store_heading(3), "3 unused store entries:");
    assert_eq!(unused_binpkg_heading(1), "1 unused binpkg cache:");
    assert_eq!(unused_binpkg_heading(2), "2 unused binpkg caches:");
    assert_eq!(removed_line(2, 3), "\nRemoved 2/3 entries.");
}

#[test]
fn a_cache_names_the_toolchain_that_built_it() {
    let mut t = Toolchain::new();
    t.insert("python".to_string(), "3.12".to_string());
    t.insert("gcc".to_string(), "14.2".to_string());
    t.insert("binutils".to_string(), "2.43".to_string());
    t.insert("glibc".to_string(), "2.40".to_string());
    assert_eq!(built_by_line(&t), "      built by binutils 2.43, gcc 14.2, glibc 2.40");
}
