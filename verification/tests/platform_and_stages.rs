use crossdev_stages::config::parse_package_list;
use crossdev_stages::stage3::Stage3Error;
use crossdev_stages::arch::{arch_to_llvm_target, get_arch_aliases, get_default_flavor, parse_arch};
use crossdev_stages::config::{
    CompilationConfig, ImageConfig, PackageConfig, PlatformConfig, RepositoryConfig, TargetConfig,
};
use crossdev_stages::registry::{Stage3Info as RegistryEntry, Stage3Registry};
use crossdev_stages::sandbox::auto_detect_backend;
use crossdev_stages::stage3::{
    extract_date_from_filename, extract_timestamp, Stage3Fetcher, Stage3Info,
};

fn config(arch: &str, chost: &str, flavor: &str) -> PlatformConfig {
    PlatformConfig {
        target: TargetConfig {
            arch: arch.to_string(),
            chost: chost.to_string(),
            flavor: flavor.to_string(),
            keyword: "test".to_string(),
        },
        compilation: CompilationConfig {
            cflags: "test".to_string(),
            gcc_version: "test".to_string(),
            profile: "test".to_string(),
            makeopts: "test".to_string(),
            emerge_default_opts: "test".to_string(),
        },
        repositories: RepositoryConfig {
            opensbi_repo: "test".to_string(),
            opensbi_tag: "test".to_string(),
            u_boot_repo: "test".to_string(),
            u_boot_tag: "test".to_string(),
            firmware_repo: "test".to_string(),
            firmware_tag: "test".to_string(),
            kernel_repo: "test".to_string(),
            kernel_tag: "test".to_string(),
            bootloader_tag: "test".to_string(),
        },
        packages: PackageConfig {
            stage1_file: "test".to_string(),
            additional_file: "test".to_string(),
        },
        image: ImageConfig {
            root_size: "test".to_string(),
            boot_size: "test".to_string(),
            genimage_config: "test".to_string(),
        },
    }
}

#[test]
fn test_cross_compile_prefix() {
    let config = config("riscv64", "riscv64-unknown-linux-gnu", "test");
    assert_eq!(config.cross_compile_prefix(), "riscv64-unknown-linux-gnu-");
}

#[test]
fn test_auto_detect_with_default_features() {
    for docker in [false, true] {
        for bwrap in [false, true] {
            match auto_detect_backend(docker, bwrap) {
                Ok(backend) => {
                    assert!(backend.name() == "docker" || backend.name() == "bubblewrap");
                }
                Err(_) => {
                    assert!(!docker && !bwrap);
                }
            }
        }
    }
}

#[test]
fn test_extract_timestamp() {
    let filename = "stage3-riscv64-openrc-20231018T010001Z.tar.xz";
    let timestamp = extract_timestamp(filename);
    assert_eq!(timestamp, 20231018010001);
}

#[test]
fn test_extract_date_from_filename() {
    let filename = "stage3-riscv64-openrc-20231018T010001Z.tar.xz";
    let date = extract_date_from_filename(filename);
    assert_eq!(date, "20231018");
}

fn riscv_fetcher() -> Stage3Fetcher {
    let config = config("riscv64", "riscv64-unknown-linux-gnu", "rv64_lp64d-openrc");
    Stage3Fetcher::new(config, "/tmp/cache", "https://distfiles.gentoo.org")
}

#[test]
fn test_parse_stage3_list() {
    let fetcher = riscv_fetcher();
    let test_data = r#"
# Wed Oct 18 01:00:01 UTC 2023
stage3-riscv64-openrc-20231018T010001Z.tar.xz 123456789 SHA256 abc123...
stage3-riscv64-openrc-20231017T010001Z.tar.xz 123456788 SHA256 def456...
"#;
    let result = fetcher.parse_stage3_list(test_data);
    assert!(result.is_ok());
    let images = result.unwrap();
    assert_eq!(images.len(), 2);
    assert!(images[0].name.contains("20231018"));
    assert!(images[1].name.contains("20231017"));
}

#[test]
fn test_find_latest_stage3() {
    let fetcher = riscv_fetcher();
    let images = vec![
        Stage3Info {
            name: "stage3-riscv64-openrc-20231017T010001Z.tar.xz".to_string(),
            url: "http://example.com/1.tar.xz".to_string(),
            size: 100,
            date: "20231017".to_string(),
            arch: "riscv64".to_string(),
            flavor: "rv64_lp64d-openrc".to_string(),
        },
        Stage3Info {
            name: "stage3-riscv64-openrc-20231018T010001Z.tar.xz".to_string(),
            url: "http://example.com/2.tar.xz".to_string(),
            size: 101,
            date: "20231018".to_string(),
            arch: "riscv64".to_string(),
            flavor: "rv64_lp64d-openrc".to_string(),
        },
    ];
    let latest = fetcher.find_latest_stage3(&images).unwrap();
    assert!(latest.name.contains("20231018"));
}

#[test]
fn test_list_available_flavors() {
    let fetcher = riscv_fetcher();
    let test_data = r#"
# Wed Oct 18 01:00:01 UTC 2023
stage3-riscv64-openrc-20231018T010001Z.tar.xz 123456789 SHA256 abc123...
stage3-riscv64-hardened-20231017T010001Z.tar.xz 123456788 SHA256 def456...
stage3-riscv64-openrc-20231016T010001Z.tar.xz 123456787 SHA256 ghi789...
"#;
    let stage3_list = fetcher.parse_stage3_list(test_data).unwrap();
    let flavors = fetcher.list_available_flavors_from_list(&stage3_list);
    assert_eq!(flavors.len(), 2);
    assert!(flavors.contains(&"riscv64-openrc".to_string()));
    assert!(flavors.contains(&"riscv64-hardened".to_string()));
    assert_eq!(flavors[0], "riscv64-hardened".to_string());
    assert_eq!(flavors[1], "riscv64-openrc".to_string());
}

#[test]
fn test_empty_registry() {
    let registry = Stage3Registry::new();
    assert_eq!(registry.list_stage3s().len(), 0);
}

#[test]
fn test_add_remove_stage3() {
    let mut registry = Stage3Registry::new();
    let stage3 = RegistryEntry {
        name: "riscv64-k1".to_string(),
        path: "/tmp/test".to_string(),
        target: "riscv64-k1".to_string(),
        version: "20240130".to_string(),
        status: "ready".to_string(),
        last_updated: "2024-01-30T12:00:00Z".to_string(),
    };
    registry.add_stage3(stage3.clone()).unwrap();
    assert_eq!(registry.list_stage3s().len(), 1);
    let removed = registry.remove_stage3("riscv64-k1").unwrap();
    assert_eq!(removed.name, "riscv64-k1");
    assert_eq!(registry.list_stage3s().len(), 0);
}

#[test]
fn test_parse_arch() {
    assert_eq!(parse_arch("amd64"), "amd64");
    assert_eq!(parse_arch("x86_64"), "amd64");
    assert_eq!(parse_arch("x86"), "i686");
    assert_eq!(parse_arch("arm64"), "arm64");
    assert_eq!(parse_arch("aarch64"), "arm64");
    assert_eq!(parse_arch("riscv"), "riscv");
    assert_eq!(parse_arch("arm"), "arm");
    assert_eq!(parse_arch("ppc"), "ppc");
    assert_eq!(parse_arch("ppc64"), "ppc64");
    assert_eq!(parse_arch("parisc"), "hppa");
    assert_eq!(parse_arch("parisc64"), "hppa64");
}

#[test]
fn normalising_an_arch_twice_changes_nothing_more() {
    for a in ["X86_64", "x86", "AArch64", "parisc64", "PARISC", "i686", "Mips", "hppa2.0", "loong"] {
        let once = parse_arch(a);
        assert_eq!(parse_arch(&once), once);
    }
    assert_eq!(parse_arch("X86_64"), "amd64");
    assert_eq!(parse_arch("Mips"), "Mips");
}

#[test]
fn test_get_arch_aliases() {
    let aliases = get_arch_aliases();
    assert_eq!(aliases.len(), 8);
    assert_eq!(aliases.get("amd64"), Some(&"x86_64"));
    assert_eq!(aliases.get("arm64"), Some(&"aarch64"));
    assert_eq!(aliases.get("riscv"), Some(&"riscv64"));
}

#[test]
fn test_get_default_flavor() {
    assert_eq!(get_default_flavor("riscv64"), "rv64_lp64d-openrc");
    assert_eq!(get_default_flavor("riscv"), "rv32_ilp32d-openrc");
    assert_eq!(get_default_flavor("amd64"), "amd64-openrc");
    assert_eq!(get_default_flavor("arm64"), "arm64-openrc");
}

#[test]
fn test_arch_to_llvm_target() {
    assert_eq!(arch_to_llvm_target("riscv"), "RISCV");
    assert_eq!(arch_to_llvm_target("riscv64"), "RISCV");
    assert_eq!(arch_to_llvm_target("riscv64-unknown-linux-gnu"), "RISCV");
    assert_eq!(arch_to_llvm_target("arm"), "AArch64");
    assert_eq!(arch_to_llvm_target("arm64"), "AArch64");
    assert_eq!(arch_to_llvm_target("aarch64"), "AArch64");
    assert_eq!(arch_to_llvm_target("aarch64-unknown-linux-gnu"), "AArch64");
    assert_eq!(arch_to_llvm_target("amd64"), "X86");
    assert_eq!(arch_to_llvm_target("x86_64"), "X86");
    assert_eq!(arch_to_llvm_target("i686"), "X86");
    assert_eq!(arch_to_llvm_target("x86_64-pc-linux-gnu"), "X86");
    assert_eq!(arch_to_llvm_target("ppc"), "PowerPC");
    assert_eq!(arch_to_llvm_target("ppc64"), "PowerPC");
    assert_eq!(arch_to_llvm_target("powerpc-unknown-linux-gnu"), "PowerPC");
    assert_eq!(arch_to_llvm_target("unknown"), "AArch64 RISCV X86");
    assert_eq!(arch_to_llvm_target("unknown-vendor-os"), "AArch64 RISCV X86");
}

fn image(name: &str, url: &str) -> Stage3Info {
    Stage3Info {
        name: name.to_string(),
        url: url.to_string(),
        size: 10,
        date: "20231018".to_string(),
        arch: "riscv64".to_string(),
        flavor: "rv64_lp64d-openrc".to_string(),
    }
}

#[test]
fn stage3_downloads_and_unpacks_through_the_cache() {
    let fetcher = riscv_fetcher();
    let img = image("stage3-rv.tar.xz", "https://m/stage3-rv.tar.xz");
    assert_eq!(Stage3Fetcher::fetch_args("https://m/list.txt"), vec!["-s", "-f", "https://m/list.txt"]);
    assert_eq!(
        fetcher.download_args(&img),
        vec!["-L", "-o", "/tmp/cache/stage3-rv.tar.xz", "https://m/stage3-rv.tar.xz"]
    );
    assert_eq!(
        fetcher.extract_args(&img, "/stages/t"),
        vec!["--exclude", "dev/*", "-xJpf", "/tmp/cache/stage3-rv.tar.xz", "-C", "/stages/t"]
    );
}

#[test]
fn stage3_failures_name_the_image_and_the_tool_output() {
    let fetcher = riscv_fetcher();
    let img = image("stage3-rv.tar.xz", "u");
    assert!(matches!(Stage3Fetcher::fetch_error(false, "404"), Stage3Error::FetchError(ref m) if m == "Failed to fetch stage3 list: 404"));
    assert!(matches!(Stage3Fetcher::fetch_error(true, "404"), Stage3Error::FetchError(ref m) if m == "Failed to fetch all stage3 flavors: 404"));
    assert!(matches!(Stage3Fetcher::download_error(&img, "reset"), Stage3Error::DownloadError(ref m) if m == "Failed to download stage3-rv.tar.xz: reset"));
    assert!(matches!(Stage3Fetcher::extract_error(&img, "bad"), Stage3Error::ExtractError(ref m) if m == "Failed to extract stage3-rv.tar.xz: bad"));
    assert!(matches!(fetcher.not_cached_error(&img), Stage3Error::ExtractError(ref m) if m == "Stage3 image not found in cache: /tmp/cache/stage3-rv.tar.xz"));
}

#[test]
fn an_arch_name_is_matched_whatever_its_case() {
    assert_eq!(parse_arch("X86_64"), "amd64");
    assert_eq!(parse_arch("AArch64"), "arm64");
    assert_eq!(parse_arch("RISCV"), "riscv");
    // A name that is no alias is kept as written.
    assert_eq!(parse_arch("RISCV64"), "RISCV64");
}

#[test]
fn test_load_package_list() {
    let package_content = r#"
            # This is a comment
            sys-apps/baselayout
            
            sys-apps/portage
            # Another comment
            app-shells/bash
        "#;
    let packages = parse_package_list(package_content);
    assert_eq!(packages.len(), 3);
    assert_eq!(packages[0], "sys-apps/baselayout");
    assert_eq!(packages[1], "sys-apps/portage");
    assert_eq!(packages[2], "app-shells/bash");
}
