//! Platform configuration: the target, compiler settings, source
//! repositories, package lists and image sizes of one platform.
use vstd::prelude::*;
use crate::text;
use crate::text::{chars_of, concat, lines_of, owned, string_of, trim_chars};

verus! {

/// Why a configuration could not be used.
#[derive(Debug)]
pub enum ConfigError {
    NotFound(String),
    ParseError(String),
    ValidationError(String),
}

/// Target architecture configuration.
#[derive(Debug, Clone)]
pub struct TargetConfig {
    pub arch: String,
    pub chost: String,
    pub flavor: String,
    pub keyword: String,
}

/// Compilation settings.
#[derive(Debug, Clone)]
pub struct CompilationConfig {
    pub cflags: String,
    pub gcc_version: String,
    pub profile: String,
    pub makeopts: String,
    pub emerge_default_opts: String,
}

/// Source repositories and their refs.
#[derive(Debug, Clone)]
pub struct RepositoryConfig {
    pub opensbi_repo: String,
    pub opensbi_tag: String,
    pub u_boot_repo: String,
    pub u_boot_tag: String,
    pub firmware_repo: String,
    pub firmware_tag: String,
    pub kernel_repo: String,
    pub kernel_tag: String,
    pub bootloader_tag: String,
}

/// Package list files.
#[derive(Debug, Clone)]
pub struct PackageConfig {
    pub stage1_file: String,
    pub additional_file: String,
}

/// Image sizes and layout.
#[derive(Debug, Clone)]
pub struct ImageConfig {
    pub root_size: String,
    pub boot_size: String,
    pub genimage_config: String,
}

/// The configuration of one platform.
#[derive(Debug, Clone)]
pub struct PlatformConfig {
    pub target: TargetConfig,
    pub compilation: CompilationConfig,
    pub repositories: RepositoryConfig,
    pub packages: PackageConfig,
    pub image: ImageConfig,
}

/// `MAKEOPTS` when a configuration gives none.
pub fn default_makeopts() -> (r: String)
    ensures
        r@ == "-j$(nproc) --load-average=$(nproc)"@,
{
    owned("-j$(nproc) --load-average=$(nproc)")
}

/// `EMERGE_DEFAULT_OPTS` when a configuration gives none.
pub fn default_emerge_opts() -> (r: String)
    ensures
        r@ == "--jobs=$(nproc) --load-average=$(nproc) --quiet-build y"@,
{
    owned("--jobs=$(nproc) --load-average=$(nproc) --quiet-build y")
}

impl PlatformConfig {
    /// Refuse a configuration without an arch or a CHOST.
    pub fn validate(&self) -> (r: Result<(), ConfigError>)
        ensures
            self.target.arch@.len() == 0 ==> (r matches Err(ConfigError::ValidationError(m))
                && m@ == "target.arch cannot be empty"@),
            self.target.arch@.len() > 0 && self.target.chost@.len() == 0 ==> (r matches Err(
                ConfigError::ValidationError(m),
            ) && m@ == "target.chost cannot be empty"@),
            self.target.arch@.len() > 0 && self.target.chost@.len() > 0 ==> r is Ok,
    {
        if self.target.arch.as_str().unicode_len() == 0 {
            return Err(ConfigError::ValidationError(owned("target.arch cannot be empty")));
        }
        if self.target.chost.as_str().unicode_len() == 0 {
            return Err(ConfigError::ValidationError(owned("target.chost cannot be empty")));
        }
        Ok(())
    }

    /// The cross-compile prefix, e.g. `riscv64-unknown-linux-gnu-`.
    pub fn cross_compile_prefix(&self) -> (r: String)
        ensures
            r@ == self.target.chost@ + "-"@,
    {
        concat(self.target.chost.as_str(), "-")
    }
}

/// The file a platform's configuration lives in.
pub fn platform_config_path(platform: &str) -> (r: String)
    ensures
        r@ == "config/platforms/"@ + platform@ + ".toml"@,
{
    text::concat3("config/platforms/", platform, ".toml")
}

/// The package atoms of a package-list text: its lines, trimmed, without
/// blank lines and `#` comments.
pub open spec fn package_lines(ls: Seq<Seq<char>>) -> Seq<Seq<char>>
    decreases ls.len(),
{
    if ls.len() == 0 {
        seq![]
    } else {
        let t = text::trim(ls.last());
        let prev = package_lines(ls.drop_last());
        if t.len() == 0 || t[0] == '#' {
            prev
        } else {
            prev.push(t)
        }
    }
}

/// The packages a package-list text names, one per line.
pub fn parse_package_list(content: &str) -> (r: Vec<String>)
    ensures
        r.deep_view() == package_lines(text::lines(content@)),
{
    let cs = chars_of(content);
    let ls = lines_of(cs.as_slice());
    let ghost lv = ls@.map_values(|l: Vec<char>| l@);
    let mut out: Vec<String> = Vec::new();
    let mut i: usize = 0;
    assert(lv.take(0) =~= Seq::<Seq<char>>::empty());
    while i < ls.len()
        invariant
            i <= ls@.len(),
            lv == ls@.map_values(|l: Vec<char>| l@),
            out.deep_view() == package_lines(lv.take(i as int)),
        decreases ls@.len() - i,
    {
        assert(lv.take(i + 1).drop_last() =~= lv.take(i as int));
        let t = trim_chars(ls[i].as_slice());
        if !(t.len() == 0 || t[0] == '#') {
            let ghost before = out.deep_view();
            out.push(string_of(t.as_slice()));
            assert(out.deep_view() =~= before.push(t@));
        }
        i = i + 1;
    }
    assert(lv.take(ls@.len() as int) =~= lv);
    out
}

} // verus!
