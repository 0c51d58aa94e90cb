//! The package cache: where distfiles and binary packages live, and the
//! bookkeeping over what a scan of those directories found.
use vstd::prelude::*;
use etcetera::BaseStrategy;
use crate::stage3::{join_path, path_join};
use crate::text::{chars_of, concat, concat3, copy_string, owned, rfind_char, slice_of, chars_eq};
use crate::text;

verus! {

#[verifier::external_type_specification]
#[verifier::external_body]
pub struct ExXdg(etcetera::base_strategy::Xdg);

#[verifier::external_type_specification]
#[verifier::external_body]
pub struct ExHomeDirError(etcetera::HomeDirError);

#[verifier::external_type_specification]
#[verifier::external_body]
pub struct ExSystemTime(std::time::SystemTime);

/// Calls `etcetera::base_strategy::Xdg::new()`, which locates the home
/// directory from the environment; nothing is claimed of the outcome.
#[verifier::external_body]
fn xdg_new() -> (r: Result<etcetera::base_strategy::Xdg, etcetera::HomeDirError>) {
    etcetera::base_strategy::Xdg::new()
}

/// Calls `BaseStrategy::home_dir` on an `Xdg`: the home directory it was
/// made with, as text.
#[verifier::external_body]
fn xdg_home_dir(x: &etcetera::base_strategy::Xdg) -> (r: String) {
    x.home_dir().to_string_lossy().into_owned()
}

/// Calls `BaseStrategy::cache_dir` on an `Xdg`: `XDG_CACHE_HOME` or
/// `~/.cache`, read from the environment, as text.
#[verifier::external_body]
fn xdg_cache_dir(x: &etcetera::base_strategy::Xdg) -> (r: String) {
    x.cache_dir().to_string_lossy().into_owned()
}

/// Formats an `etcetera::HomeDirError` with `Display`, whose source writes
/// the one fixed message below.
#[verifier::external_body]
fn home_dir_error_text(e: &etcetera::HomeDirError) -> (r: String)
    ensures
        r@ == "could not locate home directory"@,
{
    format!("{}", e)
}

/// Why a cache operation failed.
#[derive(Debug)]
pub enum CacheError {
    IoError(String),
    SetupFailed(String),
    VerificationFailed(String),
    ConfigError(String),
    WalkDirError(String),
}

/// Where the cache lives.
#[derive(Debug, Clone)]
pub enum CacheStrategy {
    /// `~/.local/crossdev-stages`.
    Local,
    /// The XDG cache directory, `crossdev-stages` under it.
    System,
    /// A path of the user's choosing.
    Custom(String),
}

/// How the cache is set up.
#[derive(Debug, Clone)]
pub struct CacheConfig {
    pub enabled: bool,
    pub strategy: CacheStrategy,
    /// Largest size the cache may reach, in MB.
    pub max_size_mb: u64,
    /// Oldest a package may get, in days.
    pub max_age_days: u64,
    /// Check the packages when starting.
    pub verify_on_start: bool,
}

impl Default for CacheConfig {
    /// Enabled, local, 10 GB, 30 days, checked on start.
    fn default() -> (r: CacheConfig)
        ensures
            r.enabled,
            r.strategy is Local,
            r.max_size_mb == 10240,
            r.max_age_days == 30,
            r.verify_on_start,
    {
        CacheConfig {
            enabled: true,
            strategy: CacheStrategy::Local,
            max_size_mb: 10240,
            max_age_days: 30,
            verify_on_start: true,
        }
    }
}

/// The message for an environment without a home directory.
pub open spec fn no_home_msg() -> Seq<char> {
    "Failed to get XDG directories: could not locate home directory"@
}

proof fn lemma_no_home_msg()
    ensures
        "Failed to get XDG directories: "@ + "could not locate home directory"@ == no_home_msg(),
{
    reveal_strlit("Failed to get XDG directories: ");
    reveal_strlit("could not locate home directory");
    reveal_strlit("Failed to get XDG directories: could not locate home directory");
    assert("Failed to get XDG directories: "@ + "could not locate home directory"@ =~= no_home_msg());
}

/// The cache's directories, in the layout its configuration asks for.
#[derive(Debug)]
pub struct CrossdevCache {
    config: CacheConfig,
    cache_dir: String,
    distfiles_dir: String,
    binpkgs_dir: String,
}

impl CrossdevCache {
    pub closed spec fn root(&self) -> Seq<char> {
        self.cache_dir@
    }

    pub closed spec fn distfiles(&self) -> Seq<char> {
        self.distfiles_dir@
    }

    pub closed spec fn binpkgs(&self) -> Seq<char> {
        self.binpkgs_dir@
    }

    pub closed spec fn max_size_mb(&self) -> u64 {
        self.config.max_size_mb
    }

    pub closed spec fn max_age_days(&self) -> u64 {
        self.config.max_age_days
    }

    /// The cache for `config`: its root by the strategy, `distfiles` and
    /// `binpkgs` under it.  The directories are made by the caller.  The
    /// local and system roots come from the environment; a custom root is
    /// taken as given.
    pub fn new(config: CacheConfig) -> (r: Result<CrossdevCache, CacheError>)
        ensures
            match r {
                Ok(c) => {
                    &&& c.distfiles() == path_join(c.root(), "distfiles"@)
                    &&& c.binpkgs() == path_join(c.root(), "binpkgs"@)
                    &&& c.max_size_mb() == config.max_size_mb
                    &&& c.max_age_days() == config.max_age_days
                    &&& config.strategy matches CacheStrategy::Custom(p) ==> c.root() == p@
                    &&& config.strategy is Local ==> exists|h: Seq<char>|
                        c.root() == path_join(h, ".local/crossdev-stages"@)
                    &&& config.strategy is System ==> exists|d: Seq<char>|
                        c.root() == path_join(d, "crossdev-stages"@)
                },
                Err(e) => !(config.strategy is Custom) && (e matches CacheError::ConfigError(m)
                    && m@ == no_home_msg()),
            },
    {
        let cache_dir = match &config.strategy {
            CacheStrategy::Local => match xdg_new() {
                Ok(x) => {
                    let h = xdg_home_dir(&x);
                    join_path(h.as_str(), ".local/crossdev-stages")
                },
                Err(e) => {
                    let t = home_dir_error_text(&e);
                    proof {
                        lemma_no_home_msg();
                    }
                    return Err(
                        CacheError::ConfigError(concat("Failed to get XDG directories: ", t.as_str())),
                    );
                },
            },
            CacheStrategy::System => match xdg_new() {
                Ok(x) => {
                    let d = xdg_cache_dir(&x);
                    join_path(d.as_str(), "crossdev-stages")
                },
                Err(e) => {
                    let t = home_dir_error_text(&e);
                    proof {
                        lemma_no_home_msg();
                    }
                    return Err(
                        CacheError::ConfigError(concat("Failed to get XDG directories: ", t.as_str())),
                    );
                },
            },
            CacheStrategy::Custom(p) => copy_string(p),
        };
        let distfiles_dir = join_path(cache_dir.as_str(), "distfiles");
        let binpkgs_dir = join_path(cache_dir.as_str(), "binpkgs");
        Ok(CrossdevCache { config, cache_dir, distfiles_dir, binpkgs_dir })
    }

    /// The cache's root directory.
    pub fn cache_dir(&self) -> (r: &str)
        ensures
            r@ == self.root(),
    {
        self.cache_dir.as_str()
    }

    /// Where distfiles are kept.
    pub fn distfiles_dir(&self) -> (r: &str)
        ensures
            r@ == self.distfiles(),
    {
        self.distfiles_dir.as_str()
    }

    /// Where binary packages are kept.
    pub fn binpkgs_dir(&self) -> (r: &str)
        ensures
            r@ == self.binpkgs(),
    {
        self.binpkgs_dir.as_str()
    }

    /// Where the binary package `category/package-version` is kept
    /// (Gentoo's `.tbz2` format).
    pub fn binpkg_path(&self, category: &str, package: &str, version: &str) -> (r: String)
        ensures
            r@ == path_join(
                path_join(self.binpkgs(), category@),
                package@ + "-"@ + version@ + ".tbz2"@,
            ),
    {
        let dir = join_path(self.binpkgs_dir.as_str(), category);
        let a = concat3(package, "-", version);
        let file = concat(a.as_str(), ".tbz2");
        join_path(dir.as_str(), file.as_str())
    }

    /// Where the distfile `filename` is kept.
    pub fn distfile_path(&self, filename: &str) -> (r: String)
        ensures
            r@ == path_join(self.distfiles(), filename@),
    {
        join_path(self.distfiles_dir.as_str(), filename)
    }

    /// Whether the binary package's file is on disk at `binpkg_path`; the
    /// answer comes from the disk.
    pub fn has_binpkg(&self, category: &str, package: &str, version: &str) -> bool {
        let path = self.binpkg_path(category, package, version);
        path_exists(path.as_str())
    }

    /// Whether the distfile is on disk at `distfile_path`; the answer comes
    /// from the disk.
    pub fn has_distfile(&self, filename: &str) -> bool {
        let path = self.distfile_path(filename);
        path_exists(path.as_str())
    }

    /// The size limit in bytes.
    pub fn max_size_bytes(&self) -> (r: u64)
        requires
            self.max_size_mb() * 1024 * 1024 <= u64::MAX,
        ensures
            r == self.max_size_mb() * 1024 * 1024,
    {
        self.config.max_size_mb * 1024 * 1024
    }

    /// Whether what a scan found is over the size limit.
    pub fn exceeds_limit(&self, usage: &CacheVerificationReport) -> (r: bool)
        requires
            self.max_size_mb() * 1024 * 1024 <= u64::MAX,
            usage.distfile_size + usage.binpkg_size <= u64::MAX,
        ensures
            r == (usage.distfile_size + usage.binpkg_size > self.max_size_mb() * 1024 * 1024),
    {
        usage.total_size() > self.max_size_bytes()
    }

    /// Which entries a cleanup removes, and what it removed. An entry goes
    /// when it is older than the age limit, and then the oldest go first
    /// (by access time, the earlier listed first on a tie) until what is
    /// left fits the size limit; nothing else goes. `r.1[i]` says whether
    /// `entries[i]` is removed; removing the files is the caller's part.
    pub fn cleanup(&self, entries: &Vec<CacheEntry>, now: u64) -> (r: (CacheCleanupReport, Vec<bool>))
        requires
            self.max_size_mb() * 1024 * 1024 <= u64::MAX,
            full_tally(entries@, Measure::Bytes, entries@.len()) <= u64::MAX,
        ensures
            ({
                let es = entries@;
                let n = es.len();
                let gone = r.1@;
                let limit = self.max_size_mb() * 1024 * 1024;
                let max_age = self.max_age_days();
                &&& gone.len() == n
                &&& r.0.freed_space == tally(es, gone, Measure::Bytes, true, n)
                &&& r.0.removed_binpkgs == tally(es, gone, Measure::Binpkgs, true, n)
                &&& r.0.removed_distfiles == tally(es, gone, Measure::Distfiles, true, n)
                &&& tally(es, gone, Measure::Bytes, false, n) <= limit
                &&& forall|i: int| 0 <= i < n && !gone[i] ==> !expired(es[i], now, max_age)
                &&& forall|i: int, j: int|
                    0 <= i < n && 0 <= j < n && gone[i] && !gone[j] ==> older(es, i, j)
                &&& forall|g: int|
                    #![trigger gone[g]]
                    0 <= g < n && gone[g] && (forall|i: int|
                        0 <= i < n && gone[i] ==> i == g || older(es, i, g)) ==> (expired(
                        es[g],
                        now,
                        max_age,
                    ) || tally(es, gone, Measure::Bytes, false, n) + es[g].size > limit)
                &&& (full_tally(es, Measure::Bytes, n) <= limit && forall|i: int|
                    0 <= i < n ==> !expired(#[trigger] es[i], now, max_age)) ==> forall|i: int|
                    0 <= i < n ==> !gone[i]
            }),
    {
        let limit = self.max_size_bytes();
        let age_limit: Option<u64> = self.config.max_age_days.checked_mul(86400);
        let n = entries.len();
        let ghost es = entries@;
        let ghost max_age = self.max_age_days();
        // Nothing removed yet: everything is kept.
        let mut gone: Vec<bool> = Vec::new();
        let mut kept: u64 = 0;
        let mut i: usize = 0;
        while i < n
            invariant
                i <= n,
                n == es.len(),
                es == entries@,
                gone@.len() == i,
                forall|k: int| 0 <= k < i ==> !gone@[k],
                kept == full_tally(es, Measure::Bytes, i as nat),
                full_tally(es, Measure::Bytes, n as nat) <= u64::MAX,
            decreases n - i,
        {
            proof {
                lemma_full_tally_monotone(es, Measure::Bytes, (i + 1) as nat, n as nat);
            }
            kept = kept + entries[i].size;
            gone.push(false);
            i = i + 1;
        }
        proof {
            lemma_tally_none_gone(es, gone@, Measure::Bytes, n as nat);
            lemma_tally_none_gone(es, gone@, Measure::Binpkgs, n as nat);
            lemma_tally_none_gone(es, gone@, Measure::Distfiles, n as nat);
        }
        let mut freed: u64 = 0;
        let mut removed_binpkgs: u64 = 0;
        let mut removed_distfiles: u64 = 0;
        let ghost mut last: int = -1;
        loop
            invariant
                n == es.len(),
                es == entries@,
                gone@.len() == n,
                limit == self.max_size_mb() * 1024 * 1024,
                max_age == self.max_age_days(),
                age_limit matches Some(a) ==> a == max_age * 86400,
                age_limit is None ==> max_age * 86400 > u64::MAX,
                full_tally(es, Measure::Bytes, n as nat) <= u64::MAX,
                kept == tally(es, gone@, Measure::Bytes, false, n as nat),
                freed == tally(es, gone@, Measure::Bytes, true, n as nat),
                removed_binpkgs == tally(es, gone@, Measure::Binpkgs, true, n as nat),
                removed_distfiles == tally(es, gone@, Measure::Distfiles, true, n as nat),
                removed_binpkgs + removed_distfiles <= n,
                forall|a: int, b: int|
                    0 <= a < n && 0 <= b < n && gone@[a] && !gone@[b] ==> older(es, a, b),
                last == -1 ==> forall|a: int| 0 <= a < n ==> !gone@[a],
                last != -1 ==> {
                    &&& 0 <= last < n
                    &&& gone@[last]
                    &&& forall|a: int| 0 <= a < n && gone@[a] ==> a == last || older(es, a, last)
                    &&& expired(es[last], now, max_age) || kept + es[last].size > limit
                },
                (full_tally(es, Measure::Bytes, n as nat) <= limit && forall|a: int|
                    0 <= a < n ==> !expired(#[trigger] es[a], now, max_age)) ==> last == -1,
            ensures
                kept <= limit,
                forall|a: int| 0 <= a < n && !gone@[a] ==> !expired(es[a], now, max_age),
            decreases n - (removed_binpkgs + removed_distfiles),
        {
            // The oldest entry still kept.
            let mut best: Option<usize> = None;
            let mut k: usize = 0;
            while k < n
                invariant
                    k <= n,
                    n == es.len(),
                    es == entries@,
                    gone@.len() == n,
                    best matches Some(b) ==> b < k && !gone@[b as int] && forall|m: int|
                        0 <= m < k && !gone@[m] ==> m == b || older(es, b as int, m),
                    best is None ==> forall|m: int| 0 <= m < k ==> gone@[m],
                decreases n - k,
            {
                if !gone[k] {
                    match best {
                        None => {
                            best = Some(k);
                        },
                        Some(b) => {
                            if entries[k].accessed < entries[b].accessed {
                                best = Some(k);
                            }
                        },
                    }
                }
                k = k + 1;
            }
            let o = match best {
                None => {
                    proof {
                        lemma_tally_all_gone_kept(es, gone@, Measure::Bytes, n as nat);
                    }
                    break ;
                },
                Some(o) => o,
            };
            let e = &entries[o];
            let is_expired = match age_limit {
                Some(a) => e.accessed < now && now - e.accessed > a,
                None => false,
            };
            if kept <= limit && !is_expired {
                proof {
                    assert forall|a: int| 0 <= a < n && !gone@[a] implies !expired(
                        es[a],
                        now,
                        max_age,
                    ) by {
                        if a != o {
                            assert(older(es, o as int, a));
                        }
                    }
                }
                break ;
            }
            let ghost before = gone@;
            proof {
                lemma_tally_flip(es, before, Measure::Bytes, o as int, n as nat);
                lemma_tally_flip(es, before, Measure::Binpkgs, o as int, n as nat);
                lemma_tally_flip(es, before, Measure::Distfiles, o as int, n as nat);
                lemma_tally_split(es, before.update(o as int, true), Measure::Bytes, n as nat);
                lemma_tally_counts(es, before.update(o as int, true), n as nat);
                lemma_tally_nonneg(es, before.update(o as int, true), Measure::Bytes, false, n as nat);
            }
            gone.set(o, true);
            kept = kept - e.size;
            freed = freed + e.size;
            if e.binpkg {
                removed_binpkgs = removed_binpkgs + 1;
            } else {
                removed_distfiles = removed_distfiles + 1;
            }
            proof {
                assert(gone@ == before.update(o as int, true));
                assert forall|a: int, b: int|
                    0 <= a < n && 0 <= b < n && gone@[a] && !gone@[b] implies older(es, a, b) by {
                    if a == o {
                        assert(!before[b]);
                    } else {
                        assert(before[a]);
                    }
                }
                assert forall|a: int| 0 <= a < n && gone@[a] implies a == o || older(es, a, o as int) by {
                    if a != o {
                        assert(before[a]);
                    }
                }
                last = o as int;
            }
        }
        (
            CacheCleanupReport {
                removed_distfiles: removed_distfiles,
                removed_binpkgs: removed_binpkgs,
                freed_space: freed,
            },
            gone,
        )
    }
}

/// Calls `std::path::Path::exists`: whether something is at `path`, which
/// the disk decides; nothing is claimed.
#[verifier::external_body]
fn path_exists(path: &str) -> bool {
    std::path::Path::new(path).exists()
}

/// What a scan of the cache found.
#[derive(Debug, Default)]
pub struct CacheVerificationReport {
    pub distfile_count: u64,
    pub distfile_size: u64,
    pub binpkg_count: u64,
    pub binpkg_size: u64,
}

/// The sum of `s`.
pub open spec fn total(s: Seq<u64>) -> int
    decreases s.len(),
{
    if s.len() == 0 {
        0
    } else {
        total(s.drop_last()) + s.last()
    }
}

proof fn lemma_total_prefix(s: Seq<u64>, i: int)
    requires
        0 <= i <= s.len(),
    ensures
        total(s.take(i)) <= total(s),
    decreases s.len() - i,
{
    if i < s.len() {
        lemma_total_prefix(s, i + 1);
        assert(s.take(i + 1).drop_last() =~= s.take(i));
    } else {
        assert(s.take(i) =~= s);
    }
}

/// The file name has the extension `tbz2`, as `Path::extension` reads it:
/// after the last dot, where that dot is not the name's first character.
pub open spec fn is_tbz2_name(name: Seq<char>) -> bool {
    let i = text::last_index_of(name, '.');
    i > 0 && name.skip(i + 1) == "tbz2"@
}

/// Whether the file name `name` has the extension `tbz2`.
pub fn is_tbz2(name: &str) -> (r: bool)
    ensures
        r == is_tbz2_name(name@),
{
    let cs = chars_of(name);
    match rfind_char(cs.as_slice(), '.') {
        Some(i) => {
            if i == 0 {
                return false;
            }
            let n = cs.len();
            let ext = slice_of(cs.as_slice(), i + 1, n);
            assert(ext@ == cs@.skip(i + 1));
            let want = chars_of("tbz2");
            chars_eq(ext.as_slice(), want.as_slice())
        },
        None => false,
    }
}

impl CacheVerificationReport {
    /// Distfile and binary package bytes together.
    pub fn total_size(&self) -> (r: u64)
        requires
            self.distfile_size + self.binpkg_size <= u64::MAX,
        ensures
            r == self.distfile_size + self.binpkg_size,
    {
        self.distfile_size + self.binpkg_size
    }

    /// The report for a scan: every entry of the distfiles directory counts
    /// with its size; of the entries under the binary package directory,
    /// `(is_file, file_name, size)`, the files named `*.tbz2` do.
    pub fn tally(distfile_sizes: &Vec<u64>, binpkg_entries: &Vec<(bool, String, u64)>) -> (r:
        CacheVerificationReport)
        requires
            total(distfile_sizes@) <= u64::MAX,
            total(binpkg_sizes(binpkg_entries@)) <= u64::MAX,
        ensures
            r.distfile_count == distfile_sizes@.len(),
            r.distfile_size == total(distfile_sizes@),
            r.binpkg_count == binpkg_sizes(binpkg_entries@).len(),
            r.binpkg_size == total(binpkg_sizes(binpkg_entries@)),
    {
        let ghost ds = distfile_sizes@;
        let mut distfile_count: u64 = 0;
        let mut distfile_size: u64 = 0;
        let mut i: usize = 0;
        while i < distfile_sizes.len()
            invariant
                i <= ds.len(),
                ds == distfile_sizes@,
                total(ds) <= u64::MAX,
                distfile_count == i,
                distfile_size == total(ds.take(i as int)),
            decreases ds.len() - i,
        {
            proof {
                lemma_total_prefix(ds, i + 1);
                assert(ds.take(i + 1).drop_last() =~= ds.take(i as int));
            }
            distfile_count = distfile_count + 1;
            distfile_size = distfile_size + distfile_sizes[i];
            i = i + 1;
        }
        assert(ds.take(i as int) =~= ds);
        let ghost be = binpkg_entries@;
        let mut binpkg_count: u64 = 0;
        let mut binpkg_size: u64 = 0;
        let mut j: usize = 0;
        assert(be.take(0) =~= Seq::<(bool, String, u64)>::empty());
        while j < binpkg_entries.len()
            invariant
                j <= be.len(),
                be == binpkg_entries@,
                total(binpkg_sizes(be)) <= u64::MAX,
                binpkg_count == binpkg_sizes(be.take(j as int)).len(),
                binpkg_size == total(binpkg_sizes(be.take(j as int))),
            decreases be.len() - j,
        {
            let ghost pre = be.take(j as int);
            let ghost next = be.take(j + 1);
            assert(next.drop_last() =~= pre);
            proof {
                lemma_binpkg_sizes_len(next);
                lemma_binpkg_sizes_prefix(be, j + 1);
                lemma_total_prefix(binpkg_sizes(be), binpkg_sizes(next).len() as int);
            }
            let is_file = binpkg_entries[j].0;
            let size = binpkg_entries[j].2;
            if is_file && is_tbz2(binpkg_entries[j].1.as_str()) {
                assert(binpkg_sizes(next).drop_last() =~= binpkg_sizes(pre));
                binpkg_count = binpkg_count + 1;
                binpkg_size = binpkg_size + size;
            }
            j = j + 1;
        }
        assert(be.take(j as int) =~= be);
        CacheVerificationReport { distfile_count, distfile_size, binpkg_count, binpkg_size }
    }
}

/// The sizes of the `*.tbz2` files among scanned entries
/// `(is_file, file_name, size)`, in order.
pub open spec fn binpkg_sizes(s: Seq<(bool, String, u64)>) -> Seq<u64>
    decreases s.len(),
{
    if s.len() == 0 {
        seq![]
    } else {
        let rest = binpkg_sizes(s.drop_last());
        let e = s.last();
        if e.0 && is_tbz2_name(e.1@) {
            rest.push(e.2)
        } else {
            rest
        }
    }
}

proof fn lemma_binpkg_sizes_len(s: Seq<(bool, String, u64)>)
    ensures
        binpkg_sizes(s).len() <= s.len(),
    decreases s.len(),
{
    if s.len() > 0 {
        lemma_binpkg_sizes_len(s.drop_last());
    }
}

/// The sizes found in a prefix of a scan are a prefix of those of the whole.
proof fn lemma_binpkg_sizes_prefix(s: Seq<(bool, String, u64)>, i: int)
    requires
        0 <= i <= s.len(),
    ensures
        binpkg_sizes(s.take(i)).len() <= binpkg_sizes(s).len(),
        binpkg_sizes(s.take(i)) == binpkg_sizes(s).take(binpkg_sizes(s.take(i)).len() as int),
    decreases s.len() - i,
{
    if i < s.len() {
        lemma_binpkg_sizes_prefix(s, i + 1);
        let next = s.take(i + 1);
        assert(next.drop_last() =~= s.take(i));
        let a = binpkg_sizes(s.take(i));
        let b = binpkg_sizes(next);
        let whole = binpkg_sizes(s);
        if next.last().0 && is_tbz2_name(next.last().1@) {
            assert(b == a.push(next.last().2));
            assert(a =~= whole.take(a.len() as int));
        } else {
            assert(b == a);
        }
    } else {
        assert(s.take(i) =~= s);
        assert(binpkg_sizes(s) =~= binpkg_sizes(s).take(binpkg_sizes(s).len() as int));
    }
}

/// One file of the cache, as a cleanup sees it.
#[derive(Debug, Clone, Copy)]
pub struct CacheEntry {
    /// A binary package; otherwise a distfile.
    pub binpkg: bool,
    /// Its size in bytes.
    pub size: u64,
    /// When it was last read, in seconds since the epoch.
    pub accessed: u64,
}

/// What a tally over cache entries adds up.
pub enum Measure {
    Bytes,
    Binpkgs,
    Distfiles,
}

/// What one entry adds to a tally of `m`.
pub open spec fn measure(e: CacheEntry, m: Measure) -> int {
    match m {
        Measure::Bytes => e.size as int,
        Measure::Binpkgs => if e.binpkg {
            1
        } else {
            0
        },
        Measure::Distfiles => if e.binpkg {
            0
        } else {
            1
        },
    }
}

/// The tally of `m` over the first `n` entries whose removal flag is `g`.
pub open spec fn tally(es: Seq<CacheEntry>, gone: Seq<bool>, m: Measure, g: bool, n: nat) -> int
    decreases n,
{
    if n == 0 {
        0
    } else {
        tally(es, gone, m, g, (n - 1) as nat) + if gone[n - 1] == g {
            measure(es[n - 1], m)
        } else {
            0
        }
    }
}

/// The tally of `m` over the first `n` entries.
pub open spec fn full_tally(es: Seq<CacheEntry>, m: Measure, n: nat) -> int
    decreases n,
{
    if n == 0 {
        0
    } else {
        full_tally(es, m, (n - 1) as nat) + measure(es[n - 1], m)
    }
}

/// Entry `i` was read before entry `j` (the earlier listed first on a tie).
pub open spec fn older(es: Seq<CacheEntry>, i: int, j: int) -> bool {
    es[i].accessed < es[j].accessed || (es[i].accessed == es[j].accessed && i < j)
}

/// An entry not read for longer than `max_age_days` days at `now`.
pub open spec fn expired(e: CacheEntry, now: u64, max_age_days: u64) -> bool {
    now - e.accessed > max_age_days * 86400
}

proof fn lemma_full_tally_monotone(es: Seq<CacheEntry>, m: Measure, a: nat, b: nat)
    requires
        a <= b <= es.len(),
        m is Bytes,
    ensures
        full_tally(es, m, a) <= full_tally(es, m, b),
    decreases b,
{
    if a < b {
        lemma_full_tally_monotone(es, m, a, (b - 1) as nat);
    }
}

proof fn lemma_tally_none_gone(es: Seq<CacheEntry>, gone: Seq<bool>, m: Measure, n: nat)
    requires
        n <= gone.len(),
        forall|k: int| 0 <= k < n ==> !gone[k],
    ensures
        tally(es, gone, m, false, n) == full_tally(es, m, n),
        tally(es, gone, m, true, n) == 0,
    decreases n,
{
    if n > 0 {
        lemma_tally_none_gone(es, gone, m, (n - 1) as nat);
    }
}

proof fn lemma_tally_all_gone_kept(es: Seq<CacheEntry>, gone: Seq<bool>, m: Measure, n: nat)
    requires
        n <= gone.len(),
        forall|k: int| 0 <= k < n ==> gone[k],
    ensures
        tally(es, gone, m, false, n) == 0,
    decreases n,
{
    if n > 0 {
        lemma_tally_all_gone_kept(es, gone, m, (n - 1) as nat);
    }
}

proof fn lemma_tally_flip(es: Seq<CacheEntry>, gone: Seq<bool>, m: Measure, o: int, n: nat)
    requires
        0 <= o < gone.len(),
        n <= gone.len(),
        !gone[o],
    ensures
        o < n ==> tally(es, gone.update(o, true), m, true, n) == tally(es, gone, m, true, n)
            + measure(es[o], m),
        o < n ==> tally(es, gone.update(o, true), m, false, n) == tally(es, gone, m, false, n)
            - measure(es[o], m),
        o >= n ==> tally(es, gone.update(o, true), m, true, n) == tally(es, gone, m, true, n),
        o >= n ==> tally(es, gone.update(o, true), m, false, n) == tally(es, gone, m, false, n),
    decreases n,
{
    if n > 0 {
        lemma_tally_flip(es, gone, m, o, (n - 1) as nat);
    }
}

proof fn lemma_tally_split(es: Seq<CacheEntry>, gone: Seq<bool>, m: Measure, n: nat)
    ensures
        tally(es, gone, m, true, n) + tally(es, gone, m, false, n) == full_tally(es, m, n),
    decreases n,
{
    if n > 0 {
        lemma_tally_split(es, gone, m, (n - 1) as nat);
    }
}

proof fn lemma_tally_nonneg(es: Seq<CacheEntry>, gone: Seq<bool>, m: Measure, g: bool, n: nat)
    ensures
        tally(es, gone, m, g, n) >= 0,
    decreases n,
{
    if n > 0 {
        lemma_tally_nonneg(es, gone, m, g, (n - 1) as nat);
    }
}

proof fn lemma_tally_counts(es: Seq<CacheEntry>, gone: Seq<bool>, n: nat)
    ensures
        tally(es, gone, Measure::Binpkgs, true, n) + tally(es, gone, Measure::Distfiles, true, n)
            <= n,
    decreases n,
{
    if n > 0 {
        lemma_tally_counts(es, gone, (n - 1) as nat);
    }
}

/// What a cleanup removed.
#[derive(Debug, Default)]
pub struct CacheCleanupReport {
    pub removed_distfiles: u64,
    pub removed_binpkgs: u64,
    pub freed_space: u64,
}

/// What the cache tracks of one package.
#[derive(Debug)]
pub struct PackageMetadata {
    pub name: String,
    pub version: String,
    pub category: String,
    pub size: u64,
    pub timestamp: std::time::SystemTime,
    pub checksum: String,
}

} // verus!

verus! {

/// Where downloaded stage3 tarballs are kept: `stage3` under the cache's
/// root, or `/tmp/crossdev-stages-cache` where no cache could be set up.
pub open spec fn spec_stage3_cache_dir(cache: Result<CrossdevCache, CacheError>) -> Seq<char> {
    match cache {
        Ok(c) => path_join(c.root(), "stage3"@),
        Err(_) => "/tmp/crossdev-stages-cache"@,
    }
}

pub fn stage3_cache_dir(cache: &Result<CrossdevCache, CacheError>) -> (r: String)
    ensures
        r@ == spec_stage3_cache_dir(*cache),
{
    match cache {
        Ok(c) => join_path(c.cache_dir(), "stage3"),
        Err(_) => owned("/tmp/crossdev-stages-cache"),
    }
}

/// The default stage3 directory: `stage3` under the local cache, whose
/// root the environment decides, else the fallback under `/tmp` where the
/// environment gives no home directory.
pub fn default_stage3_cache_dir() -> (r: String)
    ensures
        r@ == "/tmp/crossdev-stages-cache"@ || exists|root: Seq<char>| r@ == path_join(root, "stage3"@),
{
    let cache = CrossdevCache::new(CacheConfig::default());
    stage3_cache_dir(&cache)
}

} // verus!
