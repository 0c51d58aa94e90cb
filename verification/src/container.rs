//! Sandbox containers, apart from running them: which paths get
//! bind-mounted and where a line of `/proc/self/mountinfo` says something is
//! mounted, the id maps a container gets, the shell that packs and unpacks
//! stage tarballs, and how a failed command is reported.
use vstd::prelude::*;
use crate::error::Error;
use crate::num::{parse_u64, parse_u64_text, ParsedU64};
use crate::text;
use crate::text::{chars_of, concat, concat3, copy_string, lines_of, owned, slice_of, split_of, string_of};

verus! {

/// A bind mount a crashed sandbox session left behind.
#[derive(Debug, Clone)]
pub struct StaleMount {
    pub sandbox: String,
    pub path: String,
}

/// The paths inside a sandbox tree that a sandbox session bind-mounts.
pub fn bind_targets() -> (r: Vec<&'static str>)
    ensures
        r@.map_values(|s: &str| s@) == seq!["var/log"@, "etc/resolv.conf"@],
{
    let mut v: Vec<&'static str> = Vec::new();
    v.push("var/log");
    v.push("etc/resolv.conf");
    assert(v@.map_values(|s: &str| s@) =~= seq!["var/log"@, "etc/resolv.conf"@]);
    v
}

/// Index of the first occurrence of `p` in `s`, or -1.
pub open spec fn find_text(s: Seq<char>, p: Seq<char>) -> int
    decreases s.len(),
{
    if text::starts_with(s, p) {
        0
    } else if s.len() == 0 {
        -1
    } else {
        let r = find_text(s.drop_first(), p);
        if r < 0 {
            -1
        } else {
            r + 1
        }
    }
}

/// The mount point a mountinfo line names: the fifth field of the part
/// before the ` - ` separator.
pub open spec fn spec_mount_point(line: Seq<char>) -> Option<Seq<char>> {
    let i = find_text(line, " - "@);
    let before = if i < 0 {
        line
    } else {
        line.take(i)
    };
    let ws = text::words(before);
    if ws.len() >= 5 {
        Some(ws[4])
    } else {
        None
    }
}

fn find_sep(s: &[char]) -> (r: Option<usize>)
    ensures
        match r {
            Some(i) => i as int == find_text(s@, " - "@) && i <= s@.len(),
            None => find_text(s@, " - "@) < 0,
        },
{
    let sep = chars_of(" - ");
    proof {
        reveal_strlit(" - ");
    }
    let mut i: usize = 0;
    assert(s@.skip(0) =~= s@);
    while i < s.len()
        invariant
            i <= s@.len(),
            sep@ == " - "@,
            find_text(s@, " - "@) == (if find_text(s@.skip(i as int), " - "@) < 0 {
                -1
            } else {
                find_text(s@.skip(i as int), " - "@) + i
            }),
        decreases s@.len() - i,
    {
        let rest = slice_of(s, i, s.len());
        assert(rest@ =~= s@.skip(i as int));
        if text::starts_with_chars(rest.as_slice(), sep.as_slice()) {
            return Some(i);
        }
        assert(s@.skip(i as int).drop_first() =~= s@.skip(i + 1));
        i = i + 1;
    }
    assert(s@.skip(i as int) =~= Seq::<char>::empty());
    assert(!text::starts_with(Seq::<char>::empty(), " - "@));
    None
}

/// Where a `/proc/self/mountinfo` line says something is mounted.
pub fn mount_point_from_mountinfo(line: &str) -> (r: Option<String>)
    ensures
        match r {
            Some(m) => spec_mount_point(line@) == Some(m@),
            None => spec_mount_point(line@) is None,
        },
{
    let cs = chars_of(line);
    let before = match find_sep(cs.as_slice()) {
        Some(i) => {
            let b = slice_of(cs.as_slice(), 0, i);
            assert(b@ =~= cs@.take(i as int));
            b
        },
        None => cs,
    };
    let ws = text::words_of(before.as_slice());
    let ghost wv = ws@.map_values(|w: Vec<char>| w@);
    if ws.len() >= 5 {
        assert(wv[4] == ws@[4]@);
        Some(string_of(ws[4].as_slice()))
    } else {
        None
    }
}

} // verus!

verus! {

// ── User namespaces ─────────────────────────────────────────────────────────

/// A `u32` field of `/etc/subuid`, read as `str::parse::<u32>` does.
pub open spec fn u32_field(s: Seq<char>) -> Option<u32> {
    match parse_u64(s) {
        ParsedU64::Value(v) => if v <= u32::MAX {
            Some(v as u32)
        } else {
            None
        },
        _ => None,
    }
}

/// The subordinate range `/etc/subuid` (or `subgid`) gives `user`, whose
/// numeric id is `id`: the first line `name:start:count` naming either;
/// none where no line does, or where that line's numbers do not read.
pub open spec fn subid_of(ls: Seq<Seq<char>>, user: Seq<char>, id: Seq<char>) -> Option<(u32, u32)>
    decreases ls.len(),
{
    if ls.len() == 0 {
        None
    } else {
        let parts = text::split(ls[0], ':');
        if parts.len() >= 3 && (parts[0] == user || parts[0] == id) {
            match (u32_field(parts[1]), u32_field(parts[2])) {
                (Some(a), Some(b)) => Some((a, b)),
                _ => None,
            }
        } else {
            subid_of(ls.drop_first(), user, id)
        }
    }
}

fn u32_text(s: &[char]) -> (r: Option<u32>)
    ensures
        r == u32_field(s@),
{
    let t = string_of(s);
    match parse_u64_text(t.as_str()) {
        ParsedU64::Value(v) => if v <= 0xffff_ffffu64 {
            Some(v as u32)
        } else {
            None
        },
        _ => None,
    }
}

/// The subordinate id range the file text `content` gives `user` (numeric
/// id `id`).
pub fn subid_range(content: &str, user: &str, id: &str) -> (r: Option<(u32, u32)>)
    ensures
        r == subid_of(text::lines(content@), user@, id@),
{
    let cs = chars_of(content);
    let ls = lines_of(cs.as_slice());
    let ghost lv = ls@.map_values(|l: Vec<char>| l@);
    let uc = chars_of(user);
    let ic = chars_of(id);
    let mut i: usize = 0;
    assert(lv.skip(0) =~= lv);
    while i < ls.len()
        invariant
            i <= ls@.len(),
            lv == ls@.map_values(|l: Vec<char>| l@),
            lv == text::lines(content@),
            uc@ == user@,
            ic@ == id@,
            subid_of(lv, user@, id@) == subid_of(lv.skip(i as int), user@, id@),
        decreases ls@.len() - i,
    {
        assert(lv.skip(i as int)[0] == ls@[i as int]@);
        assert(lv.skip(i as int).drop_first() =~= lv.skip(i + 1));
        let parts = split_of(ls[i].as_slice(), ':');
        let ghost pv = parts@.map_values(|l: Vec<char>| l@);
        if parts.len() >= 3 {
            assert(pv[0] == parts@[0]@ && pv[1] == parts@[1]@ && pv[2] == parts@[2]@);
            if text::chars_eq(parts[0].as_slice(), uc.as_slice()) || text::chars_eq(
                parts[0].as_slice(),
                ic.as_slice(),
            ) {
                let a = u32_text(parts[1].as_slice());
                let b = u32_text(parts[2].as_slice());
                return match (a, b) {
                    (Some(x), Some(y)) => Some((x, y)),
                    _ => None,
                };
            }
        }
        i = i + 1;
    }
    None
}

/// The id maps of a container started by `id`: `id` is root inside, and
/// the subordinate range `sub`, where the user has one, follows from 1.
pub fn idmaps(id: u32, sub: Option<(u32, u32)>) -> (r: Vec<(u32, u32, u32)>)
    ensures
        r@ == seq![(0u32, id, 1u32)] + match sub {
            Some(p) => seq![(1u32, p.0, p.1)],
            None => seq![],
        },
{
    let mut maps: Vec<(u32, u32, u32)> = Vec::new();
    maps.push((0, id, 1));
    match sub {
        Some((start, count)) => maps.push((1, start, count)),
        None => {},
    }
    assert(maps@ =~= seq![(0u32, id, 1u32)] + match sub {
        Some(p) => seq![(1u32, p.0, p.1)],
        None => seq![],
    });
    maps
}

// ── Paths under the cache mount ─────────────────────────────────────────────

/// `base` without trailing `/`.
pub open spec fn dir_text(base: Seq<char>) -> Seq<char> {
    text::trim_end_in(base, '/', '/')
}

/// `path` relative to `base` (`Path::strip_prefix`, compared as text after
/// trailing slashes of `base` are dropped): empty for `base` itself, the
/// rest after `base/` for a path under it, none otherwise.
pub open spec fn relative_to(path: Seq<char>, base: Seq<char>) -> Option<Seq<char>> {
    let b = dir_text(base);
    if path == b {
        Some(seq![])
    } else if text::starts_with(path, b + "/"@) {
        Some(text::trim_start_in(path.skip(b.len() + 1int), '/', '/'))
    } else {
        None
    }
}

/// Where `path` is inside a container that mounts `cache_base` at
/// `/cache`: `/cache/` and the path relative to the base, or the whole
/// path where it is not under the base.
pub open spec fn spec_in_cache(path: Seq<char>, cache_base: Seq<char>) -> Seq<char> {
    "/cache/"@ + match relative_to(path, cache_base) {
        Some(r) => r,
        None => path,
    }
}

pub fn in_cache(path: &str, cache_base: &str) -> (r: String)
    ensures
        r@ == spec_in_cache(path@, cache_base@),
{
    let p = chars_of(path);
    let bc = chars_of(cache_base);
    let b = text::trim_end_in_chars(bc.as_slice(), '/', '/');
    if text::chars_eq(p.as_slice(), b.as_slice()) {
        return owned("/cache/");
    }
    let mut bs = b.clone();
    bs.push('/');
    proof {
        reveal_strlit("/");
    }
    assert(bs@ =~= b@ + "/"@);
    if text::starts_with_chars(p.as_slice(), bs.as_slice()) {
        let n = p.len();
        let rest = slice_of(p.as_slice(), bs.len(), n);
        assert(rest@ =~= path@.skip(b@.len() + 1int));
        let rel = text::trim_start_in_chars(rest.as_slice(), '/', '/');
        let r = string_of(rel.as_slice());
        concat("/cache/", r.as_str())
    } else {
        concat("/cache/", path)
    }
}

// ── Tarballs ────────────────────────────────────────────────────────────────

/// The shell that unpacks the stage3 tarball `stage` into `dest` (both as
/// the container sees them), keeping owners and xattrs, without `/dev`.
pub open spec fn spec_unpack_command(stage: Seq<char>, dest: Seq<char>) -> Seq<char> {
    "mkdir -p "@ + dest + " && tar --overwrite -xpf "@ + stage
        + " --xattrs-include='*.*' --numeric-owner --exclude='./dev' -C "@ + dest
}

pub fn unpack_command(stage: &str, dest: &str) -> (r: String)
    ensures
        r@ == spec_unpack_command(stage@, dest@),
{
    let a = concat3("mkdir -p ", dest, " && tar --overwrite -xpf ");
    let b = concat3(a.as_str(), stage, " --xattrs-include='*.*' --numeric-owner --exclude='./dev' -C ");
    concat(b.as_str(), dest)
}

/// The tar flag for a compression name: gzip for `gz`/`gzip`, none for
/// `none`, xz for anything else.
pub open spec fn compress_flag(compression: Seq<char>) -> Seq<char> {
    if compression == "gz"@ || compression == "gzip"@ {
        "-z"@
    } else if compression == "none"@ {
        ""@
    } else {
        "-J"@
    }
}

/// The shell that packs the tree `src` into `tarball` (both as the
/// container sees them), keeping owners and xattrs, without the pseudo
/// filesystems.
pub open spec fn spec_pack_command(compression: Seq<char>, tarball: Seq<char>, src: Seq<char>) -> Seq<char> {
    "tar -cp"@ + compress_flag(compression)
        + " --xattrs --xattrs-include='*.*' --numeric-owner --exclude='./dev' --exclude='./proc' --exclude='./sys' --exclude='./run' --exclude='./tmp' -f "@
        + tarball + " -C "@ + src + " ."@
}

pub fn pack_command(compression: &str, tarball: &str, src: &str) -> (r: String)
    ensures
        r@ == spec_pack_command(compression@, tarball@, src@),
{
    let flag = if text::text_eq(compression, "gz") || text::text_eq(compression, "gzip") {
        "-z"
    } else if text::text_eq(compression, "none") {
        ""
    } else {
        "-J"
    };
    let a = concat3(
        "tar -cp",
        flag,
        " --xattrs --xattrs-include='*.*' --numeric-owner --exclude='./dev' --exclude='./proc' --exclude='./sys' --exclude='./run' --exclude='./tmp' -f ",
    );
    let b = concat3(a.as_str(), tarball, " -C ");
    concat3(b.as_str(), src, " .")
}

/// The shell that removes `dir` (as the container sees it).
pub fn destroy_command(dir: &str) -> (r: String)
    ensures
        r@ == "rm -rf "@ + dir@,
{
    concat("rm -rf ", dir)
}

/// A failed command's error with the command in front of its reason, so
/// the log says what failed; any other error as it was.
pub fn annotate_cmd(e: Error, cmd: &str) -> (r: Error)
    ensures
        match e {
            Error::CommandFailed { code, reason } => r matches Error::CommandFailed { code: c, reason: m }
                && c == code && m@ == cmd@ + ": "@ + reason@,
            _ => r == e,
        },
{
    match e {
        Error::CommandFailed { code, reason } => Error::CommandFailed {
            code,
            reason: concat3(cmd, ": ", reason.as_str()),
        },
        other => other,
    }
}

// ── DNS inside the sandbox ──────────────────────────────────────────────────

/// The resolver configuration written where the host's cannot be mounted.
pub fn fallback_resolv() -> (r: &'static str)
    ensures
        r@ == "nameserver 1.1.1.1\nnameserver 2606:4700:4700::1111\n"@,
{
    "nameserver 1.1.1.1\nnameserver 2606:4700:4700::1111\n"
}

/// Where, relative to the sandbox root, the file the host's
/// `/etc/resolv.conf` resolves to (`resolved`) would have to exist for the bind
/// mount to work; none under `/run/systemd`, which no sandbox has.
pub open spec fn spec_resolv_target(resolved: Seq<char>) -> Option<Seq<char>> {
    if text::starts_with(resolved, "/run/systemd"@) {
        None
    } else {
        Some(text::trim_start_in(resolved, '/', '/'))
    }
}

pub fn resolv_target(resolved: &str) -> (r: Option<String>)
    ensures
        match spec_resolv_target(resolved@) {
            Some(t) => r matches Some(x) && x@ == t,
            None => r is None,
        },
{
    if text::str_prefixed(resolved, "/run/systemd") {
        return None;
    }
    let cs = chars_of(resolved);
    let t = text::trim_start_in_chars(cs.as_slice(), '/', '/');
    Some(string_of(t.as_slice()))
}

/// What putting back an unmounted bind target takes.
#[derive(Debug, Clone, Copy, PartialEq, Eq, Structural)]
pub enum Restore {
    /// Recreate the directory.
    CreateDir,
    /// Write the fallback resolver configuration.
    WriteResolv,
    Nothing,
}

/// The path ends with the path `p`, component-wise as text.
pub open spec fn ends_with_path(path: Seq<char>, p: Seq<char>) -> bool {
    path == p || text::ends_with(path, "/"@ + p)
}

/// How to restore the bind target `path` (which `exists` or not): the log
/// directory is recreated, a missing `resolv.conf` is written.
pub open spec fn spec_restore(path: Seq<char>, exists: bool) -> Restore {
    if ends_with_path(path, "var/log"@) {
        Restore::CreateDir
    } else if ends_with_path(path, "resolv.conf"@) && !exists {
        Restore::WriteResolv
    } else {
        Restore::Nothing
    }
}

fn ends_with_component(path: &str, p: &str) -> (r: bool)
    ensures
        r == ends_with_path(path@, p@),
{
    if text::text_eq(path, p) {
        return true;
    }
    let cs = chars_of(path);
    let slash_p = concat("/", p);
    let sp = chars_of(slash_p.as_str());
    text::ends_with_chars(cs.as_slice(), sp.as_slice())
}

pub fn restore_action(path: &str, exists: bool) -> (r: Restore)
    ensures
        r == spec_restore(path@, exists),
{
    if ends_with_component(path, "var/log") {
        Restore::CreateDir
    } else if ends_with_component(path, "resolv.conf") && !exists {
        Restore::WriteResolv
    } else {
        Restore::Nothing
    }
}

// ── What a sandbox container mounts ─────────────────────────────────────────

/// The mounts a sandbox runner adds to its container, in the order added:
/// read-write and read-only binds (host path, container path) and the
/// project directory shown at `/scripts`.
#[derive(Debug, Clone)]
pub struct MountPlan {
    pub rw: Vec<(String, String)>,
    pub ro: Vec<(String, String)>,
    pub scripts: Option<String>,
}

pub open spec fn bind_views(s: Seq<(String, String)>) -> Seq<(Seq<char>, Seq<char>)> {
    s.map_values(|b: (String, String)| (b.0@, b.1@))
}

impl MountPlan {
    /// A runner that mounts nothing of its own.
    pub fn new() -> (r: MountPlan)
        ensures
            r.rw@.len() == 0,
            r.ro@.len() == 0,
            r.scripts is None,
    {
        MountPlan { rw: Vec::new(), ro: Vec::new(), scripts: None }
    }

    fn push_rw(&mut self, host: &str, at: &str)
        ensures
            bind_views(final(self).rw@) == bind_views(old(self).rw@).push((host@, at@)),
            final(self).ro@ == old(self).ro@,
            final(self).scripts == old(self).scripts,
    {
        let ghost before = bind_views(self.rw@);
        self.rw.push((owned(host), owned(at)));
        assert(bind_views(self.rw@) =~= before.push((host@, at@)));
    }

    /// Mount the target stage read-write at `/target`.
    pub fn with_target(&mut self, target_dir: &str)
        ensures
            bind_views(final(self).rw@) == bind_views(old(self).rw@).push((target_dir@, "/target"@)),
            final(self).ro@ == old(self).ro@,
            final(self).scripts == old(self).scripts,
    {
        self.push_rw(target_dir, "/target");
    }

    /// Mount a build directory read-write at `/build`, and the project
    /// directory read-only at `/scripts`.
    pub fn with_build(&mut self, build_dir: &str, scripts_dir: &str)
        ensures
            bind_views(final(self).rw@) == bind_views(old(self).rw@).push((build_dir@, "/build"@)),
            final(self).ro@ == old(self).ro@,
            final(self).scripts matches Some(s) && s@ == scripts_dir@,
    {
        self.push_rw(build_dir, "/build");
        self.scripts = Some(owned(scripts_dir));
    }

    /// Mount the source cache read-write at `/cache`.
    pub fn with_cache(&mut self, cache_dir: &str)
        ensures
            bind_views(final(self).rw@) == bind_views(old(self).rw@).push((cache_dir@, "/cache"@)),
            final(self).ro@ == old(self).ro@,
            final(self).scripts == old(self).scripts,
    {
        self.push_rw(cache_dir, "/cache");
    }

    /// Every bind of the container, in order, as (host path, container
    /// path, read-write): the log directory at `/var/log`, the host's
    /// resolver configuration where `host_resolv` says it can be mounted,
    /// the read-write binds, the read-only binds, then `/scripts`.
    pub open spec fn spec_binds(self, log_dir: Seq<char>, host_resolv: bool) -> Seq<(Seq<char>, Seq<char>, bool)> {
        seq![(log_dir, "/var/log"@, true)] + (if host_resolv {
            seq![("/etc/resolv.conf"@, "/etc/resolv.conf"@, false)]
        } else {
            seq![]
        }) + bind_views(self.rw@).map_values(|b: (Seq<char>, Seq<char>)| (b.0, b.1, true)) + bind_views(
            self.ro@,
        ).map_values(|b: (Seq<char>, Seq<char>)| (b.0, b.1, false)) + match self.scripts {
            Some(s) => seq![(s@, "/scripts"@, false)],
            None => seq![],
        }
    }

    pub fn binds(&self, log_dir: &str, host_resolv: bool) -> (r: Vec<(String, String, bool)>)
        ensures
            r@.map_values(|b: (String, String, bool)| (b.0@, b.1@, b.2)) == self.spec_binds(log_dir@, host_resolv),
    {
        let mut out: Vec<(String, String, bool)> = Vec::new();
        out.push((owned(log_dir), owned("/var/log"), true));
        if host_resolv {
            out.push((owned("/etc/resolv.conf"), owned("/etc/resolv.conf"), false));
        }
        let ghost head = out@.map_values(|b: (String, String, bool)| (b.0@, b.1@, b.2));
        assert(head =~= seq![(log_dir@, "/var/log"@, true)] + (if host_resolv {
            seq![("/etc/resolv.conf"@, "/etc/resolv.conf"@, false)]
        } else {
            seq![]
        }));
        let ghost rwv = bind_views(self.rw@).map_values(|b: (Seq<char>, Seq<char>)| (b.0, b.1, true));
        let mut i: usize = 0;
        while i < self.rw.len()
            invariant
                i <= self.rw@.len(),
                rwv == bind_views(self.rw@).map_values(|b: (Seq<char>, Seq<char>)| (b.0, b.1, true)),
                out@.map_values(|b: (String, String, bool)| (b.0@, b.1@, b.2)) == head + rwv.take(i as int),
            decreases self.rw@.len() - i,
        {
            let ghost o = out@.map_values(|b: (String, String, bool)| (b.0@, b.1@, b.2));
            out.push((copy_string(&self.rw[i].0), copy_string(&self.rw[i].1), true));
            assert(rwv.take(i + 1) =~= rwv.take(i as int).push(rwv[i as int]));
            assert(out@.map_values(|b: (String, String, bool)| (b.0@, b.1@, b.2)) =~= o.push(rwv[i as int]));
            i = i + 1;
        }
        assert(rwv.take(i as int) =~= rwv);
        let ghost mid = out@.map_values(|b: (String, String, bool)| (b.0@, b.1@, b.2));
        let ghost rov = bind_views(self.ro@).map_values(|b: (Seq<char>, Seq<char>)| (b.0, b.1, false));
        let mut j: usize = 0;
        while j < self.ro.len()
            invariant
                j <= self.ro@.len(),
                rov == bind_views(self.ro@).map_values(|b: (Seq<char>, Seq<char>)| (b.0, b.1, false)),
                out@.map_values(|b: (String, String, bool)| (b.0@, b.1@, b.2)) == mid + rov.take(j as int),
            decreases self.ro@.len() - j,
        {
            let ghost o = out@.map_values(|b: (String, String, bool)| (b.0@, b.1@, b.2));
            out.push((copy_string(&self.ro[j].0), copy_string(&self.ro[j].1), false));
            assert(rov.take(j + 1) =~= rov.take(j as int).push(rov[j as int]));
            assert(out@.map_values(|b: (String, String, bool)| (b.0@, b.1@, b.2)) =~= o.push(rov[j as int]));
            j = j + 1;
        }
        assert(rov.take(j as int) =~= rov);
        let ghost before = out@.map_values(|b: (String, String, bool)| (b.0@, b.1@, b.2));
        assert(before == head + rwv + rov);
        match &self.scripts {
            Some(s) => {
                out.push((copy_string(s), owned("/scripts"), false));
                assert(out@.map_values(|b: (String, String, bool)| (b.0@, b.1@, b.2)) =~= before.push(
                    (s@, "/scripts"@, false),
                ));
            },
            None => {},
        }
        assert(out@.map_values(|b: (String, String, bool)| (b.0@, b.1@, b.2)) =~= self.spec_binds(
            log_dir@,
            host_resolv,
        ));
        out
    }
}

} // verus!

verus! {

/// The extension a stage tarball gets for a compression name, matching the
/// flag `pack_command` passes.
pub open spec fn tarball_ext(compression: Seq<char>) -> Seq<char> {
    if compression == "gz"@ || compression == "gzip"@ {
        "tar.gz"@
    } else if compression == "none"@ {
        "tar"@
    } else {
        "tar.xz"@
    }
}

/// The `tar` flag that writes the format an extension names: `-z` for
/// `tar.gz`, `-J` for `tar.xz`, none for a plain `tar`.
pub open spec fn tar_flag_for_ext(ext: Seq<char>) -> Seq<char> {
    if ext == "tar.gz"@ {
        "-z"@
    } else if ext == "tar.xz"@ {
        "-J"@
    } else {
        ""@
    }
}

/// For every compression name, the tarball `pack_command` writes is in the
/// format its file name's extension says: the tar flag is the one
/// `tarball_ext` stands for. `gz` and `gzip` both mean gzip, `none` a plain
/// tar, anything else xz.
pub proof fn law_pack_flag_matches_extension(compression: Seq<char>, tarball: Seq<char>, src: Seq<char>)
    ensures
        text::starts_with(
            spec_pack_command(compression, tarball, src),
            "tar -cp"@ + tar_flag_for_ext(tarball_ext(compression)) + " --xattrs"@,
        ),
        text::ends_with(
            spec_pack_command(compression, tarball, src),
            " -f "@ + tarball + " -C "@ + src + " ."@,
        ),
        (compression == "gz"@ || compression == "gzip"@) ==> tarball_ext(compression) == "tar.gz"@,
        compression == "none"@ ==> tarball_ext(compression) == "tar"@,
        (compression != "gz"@ && compression != "gzip"@ && compression != "none"@) ==> tarball_ext(
            compression,
        ) == "tar.xz"@,
{
    reveal_strlit("tar.gz");
    reveal_strlit("tar.xz");
    reveal_strlit("tar");
    reveal_strlit("-z");
    reveal_strlit("-J");
    reveal_strlit("");
    reveal_strlit("tar -cp");
    reveal_strlit(" --xattrs");
    reveal_strlit(" --xattrs --xattrs-include='*.*' --numeric-owner --exclude='./dev' --exclude='./proc' --exclude='./sys' --exclude='./run' --exclude='./tmp' -f ");
    assert("tar.gz"@.len() == 6 && "tar.xz"@.len() == 6 && "tar"@.len() == 3);
    assert("tar.gz"@[4] != "tar.xz"@[4]);
    reveal_strlit("none");
    reveal_strlit("gz");
    reveal_strlit("gzip");
    assert("none"@.len() == 4 && "gz"@.len() == 2 && "gzip"@[0] != "none"@[0]);
    let cmd = spec_pack_command(compression, tarball, src);
    let want = "tar -cp"@ + tar_flag_for_ext(tarball_ext(compression)) + " --xattrs"@;
    assert(tar_flag_for_ext(tarball_ext(compression)) == compress_flag(compression));
    assert(cmd.take(want.len() as int) =~= want);
    reveal_strlit(" -f ");
    reveal_strlit(" -C ");
    reveal_strlit(" .");
    let tail = " -f "@ + tarball + " -C "@ + src + " ."@;
    let lead = "tar -cp"@ + compress_flag(compression)
        + " --xattrs --xattrs-include='*.*' --numeric-owner --exclude='./dev' --exclude='./proc' --exclude='./sys' --exclude='./run' --exclude='./tmp'"@;
    reveal_strlit(" --xattrs --xattrs-include='*.*' --numeric-owner --exclude='./dev' --exclude='./proc' --exclude='./sys' --exclude='./run' --exclude='./tmp'");
    assert(cmd =~= lead + tail);
    assert(cmd.skip(cmd.len() - tail.len()) =~= tail);
}

/// The default file a target stage is exported to:
/// `stage3-<arch>-<name>.<ext>`.
pub fn export_file_name(arch: &str, name: &str, compression: &str) -> (r: String)
    ensures
        r@ == "stage3-"@ + arch@ + "-"@ + name@ + "."@ + tarball_ext(compression@),
{
    let ext = if text::text_eq(compression, "gz") || text::text_eq(compression, "gzip") {
        "tar.gz"
    } else if text::text_eq(compression, "none") {
        "tar"
    } else {
        "tar.xz"
    };
    let a = concat3("stage3-", arch, "-");
    let b = concat3(a.as_str(), name, ".");
    concat(b.as_str(), ext)
}

} // verus!
