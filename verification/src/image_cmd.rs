//! The decisions of the `image` command: rebuilding against the commits a
//! previous build locked, what a dry run prints, which files a flash
//! bundle lists, and the checksum written beside an exported file.
use vstd::prelude::*;
use crate::board::{spec_effective_cflags, BoardConfig};
use crate::hash::{hex_char, hex_fixed};
use crate::chroot::{join_strings, joined};
use crate::text;
use crate::text::{chars_of, concat, concat3, copy_string, owned, slice_of, string_of, text_eq, trim_chars};

verus! {

/// One source of a build lock: its name, the commit it resolved to, and
/// its kind (`git`, `local`, `missing`) where recorded.
#[derive(Debug, Clone)]
pub struct LockedSource {
    pub name: String,
    pub commit: String,
    pub kind: Option<String>,
}

/// The commit a lock pins `name` to: the first entry of that name, where it
/// is a git checkout with a commit.
pub open spec fn pin_of(s: Seq<LockedSource>, name: Seq<char>) -> Option<Seq<char>>
    decreases s.len(),
{
    if s.len() == 0 {
        None
    } else if s[0].name@ == name {
        match s[0].kind {
            Some(k) => if k@ == "git"@ && s[0].commit@.len() > 0 {
                Some(s[0].commit@)
            } else {
                None
            },
            None => None,
        }
    } else {
        pin_of(s.drop_first(), name)
    }
}

/// A git checkout with a commit.
pub open spec fn is_git_pin(e: LockedSource) -> bool {
    e.kind matches Some(k) && k@ == "git"@ && e.commit@.len() > 0
}

/// A lock can pin a build when some source in it is a git checkout with a
/// commit.
pub open spec fn lock_usable(s: Seq<LockedSource>) -> bool {
    exists|i: int| 0 <= i < s.len() && is_git_pin(#[trigger] s[i])
}

pub fn is_usable_lock(sources: &Vec<LockedSource>) -> (r: bool)
    ensures
        r == lock_usable(sources@),
{
    let mut i: usize = 0;
    while i < sources.len()
        invariant
            i <= sources@.len(),
            forall|k: int| 0 <= k < i ==> !is_git_pin(#[trigger] sources@[k]),
        decreases sources@.len() - i,
    {
        let s = &sources[i];
        match &s.kind {
            Some(k) => {
                if text_eq(k.as_str(), "git") && s.commit.as_str().unicode_len() > 0 {
                    return true;
                }
            },
            None => {},
        }
        i = i + 1;
    }
    false
}

fn find_pin(sources: &Vec<LockedSource>, name: &str) -> (r: Option<String>)
    ensures
        r.deep_view() == pin_of(sources@, name@),
{
    let ghost sv = sources@;
    let mut i: usize = 0;
    assert(sv.skip(0) =~= sv);
    while i < sources.len()
        invariant
            i <= sv.len(),
            sv == sources@,
            pin_of(sv, name@) == pin_of(sv.skip(i as int), name@),
        decreases sv.len() - i,
    {
        assert(sv.skip(i as int)[0] == sv[i as int]);
        if text_eq(sources[i].name.as_str(), name) {
            return match &sources[i].kind {
                Some(k) => if text_eq(k.as_str(), "git") && sources[i].commit.as_str().unicode_len() > 0 {
                    Some(copy_string(&sources[i].commit))
                } else {
                    None
                },
                None => None,
            };
        }
        assert(sv.skip(i as int).drop_first() =~= sv.skip(i + 1));
        i = i + 1;
    }
    assert(sv.skip(i as int).len() == 0);
    None
}

/// What a pin makes of a tag: the pinned commit where there is one and
/// `applies`, else the tag as it was.
pub open spec fn pinned_tag(pin: Option<Seq<char>>, applies: bool, tag: Option<Seq<char>>) -> Option<Seq<char>> {
    match pin {
        Some(c) => if applies {
            Some(c)
        } else {
            tag
        },
        None => tag,
    }
}

/// How many of the pins `apply_pins` applies.
pub open spec fn pins_applied(b: BoardConfig, s: Seq<LockedSource>) -> int {
    (if pin_of(s, "opensbi"@) is Some && b.opensbi_repo is Some { 1int } else { 0int })
        + (if pin_of(s, "uboot"@) is Some && b.u_boot_repo is Some { 1int } else { 0int })
        + (if pin_of(s, "syslinux"@) is Some && b.syslinux_repo is Some { 1int } else { 0int })
        + (if pin_of(s, "firmware"@) is Some && b.firmware_repo is Some { 1int } else { 0int })
        + (if pin_of(s, "buildroot"@) is Some { 1int } else { 0int })
        + (if pin_of(s, "kernel"@) is Some { 1int } else { 0int })
}

/// Rebuild against a lock: each source the lock pins replaces the tag of
/// the board's checkout of it (where the board has that checkout; the
/// buildroot and kernel tags always).  The firmware is pinned on its own,
/// so a pinned U-Boot commit never reaches the firmware checkout.  Nothing
/// else changes.  Returns how many pins were applied.
#[verifier::rlimit(60)]
pub fn apply_pins(board: &mut BoardConfig, sources: &Vec<LockedSource>) -> (r: usize)
    ensures
        r == pins_applied(*old(board), sources@),
        final(board).opensbi_tag.deep_view() == pinned_tag(
            pin_of(sources@, "opensbi"@),
            old(board).opensbi_repo is Some,
            old(board).opensbi_tag.deep_view(),
        ),
        final(board).u_boot_tag.deep_view() == pinned_tag(
            pin_of(sources@, "uboot"@),
            old(board).u_boot_repo is Some,
            old(board).u_boot_tag.deep_view(),
        ),
        final(board).syslinux_tag.deep_view() == pinned_tag(
            pin_of(sources@, "syslinux"@),
            old(board).syslinux_repo is Some,
            old(board).syslinux_tag.deep_view(),
        ),
        final(board).firmware_tag.deep_view() == pinned_tag(
            pin_of(sources@, "firmware"@),
            old(board).firmware_repo is Some,
            old(board).firmware_tag.deep_view(),
        ),
        final(board).buildroot_tag.deep_view() == pinned_tag(
            pin_of(sources@, "buildroot"@),
            true,
            old(board).buildroot_tag.deep_view(),
        ),
        Some(final(board).kernel_tag@) == pinned_tag(
            pin_of(sources@, "kernel"@),
            true,
            Some(old(board).kernel_tag@),
        ),
        *final(board) == (BoardConfig {
            opensbi_tag: final(board).opensbi_tag,
            u_boot_tag: final(board).u_boot_tag,
            syslinux_tag: final(board).syslinux_tag,
            firmware_tag: final(board).firmware_tag,
            buildroot_tag: final(board).buildroot_tag,
            kernel_tag: final(board).kernel_tag,
            ..*old(board)
        }),
{
    let p_opensbi = find_pin(sources, "opensbi");
    let p_uboot = find_pin(sources, "uboot");
    let p_syslinux = find_pin(sources, "syslinux");
    let p_firmware = find_pin(sources, "firmware");
    let p_buildroot = find_pin(sources, "buildroot");
    let p_kernel = find_pin(sources, "kernel");
    let mut applied: usize = 0;
    let opensbi = match p_opensbi {
        Some(c) if board.opensbi_repo.is_some() => {
            applied = applied + 1;
            Some(c)
        },
        _ => board.opensbi_tag.clone(),
    };
    let uboot = match p_uboot {
        Some(c) if board.u_boot_repo.is_some() => {
            applied = applied + 1;
            Some(c)
        },
        _ => board.u_boot_tag.clone(),
    };
    let syslinux = match p_syslinux {
        Some(c) if board.syslinux_repo.is_some() => {
            applied = applied + 1;
            Some(c)
        },
        _ => board.syslinux_tag.clone(),
    };
    let firmware = match p_firmware {
        Some(c) if board.firmware_repo.is_some() => {
            applied = applied + 1;
            Some(c)
        },
        _ => board.firmware_tag.clone(),
    };
    let buildroot = match p_buildroot {
        Some(c) => {
            applied = applied + 1;
            Some(c)
        },
        None => board.buildroot_tag.clone(),
    };
    let kernel = match p_kernel {
        Some(c) => {
            applied = applied + 1;
            c
        },
        None => board.kernel_tag.clone(),
    };
    set_tags(board, opensbi, uboot, syslinux, firmware, buildroot, kernel);
    applied
}

#[verifier::rlimit(60)]
fn set_tags(
    board: &mut BoardConfig,
    opensbi: Option<String>,
    uboot: Option<String>,
    syslinux: Option<String>,
    firmware: Option<String>,
    buildroot: Option<String>,
    kernel: String,
)
    ensures
        *final(board) == (BoardConfig {
            opensbi_tag: opensbi,
            u_boot_tag: uboot,
            syslinux_tag: syslinux,
            firmware_tag: firmware,
            buildroot_tag: buildroot,
            kernel_tag: kernel,
            ..*old(board)
        }),
{
    board.opensbi_tag = opensbi;
    board.u_boot_tag = uboot;
    board.syslinux_tag = syslinux;
    board.firmware_tag = firmware;
    board.buildroot_tag = buildroot;
    board.kernel_tag = kernel;
}

/// One entry of a `bundle.list`: whether it may be absent, and the path
/// (or `@image`, the packed image).
pub open spec fn bundle_entry(line: Seq<char>) -> Option<(bool, Seq<char>)> {
    let raw = text::trim(text::split(line, '#')[0]);
    if raw.len() == 0 {
        None
    } else {
        let (optional, token) = match text::strip_prefix(raw, "optional:"@) {
            Some(rest) => (true, text::trim(rest)),
            None => (false, raw),
        };
        if token.len() == 0 {
            None
        } else {
            Some((optional, token))
        }
    }
}

pub open spec fn bundle_entries_of(ls: Seq<Seq<char>>) -> Seq<(bool, Seq<char>)>
    decreases ls.len(),
{
    if ls.len() == 0 {
        seq![]
    } else {
        match bundle_entry(ls.last()) {
            Some(e) => bundle_entries_of(ls.drop_last()).push(e),
            None => bundle_entries_of(ls.drop_last()),
        }
    }
}

fn entry_of_line(line: &[char]) -> (r: Option<(bool, String)>)
    ensures
        match r {
            Some(e) => bundle_entry(line@) == Some((e.0, e.1@)),
            None => bundle_entry(line@) is None,
        },
{
    let parts = text::split_of(line, '#');
    assert(parts@.map_values(|l: Vec<char>| l@)[0] == parts@[0]@);
    let raw = trim_chars(parts[0].as_slice());
    if raw.len() == 0 {
        return None;
    }
    let pre = chars_of("optional:");
    let (optional, token) = if text::starts_with_chars(raw.as_slice(), pre.as_slice()) {
        let n = raw.len();
        let rest = slice_of(raw.as_slice(), pre.len(), n);
        assert(rest@ =~= raw@.skip(pre@.len() as int));
        (true, trim_chars(rest.as_slice()))
    } else {
        (false, raw)
    };
    if token.len() == 0 {
        None
    } else {
        Some((optional, string_of(token.as_slice())))
    }
}

/// The entries of a `bundle.list`: one per line that names a path after
/// `#` comments and blanks are dropped, with `optional:` marking an entry
/// that may be missing.
pub fn bundle_entries(text_in: &str) -> (r: Vec<(bool, String)>)
    ensures
        r@.map_values(|e: (bool, String)| (e.0, e.1@)) == bundle_entries_of(text::lines(text_in@)),
{
    let cs = chars_of(text_in);
    let ls = text::lines_of(cs.as_slice());
    let ghost lv = ls@.map_values(|l: Vec<char>| l@);
    let mut out: Vec<(bool, String)> = Vec::new();
    let mut i: usize = 0;
    assert(lv.take(0) =~= Seq::<Seq<char>>::empty());
    assert(out@.map_values(|e: (bool, String)| (e.0, e.1@)) =~= Seq::<(bool, Seq<char>)>::empty());
    while i < ls.len()
        invariant
            i <= ls@.len(),
            lv == ls@.map_values(|l: Vec<char>| l@),
            lv == text::lines(text_in@),
            out@.map_values(|e: (bool, String)| (e.0, e.1@)) == bundle_entries_of(lv.take(i as int)),
        decreases ls@.len() - i,
    {
        assert(lv.take(i + 1).drop_last() =~= lv.take(i as int));
        assert(lv.take(i + 1).last() == ls@[i as int]@);
        match entry_of_line(ls[i].as_slice()) {
            Some(e) => {
                let ghost before = out@.map_values(|e: (bool, String)| (e.0, e.1@));
                let ghost ev = (e.0, e.1@);
                out.push(e);
                assert(out@.map_values(|e: (bool, String)| (e.0, e.1@)) =~= before.push(ev));
            },
            None => {},
        }
        i = i + 1;
    }
    assert(lv.take(i as int) =~= lv);
    out
}

/// What a dry run of `image build` prints: the board (with its tags), its
/// arch and CFLAGS, LDFLAGS and RUSTFLAGS where set, and the steps.
pub open spec fn spec_dry_run(b: BoardConfig, arch_default: Seq<char>, steps: Seq<Seq<char>>) -> Seq<Seq<char>> {
    seq![
        "Board:      "@ + b.name@ + (if b.tags@.len() == 0 {
            seq![]
        } else {
            " ["@ + joined(b.tags.deep_view(), ","@) + "]"@
        }),
        "Arch:       "@ + b.arch@,
        "CFLAGS:     "@ + spec_effective_cflags(b, arch_default),
    ] + (match b.ldflags {
        Some(l) => seq!["LDFLAGS:    "@ + l@],
        None => seq![],
    }) + (match b.rustflags {
        Some(r) => seq!["RUSTFLAGS:  "@ + r@],
        None => seq![],
    }) + seq!["Steps:      "@ + joined(steps, " "@)]
}

pub fn dry_run_lines(board: &BoardConfig, arch_default: &str, steps: &Vec<String>) -> (r: Vec<String>)
    ensures
        r.deep_view() == spec_dry_run(*board, arch_default@, steps.deep_view()),
{
    let mut out: Vec<String> = Vec::new();
    let mut first = concat("Board:      ", board.name.as_str());
    if board.tags.len() > 0 {
        let t = join_strings(&board.tags, ",");
        first.append(" [");
        first.append(t.as_str());
        first.append("]");
    }
    assert(first@ =~= spec_dry_run(*board, arch_default@, steps.deep_view())[0]);
    out.push(first);
    out.push(concat("Arch:       ", board.arch.as_str()));
    let cf = board.effective_cflags(arch_default);
    out.push(concat("CFLAGS:     ", cf.as_str()));
    let ghost head = out.deep_view();
    match &board.ldflags {
        Some(l) => out.push(concat("LDFLAGS:    ", l.as_str())),
        None => {},
    }
    let ghost mid = out.deep_view();
    match &board.rustflags {
        Some(r) => out.push(concat("RUSTFLAGS:  ", r.as_str())),
        None => {},
    }
    let j = join_strings(steps, " ");
    out.push(concat("Steps:      ", j.as_str()));
    assert(out.deep_view() =~= spec_dry_run(*board, arch_default@, steps.deep_view()));
    out
}

} // verus!

verus! {

// ── Checksums of exported files ─────────────────────────────────────────────

/// The SHA-256 digest of `data`.
pub uninterp spec fn sha256_digest(data: Seq<u8>) -> Seq<u8>;

/// Calls `sha2::Sha256::digest` on `data`: its SHA-256 digest, which is 32
/// bytes long.
#[verifier::external_body]
fn sha256_bytes(data: &[u8]) -> (r: Vec<u8>)
    ensures
        r@ == sha256_digest(data@),
        r@.len() == 32,
{
    <sha2::Sha256 as sha2::Digest>::digest(data).to_vec()
}

/// Bytes as lowercase hex, two digits each.
pub open spec fn hex_bytes(s: Seq<u8>) -> Seq<char>
    decreases s.len(),
{
    if s.len() == 0 {
        seq![]
    } else {
        hex_bytes(s.drop_last()) + hex_fixed(s.last() as nat, 2)
    }
}

proof fn lemma_hex_byte(b: u8)
    ensures
        hex_fixed(b as nat, 2) == seq![
            crate::hash::hex_digit((b / 16) as int),
            crate::hash::hex_digit((b % 16) as int),
        ],
{
    reveal_with_fuel(hex_fixed, 3);
    assert((b as nat / 16) % 16 == b / 16);
    assert(hex_fixed(b as nat, 2) =~= seq![
        crate::hash::hex_digit((b / 16) as int),
        crate::hash::hex_digit((b % 16) as int),
    ]);
}

/// The SHA-256 digest of `data` in lowercase hex, as `sha256sum` prints it.
pub fn sha256_hex(data: &[u8]) -> (r: String)
    ensures
        r@ == hex_bytes(sha256_digest(data@)),
        r@.len() == 64,
{
    let d = sha256_bytes(data);
    let mut cs: Vec<char> = Vec::new();
    let mut i: usize = 0;
    while i < d.len()
        invariant
            i <= d@.len(),
            d@.len() == 32,
            cs@ == hex_bytes(d@.take(i as int)),
            cs@.len() == 2 * i,
        decreases d@.len() - i,
    {
        let b = d[i];
        proof {
            lemma_hex_byte(b);
        }
        assert(d@.take(i + 1).drop_last() =~= d@.take(i as int));
        cs.push(hex_char((b / 16) as u64));
        cs.push(hex_char((b % 16) as u64));
        assert(cs@ =~= hex_bytes(d@.take(i + 1)));
        i = i + 1;
    }
    assert(d@.take(i as int) =~= d@);
    string_of(cs.as_slice())
}

/// The line of a `.sha256` file for the file `name`, in the format
/// `sha256sum -c` reads: the digest, two spaces, the bare name.
pub fn checksum_line(digest: &str, name: &str) -> (r: String)
    ensures
        r@ == digest@ + "  "@ + name@ + "\n"@,
{
    let a = concat3(digest, "  ", name);
    concat(a.as_str(), "\n")
}

} // verus!
