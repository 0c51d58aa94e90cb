//! The parts of an image build that are decided before anything runs: the
//! disk identifiers a board gets, the shell that builds its kernel config
//! and boot config, and the names emerge atoms reduce to.
use vstd::prelude::*;
use crate::board::{spec_chost, spec_effective_cflags, BoardConfig};
use crate::error::{is_board_error, Error};
use crate::hash::{decimal, decimal_string, fnv1a_str, fnv1a_text, hex_fixed, hex_string, lemma_hex_fixed_len};
use crate::text;
use crate::text::{chars_of, concat, concat3, owned, slice_of, string_of};

verus! {

/// The text the disk identifiers of a board are derived from: what decides
/// the image's contents, one value per line.
pub open spec fn disk_identity(b: BoardConfig, arch_default: Seq<char>) -> Seq<char> {
    b.name@ + "\n"@ + b.arch@ + "\n"@ + spec_chost(b) + "\n"@ + b.kernel_repo@ + "\n"@
        + b.kernel_tag@ + "\n"@ + spec_effective_cflags(b, arch_default) + "\n"@
}

/// An MBR signature folded from a 64-bit hash; never zero.
pub open spec fn disk_signature(hi: u64) -> u32 {
    let x = (hi as u32) ^ ((hi >> 32u64) as u32);
    if x == 0 {
        1
    } else {
        x
    }
}

/// Identifiers for a board's partition table, derived from the board: two
/// boards never collide, and the same board always gets the same ones.
pub struct DiskId {
    /// MBR disk signature, never zero.
    pub sig: u32,
    /// The GPT UUID's first eight bytes, big-endian.
    pub uuid_hi: u64,
    /// Its last eight bytes; the final byte is replaced by the partition index.
    pub uuid_lo: u64,
}

/// The GPT UUID with its last byte set to `part`, as
/// `xxxxxxxx-xxxx-xxxx-xxxx-xxxxxxxxxxxx`.
pub open spec fn part_uuid_text(hi: u64, lo: u64, part: u8) -> Seq<char> {
    let h = hex_fixed(hi as nat, 16);
    let l = hex_fixed(lo as nat, 16);
    h.subrange(0, 8) + "-"@ + h.subrange(8, 12) + "-"@ + h.subrange(12, 16) + "-"@ + l.subrange(0, 4)
        + "-"@ + l.subrange(4, 14) + hex_fixed(part as nat, 2)
}

pub open spec fn part_export(d: DiskId, part: u8) -> Seq<char> {
    "export BOOT_PART_UUID_"@ + decimal(part as nat) + "="@ + part_uuid_text(d.uuid_hi, d.uuid_lo, part) + "\n"@
}

/// The partition exports of partitions `1..p`.
pub open spec fn exports_from(d: DiskId, p: u8) -> Seq<char>
    decreases p,
{
    if p <= 1 {
        seq![]
    } else {
        exports_from(d, (p - 1) as u8) + part_export(d, (p - 1) as u8)
    }
}

/// The shell `export` lines of a disk's identifiers.
pub open spec fn disk_exports(d: DiskId) -> Seq<char> {
    "export BOOT_DISK_ID="@ + hex_fixed(d.sig as nat, 8) + "\nexport BOOT_DISK_SIG=0x"@
        + hex_fixed(d.sig as nat, 8) + "\nexport BOOT_DISK_UUID="@ + part_uuid_text(
        d.uuid_hi,
        d.uuid_lo,
        0,
    ) + "\n"@ + part_export(d, 1) + part_export(d, 2) + part_export(d, 3) + part_export(d, 4)
}

impl DiskId {
    /// The identifiers of `board` (whose arch builds with `arch_default`
    /// unless it sets its own CFLAGS).
    pub fn of(board: &BoardConfig, arch_default: &str) -> (r: DiskId)
        ensures
            r.uuid_hi == fnv1a_text(disk_identity(*board, arch_default@)),
            r.uuid_lo == fnv1a_text(disk_identity(*board, arch_default@) + "uuid\n"@),
            r.sig == disk_signature(r.uuid_hi),
    {
        let chost = board.chost();
        let cflags = board.effective_cflags(arch_default);
        let mut id = String::new();
        id.append(board.name.as_str());
        id.append("\n");
        id.append(board.arch.as_str());
        id.append("\n");
        id.append(chost.as_str());
        id.append("\n");
        id.append(board.kernel_repo.as_str());
        id.append("\n");
        id.append(board.kernel_tag.as_str());
        id.append("\n");
        id.append(cflags.as_str());
        id.append("\n");
        assert(id@ =~= disk_identity(*board, arch_default@));
        let hi = fnv1a_str(id.as_str());
        let mut id2 = text::copy_string(&id);
        id2.append("uuid\n");
        let lo = fnv1a_str(id2.as_str());
        let x = (hi as u32) ^ ((hi >> 32u64) as u32);
        let sig = if x == 0 {
            1
        } else {
            x
        };
        DiskId { sig, uuid_hi: hi, uuid_lo: lo }
    }

    /// The UUID of partition `part` (0 for the disk itself).
    pub fn part_uuid(&self, part: u8) -> (r: String)
        ensures
            r@ == part_uuid_text(self.uuid_hi, self.uuid_lo, part),
    {
        let h = hex_string(self.uuid_hi, 16);
        let l = hex_string(self.uuid_lo, 16);
        let p = hex_string(part as u64, 2);
        proof {
            lemma_hex_fixed_len(self.uuid_hi as nat, 16);
            lemma_hex_fixed_len(self.uuid_lo as nat, 16);
        }
        let hc = chars_of(h.as_str());
        let lc = chars_of(l.as_str());
        let mut out = string_of(slice_of(hc.as_slice(), 0, 8).as_slice());
        out.append("-");
        out.append(string_of(slice_of(hc.as_slice(), 8, 12).as_slice()).as_str());
        out.append("-");
        out.append(string_of(slice_of(hc.as_slice(), 12, 16).as_slice()).as_str());
        out.append("-");
        out.append(string_of(slice_of(lc.as_slice(), 0, 4).as_slice()).as_str());
        out.append("-");
        out.append(string_of(slice_of(lc.as_slice(), 4, 14).as_slice()).as_str());
        out.append(p.as_str());
        assert(out@ =~= part_uuid_text(self.uuid_hi, self.uuid_lo, part));
        out
    }

    /// Shell `export` lines for board scripts and genimage.
    pub fn exports(&self) -> (r: String)
        ensures
            r@ == disk_exports(*self),
    {
        let sig = hex_string(self.sig as u64, 8);
        let mut out = owned("export BOOT_DISK_ID=");
        out.append(sig.as_str());
        out.append("\nexport BOOT_DISK_SIG=0x");
        out.append(sig.as_str());
        out.append("\nexport BOOT_DISK_UUID=");
        out.append(self.part_uuid(0).as_str());
        out.append("\n");
        let ghost head = out@;
        let mut part: u8 = 1;
        while part <= 4
            invariant
                1 <= part <= 5,
                out@ == head + exports_from(*self, part),
            decreases 5 - part,
        {
            let ghost before = out@;
            out.append("export BOOT_PART_UUID_");
            out.append(decimal_string(part as u64).as_str());
            out.append("=");
            out.append(self.part_uuid(part).as_str());
            out.append("\n");
            assert(out@ =~= before + part_export(*self, part));
            assert(exports_from(*self, (part + 1) as u8) == exports_from(*self, part) + part_export(*self, part));
            part = part + 1;
        }
        assert(exports_from(*self, 1) =~= Seq::<char>::empty());
        assert(exports_from(*self, 2) =~= part_export(*self, 1));
        assert(exports_from(*self, 3) =~= part_export(*self, 1) + part_export(*self, 2));
        assert(exports_from(*self, 4) =~= part_export(*self, 1) + part_export(*self, 2) + part_export(*self, 3));
        assert(exports_from(*self, 5) =~= part_export(*self, 1) + part_export(*self, 2) + part_export(*self, 3) + part_export(*self, 4));
        assert(out@ =~= disk_exports(*self));
        out
    }
}

} // verus!

verus! {

/// `source` lines for each include, in order.
pub open spec fn include_sources(incs: Seq<Seq<char>>) -> Seq<char>
    decreases incs.len(),
{
    if incs.len() == 0 {
        seq![]
    } else {
        include_sources(incs.drop_last()) + "source /scripts/boards/include/"@ + incs.last()
            + ".conf\n"@
    }
}

/// The shell that runs board hook `script`: the disk exports, then the
/// board's includes and its board.conf in the order the loader merged them.
pub open spec fn board_script_text(b: BoardConfig, script: Seq<char>, arch_default: Seq<char>) -> Seq<char> {
    "set -e\nexport LDCONFIG=/usr/local/bin/ldconfig\n"@ + disk_exports(
        DiskId {
            sig: disk_signature(fnv1a_text(disk_identity(b, arch_default))),
            uuid_hi: fnv1a_text(disk_identity(b, arch_default)),
            uuid_lo: fnv1a_text(disk_identity(b, arch_default) + "uuid\n"@),
        },
    ) + include_sources(b.includes.deep_view()) + "source /scripts/boards/"@ + b.name@
        + "/board.conf\nsource /scripts/boards/"@ + b.name@ + "/"@ + script
}

/// The shell that runs a board hook.
pub fn run_board_script(board: &BoardConfig, script: &str, arch_default: &str) -> (r: String)
    ensures
        r@ == board_script_text(*board, script@, arch_default@),
{
    let disk = DiskId::of(board, arch_default);
    let mut out = owned("set -e\nexport LDCONFIG=/usr/local/bin/ldconfig\n");
    out.append(disk.exports().as_str());
    let ghost head = out@;
    let ghost incs = board.includes.deep_view();
    let mut i: usize = 0;
    assert(incs.take(0) =~= Seq::<Seq<char>>::empty());
    while i < board.includes.len()
        invariant
            i <= board.includes@.len(),
            incs == board.includes.deep_view(),
            out@ == head + include_sources(incs.take(i as int)),
        decreases board.includes@.len() - i,
    {
        let ghost before = out@;
        out.append("source /scripts/boards/include/");
        out.append(board.includes[i].as_str());
        out.append(".conf\n");
        assert(incs.take(i + 1).drop_last() =~= incs.take(i as int));
        assert(incs.take(i + 1).last() == board.includes@[i as int]@);
        assert(out@ =~= head + include_sources(incs.take(i + 1)));
        i = i + 1;
    }
    assert(incs.take(i as int) =~= incs);
    out.append("source /scripts/boards/");
    out.append(board.name.as_str());
    out.append("/board.conf\nsource /scripts/boards/");
    out.append(board.name.as_str());
    out.append("/");
    out.append(script);
    assert(out@ =~= board_script_text(*board, script@, arch_default@));
    out
}

/// The shell that appends one kernel-config fragment, looked up board first,
/// then in the defaults.
pub open spec fn fragment_block(board: Seq<char>, name: Seq<char>) -> Seq<char> {
    "f=/scripts/boards/"@ + board + "/kernel-config/"@ + name
        + "\n[ -f \"$f\" ] || f=/scripts/defaults/kernel-config/"@ + name
        + "\n[ -f \"$f\" ] || { echo \"no kernel config fragment "@ + name
        + "\" >&2; exit 1; }\ncat \"$f\" >> /build/linux/.config\nfrags=\"$frags $f\"\n"@
}

pub open spec fn fragment_blocks(board: Seq<char>, names: Seq<Seq<char>>) -> Seq<char>
    decreases names.len(),
{
    if names.len() == 0 {
        seq![]
    } else {
        fragment_blocks(board, names.drop_last()) + fragment_block(board, names.last())
    }
}

/// After the fragments: `olddefconfig`, then every line of every fragment is
/// checked against the result, in both directions (a symbol asked for and
/// lost, one asked off that came back on).
pub open spec fn fragments_check() -> Seq<char> {
    "make -C /build/linux ARCH=$ARCH CROSS_COMPILE=$CROSS_COMPILE olddefconfig\nfor f in $frags; do\nwhile read -r line; do\ncase \"$line\" in\n'#'*' is not set')\nsym=${line#\\# }; sym=${sym%% *}\nif grep -q \"^$sym=\" /build/linux/.config; then\necho \"$sym came back on, fragment asked for it off\" >&2\nexit 1\nfi ;;\nCONFIG_*=*)\ngrep -qx \"$line\" /build/linux/.config || {\necho \"kernel config lost: $line\" >&2\nexit 1\n} ;;\nesac\ndone < \"$f\"\ndone\n"@
}

/// The shell that applies a board's kernel-config fragments and checks
/// they survived; empty for a board without fragments.
pub open spec fn fragments_text(b: BoardConfig) -> Seq<char> {
    if b.kernel_config_fragments@.len() == 0 {
        seq![]
    } else {
        "frags=\n"@ + fragment_blocks(b.name@, b.kernel_config_fragments.deep_view()) + fragments_check()
    }
}

fn fragments_check_text() -> (r: String)
    ensures
        r@ == fragments_check(),
{
    owned("make -C /build/linux ARCH=$ARCH CROSS_COMPILE=$CROSS_COMPILE olddefconfig\nfor f in $frags; do\nwhile read -r line; do\ncase \"$line\" in\n'#'*' is not set')\nsym=${line#\\# }; sym=${sym%% *}\nif grep -q \"^$sym=\" /build/linux/.config; then\necho \"$sym came back on, fragment asked for it off\" >&2\nexit 1\nfi ;;\nCONFIG_*=*)\ngrep -qx \"$line\" /build/linux/.config || {\necho \"kernel config lost: $line\" >&2\nexit 1\n} ;;\nesac\ndone < \"$f\"\ndone\n")
}

/// The shell that applies and checks a board's kernel-config fragments.
pub fn kernel_config_fragments(board: &BoardConfig) -> (r: String)
    ensures
        r@ == fragments_text(*board),
{
    if board.kernel_config_fragments.len() == 0 {
        return String::new();
    }
    let ghost names = board.kernel_config_fragments.deep_view();
    let ghost bn = board.name@;
    let mut out = owned("frags=\n");
    let ghost head = out@;
    let mut i: usize = 0;
    assert(names.take(0) =~= Seq::<Seq<char>>::empty());
    while i < board.kernel_config_fragments.len()
        invariant
            i <= board.kernel_config_fragments@.len(),
            names == board.kernel_config_fragments.deep_view(),
            bn == board.name@,
            out@ == head + fragment_blocks(bn, names.take(i as int)),
        decreases board.kernel_config_fragments@.len() - i,
    {
        let name = board.kernel_config_fragments[i].as_str();
        let ghost before = out@;
        out.append("f=/scripts/boards/");
        out.append(board.name.as_str());
        out.append("/kernel-config/");
        out.append(name);
        out.append("\n[ -f \"$f\" ] || f=/scripts/defaults/kernel-config/");
        out.append(name);
        out.append("\n[ -f \"$f\" ] || { echo \"no kernel config fragment ");
        out.append(name);
        out.append("\" >&2; exit 1; }\ncat \"$f\" >> /build/linux/.config\nfrags=\"$frags $f\"\n");
        assert(names.take(i + 1).drop_last() =~= names.take(i as int));
        assert(names.take(i + 1).last() == name@);
        assert(out@ =~= head + fragment_blocks(bn, names.take(i + 1)));
        i = i + 1;
    }
    assert(names.take(i as int) =~= names);
    out.append(fragments_check_text().as_str());
    assert(out@ =~= fragments_text(*board));
    out
}

} // verus!

verus! {

pub open spec fn glob_msg() -> Seq<char> {
    "BOARD_DTB_GLOB matches more than one file, so BOOT_EXTLINUX needs BOOT_DTB_NAME to say which one boots"@
}

pub open spec fn is_glob(g: Seq<char>) -> bool {
    text::contains_char(g, '*') || text::contains_char(g, '?') || text::contains_char(g, '[')
}

/// The device tree an extlinux entry loads: `BOOT_DTB_NAME`, else the file
/// an exact `BOARD_DTB_GLOB` names; `Err` (the message) when the glob
/// matches more than one file; `Ok(None)` when there is no device tree.
pub open spec fn spec_extlinux_fdt(b: BoardConfig) -> Result<Option<Seq<char>>, Seq<char>> {
    match b.dtb_name {
        Some(n) => Ok(Some(n@)),
        None => match b.kernel_dtb_glob {
            None => Ok(None),
            Some(g) => if is_glob(g@) {
                Err(glob_msg())
            } else {
                Ok(Some(text::split(g@, '/').last()))
            },
        },
    }
}

/// The device tree an extlinux entry should load.
pub fn extlinux_fdt(board: &BoardConfig) -> (r: Result<Option<String>, Error>)
    ensures
        match spec_extlinux_fdt(*board) {
            Ok(v) => r matches Ok(x) && x.deep_view() == v,
            Err(m) => r matches Err(e) && is_board_error(e, board.name@, m),
        },
{
    if let Some(name) = &board.dtb_name {
        return Ok(Some(name.clone()));
    }
    let glob = match &board.kernel_dtb_glob {
        Some(g) => g,
        None => return Ok(None),
    };
    let gc = chars_of(glob.as_str());
    if crate::text::contains(gc.as_slice(), '*') || crate::text::contains(gc.as_slice(), '?')
        || crate::text::contains(gc.as_slice(), '[') {
        return Err(
            Error::BoardConfigParse {
                file: board.name.clone(),
                msg: owned(
                    "BOARD_DTB_GLOB matches more than one file, so BOOT_EXTLINUX needs BOOT_DTB_NAME to say which one boots",
                ),
            },
        );
    }
    let pieces = crate::text::split_of(gc.as_slice(), '/');
    let ghost pv = pieces@.map_values(|l: Vec<char>| l@);
    assert(pv.last() == pieces@[pieces@.len() - 1]@);
    Ok(Some(string_of(pieces[pieces.len() - 1].as_slice())))
}

/// The kernel arguments of an extlinux entry.
pub open spec fn extlinux_append(b: BoardConfig, root: Seq<char>) -> Seq<char> {
    "root="@ + root + " rw rootwait rootfstype=ext4"@ + match b.console {
        Some(c) => " console="@ + c@,
        None => seq![],
    } + match b.append {
        Some(a) => " "@ + a@,
        None => seq![],
    }
}

/// The shell that writes a board's extlinux.conf: the disk exports, then an
/// unquoted heredoc so `${BOOT_PART_UUID_N}` in the root device expands.
pub open spec fn spec_extlinux_conf(b: BoardConfig, arch_default: Seq<char>) -> Result<Seq<char>, Seq<char>> {
    if b.kernel_name is None {
        Err("BOOT_EXTLINUX needs BOOT_KERNEL_NAME"@)
    } else if b.root_dev is None {
        Err("BOOT_EXTLINUX needs BOOT_ROOT_DEV"@)
    } else {
        match spec_extlinux_fdt(b) {
            Err(m) => Err(m),
            Ok(fdt) => Ok(
                board_exports(b, arch_default)
                    + "mkdir -p /build/gen/boot/extlinux\ncat > /build/gen/boot/extlinux/extlinux.conf <<EOF\nDEFAULT linux\nTIMEOUT 30\nLABEL linux\n    MENU LABEL "@
                    + match b.description {
                    Some(d) => d@,
                    None => b.name@,
                } + "\n    LINUX /"@ + b.kernel_name.unwrap()@ + "\n"@ + match fdt {
                    Some(n) => "    FDT /"@ + n + "\n"@,
                    None => seq![],
                } + "    APPEND "@ + extlinux_append(b, b.root_dev.unwrap()@) + "\nEOF\n"@,
            ),
        }
    }
}

/// The disk exports of a board.
pub open spec fn board_exports(b: BoardConfig, arch_default: Seq<char>) -> Seq<char> {
    disk_exports(
        DiskId {
            sig: disk_signature(fnv1a_text(disk_identity(b, arch_default))),
            uuid_hi: fnv1a_text(disk_identity(b, arch_default)),
            uuid_lo: fnv1a_text(disk_identity(b, arch_default) + "uuid\n"@),
        },
    )
}

/// Shell that writes the board's extlinux.conf.
#[verifier::rlimit(40)]
pub fn extlinux_conf(board: &BoardConfig, arch_default: &str) -> (r: Result<String, Error>)
    ensures
        match spec_extlinux_conf(*board, arch_default@) {
            Ok(t) => r matches Ok(x) && x@ == t,
            Err(m) => r matches Err(e) && is_board_error(e, board.name@, m),
        },
{
    let kernel = match &board.kernel_name {
        Some(k) => k,
        None => return Err(
            Error::BoardConfigParse {
                file: board.name.clone(),
                msg: owned("BOOT_EXTLINUX needs BOOT_KERNEL_NAME"),
            },
        ),
    };
    let root = match &board.root_dev {
        Some(r) => r,
        None => return Err(
            Error::BoardConfigParse {
                file: board.name.clone(),
                msg: owned("BOOT_EXTLINUX needs BOOT_ROOT_DEV"),
            },
        ),
    };
    let mut append = concat3("root=", root.as_str(), " rw rootwait rootfstype=ext4");
    if let Some(console) = &board.console {
        append.append(" console=");
        append.append(console.as_str());
    }
    if let Some(extra) = &board.append {
        append.append(" ");
        append.append(extra.as_str());
    }
    assert(append@ =~= extlinux_append(*board, root@));
    let fdt = extlinux_fdt(board)?;
    let disk = DiskId::of(board, arch_default);
    let mut out = disk.exports();
    out.append(
        "mkdir -p /build/gen/boot/extlinux\ncat > /build/gen/boot/extlinux/extlinux.conf <<EOF\nDEFAULT linux\nTIMEOUT 30\nLABEL linux\n    MENU LABEL ",
    );
    match &board.description {
        Some(d) => out.append(d.as_str()),
        None => out.append(board.name.as_str()),
    }
    out.append("\n    LINUX /");
    out.append(kernel.as_str());
    out.append("\n");
    match &fdt {
        Some(name) => {
            out.append("    FDT /");
            out.append(name.as_str());
            out.append("\n");
        },
        None => {},
    }
    out.append("    APPEND ");
    out.append(append.as_str());
    out.append("\nEOF\n");
    proof {
        let expect = board_exports(*board, arch_default@)
            + "mkdir -p /build/gen/boot/extlinux\ncat > /build/gen/boot/extlinux/extlinux.conf <<EOF\nDEFAULT linux\nTIMEOUT 30\nLABEL linux\n    MENU LABEL "@
            + match board.description.deep_view() {
            Some(d) => d,
            None => board.name@,
        } + "\n    LINUX /"@ + kernel@ + "\n"@ + match fdt.deep_view() {
            Some(n) => "    FDT /"@ + n + "\n"@,
            None => seq![],
        } + "    APPEND "@ + extlinux_append(*board, root@) + "\nEOF\n"@;
        assert(out@ =~= expect);
    }
    Ok(out)
}

/// `s` for a duration of `secs` seconds: `42s`, `3m 5s`, `2h 0m 7s`.
pub open spec fn duration_text(secs: u64) -> Seq<char> {
    if secs < 60 {
        decimal(secs as nat) + "s"@
    } else if secs < 3600 {
        decimal((secs / 60) as nat) + "m "@ + decimal((secs % 60) as nat) + "s"@
    } else {
        decimal((secs / 3600) as nat) + "h "@ + decimal(((secs % 3600) / 60) as nat) + "m "@
            + decimal((secs % 60) as nat) + "s"@
    }
}

/// A build step's duration in hours, minutes and seconds.
pub fn format_duration(secs: u64) -> (r: String)
    ensures
        r@ == duration_text(secs),
{
    if secs < 60 {
        concat(decimal_string(secs).as_str(), "s")
    } else if secs < 3600 {
        let m = concat(decimal_string(secs / 60).as_str(), "m ");
        concat3(m.as_str(), decimal_string(secs % 60).as_str(), "s")
    } else {
        let h = concat(decimal_string(secs / 3600).as_str(), "h ");
        let m = concat3(h.as_str(), decimal_string((secs % 3600) / 60).as_str(), "m ");
        concat3(m.as_str(), decimal_string(secs % 60).as_str(), "s")
    }
}

} // verus!

verus! {

/// The comparison operators an emerge atom may start with.
pub open spec fn is_atom_op(c: char) -> bool {
    c == '=' || c == '<' || c == '>' || c == '~' || c == '!'
}

/// Index of the first character of `s` that is no atom operator.
pub open spec fn skip_ops(s: Seq<char>) -> int
    decreases s.len(),
{
    if s.len() > 0 && is_atom_op(s[0]) {
        skip_ops(s.drop_first()) + 1
    } else {
        0
    }
}

pub proof fn lemma_skip_ops(s: Seq<char>)
    ensures
        0 <= skip_ops(s) <= s.len(),
    decreases s.len(),
{
    if s.len() > 0 && is_atom_op(s[0]) {
        lemma_skip_ops(s.drop_first());
    }
}

/// Index of the first `-` at or after `k` in `s` that a digit follows: where
/// a version starts. `-1` when there is none.
pub open spec fn version_dash_from(s: Seq<char>, k: nat) -> int
    decreases s.len() - k,
{
    if k + 1 >= s.len() {
        -1
    } else if s[k as int] == '-' && text::is_digit(s[k + 1int]) {
        k as int
    } else {
        version_dash_from(s, k + 1)
    }
}

/// The package name left of the version glued onto it: cut at the first `-`
/// that a digit follows (`glibc-2.43-r2` gives `glibc`), whole where no such
/// dash occurs (`gst-plugins-v4l2`).
pub open spec fn strip_version_suffix(rest: Seq<char>) -> Seq<char> {
    let d = version_dash_from(rest, 0);
    if d >= 0 {
        rest.take(d)
    } else {
        rest
    }
}

/// The category and package of an emerge atom: operators stripped, the
/// slot cut at `:`, and the version removed; `None` when there is no `/`.
pub open spec fn spec_atom_cpn(atom: Seq<char>) -> Option<(Seq<char>, Seq<char>)> {
    let t = atom.skip(skip_ops(atom));
    let cpn = text::split(t, ':')[0];
    match text::split_once(cpn, '/') {
        None => None,
        Some(cr) => Some((cr.0, strip_version_suffix(cr.1))),
    }
}

/// The category and package of an emerge atom, as the directory that would
/// hold it.
#[verifier::rlimit(40)]
pub fn atom_cpn(atom: &str) -> (r: Option<(&str, &str)>)
    ensures
        match spec_atom_cpn(atom@) {
            Some(p) => r matches Some(x) && x.0@ == p.0 && x.1@ == p.1,
            None => r is None,
        },
{
    let cs = chars_of(atom);
    let mut i: usize = 0;
    assert(cs@.skip(0) =~= cs@);
    while i < cs.len() && (cs[i] == '=' || cs[i] == '<' || cs[i] == '>' || cs[i] == '~' || cs[i]
        == '!')
        invariant
            i <= cs@.len(),
            cs@ == atom@,
            skip_ops(atom@) == skip_ops(cs@.skip(i as int)) + i,
        decreases cs@.len() - i,
    {
        assert(cs@.skip(i as int).drop_first() =~= cs@.skip(i + 1));
        i = i + 1;
    }
    proof {
        lemma_skip_ops(cs@.skip(i as int));
    }
    let ghost t = atom@.skip(i as int);
    let n = cs.len();
    // The atom up to its slot.
    let mut j: usize = i;
    while j < n && cs[j] != ':'
        invariant
            i <= j <= n,
            n == cs@.len(),
            cs@ == atom@,
            t == atom@.skip(i as int),
            forall|k: int| i <= k < j ==> cs@[k] != ':',
        decreases n - j,
    {
        j = j + 1;
    }
    proof {
        assert forall|k: int| 0 <= k < j - i implies t[k] != ':' by {
            assert(t[k] == cs@[i + k]);
        }
        if j < n {
            assert(t[j - i] == cs@[j as int]);
        }
        crate::text::lemma_split_first(t, ':', j - i);
        assert(t.take(j - i) =~= atom@.subrange(i as int, j as int));
    }
    // Category and the rest.
    let mut s: usize = i;
    while s < j && cs[s] != '/'
        invariant
            i <= s <= j,
            j <= n,
            n == cs@.len(),
            cs@ == atom@,
            forall|k: int| i <= k < s ==> cs@[k] != '/',
        decreases j - s,
    {
        s = s + 1;
    }
    let ghost cpn = atom@.subrange(i as int, j as int);
    proof {
        assert forall|k: int| 0 <= k < s - i implies cpn[k] != '/' by {
            assert(cpn[k] == cs@[i + k]);
        }
        if s < j {
            assert(cpn[s - i] == cs@[s as int]);
        }
        crate::text::lemma_index_of_is(cpn, '/', s - i);
    }
    if s == j {
        return None;
    }
    let category = atom.substring_char(i, s);
    // The first dash of the rest that a digit follows.
    let ghost rest = atom@.subrange(s + 1, j as int);
    let mut d: usize = s + 1;
    while d < j - 1 && !(cs[d] == '-' && '0' <= cs[d + 1] && cs[d + 1] <= '9')
        invariant
            s + 1 <= d <= j,
            j <= n,
            n == cs@.len(),
            cs@ == atom@,
            rest == atom@.subrange(s + 1, j as int),
            version_dash_from(rest, 0) == version_dash_from(rest, (d - (s + 1)) as nat),
        decreases j - d,
    {
        assert(rest[d - (s + 1)] == cs@[d as int]);
        assert(rest[d - (s + 1) + 1] == cs@[d + 1]);
        d = d + 1;
    }
    let found = d < j - 1;
    proof {
        if found {
            assert(rest[d - (s + 1)] == cs@[d as int]);
            assert(rest[d - (s + 1) + 1] == cs@[d + 1]);
        }
    }
    let package = if found {
        atom.substring_char(s + 1, d)
    } else {
        atom.substring_char(s + 1, j)
    };
    proof {
        assert(cpn.take(s - i) =~= atom@.subrange(i as int, s as int));
        assert(cpn.skip(s - i + 1) =~= rest);
        if found {
            assert(rest.take(d - (s + 1)) =~= atom@.subrange(s + 1, d as int));
        }
    }
    Some((category, package))
}

} // verus!
