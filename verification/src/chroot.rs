//! Running a board's own binaries through qemu-user: which binfmt_misc
//! handler an architecture needs, and whether it will still be reachable
//! from inside a chroot.
use vstd::prelude::*;
use crate::text;
use crate::text::{chars_of, contains, lines_of, owned, slice_of, text_eq, trim_chars};

verus! {

/// The binfmt_misc handler that runs an architecture's binaries; `None`
/// for the host's own architecture and for ones without a handler.
pub open spec fn spec_binfmt_handler(arch: Seq<char>) -> Option<Seq<char>> {
    if arch == "riscv64"@ {
        Some("qemu-riscv64"@)
    } else if arch == "riscv32"@ {
        Some("qemu-riscv32"@)
    } else if arch == "aarch64"@ {
        Some("qemu-aarch64"@)
    } else if arch == "armv7a"@ || arch == "armv6j"@ || arch == "arm"@ {
        Some("qemu-arm"@)
    } else if arch == "i586"@ || arch == "i686"@ {
        Some("qemu-i386"@)
    } else {
        None
    }
}

/// The binfmt_misc handler that would run this architecture's binaries.
pub fn binfmt_handler(arch: &str) -> (r: Option<&'static str>)
    ensures
        match spec_binfmt_handler(arch@) {
            Some(h) => r matches Some(x) && x@ == h,
            None => r is None,
        },
{
    if text_eq(arch, "riscv64") {
        Some("qemu-riscv64")
    } else if text_eq(arch, "riscv32") {
        Some("qemu-riscv32")
    } else if text_eq(arch, "aarch64") {
        Some("qemu-aarch64")
    } else if text_eq(arch, "armv7a") || text_eq(arch, "armv6j") || text_eq(arch, "arm") {
        Some("qemu-arm")
    } else if text_eq(arch, "i586") || text_eq(arch, "i686") {
        Some("qemu-i386")
    } else {
        None
    }
}

/// Whether the kernel runs an architecture's binaries for us, and will
/// still do so inside a mount namespace.
#[derive(Debug, PartialEq, Eq)]
pub enum Emulation {
    /// Native, or a handler registered with `F`: nothing to arrange.
    Ready,
    /// Registered without `F`, so its interpreter is not visible from
    /// inside the chroot.
    NeedsFixBinary(String),
    NotRegistered(String),
}

/// The `flags:` value of a binfmt_misc entry (empty when it has none).
pub open spec fn entry_flags(ls: Seq<Seq<char>>) -> Seq<char>
    decreases ls.len(),
{
    if ls.len() == 0 {
        seq![]
    } else {
        match text::strip_prefix(text::trim(ls[0]), "flags:"@) {
            Some(f) => f,
            None => entry_flags(ls.drop_first()),
        }
    }
}

/// What a handler's registration (`/proc/sys/fs/binfmt_misc/<handler>`,
/// `None` when absent) means for a chroot of `arch`.
pub fn emulation_for(arch: &str, registration: Option<&str>) -> (r: Emulation)
    ensures
        match spec_binfmt_handler(arch@) {
            None => r == Emulation::Ready,
            Some(h) => match registration {
                None => r matches Emulation::NotRegistered(x) && x@ == h,
                Some(text) => if text::contains_char(entry_flags(text::lines(text@)), 'F') {
                    r == Emulation::Ready
                } else {
                    r matches Emulation::NeedsFixBinary(x) && x@ == h
                },
            },
        },
{
    let handler = match binfmt_handler(arch) {
        Some(h) => h,
        None => return Emulation::Ready,
    };
    let text = match registration {
        Some(t) => t,
        None => return Emulation::NotRegistered(owned(handler)),
    };
    let cs = chars_of(text);
    let ls = lines_of(cs.as_slice());
    let ghost lv = ls@.map_values(|l: Vec<char>| l@);
    let prefix = chars_of("flags:");
    proof {
        reveal_strlit("flags:");
    }
    let mut i: usize = 0;
    assert(lv.skip(0) =~= lv);
    while i < ls.len()
        invariant
            i <= ls@.len(),
            lv == ls@.map_values(|l: Vec<char>| l@),
            prefix@ == "flags:"@,
            prefix@.len() == 6,
            lv == text::lines(text@),
            spec_binfmt_handler(arch@) == Some(handler@),
            registration == Some(text),
            entry_flags(lv) == entry_flags(lv.skip(i as int)),
        decreases ls@.len() - i,
    {
        assert(lv.skip(i as int).drop_first() =~= lv.skip(i + 1));
        assert(lv.skip(i as int)[0] == ls@[i as int]@);
        let t = trim_chars(ls[i].as_slice());
        if crate::text::starts_with_chars(t.as_slice(), prefix.as_slice()) {
            let n = t.len();
            let flags = slice_of(t.as_slice(), 6, n);
            assert(flags@ =~= t@.skip(6));
            if contains(flags.as_slice(), 'F') {
                return Emulation::Ready;
            } else {
                return Emulation::NeedsFixBinary(owned(handler));
            }
        }
        i = i + 1;
    }
    assert(lv.skip(i as int) =~= Seq::<Seq<char>>::empty());
    assert(!text::contains_char(Seq::<char>::empty(), 'F'));
    Emulation::NeedsFixBinary(owned(handler))
}

} // verus!

verus! {

/// `parts` joined with `sep` between them.
pub open spec fn joined(parts: Seq<Seq<char>>, sep: Seq<char>) -> Seq<char>
    decreases parts.len(),
{
    if parts.len() == 0 {
        seq![]
    } else if parts.len() == 1 {
        parts[0]
    } else {
        joined(parts.drop_last(), sep) + sep + parts.last()
    }
}

/// `parts.join(sep)`.
pub fn join_strings(parts: &Vec<String>, sep: &str) -> (r: String)
    ensures
        r@ == joined(parts.deep_view(), sep@),
{
    let ghost pv = parts.deep_view();
    let mut out = String::new();
    let mut i: usize = 0;
    assert(pv.take(0) =~= Seq::<Seq<char>>::empty());
    while i < parts.len()
        invariant
            i <= parts@.len(),
            pv == parts.deep_view(),
            out@ == joined(pv.take(i as int), sep@),
        decreases parts@.len() - i,
    {
        let ghost before = out@;
        if i > 0 {
            out.append(sep);
        }
        out.append(parts[i].as_str());
        assert(pv.take(i + 1).drop_last() =~= pv.take(i as int));
        assert(pv.take(i + 1).last() == parts@[i as int]@);
        if i == 0 {
            assert(pv.take(1) =~= seq![parts@[0]@]);
            assert(out@ =~= before + parts@[0]@);
            assert(before =~= Seq::<char>::empty());
        }
        i = i + 1;
    }
    assert(pv.take(i as int) =~= pv);
    out
}

/// The shell and its arguments for a chroot: a login shell, or `-lc` with
/// the command words joined by spaces.
pub fn shell_command(has_bash: bool, cmd: &Vec<String>) -> (r: (&'static str, Vec<String>))
    ensures
        r.0@ == (if has_bash { "/bin/bash"@ } else { "/bin/sh"@ }),
        cmd@.len() == 0 ==> r.1.deep_view() == seq!["-l"@],
        cmd@.len() > 0 ==> r.1.deep_view() == seq!["-lc"@, joined(cmd.deep_view(), " "@)],
{
    let shell = if has_bash {
        "/bin/bash"
    } else {
        "/bin/sh"
    };
    let mut args: Vec<String> = Vec::new();
    if cmd.len() == 0 {
        args.push(owned("-l"));
        assert(args.deep_view() =~= seq!["-l"@]);
    } else {
        args.push(owned("-lc"));
        args.push(join_strings(cmd, " "));
        assert(args.deep_view() =~= seq!["-lc"@, joined(cmd.deep_view(), " "@)]);
    }
    (shell, args)
}

/// Why a chroot into `rootfs` for `arch` cannot start, if it cannot: no
/// shell in the tree yet, or no usable binfmt_misc handler.
pub fn chroot_refusal(rootfs: &str, arch: &str, has_shell: bool, emulation: &Emulation) -> (r: Option<crate::error::Error>)
    ensures
        !has_shell ==> (r matches Some(crate::error::Error::CommandFailed { code, reason })
            && code == 1 && reason@ == rootfs@ + " has no shell in it yet"@),
        has_shell && *emulation == Emulation::Ready ==> r is None,
        has_shell ==> match emulation {
            Emulation::NeedsFixBinary(h) => r matches Some(crate::error::Error::CommandFailed { code, reason })
                && code == 1 && reason@ == "binfmt_misc handler "@ + h@
                + " is registered without the F flag, so its interpreter is not reachable from inside a chroot.  Re-register it with F (qemu's own binfmt.d files do), or run the binary directly: qemu-"@
                + arch@ + "-static -L "@ + rootfs@ + " <program>"@,
            Emulation::NotRegistered(h) => r matches Some(crate::error::Error::CommandFailed { code, reason })
                && code == 1 && reason@ == "no binfmt_misc handler "@ + h@ + ": the kernel cannot run "@
                + arch@ + " binaries here.  Install qemu-user-static and register it (Debian: apt install qemu-user-static binfmt-support), or run the binary directly: qemu-"@
                + arch@ + "-static -L "@ + rootfs@ + " <program>"@,
            Emulation::Ready => r is None,
        },
{
    if !has_shell {
        return Some(
            crate::error::Error::CommandFailed {
                code: 1,
                reason: crate::text::concat(rootfs, " has no shell in it yet"),
            },
        );
    }
    match emulation {
        Emulation::Ready => None,
        Emulation::NeedsFixBinary(h) => {
            let mut m = crate::text::concat3("binfmt_misc handler ", h.as_str(), " is registered without the F flag, so its interpreter is not reachable from inside a chroot.  Re-register it with F (qemu's own binfmt.d files do), or run the binary directly: qemu-");
            m.append(arch);
            m.append("-static -L ");
            m.append(rootfs);
            m.append(" <program>");
            Some(crate::error::Error::CommandFailed { code: 1, reason: m })
        },
        Emulation::NotRegistered(h) => {
            let mut m = crate::text::concat3("no binfmt_misc handler ", h.as_str(), ": the kernel cannot run ");
            m.append(arch);
            m.append(" binaries here.  Install qemu-user-static and register it (Debian: apt install qemu-user-static binfmt-support), or run the binary directly: qemu-");
            m.append(arch);
            m.append("-static -L ");
            m.append(rootfs);
            m.append(" <program>");
            Some(crate::error::Error::CommandFailed { code: 1, reason: m })
        },
    }
}

} // verus!
