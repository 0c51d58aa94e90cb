//! The commands of the image steps that change the image tree: what
//! `assemble` runs, in order, and where it stops.
use vstd::prelude::*;
use crate::board::BoardConfig;
use crate::error::{is_board_error, Error};
use crate::image::{
    board_exports, extlinux_conf, fragments_text, kernel_config_fragments, spec_extlinux_conf, DiskId,
};
use crate::text;
use crate::text::{chars_of, concat, concat3, owned, slice_of, string_of};

verus! {

/// Append one command.
fn push_cmd(out: &mut Vec<String>, c: String)
    ensures
        final(out).deep_view() == old(out).deep_view().push(c@),
{
    let ghost before = out.deep_view();
    let ghost cv = c@;
    out.push(c);
    assert(out.deep_view() =~= before.push(cv));
}

/// Commands to run in order, and the error that stops them where one does:
/// the commands before it run, then the step fails with it.
#[derive(Debug)]
pub struct Plan {
    pub commands: Vec<String>,
    pub error: Option<Error>,
}

/// The board's firmware overlay copied into `/lib/firmware`.
pub open spec fn overlay_cmd(o: Seq<char>) -> Seq<char> {
    "[ -d /build/firmware/"@ + o + " ] || { echo 'BOARD_FIRMWARE_OVERLAY: no "@ + o
        + " in the firmware repo' >&2; exit 1; }; mkdir -p /build/gen/root/lib/firmware && cp -a /build/firmware/"@
        + o + "/. /build/gen/root/lib/firmware/"@
}

/// One firmware directory copied with its path kept.
pub open spec fn firmware_dir_cmd(d: Seq<char>) -> Seq<char> {
    "[ -d /build/firmware/"@ + d + " ] || { echo 'FIRMWARE_DIRS: no "@ + d
        + " in the firmware repo' >&2; exit 1; }; mkdir -p /build/gen/root/lib/firmware/"@ + d
        + " && cp -a /build/firmware/"@ + d + "/. /build/gen/root/lib/firmware/"@ + d + "/"@
}

pub open spec fn firmware_dir_cmds(ds: Seq<Seq<char>>) -> Seq<Seq<char>>
    decreases ds.len(),
{
    if ds.len() == 0 {
        seq![]
    } else {
        firmware_dir_cmds(ds.drop_last()).push(firmware_dir_cmd(ds.last()))
    }
}

/// A `name:runlevel` service enabled; a word without a colon enables
/// nothing.
pub open spec fn service_cmds(ss: Seq<Seq<char>>) -> Seq<Seq<char>>
    decreases ss.len(),
{
    if ss.len() == 0 {
        seq![]
    } else {
        let rest = service_cmds(ss.drop_last());
        match text::split_once(ss.last(), ':') {
            Some((n, rl)) => rest.push(
                "ln -sf /etc/init.d/"@ + n + " /build/gen/root/etc/runlevels/"@ + rl + "/"@ + n,
            ),
            None => rest,
        }
    }
}

pub open spec fn opt_cmd(o: Option<Seq<char>>) -> Seq<Seq<char>> {
    match o {
        Some(c) => seq![c],
        None => seq![],
    }
}

/// The commands of `assemble` up to the boot configuration: the root tree
/// from the target, the kernel modules, firmware, device trees and kernel.
pub open spec fn assemble_head(b: BoardConfig, karch: Seq<char>) -> Seq<Seq<char>> {
    seq![
        "mkdir -p /build/gen/root /build/gen/boot"@,
        "cp -a /target/. /build/gen/root/"@,
        "mkdir -p /build/gen/root/{dev,proc,sys,run,tmp,mnt,media} && chmod 1777 /build/gen/root/tmp"@,
        "make -C /build/linux ARCH="@ + karch + " CROSS_COMPILE="@ + b.cross_compile@
            + " INSTALL_MOD_PATH=/build/gen/root modules_install"@,
    ] + opt_cmd(
        match b.firmware_overlay {
            Some(o) => Some(overlay_cmd(o@)),
            None => None,
        },
    ) + firmware_dir_cmds(b.firmware_dirs.deep_view()) + opt_cmd(
        match b.kernel_dtb_glob {
            Some(g) => Some("cp /build/linux/"@ + g@ + " /build/gen/boot/"@),
            None => None,
        },
    ) + opt_cmd(
        match b.kernel_name {
            Some(k) => Some("cp /build/linux/arch/"@ + karch + "/boot/"@ + k@ + " /build/gen/boot/"@),
            None => None,
        },
    )
}

/// The commands of `assemble` after the boot configuration: runlevels,
/// the first-boot resize, services, hostname, gettys, the board's
/// make.conf, login settings, the initramfs and the library cache.
pub open spec fn assemble_tail(b: BoardConfig) -> Seq<Seq<char>> {
    seq![
        "mkdir -p /build/gen/root/etc/runlevels/{boot,default,nonetwork,shutdown,sysinit}"@,
        "install -m 0755 /scripts/defaults/scripts/grow-rootfs.initd /build/gen/root/etc/init.d/grow-rootfs && ln -sf /etc/init.d/grow-rootfs /build/gen/root/etc/runlevels/boot/grow-rootfs"@,
    ] + service_cmds(b.services.deep_view()) + seq![
        "mkdir -p /build/gen/root/etc/conf.d && printf 'hostname=\""@ + b.hostname@
            + "\"\n' > /build/gen/root/etc/conf.d/hostname"@,
        "sed -i -E '/^[^#].*agetty/{/agetty.* tty[0-9]/! s/^/#/}' /build/gen/root/etc/inittab"@,
    ] + opt_cmd(
        match (b.serial_tty, b.serial_baud) {
            (Some(t), Some(bd)) => Some(
                "echo 's0:12345:respawn:/sbin/agetty -L "@ + bd@ + " "@ + t@
                    + " linux' >> /build/gen/root/etc/inittab"@,
            ),
            _ => None,
        },
    ) + seq![
        "conf=/scripts/boards/"@ + b.name@
            + "/make.conf; if [ -f \"$conf\" ]; then mkdir -p /build/gen/root/etc/portage && cat \"$conf\" >> /build/gen/root/etc/portage/make.conf; fi"@,
        "sed -i -e 's/root:x:/root::/' /build/gen/root/etc/passwd"@,
        "mkdir -p /build/gen/root/etc/ssh && printf 'PermitRootLogin yes\nPermitEmptyPasswords yes\nStrictModes yes\n' >> /build/gen/root/etc/ssh/sshd_config"@,
    ] + opt_cmd(
        match b.dracut_modules {
            Some(m) => Some(
                "kver=$(ls /build/gen/root/lib/modules/ | head -1) && [ -n \"$kver\" ] && dracutbasedir=/usr/lib/dracut DRACUT_INSTALL=/usr/lib/dracut/dracut-install dracut -f --no-early-microcode --no-kernel -m '"@
                    + m@
                    + "' --gzip --sysroot /build/gen/root --tmpdir /tmp /build/gen/boot/initramfs.img \"$kver\""@,
            ),
            None => None,
        },
    ) + seq!["/usr/local/bin/ldconfig -v -r /build/gen/root"@]
}

/// The message for a board without `KERNEL_ARCH` at `assemble`.
pub open spec fn assemble_karch_msg() -> Seq<char> {
    "KERNEL_ARCH required for assemble"@
}

/// The `assemble` step of a board: its commands, and where it stops with an
/// error (no kernel arch at all; an extlinux board whose boot
/// configuration cannot be written, after the commands before it).
pub open spec fn spec_assemble(b: BoardConfig, arch_default: Seq<char>) -> (Seq<Seq<char>>, Option<Seq<char>>) {
    match b.kernel_arch {
        None => (seq![], Some(assemble_karch_msg())),
        Some(k) => if b.extlinux {
            match spec_extlinux_conf(b, arch_default) {
                Err(m) => (assemble_head(b, k@), Some(m)),
                Ok(x) => (assemble_head(b, k@).push(x) + assemble_tail(b), None),
            }
        } else {
            (assemble_head(b, k@) + assemble_tail(b), None)
        },
    }
}

fn push_opt(out: &mut Vec<String>, c: Option<String>)
    ensures
        final(out).deep_view() == old(out).deep_view() + opt_cmd(c.deep_view()),
{
    match c {
        Some(s) => push_cmd(out, s),
        None => {
            assert(old(out).deep_view() + opt_cmd(c.deep_view()) =~= old(out).deep_view());
        },
    }
}

fn append_cmds(out: &mut Vec<String>, more: Vec<String>)
    ensures
        final(out).deep_view() == old(out).deep_view() + more.deep_view(),
{
    let ghost before = out.deep_view();
    let mut i: usize = 0;
    while i < more.len()
        invariant
            i <= more@.len(),
            out.deep_view() == before + more.deep_view().take(i as int),
        decreases more@.len() - i,
    {
        let ghost o = out.deep_view();
        push_cmd(out, more[i].clone());
        assert(more.deep_view().take(i + 1) =~= more.deep_view().take(i as int).push(more@[i as int]@));
        assert(out.deep_view() =~= before + more.deep_view().take(i + 1));
        i = i + 1;
    }
    assert(more.deep_view().take(i as int) =~= more.deep_view());
}

fn firmware_commands(dirs: &Vec<String>) -> (r: Vec<String>)
    ensures
        r.deep_view() == firmware_dir_cmds(dirs.deep_view()),
{
    let ghost dv = dirs.deep_view();
    let mut out: Vec<String> = Vec::new();
    let mut i: usize = 0;
    assert(dv.take(0) =~= Seq::<Seq<char>>::empty());
    assert(out.deep_view() =~= Seq::<Seq<char>>::empty());
    while i < dirs.len()
        invariant
            i <= dirs@.len(),
            dv == dirs.deep_view(),
            out.deep_view() == firmware_dir_cmds(dv.take(i as int)),
        decreases dirs@.len() - i,
    {
        let d = dirs[i].as_str();
        let a = concat3("[ -d /build/firmware/", d, " ] || { echo 'FIRMWARE_DIRS: no ");
        let b = concat3(a.as_str(), d, " in the firmware repo' >&2; exit 1; }; mkdir -p /build/gen/root/lib/firmware/");
        let c = concat3(b.as_str(), d, " && cp -a /build/firmware/");
        let e = concat3(c.as_str(), d, "/. /build/gen/root/lib/firmware/");
        let f = concat3(e.as_str(), d, "/");
        assert(dv.take(i + 1).drop_last() =~= dv.take(i as int));
        assert(dv.take(i + 1).last() == d@);
        assert(f@ =~= firmware_dir_cmd(d@));
        push_cmd(&mut out, f);
        i = i + 1;
    }
    assert(dv.take(i as int) =~= dv);
    out
}

fn service_commands(services: &Vec<String>) -> (r: Vec<String>)
    ensures
        r.deep_view() == service_cmds(services.deep_view()),
{
    let ghost sv = services.deep_view();
    let mut out: Vec<String> = Vec::new();
    let mut i: usize = 0;
    assert(sv.take(0) =~= Seq::<Seq<char>>::empty());
    assert(out.deep_view() =~= Seq::<Seq<char>>::empty());
    while i < services.len()
        invariant
            i <= services@.len(),
            sv == services.deep_view(),
            out.deep_view() == service_cmds(sv.take(i as int)),
        decreases services@.len() - i,
    {
        assert(sv.take(i + 1).drop_last() =~= sv.take(i as int));
        assert(sv.take(i + 1).last() == services@[i as int]@);
        let cs = chars_of(services[i].as_str());
        match text::find_char(cs.as_slice(), ':') {
            Some(j) => {
                let n = cs.len();
                let name = string_of(slice_of(cs.as_slice(), 0, j).as_slice());
                let rl = string_of(slice_of(cs.as_slice(), j + 1, n).as_slice());
                assert(name@ =~= cs@.take(j as int));
                assert(rl@ =~= cs@.skip(j + 1));
                let a = concat3("ln -sf /etc/init.d/", name.as_str(), " /build/gen/root/etc/runlevels/");
                let b = concat3(a.as_str(), rl.as_str(), "/");
                push_cmd(&mut out, concat(b.as_str(), name.as_str()));
            },
            None => {},
        }
        i = i + 1;
    }
    assert(sv.take(i as int) =~= sv);
    out
}

/// The commands of the `assemble` step, which builds the image tree under
/// `/build/gen` from the target and the board's own pieces.
pub fn assemble_plan(board: &BoardConfig, arch_default: &str) -> (r: Plan)
    ensures
        r.commands.deep_view() == spec_assemble(*board, arch_default@).0,
        match spec_assemble(*board, arch_default@).1 {
            Some(m) => r.error matches Some(e) && is_board_error(e, board.name@, m),
            None => r.error is None,
        },
{
    let karch = match &board.kernel_arch {
        Some(k) => k.as_str(),
        None => {
            let v: Vec<String> = Vec::new();
            assert(v.deep_view() =~= Seq::<Seq<char>>::empty());
            return Plan {
                commands: v,
                error: Some(
                    Error::BoardConfigParse {
                        file: board.name.clone(),
                        msg: owned("KERNEL_ARCH required for assemble"),
                    },
                ),
            };
        },
    };
    let mut out = head_commands(board, karch);
    if board.extlinux {
        match extlinux_conf(board, arch_default) {
            Ok(x) => push_cmd(&mut out, x),
            Err(e) => {
                return Plan { commands: out, error: Some(e) };
            },
        }
    }
    append_cmds(&mut out, tail_commands(board));
    Plan { commands: out, error: None }
}

fn head_commands(board: &BoardConfig, karch: &str) -> (r: Vec<String>)
    ensures
        r.deep_view() == assemble_head(*board, karch@),
{
    let mut out: Vec<String> = Vec::new();
    assert(out.deep_view() =~= Seq::<Seq<char>>::empty());
    push_cmd(&mut out, owned("mkdir -p /build/gen/root /build/gen/boot"));
    push_cmd(&mut out, owned("cp -a /target/. /build/gen/root/"));
    push_cmd(
        &mut out,
        owned("mkdir -p /build/gen/root/{dev,proc,sys,run,tmp,mnt,media} && chmod 1777 /build/gen/root/tmp"),
    );
    let m1 = concat3("make -C /build/linux ARCH=", karch, " CROSS_COMPILE=");
    push_cmd(
        &mut out,
        concat3(m1.as_str(), board.cross_compile.as_str(), " INSTALL_MOD_PATH=/build/gen/root modules_install"),
    );
    let overlay = match &board.firmware_overlay {
        Some(o) => {
            let a = concat3("[ -d /build/firmware/", o.as_str(), " ] || { echo 'BOARD_FIRMWARE_OVERLAY: no ");
            let b = concat3(
                a.as_str(),
                o.as_str(),
                " in the firmware repo' >&2; exit 1; }; mkdir -p /build/gen/root/lib/firmware && cp -a /build/firmware/",
            );
            let c = concat3(b.as_str(), o.as_str(), "/. /build/gen/root/lib/firmware/");
            assert(c@ =~= overlay_cmd(o@));
            Some(c)
        },
        None => None,
    };
    push_opt(&mut out, overlay);
    append_cmds(&mut out, firmware_commands(&board.firmware_dirs));
    let dtb = match &board.kernel_dtb_glob {
        Some(g) => Some(concat3("cp /build/linux/", g.as_str(), " /build/gen/boot/")),
        None => None,
    };
    push_opt(&mut out, dtb);
    let kern = match &board.kernel_name {
        Some(k) => {
            let a = concat3("cp /build/linux/arch/", karch, "/boot/");
            Some(concat3(a.as_str(), k.as_str(), " /build/gen/boot/"))
        },
        None => None,
    };
    push_opt(&mut out, kern);
    assert(out.deep_view() =~= assemble_head(*board, karch@));
    out
}

fn tail_commands(board: &BoardConfig) -> (r: Vec<String>)
    ensures
        r.deep_view() == assemble_tail(*board),
{
    let mut out: Vec<String> = Vec::new();
    assert(out.deep_view() =~= Seq::<Seq<char>>::empty());
    push_cmd(&mut out, owned("mkdir -p /build/gen/root/etc/runlevels/{boot,default,nonetwork,shutdown,sysinit}"));
    push_cmd(
        &mut out,
        owned(
            "install -m 0755 /scripts/defaults/scripts/grow-rootfs.initd /build/gen/root/etc/init.d/grow-rootfs && ln -sf /etc/init.d/grow-rootfs /build/gen/root/etc/runlevels/boot/grow-rootfs",
        ),
    );
    append_cmds(&mut out, service_commands(&board.services));
    push_cmd(
        &mut out,
        concat3(
            "mkdir -p /build/gen/root/etc/conf.d && printf 'hostname=\"",
            board.hostname.as_str(),
            "\"\n' > /build/gen/root/etc/conf.d/hostname",
        ),
    );
    push_cmd(
        &mut out,
        owned("sed -i -E '/^[^#].*agetty/{/agetty.* tty[0-9]/! s/^/#/}' /build/gen/root/etc/inittab"),
    );
    let serial = match (&board.serial_tty, &board.serial_baud) {
        (Some(t), Some(bd)) => {
            let a = concat3("echo 's0:12345:respawn:/sbin/agetty -L ", bd.as_str(), " ");
            Some(concat3(a.as_str(), t.as_str(), " linux' >> /build/gen/root/etc/inittab"))
        },
        _ => None,
    };
    push_opt(&mut out, serial);
    push_cmd(
        &mut out,
        concat3(
            "conf=/scripts/boards/",
            board.name.as_str(),
            "/make.conf; if [ -f \"$conf\" ]; then mkdir -p /build/gen/root/etc/portage && cat \"$conf\" >> /build/gen/root/etc/portage/make.conf; fi",
        ),
    );
    push_cmd(&mut out, owned("sed -i -e 's/root:x:/root::/' /build/gen/root/etc/passwd"));
    push_cmd(
        &mut out,
        owned(
            "mkdir -p /build/gen/root/etc/ssh && printf 'PermitRootLogin yes\nPermitEmptyPasswords yes\nStrictModes yes\n' >> /build/gen/root/etc/ssh/sshd_config",
        ),
    );
    let dracut = match &board.dracut_modules {
        Some(m) => Some(
            concat3(
                "kver=$(ls /build/gen/root/lib/modules/ | head -1) && [ -n \"$kver\" ] && dracutbasedir=/usr/lib/dracut DRACUT_INSTALL=/usr/lib/dracut/dracut-install dracut -f --no-early-microcode --no-kernel -m '",
                m.as_str(),
                "' --gzip --sysroot /build/gen/root --tmpdir /tmp /build/gen/boot/initramfs.img \"$kver\"",
            ),
        ),
        None => None,
    };
    push_opt(&mut out, dracut);
    push_cmd(&mut out, owned("/usr/local/bin/ldconfig -v -r /build/gen/root"));
    assert(out.deep_view() =~= assemble_tail(*board));
    out
}


// ── The kernel step ─────────────────────────────────────────────────────────

/// The message for a board without `KERNEL_ARCH` at the kernel step.
pub open spec fn kernel_karch_msg() -> Seq<char> {
    "KERNEL_ARCH required for kernel build"@
}

/// The kernel build: reproducible (the commit's date, a fixed user and the
/// board's name as host), configured from the defconfig and the board's
/// fragments, then built.
pub open spec fn spec_kernel_command(b: BoardConfig, karch: Seq<char>) -> Seq<char> {
    "set -e\ncd /build/linux\nepoch=$(git log -1 --pretty=%ct 2>/dev/null || echo 0)\nexport SOURCE_DATE_EPOCH=$epoch\nexport KBUILD_BUILD_TIMESTAMP=$(date -u -d \"@$epoch\" 2>/dev/null || echo)\nexport KBUILD_BUILD_USER=crossdev-stages\nexport KBUILD_BUILD_HOST="@
        + b.name@ + "\nmake -C /build/linux ARCH="@ + karch + " CROSS_COMPILE="@ + b.cross_compile@
        + " "@ + b.kernel_defconfig@ + "\n"@ + fragments_text(b) + "make -C /build/linux ARCH="@
        + karch + " CROSS_COMPILE="@ + b.cross_compile@ + " WERROR=0 -j$(nproc)"@
}

/// The kernel step's command, or the error for a board without a kernel
/// arch.
pub fn kernel_command(board: &BoardConfig) -> (r: Result<String, Error>)
    ensures
        match board.kernel_arch {
            Some(k) => r matches Ok(c) && c@ == spec_kernel_command(*board, k@),
            None => r matches Err(e) && is_board_error(e, board.name@, kernel_karch_msg()),
        },
{
    let karch = match &board.kernel_arch {
        Some(k) => k.as_str(),
        None => {
            return Err(
                Error::BoardConfigParse {
                    file: board.name.clone(),
                    msg: owned("KERNEL_ARCH required for kernel build"),
                },
            );
        },
    };
    let mut out = owned(
        "set -e\ncd /build/linux\nepoch=$(git log -1 --pretty=%ct 2>/dev/null || echo 0)\nexport SOURCE_DATE_EPOCH=$epoch\nexport KBUILD_BUILD_TIMESTAMP=$(date -u -d \"@$epoch\" 2>/dev/null || echo)\nexport KBUILD_BUILD_USER=crossdev-stages\nexport KBUILD_BUILD_HOST=",
    );
    out.append(board.name.as_str());
    out.append("\nmake -C /build/linux ARCH=");
    out.append(karch);
    out.append(" CROSS_COMPILE=");
    out.append(board.cross_compile.as_str());
    out.append(" ");
    out.append(board.kernel_defconfig.as_str());
    out.append("\n");
    let frags = kernel_config_fragments(board);
    out.append(frags.as_str());
    out.append("make -C /build/linux ARCH=");
    out.append(karch);
    out.append(" CROSS_COMPILE=");
    out.append(board.cross_compile.as_str());
    out.append(" WERROR=0 -j$(nproc)");
    assert(out@ =~= spec_kernel_command(*board, karch@));
    Ok(out)
}

/// `make` in the kernel tree for `karch` with the board's cross prefix,
/// asked for `goal`.
pub open spec fn kernel_make(b: BoardConfig, karch: Seq<char>, goal: Seq<char>) -> Seq<char> {
    "make -C /build/linux ARCH="@ + karch + " CROSS_COMPILE="@ + b.cross_compile@ + " "@ + goal
}

/// The kernel is configured from its defconfig, then the board's fragments
/// are merged into that configuration, and only then is it built: the
/// fragment text stands between the defconfig line and the build, and the
/// build is the last thing the command runs.
pub proof fn law_kernel_fragments_merge_before_the_build(b: BoardConfig, karch: Seq<char>)
    ensures
        exists|pre: Seq<char>|
            spec_kernel_command(b, karch) == pre + kernel_make(b, karch, b.kernel_defconfig@) + "\n"@
                + fragments_text(b) + kernel_make(b, karch, "WERROR=0 -j$(nproc)"@),
        text::ends_with(spec_kernel_command(b, karch), kernel_make(b, karch, "WERROR=0 -j$(nproc)"@)),
{
    let head = "set -e\ncd /build/linux\nepoch=$(git log -1 --pretty=%ct 2>/dev/null || echo 0)\nexport SOURCE_DATE_EPOCH=$epoch\nexport KBUILD_BUILD_TIMESTAMP=$(date -u -d \"@$epoch\" 2>/dev/null || echo)\nexport KBUILD_BUILD_USER=crossdev-stages\nexport KBUILD_BUILD_HOST="@;
    let pre = head + b.name@ + "\n"@;
    reveal_strlit("\nmake -C /build/linux ARCH=");
    reveal_strlit("\n");
    reveal_strlit("make -C /build/linux ARCH=");
    reveal_strlit(" WERROR=0 -j$(nproc)");
    reveal_strlit(" ");
    reveal_strlit("WERROR=0 -j$(nproc)");
    assert("\nmake -C /build/linux ARCH="@ =~= "\n"@ + "make -C /build/linux ARCH="@);
    assert(" WERROR=0 -j$(nproc)"@ =~= " "@ + "WERROR=0 -j$(nproc)"@);
    let whole = spec_kernel_command(b, karch);
    let tail = kernel_make(b, karch, "WERROR=0 -j$(nproc)"@);
    assert(whole =~= pre + kernel_make(b, karch, b.kernel_defconfig@) + "\n"@ + fragments_text(b) + tail);
    let front = pre + kernel_make(b, karch, b.kernel_defconfig@) + "\n"@ + fragments_text(b);
    assert(whole.skip(whole.len() - tail.len()) =~= tail) by {
        assert(whole =~= front + tail);
    }
}

// ── Board patches ───────────────────────────────────────────────────────────

/// The shell that applies one board patch to `/build/<source>`: applied if
/// it applies, accepted if it is already in, and a failure otherwise.
pub open spec fn spec_patch_command(board: Seq<char>, source: Seq<char>, file: Seq<char>) -> Seq<char> {
    "set -e\ncd /build/"@ + source + "\np=/scripts/boards/"@ + board + "/patches/"@ + source + "/"@
        + file
        + "\nif git apply --check \"$p\" 2>/dev/null; then\ngit apply \"$p\"\nelif git apply --reverse --check \"$p\" 2>/dev/null; then\necho \"already applied: "@
        + file + "\"\nelse\necho \"does not apply to this tree: "@ + file
        + "\" >&2\nexit 1\nfi"@
}

/// The shell that applies the patch `file` of `source` for `board`.
pub fn patch_command(board: &str, source: &str, file: &str) -> (r: String)
    ensures
        r@ == spec_patch_command(board@, source@, file@),
{
    let mut out = owned("set -e\ncd /build/");
    out.append(source);
    out.append("\np=/scripts/boards/");
    out.append(board);
    out.append("/patches/");
    out.append(source);
    out.append("/");
    out.append(file);
    out.append(
        "\nif git apply --check \"$p\" 2>/dev/null; then\ngit apply \"$p\"\nelif git apply --reverse --check \"$p\" 2>/dev/null; then\necho \"already applied: ",
    );
    out.append(file);
    out.append("\"\nelse\necho \"does not apply to this tree: ");
    out.append(file);
    out.append("\" >&2\nexit 1\nfi");
    assert(out@ =~= spec_patch_command(board@, source@, file@));
    out
}

/// In byte order, equal names kept together.
pub open spec fn names_sorted(s: Seq<Seq<char>>) -> bool {
    forall|i: int, j: int| 0 <= i < j < s.len() ==> !text::text_lt(s[j], s[i])
}

/// The names of `names`, sorted in byte order.
pub fn sort_names(names: Vec<String>) -> (r: Vec<String>)
    ensures
        names_sorted(r.deep_view()),
        r.deep_view().to_multiset() == names.deep_view().to_multiset(),
{
    let ghost nv = names.deep_view();
    let mut out: Vec<String> = Vec::new();
    let mut rest = names;
    let ghost mut taken: int = 0;
    assert(out.deep_view() =~= Seq::<Seq<char>>::empty());
    assert(nv.take(0) =~= Seq::<Seq<char>>::empty());
    assert(rest.deep_view() =~= nv.skip(0));
    while rest.len() > 0
        invariant
            0 <= taken <= nv.len(),
            rest.deep_view() == nv.skip(taken),
            names_sorted(out.deep_view()),
            out.deep_view().to_multiset() == nv.take(taken).to_multiset(),
        decreases rest@.len(),
    {
        let ghost rv = rest.deep_view();
        let ghost r0 = rest@;
        let x = rest.remove(0);
        let ghost xv = x@;
        proof {
            assert(x == r0[0]);
            assert(rv[0] == xv);
            assert(rest.deep_view() =~= rv.drop_first());
            assert(rv.drop_first() =~= nv.skip(taken + 1));
            assert(nv.skip(taken)[0] == xv);
            assert(nv[taken] == xv);
            assert(nv.take(taken + 1) =~= nv.take(taken).push(xv));
            vstd::seq_lib::to_multiset_build(nv.take(taken), xv);
        }
        let ghost ov = out.deep_view();
        let mut p: usize = 0;
        let mut found = false;
        while !found && p < out.len()
            invariant
                p <= out@.len(),
                ov == out.deep_view(),
                xv == x@,
                forall|k: int| 0 <= k < p ==> !text::text_lt(xv, #[trigger] ov[k]),
                found ==> p < ov.len() && text::text_lt(xv, ov[p as int]),
            decreases out@.len() - p + (if found { 0int } else { 1int }),
        {
            assert(ov[p as int] == out@[p as int]@);
            if text::string_lt(&x, &out[p]) {
                found = true;
            } else {
                p = p + 1;
            }
        }
        out.insert(p, x);
        let ghost w = out.deep_view();
        assert(w =~= ov.insert(p as int, xv));
        proof {
            vstd::seq_lib::to_multiset_insert(ov, p as int, xv);
            assert forall|i: int, j: int| 0 <= i < j < w.len() implies !text::text_lt(w[j], w[i]) by {
                if i < p && j == p {
                    assert(w[i] == ov[i]);
                } else if i == p && j > p {
                    // ov[p] (now w[p + 1]) was the first name after x, and
                    // everything after it is no smaller.
                    assert(w[j] == ov[j - 1]);
                    if j - 1 > p {
                        assert(!text::text_lt(ov[j - 1], ov[p as int]));
                        text::lemma_text_lt_total(ov[j - 1], xv);
                        text::lemma_text_lt_transitive(ov[j - 1], xv, ov[p as int]);
                        if ov[j - 1] == xv {
                            text::lemma_text_lt_irreflexive(xv);
                        }
                    } else {
                        text::lemma_text_lt_asymmetric(xv, ov[p as int]);
                    }
                } else if i < p && j > p {
                    assert(w[i] == ov[i] && w[j] == ov[j - 1]);
                } else if i > p {
                    assert(w[i] == ov[i - 1] && w[j] == ov[j - 1]);
                } else {
                    assert(w[i] == ov[i] && w[j] == ov[j]);
                }
            }
            taken = taken + 1;
        }
    }
    assert(nv.skip(taken).len() == 0);
    assert(nv.take(taken) =~= nv);
    out
}

/// A file a board's patch directory applies: `*.patch` or `*.diff`.
pub open spec fn is_patch_file(n: Seq<char>) -> bool {
    text::ends_with(n, ".patch"@) || text::ends_with(n, ".diff"@)
}

pub open spec fn patch_files_of(s: Seq<Seq<char>>) -> Seq<Seq<char>>
    decreases s.len(),
{
    if s.len() == 0 {
        seq![]
    } else if is_patch_file(s.last()) {
        patch_files_of(s.drop_last()).push(s.last())
    } else {
        patch_files_of(s.drop_last())
    }
}

/// The patches among the file names of a source's patch directory, in the
/// byte order of their names, which is the order they apply in.
pub fn patch_files(names: Vec<String>) -> (r: Vec<String>)
    ensures
        names_sorted(r.deep_view()),
        r.deep_view().to_multiset() == patch_files_of(names.deep_view()).to_multiset(),
{
    let ghost nv = names.deep_view();
    let mut keep: Vec<String> = Vec::new();
    let mut i: usize = 0;
    assert(nv.take(0) =~= Seq::<Seq<char>>::empty());
    assert(keep.deep_view() =~= Seq::<Seq<char>>::empty());
    while i < names.len()
        invariant
            i <= names@.len(),
            nv == names.deep_view(),
            keep.deep_view() == patch_files_of(nv.take(i as int)),
        decreases names@.len() - i,
    {
        assert(nv.take(i + 1).drop_last() =~= nv.take(i as int));
        assert(nv.take(i + 1).last() == names@[i as int]@);
        let n = names[i].as_str();
        let cs = chars_of(n);
        let p = chars_of(".patch");
        let d = chars_of(".diff");
        if text::ends_with_chars(cs.as_slice(), p.as_slice()) || text::ends_with_chars(cs.as_slice(), d.as_slice()) {
            push_cmd(&mut keep, names[i].clone());
        }
        i = i + 1;
    }
    assert(nv.take(i as int) =~= nv);
    sort_names(keep)
}

// ── The pack step ───────────────────────────────────────────────────────────

/// The genimage config a board packs with: its own where it has one, else
/// the project's.
pub fn genimage_config_path(board: &BoardConfig, board_has_config: bool) -> (r: String)
    ensures
        r@ == (if board_has_config {
            "/scripts/boards/"@ + board.name@ + "/genimage.cfg"@
        } else {
            "/scripts/genimage.cfg"@
        }),
{
    if board_has_config {
        concat3("/scripts/boards/", board.name.as_str(), "/genimage.cfg")
    } else {
        owned("/scripts/genimage.cfg")
    }
}

/// The file genimage writes: `IMAGE_NAME`, else
/// `gentoo-linux-<board>_dev-sdcard.img`.
pub open spec fn spec_image_file(b: BoardConfig) -> Seq<char> {
    match b.image_name {
        Some(n) => n@,
        None => "gentoo-linux-"@ + b.name@ + "_dev-sdcard.img"@,
    }
}

pub fn image_file(board: &BoardConfig) -> (r: String)
    ensures
        r@ == spec_image_file(*board),
{
    match &board.image_name {
        Some(n) => n.clone(),
        None => concat3("gentoo-linux-", board.name.as_str(), "_dev-sdcard.img"),
    }
}

/// The image name with the build's timestamp in it, before `.img` where it
/// ends so, else at the end.
pub open spec fn spec_stamped_name(name: Seq<char>, ts: Seq<char>) -> Seq<char> {
    match text::strip_suffix(name, ".img"@) {
        Some(stem) => stem + "-"@ + ts + ".img"@,
        None => name + "-"@ + ts,
    }
}

pub fn stamped_name(name: &str, ts: &str) -> (r: String)
    ensures
        r@ == spec_stamped_name(name@, ts@),
{
    let cs = chars_of(name);
    let suf = chars_of(".img");
    proof {
        reveal_strlit(".img");
    }
    if text::ends_with_chars(cs.as_slice(), suf.as_slice()) {
        let n = cs.len() - 4;
        let stem = string_of(slice_of(cs.as_slice(), 0, n).as_slice());
        assert(stem@ =~= cs@.take(n as int));
        let a = concat3(stem.as_str(), "-", ts);
        concat(a.as_str(), ".img")
    } else {
        concat3(name, "-", ts)
    }
}

/// The genimage run: the disk exports, a clean temporary directory, then
/// genimage over `/build` with the image tree at `/build/gen`.
pub open spec fn spec_genimage_command(b: BoardConfig, arch_default: Seq<char>, cfg: Seq<char>) -> Seq<char> {
    "set -e\n"@ + board_exports(b, arch_default)
        + "rm -rf /build/tmp && cd /build && genimage --config "@ + cfg
        + " --mkdosfs mkfs.vfat --inputpath /build --outputpath /build --rootpath /build/gen"@
}

pub fn genimage_command(board: &BoardConfig, arch_default: &str, cfg_path: &str) -> (r: String)
    ensures
        r@ == spec_genimage_command(*board, arch_default@, cfg_path@),
{
    let disk = DiskId::of(board, arch_default);
    let mut out = owned("set -e\n");
    out.append(disk.exports().as_str());
    out.append("rm -rf /build/tmp && cd /build && genimage --config ");
    out.append(cfg_path);
    out.append(" --mkdosfs mkfs.vfat --inputpath /build --outputpath /build --rootpath /build/gen");
    assert(out@ =~= spec_genimage_command(*board, arch_default@, cfg_path@));
    out
}

/// How the packed image is compressed: `none`, gzip (`gz`, `gzip`), or xz
/// (anything else; the default).  The command, if any, and the final name.
pub open spec fn spec_compression(b: BoardConfig, img: Seq<char>) -> (Option<Seq<char>>, Seq<char>) {
    let c = match b.compression {
        Some(c) => c@,
        None => "xz"@,
    };
    if c == "none"@ {
        (None, img)
    } else if c == "gz"@ || c == "gzip"@ {
        (Some("gzip -fv -9 /build/"@ + img), img + ".gz"@)
    } else {
        (Some("xz -fv -T0 -9 /build/"@ + img), img + ".xz"@)
    }
}

pub fn compression_plan(board: &BoardConfig, img: &str) -> (r: (Option<String>, String))
    ensures
        r.0.deep_view() == spec_compression(*board, img@).0,
        r.1@ == spec_compression(*board, img@).1,
{
    let c: &str = match &board.compression {
        Some(c) => c.as_str(),
        None => "xz",
    };
    if text::text_eq(c, "none") {
        (None, owned(img))
    } else if text::text_eq(c, "gz") || text::text_eq(c, "gzip") {
        (Some(concat("gzip -fv -9 /build/", img)), concat(img, ".gz"))
    } else {
        (Some(concat("xz -fv -T0 -9 /build/", img)), concat(img, ".xz"))
    }
}

/// What a compression plan produces: no command and the image itself, or
/// a command that compresses `/build/<img>` in place with gzip or xz and
/// the name of the file that command leaves, which carries the matching
/// extension. `gz` and `gzip` both name gzip, `none` no compression, and
/// any other value (or none given) xz.
pub proof fn law_compression_plan_names_what_it_ran(b: BoardConfig, img: Seq<char>)
    ensures
        ({
            let (cmd, name) = spec_compression(b, img);
            &&& cmd is None <==> name == img
            &&& cmd matches Some(c) ==> text::ends_with(c, " /build/"@ + img)
            &&& cmd matches Some(c) ==> ((text::starts_with(c, "gzip "@) && name == img + ".gz"@)
                || (text::starts_with(c, "xz "@) && name == img + ".xz"@))
            &&& (b.compression is Some && (b.compression->0@ == "gz"@ || b.compression->0@
                == "gzip"@)) ==> (cmd == Some("gzip -fv -9 /build/"@ + img) && name == img + ".gz"@)
            &&& (b.compression is Some && b.compression->0@ == "none"@) ==> cmd is None
            &&& (b.compression is None || (b.compression->0@ != "gz"@ && b.compression->0@
                != "gzip"@ && b.compression->0@ != "none"@)) ==> (cmd == Some(
                "xz -fv -T0 -9 /build/"@ + img,
            ) && name == img + ".xz"@)
        }),
{
    reveal_strlit("gzip -fv -9 /build/");
    reveal_strlit("xz -fv -T0 -9 /build/");
    reveal_strlit("xz");
    reveal_strlit("none");
    reveal_strlit("gz");
    reveal_strlit("gzip");
    reveal_strlit("gzip ");
    reveal_strlit("xz ");
    reveal_strlit(" /build/");
    reveal_strlit(".gz");
    reveal_strlit(".xz");
    let g = "gzip -fv -9 /build/"@ + img;
    let x = "xz -fv -T0 -9 /build/"@ + img;
    assert(g.take(5) =~= "gzip "@);
    assert(x.take(3) =~= "xz "@);
    assert(g.skip(g.len() - (" /build/"@ + img).len()) =~= " /build/"@ + img);
    assert(x.skip(x.len() - (" /build/"@ + img).len()) =~= " /build/"@ + img);
    assert((img + ".gz"@).len() != img.len());
    assert((img + ".xz"@).len() != img.len());
    assert("gz"@.len() == 2 && "xz"@.len() == 2 && "none"@.len() == 4 && "gzip"@.len() == 4);
    assert("gzip"@[0] != "none"@[0]);
    assert("xz"@[0] != "gz"@[0]);
    let c = match b.compression {
        Some(v) => v@,
        None => "xz"@,
    };
    if c == "none"@ {
        assert(spec_compression(b, img) == (None::<Seq<char>>, img));
    } else if c == "gz"@ || c == "gzip"@ {
        assert(spec_compression(b, img) == (Some(g), img + ".gz"@));
    } else {
        assert(spec_compression(b, img) == (Some(x), img + ".xz"@));
    }
}

// ── The build pipeline ──────────────────────────────────────────────────────

/// The marker a step leaves when done: `deps`, `sources` for checkout,
/// `bootloader`, `kernel`, `assembled`, `packed`; no other step is known,
/// and an unknown step is skipped.
pub open spec fn spec_step_marker(step: Seq<char>) -> Option<Seq<char>> {
    if step == "deps"@ {
        Some("deps"@)
    } else if step == "checkout"@ {
        Some("sources"@)
    } else if step == "bootloader"@ {
        Some("bootloader"@)
    } else if step == "kernel"@ {
        Some("kernel"@)
    } else if step == "assemble"@ {
        Some("assembled"@)
    } else if step == "pack"@ {
        Some("packed"@)
    } else {
        None
    }
}

pub fn step_marker(step: &str) -> (r: Option<&'static str>)
    ensures
        match r {
            Some(m) => spec_step_marker(step@) == Some(m@),
            None => spec_step_marker(step@) is None,
        },
{
    if text::text_eq(step, "deps") {
        Some("deps")
    } else if text::text_eq(step, "checkout") {
        Some("sources")
    } else if text::text_eq(step, "bootloader") {
        Some("bootloader")
    } else if text::text_eq(step, "kernel") {
        Some("kernel")
    } else if text::text_eq(step, "assemble") {
        Some("assembled")
    } else if text::text_eq(step, "pack") {
        Some("packed")
    } else {
        None
    }
}

/// A tag that follows a branch rather than naming a release.
pub open spec fn is_branch_tag(t: Seq<char>) -> bool {
    t == "master"@ || t == "main"@ || t == "trunk"@ || t == "HEAD"@
}

/// A source `name` from `repo` at `tag` (`master` when unset), listed when
/// it has a repo and the tag follows a branch.
pub open spec fn unpinned(name: Seq<char>, repo: Option<Seq<char>>, tag: Option<Seq<char>>) -> Seq<
    (Seq<char>, Seq<char>, Seq<char>),
> {
    let t = match tag {
        Some(t) => t,
        None => "master"@,
    };
    match repo {
        Some(r) => if is_branch_tag(t) {
            seq![(name, r, t)]
        } else {
            seq![]
        },
        None => seq![],
    }
}

pub open spec fn opt_text(o: Option<String>) -> Option<Seq<char>> {
    match o {
        Some(s) => Some(s@),
        None => None,
    }
}

/// The sources of a board that track a branch instead of a pin, as
/// `(name, repo, tag)`: opensbi, uboot, syslinux, firmware (at its effective
/// tag) and the kernel, in that order.
pub open spec fn spec_unpinned_sources(b: BoardConfig) -> Seq<(Seq<char>, Seq<char>, Seq<char>)> {
    unpinned("opensbi"@, opt_text(b.opensbi_repo), opt_text(b.opensbi_tag)) + unpinned(
        "uboot"@,
        opt_text(b.u_boot_repo),
        opt_text(b.u_boot_tag),
    ) + unpinned("syslinux"@, opt_text(b.syslinux_repo), opt_text(b.syslinux_tag)) + unpinned(
        "firmware"@,
        opt_text(b.firmware_repo),
        Some(
            match b.firmware_tag {
                Some(t) => t@,
                None => match b.u_boot_tag {
                    Some(t) => t@,
                    None => "main"@,
                },
            },
        ),
    ) + unpinned("kernel"@, Some(b.kernel_repo@), Some(b.kernel_tag@))
}

fn push_unpinned(
    out: &mut Vec<(String, String, String)>,
    name: &str,
    repo: Option<&String>,
    tag: Option<&String>,
)
    ensures
        final(out)@.map_values(|e: (String, String, String)| (e.0@, e.1@, e.2@)) == old(out)@.map_values(
            |e: (String, String, String)| (e.0@, e.1@, e.2@),
        ) + unpinned(
            name@,
            match repo {
                Some(r) => Some(r@),
                None => None,
            },
            match tag {
                Some(t) => Some(t@),
                None => None,
            },
        ),
{
    let ghost before = out@.map_values(|e: (String, String, String)| (e.0@, e.1@, e.2@));
    let t: String = match tag {
        Some(t) => t.clone(),
        None => owned("master"),
    };
    match repo {
        Some(r) => {
            if text::text_eq(t.as_str(), "master") || text::text_eq(t.as_str(), "main")
                || text::text_eq(t.as_str(), "trunk") || text::text_eq(t.as_str(), "HEAD") {
                let ghost e = (name@, r@, t@);
                out.push((owned(name), r.clone(), t));
                assert(out@.map_values(|e: (String, String, String)| (e.0@, e.1@, e.2@)) =~= before
                    + seq![e]);
            } else {
                assert(before + Seq::<(Seq<char>, Seq<char>, Seq<char>)>::empty() =~= before);
            }
        },
        None => {
            assert(before + Seq::<(Seq<char>, Seq<char>, Seq<char>)>::empty() =~= before);
        },
    }
}

/// The sources of `board` that follow a branch, which a build can only be
/// reproduced from by the commit its lock records.
pub fn unpinned_sources(board: &BoardConfig) -> (r: Vec<(String, String, String)>)
    ensures
        r@.map_values(|e: (String, String, String)| (e.0@, e.1@, e.2@)) == spec_unpinned_sources(
            *board,
        ),
{
    let mut out: Vec<(String, String, String)> = Vec::new();
    assert(out@.map_values(|e: (String, String, String)| (e.0@, e.1@, e.2@)) =~= Seq::<
        (Seq<char>, Seq<char>, Seq<char>),
    >::empty());
    push_unpinned(&mut out, "opensbi", board.opensbi_repo.as_ref(), board.opensbi_tag.as_ref());
    push_unpinned(&mut out, "uboot", board.u_boot_repo.as_ref(), board.u_boot_tag.as_ref());
    push_unpinned(&mut out, "syslinux", board.syslinux_repo.as_ref(), board.syslinux_tag.as_ref());
    let fw = board.effective_firmware_tag();
    push_unpinned(&mut out, "firmware", board.firmware_repo.as_ref(), Some(&fw));
    push_unpinned(&mut out, "kernel", Some(&board.kernel_repo), Some(&board.kernel_tag));
    assert(out@.map_values(|e: (String, String, String)| (e.0@, e.1@, e.2@)) =~= spec_unpinned_sources(*board));
    out
}

/// A source the build records: `(name, repo, tag, path)`.
pub open spec fn source_row(name: Seq<char>, repo: Seq<char>, tag: Seq<char>, path: Seq<char>) -> Seq<
    (Seq<char>, Seq<char>, Seq<char>, Seq<char>),
> {
    seq![(name, repo, tag, path)]
}

/// The sources a finished build records in its lock: opensbi, uboot and
/// syslinux where repo and tag are both set, the firmware where it has a
/// repo (at its effective tag), and the kernel always.
pub open spec fn spec_recorded_sources(b: BoardConfig) -> Seq<(Seq<char>, Seq<char>, Seq<char>, Seq<char>)> {
    (match (b.opensbi_repo, b.opensbi_tag) {
        (Some(r), Some(t)) => source_row("opensbi"@, r@, t@, "/build/opensbi"@),
        _ => seq![],
    }) + (match (b.u_boot_repo, b.u_boot_tag) {
        (Some(r), Some(t)) => source_row("uboot"@, r@, t@, "/build/u-boot"@),
        _ => seq![],
    }) + (match (b.syslinux_repo, b.syslinux_tag) {
        (Some(r), Some(t)) => source_row("syslinux"@, r@, t@, "/build/syslinux"@),
        _ => seq![],
    }) + (match b.firmware_repo {
        Some(r) => source_row(
            "firmware"@,
            r@,
            match b.firmware_tag {
                Some(t) => t@,
                None => match b.u_boot_tag {
                    Some(t) => t@,
                    None => "main"@,
                },
            },
            "/build/firmware"@,
        ),
        None => seq![],
    }) + source_row("kernel"@, b.kernel_repo@, b.kernel_tag@, "/build/linux"@)
}

fn push_row(out: &mut Vec<(String, String, String, String)>, name: &str, repo: &String, tag: &String, path: &str)
    ensures
        final(out)@.map_values(|e: (String, String, String, String)| (e.0@, e.1@, e.2@, e.3@)) == old(
            out,
        )@.map_values(|e: (String, String, String, String)| (e.0@, e.1@, e.2@, e.3@)) + source_row(
            name@,
            repo@,
            tag@,
            path@,
        ),
{
    let ghost before = out@.map_values(|e: (String, String, String, String)| (e.0@, e.1@, e.2@, e.3@));
    out.push((owned(name), repo.clone(), tag.clone(), owned(path)));
    assert(out@.map_values(|e: (String, String, String, String)| (e.0@, e.1@, e.2@, e.3@)) =~= before
        + source_row(name@, repo@, tag@, path@));
}

/// The sources `board`'s build records, as `(name, repo, tag, path)`.
pub fn recorded_sources(board: &BoardConfig) -> (r: Vec<(String, String, String, String)>)
    ensures
        r@.map_values(|e: (String, String, String, String)| (e.0@, e.1@, e.2@, e.3@))
            == spec_recorded_sources(*board),
{
    let mut out: Vec<(String, String, String, String)> = Vec::new();
    let ghost e = Seq::<(Seq<char>, Seq<char>, Seq<char>, Seq<char>)>::empty();
    assert(out@.map_values(|e: (String, String, String, String)| (e.0@, e.1@, e.2@, e.3@)) =~= e);
    let ghost s0 = out@.map_values(|e: (String, String, String, String)| (e.0@, e.1@, e.2@, e.3@));
    match (&board.opensbi_repo, &board.opensbi_tag) {
        (Some(r), Some(t)) => push_row(&mut out, "opensbi", r, t, "/build/opensbi"),
        _ => {},
    }
    let ghost s1 = out@.map_values(|e: (String, String, String, String)| (e.0@, e.1@, e.2@, e.3@));
    match (&board.u_boot_repo, &board.u_boot_tag) {
        (Some(r), Some(t)) => push_row(&mut out, "uboot", r, t, "/build/u-boot"),
        _ => {},
    }
    let ghost s2 = out@.map_values(|e: (String, String, String, String)| (e.0@, e.1@, e.2@, e.3@));
    match (&board.syslinux_repo, &board.syslinux_tag) {
        (Some(r), Some(t)) => push_row(&mut out, "syslinux", r, t, "/build/syslinux"),
        _ => {},
    }
    let ghost s3 = out@.map_values(|e: (String, String, String, String)| (e.0@, e.1@, e.2@, e.3@));
    match &board.firmware_repo {
        Some(r) => {
            let t = board.effective_firmware_tag();
            push_row(&mut out, "firmware", r, &t, "/build/firmware");
        },
        None => {},
    }
    let ghost s4 = out@.map_values(|e: (String, String, String, String)| (e.0@, e.1@, e.2@, e.3@));
    push_row(&mut out, "kernel", &board.kernel_repo, &board.kernel_tag, "/build/linux");
    assert(out@.map_values(|e: (String, String, String, String)| (e.0@, e.1@, e.2@, e.3@))
        =~= spec_recorded_sources(*board));
    out
}

} // verus!
