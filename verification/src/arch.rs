//! Architecture names: normalisation to Gentoo's spelling, default stage3
//! flavors, and the LLVM target that builds for an architecture.
use vstd::prelude::*;
use crate::text;
use crate::text::{
    chars_of, concat, find_char, owned, starts_with_chars, string_slice, text_eq,
};

verus! {

/// What `str::to_lowercase` returns for a text (Unicode lowercase mapping).
pub uninterp spec fn unicode_lowercase(s: Seq<char>) -> Seq<char>;

/// Every character of `s` is ASCII.
pub open spec fn is_ascii_text(s: Seq<char>) -> bool {
    forall|i: int| 0 <= i < s.len() ==> (#[trigger] s[i] as u32) < 128
}

/// An ASCII upper-case letter mapped to its lower-case letter; any other
/// character left as it is.
pub open spec fn ascii_lower_char(c: char) -> char {
    if 'A' <= c && c <= 'Z' {
        ((c as u32) + 32) as char
    } else {
        c
    }
}

/// `s` with its ASCII upper-case letters made lower-case.
pub open spec fn ascii_lower(s: Seq<char>) -> Seq<char> {
    Seq::new(s.len(), |i: int| ascii_lower_char(s[i]))
}

/// Calls `str::to_lowercase`; the result is named by `unicode_lowercase`.
/// Its documentation maps each character by Unicode's lowercase mapping,
/// which on ASCII text lowers `A`..`Z` and leaves every other character:
/// that much is stated; what it does beyond ASCII is left to the name.
#[verifier::external_body]
fn lowercase(s: &str) -> (r: String)
    ensures
        r@ == unicode_lowercase(s@),
        is_ascii_text(s@) ==> r@ == ascii_lower(s@),
{
    s.to_lowercase()
}

/// The alias table applied to an already lowercased name; `None` when the
/// name is not one of the aliases.
pub open spec fn alias_of(lowered: Seq<char>) -> Option<Seq<char>> {
    if lowered == "amd64"@ || lowered == "x86_64"@ {
        Some("amd64"@)
    } else if lowered == "x86"@ {
        Some("i686"@)
    } else if lowered == "arm64"@ || lowered == "aarch64"@ {
        Some("arm64"@)
    } else if lowered == "riscv"@ {
        Some("riscv"@)
    } else if lowered == "arm"@ {
        Some("arm"@)
    } else if lowered == "ppc"@ {
        Some("ppc"@)
    } else if lowered == "ppc64"@ {
        Some("ppc64"@)
    } else {
        None
    }
}

/// Normalised architecture name: an alias of the lowercased name, or else the
/// name as given; then a `parisc` prefix is respelled `hppa`.
pub open spec fn spec_normalize_arch(arch: Seq<char>, lowered: Seq<char>) -> Seq<char> {
    let a = match alias_of(lowered) {
        Some(v) => v,
        None => arch,
    };
    if text::starts_with(a, "parisc"@) {
        "hppa"@ + a.skip("parisc"@.len() as int)
    } else {
        a
    }
}

/// `parse_arch` once the lowercase form of `arch` is known.
pub fn normalize_arch(arch: &str, lowered: &str) -> (r: String)
    ensures
        r@ == spec_normalize_arch(arch@, lowered@),
{
    let a: String = if text_eq(lowered, "amd64") || text_eq(lowered, "x86_64") {
        owned("amd64")
    } else if text_eq(lowered, "x86") {
        owned("i686")
    } else if text_eq(lowered, "arm64") || text_eq(lowered, "aarch64") {
        owned("arm64")
    } else if text_eq(lowered, "riscv") {
        owned("riscv")
    } else if text_eq(lowered, "arm") {
        owned("arm")
    } else if text_eq(lowered, "ppc") {
        owned("ppc")
    } else if text_eq(lowered, "ppc64") {
        owned("ppc64")
    } else {
        owned(arch)
    };
    let ca = chars_of(a.as_str());
    let cp = chars_of("parisc");
    if starts_with_chars(ca.as_slice(), cp.as_slice()) {
        let n = ca.len();
        let rest = string_slice(ca.as_slice(), cp.len(), n);
        let mut out = owned("hppa");
        out.append(rest.as_str());
        assert(ca@.subrange(cp@.len() as int, n as int) =~= ca@.skip(cp@.len() as int));
        out
    } else {
        a
    }
}

/// Normalise an architecture name to Gentoo's directory spelling
/// (`x86_64` → `amd64`, `aarch64` → `arm64`, `x86` → `i686`, `parisc*` → `hppa*`).
pub fn parse_arch(arch: &str) -> (r: String)
    ensures
        r@ == spec_normalize_arch(arch@, unicode_lowercase(arch@)),
        is_ascii_text(arch@) ==> r@ == spec_normalize_arch(arch@, ascii_lower(arch@)),
        is_ascii_text(arch@) ==> is_ascii_text(r@) && spec_normalize_arch(r@, ascii_lower(r@))
            == r@,
{
    let lowered = lowercase(arch);
    proof {
        if is_ascii_text(arch@) {
            law_parse_arch_is_idempotent(arch@);
        }
    }
    normalize_arch(arch, lowered.as_str())
}

proof fn lemma_lower_of_lowercase(s: Seq<char>)
    requires
        forall|i: int| 0 <= i < s.len() ==> !('A' <= #[trigger] s[i] && s[i] <= 'Z'),
    ensures
        ascii_lower(s) == s,
{
    assert(ascii_lower(s) =~= s);
}

/// Normalising an architecture name twice gives what normalising it once
/// gave, for ASCII names (the result is ASCII again).
pub proof fn law_parse_arch_is_idempotent(arch: Seq<char>)
    requires
        is_ascii_text(arch),
    ensures
        ({
            let once = spec_normalize_arch(arch, ascii_lower(arch));
            is_ascii_text(once) && spec_normalize_arch(once, ascii_lower(once)) == once
        }),
{
    reveal_strlit("amd64");
    reveal_strlit("x86_64");
    reveal_strlit("x86");
    reveal_strlit("i686");
    reveal_strlit("arm64");
    reveal_strlit("aarch64");
    reveal_strlit("riscv");
    reveal_strlit("arm");
    reveal_strlit("ppc");
    reveal_strlit("ppc64");
    reveal_strlit("parisc");
    reveal_strlit("hppa");
    let l = ascii_lower(arch);
    let once = spec_normalize_arch(arch, l);
    match alias_of(l) {
        Some(v) => {
            assert(!text::starts_with(v, "parisc"@));
            assert(once == v);
            lemma_lower_of_lowercase(v);
            assert(is_ascii_text(v));
            match alias_of(v) {
                Some(w) => {
                    assert(w == v);
                },
                None => {},
            }
        },
        None => {
            if text::starts_with(arch, "parisc"@) {
                let rest = arch.skip(6);
                assert(once == "hppa"@ + rest);
                let l2 = ascii_lower(once);
                assert(l2[0] == 'h');
                assert(l2 != "amd64"@ && l2 != "x86_64"@ && l2 != "x86"@ && l2 != "arm64"@
                    && l2 != "aarch64"@ && l2 != "riscv"@ && l2 != "arm"@ && l2 != "ppc"@
                    && l2 != "ppc64"@) by {
                    assert("amd64"@[0] != 'h');
                    assert("x86_64"@[0] != 'h');
                    assert("x86"@[0] != 'h');
                    assert("arm64"@[0] != 'h');
                    assert("aarch64"@[0] != 'h');
                    assert("riscv"@[0] != 'h');
                    assert("arm"@[0] != 'h');
                    assert("ppc"@[0] != 'h');
                    assert("ppc64"@[0] != 'h');
                }
                assert(once[0] == 'h');
                if once.len() >= 6 {
                    assert(once.take(6)[0] == 'h');
                    assert("parisc"@[0] == 'p');
                }
                assert(!text::starts_with(once, "parisc"@));
                assert forall|i: int| 0 <= i < once.len() implies (#[trigger] once[i] as u32) < 128 by {
                    if i >= 4 {
                        assert(once[i] == arch[i + 2]);
                    }
                }
            } else {
                assert(once == arch);
            }
        },
    }
}

/// The table of common architecture aliases: Gentoo name to toolchain name.
pub struct ArchAliases {
    entries: Vec<(&'static str, &'static str)>,
}

impl ArchAliases {
    pub closed spec fn entries_view(&self) -> Seq<(Seq<char>, Seq<char>)> {
        self.entries@.map_values(|e: (&'static str, &'static str)| (e.0@, e.1@))
    }

    /// No key appears twice.
    pub closed spec fn wf(&self) -> bool {
        forall|i: int, j: int|
            0 <= i < j < self.entries@.len() ==> #[trigger] self.entries@[i].0@
                != #[trigger] self.entries@[j].0@
    }

    /// Number of aliases.
    pub fn len(&self) -> (r: usize)
        ensures
            r == self.entries_view().len(),
    {
        self.entries.len()
    }

    /// The toolchain name recorded for `key`, if any.
    pub fn get(&self, key: &str) -> (r: Option<&&'static str>)
        ensures
            match r {
                Some(v) => exists|i: int|
                    0 <= i < self.entries_view().len() && #[trigger] self.entries_view()[i].0
                        == key@ && self.entries_view()[i].1 == (*v)@,
                None => forall|i: int|
                    0 <= i < self.entries_view().len() ==> #[trigger] self.entries_view()[i].0
                        != key@,
            },
    {
        let mut i: usize = 0;
        while i < self.entries.len()
            invariant
                i <= self.entries@.len(),
                forall|k: int| 0 <= k < i ==> #[trigger] self.entries@[k].0@ != key@,
            decreases self.entries@.len() - i,
        {
            if text_eq(self.entries[i].0, key) {
                assert(self.entries_view()[i as int].0 == key@);
                return Some(&self.entries[i].1);
            }
            i = i + 1;
        }
        assert forall|k: int| 0 <= k < self.entries_view().len() implies #[trigger] self.entries_view()[k].0 != key@ by {
            assert(self.entries_view()[k].0 == self.entries@[k].0@);
        }
        None
    }
}

pub open spec fn alias_table() -> Seq<(Seq<char>, Seq<char>)> {
    seq![
        ("amd64"@, "x86_64"@),
        ("x86"@, "i686"@),
        ("arm64"@, "aarch64"@),
        ("riscv"@, "riscv64"@),
        ("arm"@, "armv7a"@),
        ("ppc"@, "powerpc"@),
        ("ppc64"@, "powerpc64"@),
        ("parisc"@, "hppa"@),
    ]
}

/// The common architecture aliases, eight of them, keys distinct.
pub fn get_arch_aliases() -> (r: ArchAliases)
    ensures
        r.wf(),
        r.entries_view() == alias_table(),
{
    let mut entries: Vec<(&'static str, &'static str)> = Vec::new();
    entries.push(("amd64", "x86_64"));
    entries.push(("x86", "i686"));
    entries.push(("arm64", "aarch64"));
    entries.push(("riscv", "riscv64"));
    entries.push(("arm", "armv7a"));
    entries.push(("ppc", "powerpc"));
    entries.push(("ppc64", "powerpc64"));
    entries.push(("parisc", "hppa"));
    let r = ArchAliases { entries };
    proof {
        reveal_strlit("amd64");
        reveal_strlit("x86");
        reveal_strlit("arm64");
        reveal_strlit("riscv");
        reveal_strlit("arm");
        reveal_strlit("ppc");
        reveal_strlit("ppc64");
        reveal_strlit("parisc");
        assert(r.entries_view() =~= alias_table());
        assert forall|i: int, j: int|
            0 <= i < j < r.entries@.len() implies #[trigger] r.entries@[i].0@
            != #[trigger] r.entries@[j].0@ by {
            let a = r.entries@[i].0@;
            let b = r.entries@[j].0@;
            assert(a.len() != b.len() || a[0] != b[0] || a[1] != b[1]);
        }
    }
    r
}

pub open spec fn spec_default_flavor(arch: Seq<char>) -> Seq<char> {
    if arch == "riscv64"@ {
        "rv64_lp64d-openrc"@
    } else if arch == "riscv"@ {
        "rv32_ilp32d-openrc"@
    } else {
        arch + "-openrc"@
    }
}

/// The default stage3 flavor of an architecture.
pub fn get_default_flavor(arch: &str) -> (r: String)
    ensures
        r@ == spec_default_flavor(arch@),
{
    if text_eq(arch, "riscv64") {
        owned("rv64_lp64d-openrc")
    } else if text_eq(arch, "riscv") {
        owned("rv32_ilp32d-openrc")
    } else {
        concat(arch, "-openrc")
    }
}

/// The LLVM target set that builds for a normalised architecture.
pub open spec fn llvm_target_of(n: Seq<char>) -> Seq<char> {
    if n == "riscv"@ || n == "riscv64"@ {
        "RISCV"@
    } else if n == "arm"@ || n == "arm64"@ {
        "AArch64"@
    } else if n == "amd64"@ || n == "i386"@ || n == "i486"@ || n == "i586"@ || n == "i686"@ {
        "X86"@
    } else if n == "ppc"@ || n == "ppc64"@ || n == "powerpc"@ || n == "powerpc64"@ {
        "PowerPC"@
    } else if n == "mips"@ || n == "mipsel"@ || n == "mips64"@ || n == "mips64el"@ {
        "MIPS"@
    } else if n == "s390"@ || n == "s390x"@ {
        "SystemZ"@
    } else if n == "sparc"@ || n == "sparc64"@ {
        "Sparc"@
    } else if n == "armeb"@ {
        "ARM"@
    } else if n == "hexagon"@ {
        "Hexagon"@
    } else if n == "nvptx"@ || n == "nvptx64"@ {
        "NVPTX"@
    } else if n == "amdgpu"@ {
        "AMDGPU"@
    } else if n == "wasm32"@ || n == "wasm64"@ {
        "WebAssembly"@
    } else if n == "aarch64_be"@ {
        "AArch64"@
    } else {
        "AArch64 RISCV X86"@
    }
}

/// The architecture part of a target triple: the text before its first `-`.
pub open spec fn arch_part(arch: Seq<char>) -> Seq<char> {
    let i = text::index_of(arch, '-');
    if i < 0 {
        arch
    } else {
        arch.take(i)
    }
}

/// `arch_to_llvm_target` once the architecture part is normalised.
pub fn llvm_target_for(n: &str) -> (r: String)
    ensures
        r@ == llvm_target_of(n@),
{
    if text_eq(n, "riscv") || text_eq(n, "riscv64") {
        owned("RISCV")
    } else if text_eq(n, "arm") || text_eq(n, "arm64") {
        owned("AArch64")
    } else if text_eq(n, "amd64") || text_eq(n, "i386") || text_eq(n, "i486") || text_eq(n, "i586")
        || text_eq(n, "i686") {
        owned("X86")
    } else if text_eq(n, "ppc") || text_eq(n, "ppc64") || text_eq(n, "powerpc") || text_eq(
        n,
        "powerpc64",
    ) {
        owned("PowerPC")
    } else if text_eq(n, "mips") || text_eq(n, "mipsel") || text_eq(n, "mips64") || text_eq(
        n,
        "mips64el",
    ) {
        owned("MIPS")
    } else if text_eq(n, "s390") || text_eq(n, "s390x") {
        owned("SystemZ")
    } else if text_eq(n, "sparc") || text_eq(n, "sparc64") {
        owned("Sparc")
    } else if text_eq(n, "armeb") {
        owned("ARM")
    } else if text_eq(n, "hexagon") {
        owned("Hexagon")
    } else if text_eq(n, "nvptx") || text_eq(n, "nvptx64") {
        owned("NVPTX")
    } else if text_eq(n, "amdgpu") {
        owned("AMDGPU")
    } else if text_eq(n, "wasm32") || text_eq(n, "wasm64") {
        owned("WebAssembly")
    } else if text_eq(n, "aarch64_be") {
        owned("AArch64")
    } else {
        owned("AArch64 RISCV X86")
    }
}

/// The LLVM target set for a Gentoo architecture or a full target triple.
pub fn arch_to_llvm_target(arch: &str) -> (r: String)
    ensures
        r@ == llvm_target_of(
            spec_normalize_arch(arch_part(arch@), unicode_lowercase(arch_part(arch@))),
        ),
{
    let cs = chars_of(arch);
    let part: String = match find_char(cs.as_slice(), '-') {
        Some(i) => {
            assert(cs@.subrange(0, i as int) =~= cs@.take(i as int));
            string_slice(cs.as_slice(), 0, i)
        },
        None => owned(arch),
    };
    let normalized = parse_arch(part.as_str());
    llvm_target_for(normalized.as_str())
}

} // verus!
