//! Build provenance: the sources a build recorded and the pins they break,
//! and the partition table of a genimage config.
use vstd::prelude::*;
use crate::board::{spec_chost, BoardConfig};
use crate::text;
use crate::text::{
    chars_eq, chars_of, concat, concat3, copy_string, lines_of, owned, slice_of, string_eq,
    string_lt, string_of, text_eq, trim_chars, trim_end_in_chars, trim_in_chars, trim_str,
};

verus! {

/// Calls `chrono::Utc::now()` and renders it with `to_rfc3339`: the current
/// time, of which nothing is claimed.
#[verifier::external_body]
fn now_rfc3339() -> String {
    chrono::Utc::now().to_rfc3339()
}

/// Gentoo's arch directory name differs from the uname spelling in a few
/// cases.
pub fn gentoo_arch_dir(arch: &str) -> (r: &str)
    ensures
        r@ == (if arch@ == "aarch64"@ {
            "arm64"@
        } else if arch@ == "x86_64"@ {
            "amd64"@
        } else {
            arch@
        }),
{
    if text_eq(arch, "aarch64") {
        "arm64"
    } else if text_eq(arch, "x86_64") {
        "amd64"
    } else {
        arch
    }
}

/// A full git commit: forty hexadecimal digits.
pub open spec fn spec_is_commit_sha(s: Seq<char>) -> bool {
    s.len() == 40 && forall|i: int| 0 <= i < 40 ==> text::is_hex_digit(#[trigger] s[i])
}

/// Whether `s` is a full commit SHA.
pub fn is_commit_sha(s: &str) -> (r: bool)
    ensures
        r == spec_is_commit_sha(s@),
{
    let cs = chars_of(s);
    if cs.len() != 40 {
        return false;
    }
    let mut i: usize = 0;
    while i < 40
        invariant
            i <= 40,
            cs@ == s@,
            cs@.len() == 40,
            forall|k: int| 0 <= k < i ==> text::is_hex_digit(#[trigger] cs@[k]),
        decreases 40 - i,
    {
        let c = cs[i];
        if !(('0' <= c && c <= '9') || ('a' <= c && c <= 'f') || ('A' <= c && c <= 'F')) {
            return false;
        }
        i = i + 1;
    }
    true
}

/// ASCII lowercase of one character.
pub open spec fn ascii_lower(c: char) -> char {
    if 'A' <= c && c <= 'Z' {
        ((c as u32) + 32) as char
    } else {
        c
    }
}

/// Equal up to ASCII case (`str::eq_ignore_ascii_case`).
pub open spec fn eq_ignore_case(a: Seq<char>, b: Seq<char>) -> bool {
    a.len() == b.len() && forall|i: int| 0 <= i < a.len() ==> ascii_lower(#[trigger] a[i]) == ascii_lower(b[i])
}

fn lower_char(c: char) -> (r: char)
    ensures
        r == ascii_lower(c),
{
    if 'A' <= c && c <= 'Z' {
        let u = (c as u32) + 32;
        assert(u <= 0x7A);
        let r = (u as u8) as char;
        assert(r == ((c as u32) + 32) as char) by {
            assert(u == (c as u32) + 32);
        }
        r
    } else {
        c
    }
}

/// Whether `a` and `b` are equal up to ASCII case.
pub fn eq_ignore_ascii_case(a: &str, b: &str) -> (r: bool)
    ensures
        r == eq_ignore_case(a@, b@),
{
    let ac = chars_of(a);
    let bc = chars_of(b);
    if ac.len() != bc.len() {
        return false;
    }
    let mut i: usize = 0;
    while i < ac.len()
        invariant
            i <= ac@.len(),
            ac@ == a@,
            bc@ == b@,
            ac@.len() == bc@.len(),
            forall|k: int| 0 <= k < i ==> ascii_lower(#[trigger] ac@[k]) == ascii_lower(bc@[k]),
        decreases ac@.len() - i,
    {
        if lower_char(ac[i]) != lower_char(bc[i]) {
            return false;
        }
        i = i + 1;
    }
    true
}


// ── Recorded sources ────────────────────────────────────────────────────────

/// How a source directory was found inside the sandbox.
#[derive(Debug, Clone, Copy, PartialEq, Eq, Structural)]
pub enum SourceKind {
    /// A git checkout; `commit` is `git rev-parse HEAD`.
    Git,
    /// A plain directory; `commit` is a hash of its files.
    Local,
    /// Nothing there; `commit` is empty.
    Missing,
}

/// One source that went into a build.
#[derive(Debug, Clone)]
pub struct SourceEntry {
    pub repo: String,
    pub tag: String,
    /// For `Git`: the resolved commit.  For `Local`: a hash of the tree.
    /// For `Missing`: empty.
    pub commit: String,
    pub kind: SourceKind,
    pub path: String,
}

/// A source entry as plain text.
pub struct SourceView {
    pub repo: Seq<char>,
    pub tag: Seq<char>,
    pub commit: Seq<char>,
    pub kind: SourceKind,
    pub path: Seq<char>,
}

impl View for SourceEntry {
    type V = SourceView;

    open spec fn view(&self) -> SourceView {
        SourceView {
            repo: self.repo@,
            tag: self.tag@,
            commit: self.commit@,
            kind: self.kind,
            path: self.path@,
        }
    }
}

/// Names strictly increasing in byte order (the order of a `BTreeMap`).
pub open spec fn names_sorted(s: Seq<(Seq<char>, SourceView)>) -> bool {
    forall|i: int, j: int| 0 <= i < j < s.len() ==> text::text_lt(s[i].0, s[j].0)
}

/// The entry recorded under `name` in a name-sorted list.
pub open spec fn source_named(s: Seq<(Seq<char>, SourceView)>, name: Seq<char>) -> Option<SourceView> {
    if exists|i: int| 0 <= i < s.len() && s[i].0 == name {
        Some(s[choose|i: int| 0 <= i < s.len() && s[i].0 == name].1)
    } else {
        None
    }
}

/// In a name-sorted list a name picks one entry.
pub proof fn lemma_source_named_unique(s: Seq<(Seq<char>, SourceView)>, i: int)
    requires
        names_sorted(s),
        0 <= i < s.len(),
    ensures
        source_named(s, s[i].0) == Some(s[i].1),
{
    let c = choose|k: int| 0 <= k < s.len() && s[k].0 == s[i].0;
    if c != i {
        if c < i {
            assert(text::text_lt(s[c].0, s[i].0));
        } else {
            assert(text::text_lt(s[i].0, s[c].0));
        }
        text::lemma_text_lt_irreflexive(s[i].0);
    }
}

/// The first line of a probe's output (or nothing), trimmed: the kind word.
pub open spec fn probe_kind_word(out: Seq<char>) -> Seq<char> {
    let ls = text::lines(out);
    if ls.len() > 0 {
        text::trim(ls[0])
    } else {
        seq![]
    }
}

/// The second line of a probe's output (or nothing), trimmed: the commit.
pub open spec fn probe_commit(out: Seq<char>) -> Seq<char> {
    let ls = text::lines(out);
    if ls.len() > 1 {
        text::trim(ls[1])
    } else {
        seq![]
    }
}

/// The kind a probe reported: `git`, `local`, anything else is missing.
pub open spec fn probe_kind(out: Seq<char>) -> SourceKind {
    let w = probe_kind_word(out);
    if w == "git"@ {
        SourceKind::Git
    } else if w == "local"@ {
        SourceKind::Local
    } else {
        SourceKind::Missing
    }
}

/// A recorded source whose tag is a full commit SHA that the built tree is
/// not on (case aside).
pub open spec fn breaks_pin(e: SourceView) -> bool {
    &&& e.kind == SourceKind::Git
    &&& spec_is_commit_sha(e.tag)
    &&& !eq_ignore_case(e.tag, e.commit)
}

/// The report line for a source that breaks its pin.
pub open spec fn pin_line(name: Seq<char>, e: SourceView) -> Seq<char> {
    "source '"@ + name + "' pinned to "@ + e.tag + " but the tree that was built is at "@ + e.commit
}

/// One report line per source that breaks its pin, in name order.
pub open spec fn pin_report(s: Seq<(Seq<char>, SourceView)>) -> Seq<Seq<char>>
    decreases s.len(),
{
    if s.len() == 0 {
        seq![]
    } else {
        let rest = pin_report(s.drop_last());
        if breaks_pin(s.last().1) {
            rest.push(pin_line(s.last().0, s.last().1))
        } else {
            rest
        }
    }
}

/// What a build collects while it runs: which board, when it started, and
/// the sources it recorded, by name.
#[derive(Debug)]
pub struct ManifestBuilder {
    started_at: String,
    board: String,
    arch: String,
    chost: String,
    sources: Vec<(String, SourceEntry)>,
}

impl ManifestBuilder {
    /// The recorded sources, in name order.
    pub closed spec fn source_list(&self) -> Seq<(Seq<char>, SourceView)> {
        self.sources@.map_values(|e: (String, SourceEntry)| (e.0@, e.1@))
    }

    pub closed spec fn start_time(&self) -> Seq<char> {
        self.started_at@
    }

    pub closed spec fn board_name(&self) -> Seq<char> {
        self.board@
    }

    pub closed spec fn arch_name(&self) -> Seq<char> {
        self.arch@
    }

    pub closed spec fn chost_name(&self) -> Seq<char> {
        self.chost@
    }

    pub closed spec fn wf(&self) -> bool {
        names_sorted(self.source_list())
    }

    /// A builder for `board`, started now, with no sources.
    pub fn new(board: &BoardConfig) -> (r: ManifestBuilder)
        ensures
            r.wf(),
            r.source_list().len() == 0,
            r.board_name() == board.name@,
            r.arch_name() == board.arch@,
            r.chost_name() == spec_chost(*board),
    {
        let r = ManifestBuilder {
            started_at: now_rfc3339(),
            board: copy_string(&board.name),
            arch: copy_string(&board.arch),
            chost: board.chost(),
            sources: Vec::new(),
        };
        assert(r.source_list() =~= Seq::<(Seq<char>, SourceView)>::empty());
        r
    }

    /// When the build started, in RFC 3339.
    pub fn started_at(&self) -> (r: &String)
        ensures
            r@ == self.start_time(),
    {
        &self.started_at
    }

    /// The board's name.
    pub fn board(&self) -> (r: &String)
        ensures
            r@ == self.board_name(),
    {
        &self.board
    }

    /// The board's arch.
    pub fn arch(&self) -> (r: &String)
        ensures
            r@ == self.arch_name(),
    {
        &self.arch
    }

    /// The board's CHOST.
    pub fn chost(&self) -> (r: &String)
        ensures
            r@ == self.chost_name(),
    {
        &self.chost
    }

    /// The recorded sources, in name order.
    pub fn sources(&self) -> (r: &[(String, SourceEntry)])
        ensures
            r@.map_values(|e: (String, SourceEntry)| (e.0@, e.1@)) == self.source_list(),
    {
        self.sources.as_slice()
    }

    /// Whether some recorded source is a git checkout.
    pub fn has_resolved_source(&self) -> (r: bool)
        ensures
            r == exists|i: int|
                0 <= i < self.source_list().len() && #[trigger] self.source_list()[i].1.kind
                    == SourceKind::Git,
    {
        let ghost v = self.source_list();
        let mut i: usize = 0;
        while i < self.sources.len()
            invariant
                i <= self.sources@.len(),
                v == self.source_list(),
                forall|k: int| 0 <= k < i ==> #[trigger] v[k].1.kind != SourceKind::Git,
            decreases self.sources@.len() - i,
        {
            assert(v[i as int].1 == self.sources@[i as int].1@);
            if self.sources[i].1.kind == SourceKind::Git {
                assert(self.source_list()[i as int].1.kind == SourceKind::Git);
                return true;
            }
            i = i + 1;
        }
        false
    }

    /// Record `entry` under `name`, replacing what was there.
    fn insert(&mut self, name: String, entry: SourceEntry)
        requires
            old(self).wf(),
        ensures
            final(self).wf(),
            final(self).board_name() == old(self).board_name(),
            final(self).arch_name() == old(self).arch_name(),
            final(self).chost_name() == old(self).chost_name(),
            source_named(final(self).source_list(), name@) == Some(entry@),
            forall|k: Seq<char>|
                k != name@ ==> source_named(final(self).source_list(), k) == source_named(
                    old(self).source_list(),
                    k,
                ),
    {
        let ghost v = self.source_list();
        let mut i: usize = 0;
        while i < self.sources.len() && string_lt(&self.sources[i].0, &name)
            invariant
                i <= self.sources@.len(),
                v == self.source_list(),
                names_sorted(v),
                forall|k: int| 0 <= k < i ==> text::text_lt(#[trigger] v[k].0, name@),
            decreases self.sources@.len() - i,
        {
            i = i + 1;
        }
        let ghost pv = name@;
        let ghost ev = entry@;
        if i < self.sources.len() && string_eq(&self.sources[i].0, &name) {
            self.sources.set(i, (name, entry));
            let ghost w = self.source_list();
            assert(w =~= v.update(i as int, (pv, ev)));
            assert(v[i as int].0 == pv);
            assert forall|a: int, b: int| 0 <= a < b < w.len() implies text::text_lt(
                w[a].0,
                w[b].0,
            ) by {
                assert(w[a].0 == v[a].0 && w[b].0 == v[b].0);
            }
            proof {
                lemma_source_named_unique(w, i as int);
                assert forall|k: Seq<char>| k != pv implies source_named(w, k) == source_named(
                    v,
                    k,
                ) by {
                    if exists|j: int| 0 <= j < w.len() && w[j].0 == k {
                        let j = choose|j: int| 0 <= j < w.len() && w[j].0 == k;
                        lemma_source_named_unique(w, j);
                        assert(v[j] == w[j]);
                        lemma_source_named_unique(v, j);
                    } else {
                        assert forall|j: int| 0 <= j < v.len() implies v[j].0 != k by {
                            if j != i {
                                assert(w[j] == v[j]);
                            }
                        }
                    }
                }
            }
        } else {
            proof {
                if i < v.len() {
                    text::lemma_text_lt_total(v[i as int].0, pv);
                }
            }
            self.sources.insert(i, (name, entry));
            let ghost w = self.source_list();
            assert(w =~= v.insert(i as int, (pv, ev)));
            assert forall|a: int, b: int| 0 <= a < b < w.len() implies text::text_lt(
                w[a].0,
                w[b].0,
            ) by {
                if a < i && b > i {
                    text::lemma_text_lt_transitive(w[a].0, pv, w[b].0);
                    if b - 1 > i {
                        text::lemma_text_lt_transitive(pv, v[i as int].0, v[b - 1].0);
                    }
                } else if a == i && b - 1 > i {
                    text::lemma_text_lt_transitive(pv, v[i as int].0, v[b - 1].0);
                }
            }
            proof {
                lemma_source_named_unique(w, i as int);
                assert forall|k: Seq<char>| k != pv implies source_named(w, k) == source_named(
                    v,
                    k,
                ) by {
                    if exists|j: int| 0 <= j < w.len() && w[j].0 == k {
                        let j = choose|j: int| 0 <= j < w.len() && w[j].0 == k;
                        lemma_source_named_unique(w, j);
                        let jj = if j < i {
                            j
                        } else {
                            j - 1
                        };
                        assert(v[jj] == w[j]);
                        lemma_source_named_unique(v, jj);
                    } else {
                        assert forall|j: int| 0 <= j < v.len() implies v[j].0 != k by {
                            let jj = if j < i {
                                j
                            } else {
                                j + 1
                            };
                            assert(w[jj] == v[j]);
                        }
                    }
                }
            }
        }
    }

    /// Record the source `name` from what the probe of `probe_script(path)`
    /// printed: its first line is the kind, its second the commit.
    pub fn record_probe(&mut self, name: &str, repo: &str, tag: &str, path: &str, probe: &str)
        requires
            old(self).wf(),
        ensures
            final(self).wf(),
            final(self).board_name() == old(self).board_name(),
            final(self).arch_name() == old(self).arch_name(),
            final(self).chost_name() == old(self).chost_name(),
            source_named(final(self).source_list(), name@) == Some(
                SourceView {
                    repo: repo@,
                    tag: tag@,
                    commit: probe_commit(probe@),
                    kind: probe_kind(probe@),
                    path: path@,
                },
            ),
            forall|k: Seq<char>|
                k != name@ ==> source_named(final(self).source_list(), k) == source_named(
                    old(self).source_list(),
                    k,
                ),
    {
        let pc = chars_of(probe);
        let ls = lines_of(pc.as_slice());
        proof {
            assert(ls@.len() > 0 ==> ls@[0]@ == text::lines(probe@)[0]);
            assert(ls@.len() > 1 ==> ls@[1]@ == text::lines(probe@)[1]);
        }
        let word = if ls.len() > 0 {
            trim_chars(ls[0].as_slice())
        } else {
            Vec::new()
        };
        let commit_chars = if ls.len() > 1 {
            trim_chars(ls[1].as_slice())
        } else {
            Vec::new()
        };
        assert(word@ == probe_kind_word(probe@));
        assert(commit_chars@ == probe_commit(probe@));
        let git = chars_of("git");
        let local = chars_of("local");
        let kind = if chars_eq(word.as_slice(), git.as_slice()) {
            SourceKind::Git
        } else if chars_eq(word.as_slice(), local.as_slice()) {
            SourceKind::Local
        } else {
            SourceKind::Missing
        };
        let entry = SourceEntry {
            repo: owned(repo),
            tag: owned(tag),
            commit: string_of(commit_chars.as_slice()),
            kind,
            path: owned(path),
        };
        self.insert(owned(name), entry);
    }

    /// One line per source pinned to a commit SHA that the built tree is not
    /// on, in name order.  A named tag or branch, and a source that is not a
    /// git checkout, is never reported.
    pub fn pin_mismatches(&self) -> (r: Vec<String>)
        ensures
            r@.map_values(|l: String| l@) == pin_report(self.source_list()),
    {
        let ghost v = self.source_list();
        let mut out: Vec<String> = Vec::new();
        let mut i: usize = 0;
        while i < self.sources.len()
            invariant
                i <= self.sources@.len(),
                v == self.source_list(),
                out@.map_values(|l: String| l@) == pin_report(v.take(i as int)),
            decreases self.sources@.len() - i,
        {
            let name = &self.sources[i].0;
            let e = &self.sources[i].1;
            assert(v.take(i + 1).drop_last() =~= v.take(i as int));
            assert(v[i as int] == (name@, e@));
            if e.kind == SourceKind::Git && is_commit_sha(e.tag.as_str()) && !eq_ignore_ascii_case(
                e.tag.as_str(),
                e.commit.as_str(),
            ) {
                let a = concat3("source '", name.as_str(), "' pinned to ");
                let b = concat3(a.as_str(), e.tag.as_str(), " but the tree that was built is at ");
                let line = concat(b.as_str(), e.commit.as_str());
                let ghost before = out@.map_values(|l: String| l@);
                out.push(line);
                assert(out@.map_values(|l: String| l@) =~= before.push(pin_line(name@, e@)));
            }
            i = i + 1;
        }
        assert(v.take(v.len() as int) =~= v);
        out
    }

    /// Where the cross toolchain's make.conf lives inside the sandbox.
    pub fn prefix_make_conf(&self) -> (r: String)
        ensures
            r@ == "/usr/"@ + self.chost_name() + "/etc/portage/make.conf"@,
    {
        concat3("/usr/", self.chost.as_str(), "/etc/portage/make.conf")
    }
}

/// No source breaks its pin exactly when the report is empty.
pub proof fn law_clean_report_iff_pins_hold(s: Seq<(Seq<char>, SourceView)>)
    ensures
        pin_report(s).len() == 0 <==> forall|i: int| 0 <= i < s.len() ==> !breaks_pin(#[trigger] s[i].1),
    decreases s.len(),
{
    if s.len() > 0 {
        law_clean_report_iff_pins_hold(s.drop_last());
        if forall|i: int| 0 <= i < s.len() ==> !breaks_pin(#[trigger] s[i].1) {
            assert forall|i: int| 0 <= i < s.drop_last().len() implies !breaks_pin(
                #[trigger] s.drop_last()[i].1,
            ) by {
                assert(s.drop_last()[i] == s[i]);
            }
            assert(!breaks_pin(s[s.len() - 1].1));
        } else if pin_report(s).len() == 0 {
            let i = choose|i: int| 0 <= i < s.len() && breaks_pin(#[trigger] s[i].1);
            if i < s.len() - 1 {
                assert(s.drop_last()[i] == s[i]);
            }
        }
    }
}

/// A source that is not a git checkout, or whose tag is no full commit SHA,
/// is never reported, whatever its commit.
pub proof fn law_only_git_sha_pins_are_checked(e: SourceView)
    requires
        e.kind != SourceKind::Git || !spec_is_commit_sha(e.tag),
    ensures
        !breaks_pin(e),
{
}

/// A pin is checked without regard to ASCII case: two tags that differ only
/// in case break the same pins.
pub proof fn law_pin_case_does_not_matter(e: SourceView, other_tag: Seq<char>)
    requires
        eq_ignore_case(e.tag, other_tag),
    ensures
        breaks_pin(e) == breaks_pin(SourceView { tag: other_tag, ..e }),
{
    let f = SourceView { tag: other_tag, ..e };
    assert(spec_is_commit_sha(e.tag) == spec_is_commit_sha(other_tag)) by {
        if spec_is_commit_sha(e.tag) {
            assert forall|i: int| 0 <= i < 40 implies text::is_hex_digit(#[trigger] other_tag[i]) by {
                assert(ascii_lower(e.tag[i]) == ascii_lower(other_tag[i]));
                lemma_hex_up_to_case(e.tag[i], other_tag[i]);
            }
        }
        if spec_is_commit_sha(other_tag) {
            assert forall|i: int| 0 <= i < 40 implies text::is_hex_digit(#[trigger] e.tag[i]) by {
                assert(ascii_lower(e.tag[i]) == ascii_lower(other_tag[i]));
                lemma_hex_up_to_case(e.tag[i], other_tag[i]);
            }
        }
    }
    assert(eq_ignore_case(e.tag, e.commit) == eq_ignore_case(other_tag, e.commit)) by {
        if eq_ignore_case(e.tag, e.commit) {
            assert forall|i: int| 0 <= i < other_tag.len() implies ascii_lower(#[trigger] other_tag[i]) == ascii_lower(e.commit[i]) by {
                assert(ascii_lower(e.tag[i]) == ascii_lower(other_tag[i]));
                assert(ascii_lower(e.tag[i]) == ascii_lower(e.commit[i]));
            }
        }
        if eq_ignore_case(other_tag, e.commit) {
            assert forall|i: int| 0 <= i < e.tag.len() implies ascii_lower(#[trigger] e.tag[i]) == ascii_lower(e.commit[i]) by {
                assert(ascii_lower(e.tag[i]) == ascii_lower(other_tag[i]));
                assert(ascii_lower(other_tag[i]) == ascii_lower(e.commit[i]));
            }
        }
    }
}

/// Two characters equal up to ASCII case are both hexadecimal digits or
/// neither is.
proof fn lemma_hex_up_to_case(a: char, b: char)
    requires
        ascii_lower(a) == ascii_lower(b),
    ensures
        text::is_hex_digit(a) == text::is_hex_digit(b),
{
    let ua = a as u32;
    let ub = b as u32;
    if 'A' <= a && a <= 'Z' {
        assert((ascii_lower(a) as u32) == ua + 32) by {
            vstd::utf8::char_u32_cast(a, ua);
        }
    }
    if 'A' <= b && b <= 'Z' {
        assert((ascii_lower(b) as u32) == ub + 32);
    }
}

/// The shell probe that tells how the source at `path` is present: prints
/// `git` and the commit, `local` and a hash of the files, or `missing`.
pub fn probe_script(path: &str) -> (r: String)
    ensures
        r@ == "if [ -d "@ + path@ + "/.git ]; then echo git; git -C "@ + path@
            + " rev-parse HEAD; elif [ -d "@ + path@ + " ]; then echo local; find "@ + path@
            + " -type f -print0 | sort -z | xargs -0 sha256sum 2>/dev/null | sha256sum | cut -d' ' -f1; else echo missing; echo; fi"@,
{
    let a = concat3("if [ -d ", path, "/.git ]; then echo git; git -C ");
    let b = concat3(a.as_str(), path, " rev-parse HEAD; elif [ -d ");
    let c = concat3(b.as_str(), path, " ]; then echo local; find ");
    concat3(
        c.as_str(),
        path,
        " -type f -print0 | sort -z | xargs -0 sha256sum 2>/dev/null | sha256sum | cut -d' ' -f1; else echo missing; echo; fi",
    )
}

/// The command printing the value of `name` in the make.conf `file`, with
/// the file sourced so that references expand as Portage would expand them.
pub fn makeconf_var_command(file: &str, name: &str) -> (r: String)
    ensures
        r@ == "[ -f "@ + file@ + " ] && (set -a; . "@ + file@ + " 2>/dev/null; printf '%s' \"${"@
            + name@ + ":-}\") || true"@,
{
    let a = concat3("[ -f ", file, " ] && (set -a; . ");
    let b = concat3(a.as_str(), file, " 2>/dev/null; printf '%s' \"${");
    concat3(b.as_str(), name, ":-}\") || true")
}

/// The command printing the sha256 of `file`, or nothing where it is absent.
pub fn sha256_command(file: &str) -> (r: String)
    ensures
        r@ == "[ -f "@ + file@ + " ] && sha256sum "@ + file@ + " | cut -d' ' -f1 || true"@,
{
    let a = concat3("[ -f ", file, " ] && sha256sum ");
    concat3(a.as_str(), file, " | cut -d' ' -f1 || true")
}

/// The command naming the newest cached stage3 tarball for `arch`.
pub fn stage3_search_command(arch: &str) -> (r: String)
    ensures
        ({
            let d = if arch@ == "aarch64"@ {
                "arm64"@
            } else if arch@ == "x86_64"@ {
                "amd64"@
            } else {
                arch@
            };
            r@ == "ls -t /cache/stages/*/"@ + d + "/stage3-"@ + d
                + "-*.tar.* /cache/stages/stage3-"@ + d
                + "-*.tar.* 2>/dev/null | head -1 | xargs -r basename || true"@
        }),
{
    let d = gentoo_arch_dir(arch);
    let a = concat3("ls -t /cache/stages/*/", d, "/stage3-");
    let b = concat3(a.as_str(), d, "-*.tar.* /cache/stages/stage3-");
    concat3(b.as_str(), d, "-*.tar.* 2>/dev/null | head -1 | xargs -r basename || true")
}

/// A command's output trimmed, or `None` where nothing is left.
pub fn trimmed_nonempty(out: &str) -> (r: Option<String>)
    ensures
        match r {
            Some(s) => s@ == text::trim(out@) && s@.len() > 0,
            None => text::trim(out@).len() == 0,
        },
{
    let cs = chars_of(out);
    let t = trim_chars(cs.as_slice());
    if t.len() == 0 {
        None
    } else {
        Some(string_of(t.as_slice()))
    }
}


// ── The partition table of a genimage config ────────────────────────────────

/// One `partition NAME { ... }` block of a genimage config.
#[derive(Debug, Clone)]
pub struct Partition {
    pub name: String,
    pub offset: Option<String>,
    pub size: Option<String>,
    pub image: Option<String>,
    /// Filled in later, from the file `image` names.
    pub sha256: Option<String>,
}

/// The text of an optional string.
pub open spec fn opt_text(o: Option<String>) -> Option<Seq<char>> {
    match o {
        Some(s) => Some(s@),
        None => None,
    }
}

/// A partition as plain text.
pub struct PartitionView {
    pub name: Seq<char>,
    pub offset: Option<Seq<char>>,
    pub size: Option<Seq<char>>,
    pub image: Option<Seq<char>>,
    pub sha256: Option<Seq<char>>,
}

impl View for Partition {
    type V = PartitionView;

    open spec fn view(&self) -> PartitionView {
        PartitionView {
            name: self.name@,
            offset: opt_text(self.offset),
            size: opt_text(self.size),
            image: opt_text(self.image),
            sha256: opt_text(self.sha256),
        }
    }
}

/// Where the scan of a genimage config stands after some lines.
pub struct ScanState {
    /// Partitions whose block has closed.
    pub out: Seq<PartitionView>,
    /// Brace depth inside the current `image` block.
    pub depth: int,
    pub in_image: bool,
    /// The partition whose block is open.
    pub current: Option<PartitionView>,
}

/// A line the scan ignores: blank, or a comment.
pub open spec fn is_comment(line: Seq<char>) -> bool {
    ||| line.len() == 0
    ||| line[0] == '#'
    ||| (line.len() >= 2 && line[0] == '/' && line[1] == '*')
}

/// The name in a `partition NAME {` line.
pub open spec fn partition_header(line: Seq<char>) -> Option<Seq<char>> {
    match text::strip_prefix(line, "partition "@) {
        Some(rest) => text::strip_suffix(rest, " {"@),
        None => None,
    }
}

/// A value with its quotes and trailing semicolons removed.
pub open spec fn clean_value(v: Seq<char>) -> Seq<char> {
    text::trim_in(
        text::trim_end_in(text::trim_in(text::trim(v), '"', '"'), ';', ';'),
        '"',
        '"',
    )
}

/// A `key = value` line applied to the open partition.
pub open spec fn apply_setting(p: PartitionView, line: Seq<char>) -> PartitionView {
    match text::split_once(line, '=') {
        None => p,
        Some((k, v)) => {
            let key = text::trim(k);
            let val = clean_value(v);
            if key == "offset"@ {
                PartitionView { offset: Some(val), ..p }
            } else if key == "size"@ && val.len() > 0 {
                PartitionView { size: Some(val), ..p }
            } else if key == "image"@ {
                PartitionView { image: Some(val), ..p }
            } else {
                p
            }
        },
    }
}

/// One line of the config read.
pub open spec fn scan_step(st: ScanState, raw: Seq<char>) -> ScanState {
    let line = text::trim(raw);
    if is_comment(line) {
        st
    } else if !st.in_image {
        if text::starts_with(line, "image "@) && line.last() == '{' {
            ScanState { in_image: true, depth: 1, ..st }
        } else {
            st
        }
    } else if partition_header(line) is Some {
        ScanState {
            current: Some(
                PartitionView {
                    name: text::trim(partition_header(line)->0),
                    offset: None,
                    size: None,
                    image: None,
                    sha256: None,
                },
            ),
            depth: st.depth + 1,
            ..st
        }
    } else if line == "}"@ {
        let d = st.depth - 1;
        ScanState {
            out: match st.current {
                Some(p) => st.out.push(p),
                None => st.out,
            },
            depth: d,
            in_image: d != 0,
            current: None,
        }
    } else if line.last() == '{' {
        ScanState { depth: st.depth + 1, ..st }
    } else {
        match st.current {
            Some(p) => ScanState { current: Some(apply_setting(p, line)), ..st },
            None => st,
        }
    }
}

/// The scan after the lines `ls`.
pub open spec fn scan_lines(ls: Seq<Seq<char>>) -> ScanState
    decreases ls.len(),
{
    if ls.len() == 0 {
        ScanState { out: seq![], depth: 0, in_image: false, current: None }
    } else {
        scan_step(scan_lines(ls.drop_last()), ls.last())
    }
}

/// The partitions of every `image` block of a genimage config, in order.
pub open spec fn spec_parse_partitions(cfg: Seq<char>) -> Seq<PartitionView> {
    scan_lines(text::lines(cfg)).out
}

struct Scan {
    out: Vec<Partition>,
    depth: usize,
    in_image: bool,
    current: Option<Partition>,
}

impl Scan {
    spec fn state(&self) -> ScanState {
        ScanState {
            out: self.out@.map_values(|p: Partition| p@),
            depth: self.depth as int,
            in_image: self.in_image,
            current: match self.current {
                Some(p) => Some(p@),
                None => None,
            },
        }
    }

    /// Depth counts open braces: at least one inside an image, none outside,
    /// and no more than the lines read so far.
    spec fn depth_ok(&self, n: int) -> bool {
        &&& self.in_image ==> 1 <= self.depth <= n
        &&& !self.in_image ==> self.depth == 0
    }
}

fn new_partition(name: &[char]) -> (r: Partition)
    ensures
        r@ == (PartitionView {
            name: text::trim(name@),
            offset: None,
            size: None,
            image: None,
            sha256: None,
        }),
{
    let t = trim_chars(name);
    Partition { name: string_of(t.as_slice()), offset: None, size: None, image: None, sha256: None }
}

fn apply_setting_exec(p: &mut Partition, line: &[char])
    ensures
        final(p)@ == apply_setting(old(p)@, line@),
{
    match text::find_char(line, '=') {
        None => {},
        Some(i) => {
            let len = line.len();
            let k = slice_of(line, 0, i);
            let v = slice_of(line, i + 1, len);
            assert(k@ == line@.take(i as int));
            assert(v@ == line@.skip(i + 1));
            let key = trim_chars(k.as_slice());
            let v1 = trim_chars(v.as_slice());
            let v2 = trim_in_chars(v1.as_slice(), '"', '"');
            let v3 = trim_end_in_chars(v2.as_slice(), ';', ';');
            let val = trim_in_chars(v3.as_slice(), '"', '"');
            let offset = chars_of("offset");
            let size = chars_of("size");
            let image = chars_of("image");
            if chars_eq(key.as_slice(), offset.as_slice()) {
                p.offset = Some(string_of(val.as_slice()));
            } else if chars_eq(key.as_slice(), size.as_slice()) && val.len() > 0 {
                p.size = Some(string_of(val.as_slice()));
            } else if chars_eq(key.as_slice(), image.as_slice()) {
                p.image = Some(string_of(val.as_slice()));
            }
        },
    }
}

fn header_name(line: &[char]) -> (r: Option<Vec<char>>)
    ensures
        match r {
            Some(n) => partition_header(line@) == Some(n@),
            None => partition_header(line@) is None,
        },
{
    let pre = chars_of("partition ");
    if !text::starts_with_chars(line, pre.as_slice()) {
        return None;
    }
    let rest = slice_of(line, pre.len(), line.len());
    assert(rest@ == line@.skip(pre@.len() as int));
    let suf = chars_of(" {");
    if !text::ends_with_chars(rest.as_slice(), suf.as_slice()) {
        return None;
    }
    let n = rest.len() - suf.len();
    let name = slice_of(rest.as_slice(), 0, n);
    assert(name@ == rest@.take(n as int));
    Some(name)
}

impl Scan {
    fn step(&mut self, raw: &[char], Ghost(n): Ghost<int>)
        requires
            old(self).depth_ok(n),
            0 <= n < usize::MAX,
        ensures
            final(self).state() == scan_step(old(self).state(), raw@),
            final(self).depth_ok(n + 1),
    {
        let line = trim_chars(raw);
        let ghost st = self.state();
        if line.len() == 0 || line[0] == '#' || (line.len() >= 2 && line[0] == '/' && line[1] == '*') {
            return;
        }
        let last = line[line.len() - 1];
        assert(last == line@.last());
        if !self.in_image {
            let pre = chars_of("image ");
            if text::starts_with_chars(line.as_slice(), pre.as_slice()) && last == '{' {
                self.in_image = true;
                self.depth = 1;
            }
            return;
        }
        match header_name(line.as_slice()) {
            Some(name) => {
                self.current = Some(new_partition(name.as_slice()));
                self.depth = self.depth + 1;
                return;
            },
            None => {},
        }
        let close = chars_of("}");
        if chars_eq(line.as_slice(), close.as_slice()) {
            self.depth = self.depth - 1;
            let ghost before = self.out@.map_values(|p: Partition| p@);
            match self.current.take() {
                Some(p) => {
                    let ghost pv = p@;
                    self.out.push(p);
                    assert(self.out@.map_values(|p: Partition| p@) =~= before.push(pv));
                },
                None => {},
            }
            if self.depth == 0 {
                self.in_image = false;
            }
            return;
        }
        if last == '{' {
            self.depth = self.depth + 1;
            return;
        }
        match self.current.as_mut() {
            Some(p) => {
                apply_setting_exec(p, line.as_slice());
            },
            None => {},
        }
    }
}

/// Parse the `partition NAME { key = "value" ... }` blocks of every
/// `image NAME { ... }` block of a genimage config, in order.  A config may
/// hold several images (a rootfs, a boot filesystem, then the disk image
/// with its partitions); filesystem images hold no partitions.
pub fn parse_partitions(cfg: &str) -> (r: Vec<Partition>)
    ensures
        r@.map_values(|p: Partition| p@) == spec_parse_partitions(cfg@),
{
    let cs = chars_of(cfg);
    let ls = lines_of(cs.as_slice());
    let ghost lv = ls@.map_values(|l: Vec<char>| l@);
    let mut scan = Scan { out: Vec::new(), depth: 0, in_image: false, current: None };
    assert(scan.state().out =~= Seq::<PartitionView>::empty());
    assert(lv.take(0) =~= Seq::<Seq<char>>::empty());
    let mut i: usize = 0;
    while i < ls.len()
        invariant
            i <= ls@.len(),
            lv == ls@.map_values(|l: Vec<char>| l@),
            lv == text::lines(cfg@),
            scan.state() == scan_lines(lv.take(i as int)),
            scan.depth_ok(i as int),
        decreases ls@.len() - i,
    {
        assert(lv.take(i + 1).drop_last() =~= lv.take(i as int));
        assert(lv.take(i + 1).last() == ls@[i as int]@);
        scan.step(ls[i].as_slice(), Ghost(i as int));
        i = i + 1;
    }
    assert(lv.take(i as int) =~= lv);
    scan.out
}

// ── What the lock and the image sidecar hold ────────────────────────────────

/// The stage3 a build started from.
#[derive(Debug, Clone)]
pub struct Stage3Info {
    pub file: String,
}

/// The flags the toolchain was configured with.
#[derive(Debug, Clone)]
pub struct Toolchain {
    pub crossdev_prefix_cflags: String,
    pub crossdev_prefix_cxxflags: String,
    pub target_cflags: String,
}

/// Hashes of the kernel and U-Boot configurations, where they exist.
#[derive(Debug, Clone)]
pub struct Configs {
    pub kernel_config_sha256: Option<String>,
    pub uboot_config_sha256: Option<String>,
}

/// What is written next to a packed image: its size and hash, and its
/// partitions with where they sit.
#[derive(Debug, Clone)]
pub struct ImageSidecar {
    pub board: String,
    pub image: String,
    pub size_bytes: u64,
    pub sha256: String,
    pub built_at: String,
    pub partitions: Vec<Partition>,
}

/// The stage3 a build used: the `.stage3` marker the target carries where
/// it names one, else the newest cached tarball for the arch, else nothing.
/// `None` is a probe that failed.
pub open spec fn spec_stage3_file(marker: Option<Seq<char>>, search: Option<Seq<char>>) -> Seq<char> {
    match marker {
        Some(m) if text::trim(m).len() > 0 => text::trim(m),
        _ => match search {
            Some(s) if text::trim(s).len() > 0 => text::trim(s),
            _ => seq![],
        },
    }
}

pub fn stage3_file(marker: Option<&str>, search: Option<&str>) -> (r: String)
    ensures
        r@ == spec_stage3_file(
            match marker {
                Some(m) => Some(m@),
                None => None,
            },
            match search {
                Some(s) => Some(s@),
                None => None,
            },
        ),
{
    if let Some(m) = marker {
        if let Some(t) = trimmed_nonempty(m) {
            return t;
        }
    }
    if let Some(s) = search {
        if let Some(t) = trimmed_nonempty(s) {
            return t;
        }
    }
    String::new()
}

} // verus!

verus! {

/// What `sha256sum <path>` answered: the digest, the text before the first
/// space of its output where there is one; else the failure, with its exit
/// code (1 where it has none) and its trimmed error output, or the note that
/// the output was empty.
pub open spec fn spec_sha256sum_result(
    path: Seq<char>,
    success: bool,
    code: Option<i32>,
    stdout: Seq<char>,
    stderr: Seq<char>,
) -> Result<Seq<char>, (i32, Seq<char>)> {
    if !success {
        Err(
            (
                match code {
                    Some(c) => c,
                    None => 1i32,
                },
                "sha256sum "@ + path + ": "@ + text::trim(stderr),
            ),
        )
    } else {
        let first = text::split(stdout, ' ')[0];
        if first.len() > 0 {
            Ok(first)
        } else {
            Err((1i32, "sha256sum "@ + path + ": empty output"@))
        }
    }
}

pub fn sha256sum_result(path: &str, success: bool, code: Option<i32>, stdout: &str, stderr: &str) -> (r: Result<
    String,
    crate::error::Error,
>)
    ensures
        match spec_sha256sum_result(path@, success, code, stdout@, stderr@) {
            Ok(d) => r matches Ok(x) && x@ == d,
            Err(e) => r matches Err(crate::error::Error::CommandFailed { code: c, reason: m }) && c == e.0 && m@
                == e.1,
        },
{
    if !success {
        let c: i32 = match code {
            Some(c) => c,
            None => 1,
        };
        let a = concat3("sha256sum ", path, ": ");
        let t = text::trim_str(stderr);
        return Err(crate::error::Error::CommandFailed { code: c, reason: concat(a.as_str(), t.as_str()) });
    }
    let cs = chars_of(stdout);
    let parts = text::split_of(cs.as_slice(), ' ');
    let ghost pv = parts@.map_values(|l: Vec<char>| l@);
    assert(pv[0] == parts@[0]@);
    if parts[0].len() > 0 {
        Ok(string_of(parts[0].as_slice()))
    } else {
        Err(crate::error::Error::CommandFailed { code: 1, reason: concat3("sha256sum ", path, ": empty output") })
    }
}

} // verus!
