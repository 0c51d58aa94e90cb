//! What produced a binary-package cache: the toolchain written down next to
//! it, the header portage keeps, and how the toolchain has moved since.
use vstd::prelude::*;
use crate::text;
use crate::text::{
    chars_of, concat, concat3, copy_string, lines_of, owned, slice_of, string_eq, string_lt,
    string_of, trim_chars,
};

verus! {

/// Index of the last `-` of `s` that a digit follows (where a portage
/// version starts), or -1.
pub open spec fn version_cut(s: Seq<char>) -> int
    decreases s.len(),
{
    if s.len() < 2 {
        -1
    } else if s[s.len() - 2] == '-' && text::is_digit(s.last()) {
        s.len() - 2
    } else {
        version_cut(s.drop_last())
    }
}

pub proof fn lemma_version_cut(s: Seq<char>)
    ensures
        -1 <= version_cut(s) < s.len() - 1 || version_cut(s) == -1,
        version_cut(s) >= 0 ==> s[version_cut(s)] == '-' && text::is_digit(s[version_cut(s) + 1]),
        forall|k: int|
            version_cut(s) < k < s.len() - 1 ==> !(s[k] == '-' && text::is_digit(#[trigger] s[k + 1])),
    decreases s.len(),
{
    if s.len() >= 2 && !(s[s.len() - 2] == '-' && text::is_digit(s.last())) {
        lemma_version_cut(s.drop_last());
        assert forall|k: int| version_cut(s) < k < s.len() - 1 implies !(s[k] == '-' && text::is_digit(#[trigger] s[k + 1])) by {
            if k < s.len() - 2 {
                assert(s.drop_last()[k] == s[k] && s.drop_last()[k + 1] == s[k + 1]);
            }
        }
    }
}

/// Split `gcc-16.2.9999` into `("gcc", "16.2.9999")`: the version starts
/// after the last `-` that a digit follows.
pub open spec fn spec_split_pv(name: Seq<char>) -> Option<(Seq<char>, Seq<char>)> {
    let i = version_cut(name);
    if i < 0 {
        None
    } else {
        Some((name.take(i), name.skip(i + 1)))
    }
}

/// Split a package directory name into package and version.
pub fn split_pv(name: &str) -> (r: Option<(&str, &str)>)
    ensures
        match spec_split_pv(name@) {
            Some(p) => r matches Some(x) && x.0@ == p.0 && x.1@ == p.1,
            None => r is None,
        },
{
    let cs = chars_of(name);
    let n = cs.len();
    let mut j: usize = n;
    assert(cs@.take(n as int) =~= cs@);
    while j >= 2 && !(cs[j - 2] == '-' && '0' <= cs[j - 1] && cs[j - 1] <= '9')
        invariant
            j <= n,
            n == cs@.len(),
            cs@ == name@,
            version_cut(name@) == version_cut(cs@.take(j as int)),
        decreases j,
    {
        assert(cs@.take(j as int).drop_last() =~= cs@.take(j - 1));
        j = j - 1;
    }
    if j < 2 {
        return None;
    }
    let i = j - 2;
    assert(cs@.take(j as int)[j - 2] == cs@[j - 2]);
    assert(cs@.take(j as int).last() == cs@[j - 1]);
    let pkg = name.substring_char(0, i);
    let ver = name.substring_char(i + 1, n);
    assert(name@.take(i as int) =~= name@.subrange(0, i as int));
    assert(name@.skip(i + 1) =~= name@.subrange(i + 1, n as int));
    Some((pkg, ver))
}

// ── The toolchain, as package name to version ───────────────────────────────

/// Keys strictly increasing in byte order.
pub open spec fn keys_sorted(s: Seq<(Seq<char>, Seq<char>)>) -> bool {
    forall|i: int, j: int| 0 <= i < j < s.len() ==> text::text_lt(s[i].0, s[j].0)
}

/// The value of `key` in a key-sorted list.
pub open spec fn value_of(s: Seq<(Seq<char>, Seq<char>)>, key: Seq<char>) -> Option<Seq<char>> {
    if exists|i: int| 0 <= i < s.len() && s[i].0 == key {
        Some(s[choose|i: int| 0 <= i < s.len() && s[i].0 == key].1)
    } else {
        None
    }
}

/// Package name to version, in name order.
#[derive(Debug)]
pub struct Toolchain {
    entries: Vec<(String, String)>,
}

impl Toolchain {
    pub closed spec fn view_entries(&self) -> Seq<(Seq<char>, Seq<char>)> {
        self.entries@.map_values(|e: (String, String)| (e.0@, e.1@))
    }

    pub closed spec fn wf(&self) -> bool {
        keys_sorted(self.view_entries())
    }

    /// An empty toolchain.
    pub fn new() -> (r: Toolchain)
        ensures
            r.wf(),
            r.view_entries().len() == 0,
    {
        let r = Toolchain { entries: Vec::new() };
        assert(r.view_entries() =~= Seq::<(Seq<char>, Seq<char>)>::empty());
        r
    }

    /// Number of packages.
    pub fn len(&self) -> (r: usize)
        ensures
            r == self.view_entries().len(),
    {
        self.entries.len()
    }

    /// Whether no package is recorded.
    pub fn is_empty(&self) -> (r: bool)
        ensures
            r == (self.view_entries().len() == 0),
    {
        self.entries.len() == 0
    }

    /// The version of `pkg`.
    pub fn get(&self, pkg: &String) -> (r: Option<&String>)
        requires
            self.wf(),
        ensures
            r.deep_view() == value_of(self.view_entries(), pkg@),
    {
        let ghost v = self.view_entries();
        let mut i: usize = 0;
        while i < self.entries.len()
            invariant
                i <= self.entries@.len(),
                v == self.view_entries(),
                keys_sorted(v),
                forall|k: int| 0 <= k < i ==> #[trigger] v[k].0 != pkg@,
            decreases self.entries@.len() - i,
        {
            assert(v[i as int] == (self.entries@[i as int].0@, self.entries@[i as int].1@));
            if string_eq(&self.entries[i].0, pkg) {
                proof {
                    let c = choose|k: int| 0 <= k < v.len() && v[k].0 == pkg@;
                    if c != i {
                        if c < i {
                        } else {
                            assert(text::text_lt(v[i as int].0, v[c].0));
                            text::lemma_text_lt_irreflexive(pkg@);
                        }
                    }
                }
                return Some(&self.entries[i].1);
            }
            i = i + 1;
        }
        None
    }

    /// Record `version` for `pkg`, replacing what was there.
    pub fn insert(&mut self, pkg: String, version: String)
        requires
            old(self).wf(),
        ensures
            final(self).wf(),
            value_of(final(self).view_entries(), pkg@) == Some(version@),
            forall|k: Seq<char>| k != pkg@ ==> value_of(final(self).view_entries(), k) == value_of(
                old(self).view_entries(),
                k,
            ),
    {
        let ghost v = self.view_entries();
        let mut i: usize = 0;
        while i < self.entries.len() && string_lt(&self.entries[i].0, &pkg)
            invariant
                i <= self.entries@.len(),
                v == self.view_entries(),
                keys_sorted(v),
                forall|k: int| 0 <= k < i ==> text::text_lt(#[trigger] v[k].0, pkg@),
            decreases self.entries@.len() - i,
        {
            i = i + 1;
        }
        let ghost pv = pkg@;
        let ghost vv = version@;
        if i < self.entries.len() && string_eq(&self.entries[i].0, &pkg) {
            self.entries.set(i, (pkg, version));
            let ghost w = self.view_entries();
            assert(w =~= v.update(i as int, (pv, vv)));
            assert(v[i as int].0 == pv);
            assert forall|a: int, b: int| 0 <= a < b < w.len() implies text::text_lt(w[a].0, w[b].0) by {
                assert(w[a].0 == v[a].0 && w[b].0 == v[b].0);
            }
            proof {
                lemma_value_of_unique(w, i as int);
                assert forall|k: Seq<char>| k != pv implies value_of(w, k) == value_of(v, k) by {
                    if exists|j: int| 0 <= j < w.len() && w[j].0 == k {
                        let j = choose|j: int| 0 <= j < w.len() && w[j].0 == k;
                        lemma_value_of_unique(w, j);
                        assert(v[j] == w[j]);
                        lemma_value_of_unique(v, j);
                    } else {
                        assert forall|j: int| 0 <= j < v.len() implies v[j].0 != k by {
                            if j != i {
                                assert(w[j] == v[j]);
                            }
                        }
                    }
                }
            }
        } else {
            proof {
                if i < v.len() {
                    text::lemma_text_lt_total(v[i as int].0, pv);
                }
            }
            self.entries.insert(i, (pkg, version));
            let ghost w = self.view_entries();
            assert(w =~= v.insert(i as int, (pv, vv)));
            assert forall|a: int, b: int| 0 <= a < b < w.len() implies text::text_lt(w[a].0, w[b].0) by {
                if a < i && b > i {
                    text::lemma_text_lt_transitive(w[a].0, pv, w[b].0);
                    if b - 1 > i {
                        text::lemma_text_lt_transitive(pv, v[i as int].0, v[b - 1].0);
                    }
                } else if a == i && b - 1 > i {
                    text::lemma_text_lt_transitive(pv, v[i as int].0, v[b - 1].0);
                }
            }
            proof {
                lemma_value_of_unique(w, i as int);
                assert forall|k: Seq<char>| k != pv implies value_of(w, k) == value_of(v, k) by {
                    if exists|j: int| 0 <= j < w.len() && w[j].0 == k {
                        let j = choose|j: int| 0 <= j < w.len() && w[j].0 == k;
                        lemma_value_of_unique(w, j);
                        let jj = if j < i { j } else { j - 1 };
                        assert(v[jj] == w[j]);
                        lemma_value_of_unique(v, jj);
                    } else {
                        assert forall|j: int| 0 <= j < v.len() implies v[j].0 != k by {
                            let jj = if j < i { j } else { j + 1 };
                            assert(w[jj] == v[j]);
                        }
                    }
                }
            }
        }
    }

    /// The entries, in package-name order.
    pub fn entries(&self) -> (r: &[(String, String)])
        ensures
            r@.map_values(|e: (String, String)| (e.0@, e.1@)) == self.view_entries(),
    {
        self.entries.as_slice()
    }
}

/// In a key-sorted list a key names one entry.
pub proof fn lemma_value_of_unique(s: Seq<(Seq<char>, Seq<char>)>, i: int)
    requires
        keys_sorted(s),
        0 <= i < s.len(),
    ensures
        value_of(s, s[i].0) == Some(s[i].1),
{
    let c = choose|k: int| 0 <= k < s.len() && s[k].0 == s[i].0;
    if c != i {
        if c < i {
            assert(text::text_lt(s[c].0, s[i].0));
        } else {
            assert(text::text_lt(s[i].0, s[c].0));
        }
        text::lemma_text_lt_irreflexive(s[i].0);
    }
}

} // verus!

verus! {

/// One line per package of `new` whose version moved or that is new, in
/// `new`'s order.
pub open spec fn moved_lines(new: Seq<(Seq<char>, Seq<char>)>, old: Seq<(Seq<char>, Seq<char>)>) -> Seq<
    Seq<char>,
>
    decreases new.len(),
{
    if new.len() == 0 {
        seq![]
    } else {
        let prev = moved_lines(new.drop_last(), old);
        let (pkg, version) = new.last();
        match value_of(old, pkg) {
            Some(p) => if p != version {
                prev.push(pkg + " "@ + p + " -> "@ + version)
            } else {
                prev
            },
            None => prev.push(pkg + " "@ + version + " (new)"@),
        }
    }
}

/// One line per package of `old` that `new` no longer has.
pub open spec fn gone_lines(old: Seq<(Seq<char>, Seq<char>)>, new: Seq<(Seq<char>, Seq<char>)>) -> Seq<
    Seq<char>,
>
    decreases old.len(),
{
    if old.len() == 0 {
        seq![]
    } else {
        let prev = gone_lines(old.drop_last(), new);
        if value_of(new, old.last().0) is None {
            prev.push(old.last().0 + " gone"@)
        } else {
            prev
        }
    }
}

/// How the toolchain has moved: empty when there was no stamp to compare.
pub open spec fn spec_drift(old: Seq<(Seq<char>, Seq<char>)>, new: Seq<(Seq<char>, Seq<char>)>) -> Seq<
    Seq<char>,
> {
    if old.len() == 0 {
        seq![]
    } else {
        moved_lines(new, old) + gone_lines(old, new)
    }
}

/// How the toolchain has moved since this cache was last written to.
/// Empty when nothing changed, or when there was no stamp to compare against.
pub fn drift(old: &Toolchain, new: &Toolchain) -> (r: Vec<String>)
    requires
        old.wf(),
        new.wf(),
    ensures
        r.deep_view() == spec_drift(old.view_entries(), new.view_entries()),
{
    let mut out: Vec<String> = Vec::new();
    if old.is_empty() {
        assert(out.deep_view() =~= Seq::<Seq<char>>::empty());
        return out;
    }
    let ne = new.entries();
    let oe = old.entries();
    let ghost nv = new.view_entries();
    let ghost ov = old.view_entries();
    let mut i: usize = 0;
    assert(nv.take(0) =~= Seq::<(Seq<char>, Seq<char>)>::empty());
    assert(out.deep_view() =~= Seq::<Seq<char>>::empty());
    while i < ne.len()
        invariant
            i <= ne@.len(),
            nv == ne@.map_values(|e: (String, String)| (e.0@, e.1@)),
            nv == new.view_entries(),
            ov == old.view_entries(),
            old.wf(),
            out.deep_view() == moved_lines(nv.take(i as int), ov),
        decreases ne@.len() - i,
    {
        let pkg = &ne[i].0;
        let version = &ne[i].1;
        assert(nv.take(i + 1).drop_last() =~= nv.take(i as int));
        assert(nv.take(i + 1).last() == (pkg@, version@));
        let ghost before = out.deep_view();
        match old.get(pkg) {
            Some(previous) => {
                if !string_eq(previous, version) {
                    let a = concat3(pkg.as_str(), " ", previous.as_str());
                    let line = concat3(a.as_str(), " -> ", version.as_str());
                    out.push(line);
                    assert(out.deep_view() =~= before.push(line@));
                }
            },
            None => {
                let a = concat3(pkg.as_str(), " ", version.as_str());
                let line = concat(a.as_str(), " (new)");
                out.push(line);
                assert(out.deep_view() =~= before.push(line@));
            },
        }
        i = i + 1;
    }
    assert(nv.take(i as int) =~= nv);
    let ghost head = out.deep_view();
    let mut j: usize = 0;
    assert(ov.take(0) =~= Seq::<(Seq<char>, Seq<char>)>::empty());
    assert(head + gone_lines(ov.take(0), nv) =~= head);
    while j < oe.len()
        invariant
            j <= oe@.len(),
            ov == oe@.map_values(|e: (String, String)| (e.0@, e.1@)),
            nv == new.view_entries(),
            new.wf(),
            out.deep_view() == head + gone_lines(ov.take(j as int), nv),
        decreases oe@.len() - j,
    {
        let pkg = &oe[j].0;
        assert(ov.take(j + 1).drop_last() =~= ov.take(j as int));
        assert(ov.take(j + 1).last().0 == pkg@);
        let ghost before = out.deep_view();
        if new.get(pkg).is_none() {
            let line = concat(pkg.as_str(), " gone");
            out.push(line);
            assert(out.deep_view() =~= before.push(line@));
        }
        j = j + 1;
    }
    assert(ov.take(j as int) =~= ov);
    out
}

/// The version the last of `names` that names package `k` gives it.
pub open spec fn last_version(names: Seq<Seq<char>>, k: Seq<char>) -> Option<Seq<char>>
    decreases names.len(),
{
    if names.len() == 0 {
        None
    } else {
        match spec_split_pv(names.last()) {
            Some(p) => if p.0 == k {
                Some(p.1)
            } else {
                last_version(names.drop_last(), k)
            },
            None => last_version(names.drop_last(), k),
        }
    }
}

/// The toolchain named by package directory names (`gcc-16.2.9999`);
/// names without a version are skipped, a later version of a package wins.
pub fn toolchain_from_names(names: &Vec<String>) -> (r: Toolchain)
    ensures
        r.wf(),
        forall|k: Seq<char>| value_of(r.view_entries(), k) == last_version(names.deep_view(), k),
{
    let ghost nv = names.deep_view();
    let mut out = Toolchain::new();
    let mut i: usize = 0;
    assert(nv.take(0) =~= Seq::<Seq<char>>::empty());
    while i < names.len()
        invariant
            i <= names@.len(),
            nv == names.deep_view(),
            out.wf(),
            forall|k: Seq<char>| value_of(out.view_entries(), k) == last_version(nv.take(i as int), k),
        decreases names@.len() - i,
    {
        assert(nv.take(i + 1).drop_last() =~= nv.take(i as int));
        assert(nv.take(i + 1).last() == names@[i as int]@);
        match split_pv(names[i].as_str()) {
            Some((pkg, version)) => out.insert(owned(pkg), owned(version)),
            None => {},
        }
        i = i + 1;
    }
    assert(nv.take(i as int) =~= nv);
    out
}

} // verus!

verus! {

/// The value the last `key: value` line of `ls` gives package `k`.
pub open spec fn stamp_value(ls: Seq<Seq<char>>, k: Seq<char>) -> Option<Seq<char>>
    decreases ls.len(),
{
    if ls.len() == 0 {
        None
    } else {
        match text::split_once(ls.last(), ':') {
            Some(kv) => if text::trim(kv.0) == k {
                Some(text::trim(kv.1))
            } else {
                stamp_value(ls.drop_last(), k)
            },
            None => stamp_value(ls.drop_last(), k),
        }
    }
}

/// The toolchain a stamp text records (`pkg: version` lines).
pub fn parse_stamp(content: &str) -> (r: Toolchain)
    ensures
        r.wf(),
        forall|k: Seq<char>| value_of(r.view_entries(), k) == stamp_value(text::lines(content@), k),
{
    let cs = chars_of(content);
    let ls = lines_of(cs.as_slice());
    let ghost lv = ls@.map_values(|l: Vec<char>| l@);
    let mut out = Toolchain::new();
    let mut i: usize = 0;
    assert(lv.take(0) =~= Seq::<Seq<char>>::empty());
    while i < ls.len()
        invariant
            i <= ls@.len(),
            lv == ls@.map_values(|l: Vec<char>| l@),
            out.wf(),
            forall|k: Seq<char>| value_of(out.view_entries(), k) == stamp_value(lv.take(i as int), k),
        decreases ls@.len() - i,
    {
        assert(lv.take(i + 1).drop_last() =~= lv.take(i as int));
        assert(lv.take(i + 1).last() == ls@[i as int]@);
        let line = &ls[i];
        match crate::text::find_char(line.as_slice(), ':') {
            Some(c) => {
                proof {
                    text::lemma_index_of_bounds(line@, ':');
                }
                let n = line.len();
                let k = slice_of(line.as_slice(), 0, c);
                let v = slice_of(line.as_slice(), c + 1, n);
                assert(k@ =~= line@.take(c as int));
                assert(v@ =~= line@.skip(c + 1));
                let kt = trim_chars(k.as_slice());
                let vt = trim_chars(v.as_slice());
                out.insert(string_of(kt.as_slice()), string_of(vt.as_slice()));
            },
            None => {},
        }
        i = i + 1;
    }
    assert(lv.take(i as int) =~= lv);
    out
}

pub open spec fn stamp_header() -> Seq<char> {
    "# What produced the binary packages here.  Portage's own Packages\n# header records the profile, ELIBC, CHOST and tree revision; this\n# records the toolchain, which it does not.\n"@
}

pub open spec fn stamp_lines(s: Seq<(Seq<char>, Seq<char>)>) -> Seq<char>
    decreases s.len(),
{
    if s.len() == 0 {
        seq![]
    } else {
        stamp_lines(s.drop_last()) + s.last().0 + ": "@ + s.last().1 + "\n"@
    }
}

/// The stamp text that records a toolchain: a comment, then `pkg: version`
/// lines in name order.
pub fn stamp_text(toolchain: &Toolchain) -> (r: String)
    ensures
        r@ == stamp_header() + stamp_lines(toolchain.view_entries()),
{
    let mut out = owned(
        "# What produced the binary packages here.  Portage's own Packages\n# header records the profile, ELIBC, CHOST and tree revision; this\n# records the toolchain, which it does not.\n",
    );
    let es = toolchain.entries();
    let ghost ev = toolchain.view_entries();
    let ghost head = out@;
    let mut i: usize = 0;
    assert(ev.take(0) =~= Seq::<(Seq<char>, Seq<char>)>::empty());
    while i < es.len()
        invariant
            i <= es@.len(),
            ev == es@.map_values(|e: (String, String)| (e.0@, e.1@)),
            out@ == head + stamp_lines(ev.take(i as int)),
        decreases es@.len() - i,
    {
        let ghost before = out@;
        out.append(es[i].0.as_str());
        out.append(": ");
        out.append(es[i].1.as_str());
        out.append("\n");
        assert(ev.take(i + 1).drop_last() =~= ev.take(i as int));
        assert(ev.take(i + 1).last() == (es@[i as int].0@, es@[i as int].1@));
        assert(out@ =~= head + stamp_lines(ev.take(i + 1)));
        i = i + 1;
    }
    assert(ev.take(i as int) =~= ev);
    out
}

} // verus!

verus! {

// ── Portage's Packages header ───────────────────────────────────────────────

/// The fields of portage's `Packages` header worth repeating back.
#[derive(Debug, Default)]
pub struct Index {
    pub packages: Option<String>,
    pub profile: Option<String>,
    pub elibc: Option<String>,
    pub chost: Option<String>,
    pub repo_revisions: Option<String>,
}

/// Index of the first `": "` in `s`, or -1.
pub open spec fn colon_space(s: Seq<char>) -> int
    decreases s.len(),
{
    if s.len() < 2 {
        -1
    } else if s[0] == ':' && s[1] == ' ' {
        0
    } else {
        let r = colon_space(s.drop_first());
        if r < 0 {
            -1
        } else {
            r + 1
        }
    }
}

/// The header: the lines before the first empty one.
pub open spec fn header_lines(ls: Seq<Seq<char>>) -> Seq<Seq<char>>
    decreases ls.len(),
{
    if ls.len() == 0 || ls[0].len() == 0 {
        seq![]
    } else {
        seq![ls[0]] + header_lines(ls.drop_first())
    }
}

/// The value of `key` in header lines `key: value` (trimmed), the last one
/// winning.
pub open spec fn header_value(ls: Seq<Seq<char>>, key: Seq<char>) -> Option<Seq<char>>
    decreases ls.len(),
{
    if ls.len() == 0 {
        None
    } else {
        let l = ls.last();
        let i = colon_space(l);
        if i >= 0 && l.take(i) == key {
            Some(text::trim(l.skip(i + 2)))
        } else {
            header_value(ls.drop_last(), key)
        }
    }
}

pub open spec fn opt_view(o: Option<String>) -> Option<Seq<char>> {
    match o {
        Some(s) => Some(s@),
        None => None,
    }
}

/// The index a `Packages` file's text gives.
pub open spec fn index_is(ix: Index, content: Seq<char>) -> bool {
    let h = header_lines(text::lines(content));
    &&& opt_view(ix.packages) == header_value(h, "PACKAGES"@)
    &&& opt_view(ix.profile) == header_value(h, "PROFILE"@)
    &&& opt_view(ix.elibc) == header_value(h, "ELIBC"@)
    &&& opt_view(ix.chost) == header_value(h, "CHOST"@)
    &&& opt_view(ix.repo_revisions) == header_value(h, "REPO_REVISIONS"@)
}

fn find_colon_space(s: &[char]) -> (r: Option<usize>)
    ensures
        match r {
            Some(i) => i as int == colon_space(s@) && i + 1 < s@.len(),
            None => colon_space(s@) < 0,
        },
{
    let mut i: usize = 0;
    assert(s@.skip(0) =~= s@);
    while s.len() > 1 && i < s.len() - 1
        invariant
            i <= s@.len(),
            colon_space(s@) == (if colon_space(s@.skip(i as int)) < 0 {
                -1
            } else {
                colon_space(s@.skip(i as int)) + i
            }),
        decreases s@.len() - i,
    {
        assert(s@.skip(i as int)[0] == s@[i as int] && s@.skip(i as int)[1] == s@[i + 1]);
        if s[i] == ':' && s[i + 1] == ' ' {
            return Some(i);
        }
        assert(s@.skip(i as int).drop_first() =~= s@.skip(i + 1));
        i = i + 1;
    }
    None
}

/// Read portage's `Packages` header: the fields above, from the lines before
/// the first empty one, each `KEY: value`, the last occurrence winning.
pub fn parse_index(content: &str) -> (r: Index)
    ensures
        index_is(r, content@),
{
    let cs = chars_of(content);
    let ls = lines_of(cs.as_slice());
    let ghost lv = ls@.map_values(|l: Vec<char>| l@);
    let mut ix = Index { packages: None, profile: None, elibc: None, chost: None, repo_revisions: None };
    let mut i: usize = 0;
    assert(lv.skip(0) =~= lv);
    assert(lv.take(0) =~= Seq::<Seq<char>>::empty());
    while i < ls.len() && ls[i].len() > 0
        invariant
            i <= ls@.len(),
            lv == ls@.map_values(|l: Vec<char>| l@),
            lv == text::lines(content@),
            header_lines(lv) == lv.take(i as int) + header_lines(lv.skip(i as int)),
            forall|k: int| 0 <= k < i ==> lv[k].len() > 0,
            opt_view(ix.packages) == header_value(lv.take(i as int), "PACKAGES"@),
            opt_view(ix.profile) == header_value(lv.take(i as int), "PROFILE"@),
            opt_view(ix.elibc) == header_value(lv.take(i as int), "ELIBC"@),
            opt_view(ix.chost) == header_value(lv.take(i as int), "CHOST"@),
            opt_view(ix.repo_revisions) == header_value(lv.take(i as int), "REPO_REVISIONS"@),
        decreases ls@.len() - i,
    {
        let ghost l = lv[i as int];
        assert(l == ls@[i as int]@);
        assert(lv.take(i + 1).drop_last() =~= lv.take(i as int));
        assert(lv.take(i + 1).last() == l);
        assert(lv.skip(i as int).drop_first() =~= lv.skip(i + 1));
        assert(lv.skip(i as int)[0] == l);
        assert(lv.take(i + 1) =~= lv.take(i as int) + seq![l]);
        let line = ls[i].as_slice();
        match find_colon_space(line) {
            Some(j) => {
                let n = line.len();
                let key = slice_of(line, 0, j);
                let rest = slice_of(line, j + 2, n);
                assert(key@ =~= l.take(j as int));
                assert(rest@ =~= l.skip(j + 2));
                let value = string_of(trim_chars(rest.as_slice()).as_slice());
                let kp = chars_of("PACKAGES");
                let kr = chars_of("PROFILE");
                let ke = chars_of("ELIBC");
                let kc = chars_of("CHOST");
                let kv = chars_of("REPO_REVISIONS");
                if text::chars_eq(key.as_slice(), kp.as_slice()) {
                    ix.packages = Some(value);
                } else if text::chars_eq(key.as_slice(), kr.as_slice()) {
                    ix.profile = Some(value);
                } else if text::chars_eq(key.as_slice(), ke.as_slice()) {
                    ix.elibc = Some(value);
                } else if text::chars_eq(key.as_slice(), kc.as_slice()) {
                    ix.chost = Some(value);
                } else if text::chars_eq(key.as_slice(), kv.as_slice()) {
                    ix.repo_revisions = Some(value);
                }
                proof {
                    lemma_header_keys_distinct();
                }
            },
            None => {},
        }
        i = i + 1;
    }
    proof {
        if i < ls@.len() {
            assert(lv.skip(i as int)[0] == ls@[i as int]@);
            assert(header_lines(lv.skip(i as int)) =~= Seq::<Seq<char>>::empty());
        } else {
            assert(lv.skip(i as int) =~= Seq::<Seq<char>>::empty());
        }
        assert(header_lines(lv) =~= lv.take(i as int));
    }
    ix
}

proof fn lemma_header_keys_distinct()
    ensures
        "PACKAGES"@ != "PROFILE"@,
        "PACKAGES"@ != "ELIBC"@,
        "PACKAGES"@ != "CHOST"@,
        "PACKAGES"@ != "REPO_REVISIONS"@,
        "PROFILE"@ != "ELIBC"@,
        "PROFILE"@ != "CHOST"@,
        "PROFILE"@ != "REPO_REVISIONS"@,
        "ELIBC"@ != "CHOST"@,
        "ELIBC"@ != "REPO_REVISIONS"@,
        "CHOST"@ != "REPO_REVISIONS"@,
{
    reveal_strlit("PACKAGES");
    reveal_strlit("PROFILE");
    reveal_strlit("ELIBC");
    reveal_strlit("CHOST");
    reveal_strlit("REPO_REVISIONS");
    assert("PACKAGES"@.len() != "PROFILE"@.len());
    assert("PACKAGES"@[0] != "ELIBC"@[0]);
    assert("PACKAGES"@[0] != "CHOST"@[0]);
    assert("PACKAGES"@[0] != "REPO_REVISIONS"@[0]);
    assert("PROFILE"@[0] != "ELIBC"@[0]);
    assert("PROFILE"@[0] != "CHOST"@[0]);
    assert("PROFILE"@[0] != "REPO_REVISIONS"@[0]);
    assert("ELIBC"@[0] != "CHOST"@[0]);
    assert("ELIBC"@[0] != "REPO_REVISIONS"@[0]);
    assert("CHOST"@[0] != "REPO_REVISIONS"@[0]);
}

/// The one line a build prints about its binary package cache: its name,
/// what portage's header says of it (or that it is empty), and how the
/// toolchain moved.
pub open spec fn spec_report_line(dir_name: Seq<char>, index: Option<Index>, moved: Seq<Seq<char>>) -> Seq<char> {
    "binpkgs "@ + dir_name + match index {
        Some(ix) => (match ix.packages {
            Some(p) => ": "@ + p@ + " packages"@,
            None => seq![],
        }) + (match ix.profile {
            Some(p) => ", profile "@ + p@,
            None => seq![],
        }),
        None => ": empty"@,
    } + if moved.len() == 0 {
        seq![]
    } else {
        ", toolchain "@ + crate::chroot::joined(moved, ", "@)
    }
}

pub fn report_line(dir_name: &str, index: &Option<Index>, moved: &Vec<String>) -> (r: String)
    ensures
        r@ == spec_report_line(dir_name@, *index, moved.deep_view()),
{
    let mut line = concat("binpkgs ", dir_name);
    let ghost l0 = line@;
    match index {
        Some(ix) => {
            match &ix.packages {
                Some(p) => {
                    line.append(": ");
                    line.append(p.as_str());
                    line.append(" packages");
                },
                None => {},
            }
            let ghost l1 = line@;
            match &ix.profile {
                Some(p) => {
                    line.append(", profile ");
                    line.append(p.as_str());
                },
                None => {},
            }
        },
        None => {
            line.append(": empty");
        },
    }
    let ghost l2 = line@;
    if moved.len() > 0 {
        line.append(", toolchain ");
        let j = crate::chroot::join_strings(moved, ", ");
        line.append(j.as_str());
    }
    assert(line@ =~= spec_report_line(dir_name@, *index, moved.deep_view()));
    line
}

} // verus!


verus! {

// ── Reading back a stamp ────────────────────────────────────────────────────

/// A text of one line: no newline in it.
pub open spec fn one_line(s: Seq<char>) -> bool {
    forall|i: int| 0 <= i < s.len() ==> s[i] != '\n'
}

/// A text without a colon.
pub open spec fn no_colon(s: Seq<char>) -> bool {
    forall|i: int| 0 <= i < s.len() ==> s[i] != ':'
}

/// Entries a stamp can carry back: names and versions are single lines
/// without surrounding whitespace, and names have no colon.
pub open spec fn stamp_safe(s: Seq<(Seq<char>, Seq<char>)>) -> bool {
    forall|i: int|
        0 <= i < s.len() ==> one_line(#[trigger] s[i].0) && no_colon(s[i].0) && text::trim(s[i].0) == s[i].0
            && one_line(s[i].1) && text::trim(s[i].1) == s[i].1
}

/// The line the stamp writes for an entry.
pub open spec fn entry_line(e: (Seq<char>, Seq<char>)) -> Seq<char> {
    e.0 + ": "@ + e.1
}

pub open spec fn entry_lines(s: Seq<(Seq<char>, Seq<char>)>) -> Seq<Seq<char>> {
    s.map_values(|e: (Seq<char>, Seq<char>)| entry_line(e))
}

pub open spec fn header_line_1() -> Seq<char> {
    "# What produced the binary packages here.  Portage's own Packages"@
}

pub open spec fn header_line_2() -> Seq<char> {
    "# header records the profile, ELIBC, CHOST and tree revision; this"@
}

pub open spec fn header_line_3() -> Seq<char> {
    "# records the toolchain, which it does not."@
}

proof fn lemma_header_lines()
    ensures
        text::lines(stamp_header()) == seq![header_line_1(), header_line_2(), header_line_3()],
        stamp_header().len() > 0 && stamp_header().last() == '\n',
        no_colon(header_line_1()) && no_colon(header_line_2()) && no_colon(header_line_3()),
{
    reveal_strlit("# What produced the binary packages here.  Portage's own Packages");
    reveal_strlit("# header records the profile, ELIBC, CHOST and tree revision; this");
    reveal_strlit("# records the toolchain, which it does not.");
    reveal_strlit(
        "# What produced the binary packages here.  Portage's own Packages\n# header records the profile, ELIBC, CHOST and tree revision; this\n# records the toolchain, which it does not.\n",
    );
    let (l1, l2, l3) = (header_line_1(), header_line_2(), header_line_3());
    let n = seq!['\n'];
    assert(stamp_header() =~= l1 + n + l2 + n + l3 + n);
    assert(one_line(l1) && one_line(l2) && one_line(l3));
    assert(l1.last() != '\r' && l2.last() != '\r' && l3.last() != '\r');
    text::lemma_lines_push(Seq::<char>::empty(), l1);
    assert(Seq::<char>::empty() + l1 + n =~= l1 + n);
    text::lemma_lines_push(l1 + n, l2);
    text::lemma_lines_push(l1 + n + l2 + n, l3);
    assert(text::lines(Seq::<char>::empty()) =~= Seq::<Seq<char>>::empty());
    assert(text::lines(stamp_header()) =~= seq![l1, l2, l3]);
}

/// Text before a stamp's entries whose lines name nothing.
proof fn lemma_colonless_lines(ls: Seq<Seq<char>>, k: Seq<char>)
    requires
        forall|i: int| 0 <= i < ls.len() ==> no_colon(#[trigger] ls[i]),
    ensures
        stamp_value(ls, k) is None,
    decreases ls.len(),
{
    if ls.len() > 0 {
        let l = ls.last();
        assert(no_colon(ls[ls.len() - 1]));
        text::lemma_index_of_is(l, ':', l.len() as int);
        lemma_colonless_lines(ls.drop_last(), k);
    }
}

proof fn lemma_entry_line(e: (Seq<char>, Seq<char>))
    requires
        one_line(e.0),
        no_colon(e.0),
        text::trim(e.0) == e.0,
        one_line(e.1),
        text::trim(e.1) == e.1,
    ensures
        one_line(entry_line(e)),
        text::strip_cr(entry_line(e)) == entry_line(e),
        text::split_once(entry_line(e), ':') == Some((e.0, seq![' '] + e.1)),
{
    reveal_strlit(": ");
    let l = entry_line(e);
    assert(l =~= e.0 + seq![':', ' '] + e.1);
    assert forall|i: int| 0 <= i < l.len() implies l[i] != '\n' by {
        if i >= e.0.len() + 2 {
            assert(l[i] == e.1[i - e.0.len() - 2]);
        } else if i < e.0.len() {
            assert(l[i] == e.0[i]);
        }
    }
    if e.1.len() > 0 {
        text::lemma_trimmed_last(e.1);
        assert(l.last() == e.1.last());
        assert(text::is_ws('\r'));
    } else {
        assert(l.last() == ' ');
    }
    assert forall|i: int| 0 <= i < e.0.len() implies l[i] != ':' by {
        assert(l[i] == e.0[i]);
    }
    text::lemma_index_of_is(l, ':', e.0.len() as int);
    assert(l.take(e.0.len() as int) =~= e.0);
    assert(l.skip(e.0.len() + 1int) =~= seq![' '] + e.1);
}

proof fn lemma_stamp_text_lines(s: Seq<(Seq<char>, Seq<char>)>)
    requires
        stamp_safe(s),
    ensures
        text::lines(stamp_header() + stamp_lines(s)) == text::lines(stamp_header()) + entry_lines(s),
        (stamp_header() + stamp_lines(s)).last() == '\n',
    decreases s.len(),
{
    lemma_header_lines();
    if s.len() == 0 {
        assert(stamp_header() + stamp_lines(s) =~= stamp_header());
        assert(entry_lines(s) =~= Seq::<Seq<char>>::empty());
        assert(text::lines(stamp_header()) + entry_lines(s) =~= text::lines(stamp_header()));
    } else {
        let p = s.drop_last();
        let e = s.last();
        assert(stamp_safe(p)) by {
            assert forall|i: int| 0 <= i < p.len() implies one_line(#[trigger] p[i].0) && no_colon(p[i].0)
                && text::trim(p[i].0) == p[i].0 && one_line(p[i].1) && text::trim(p[i].1) == p[i].1 by {
                assert(p[i] == s[i]);
            }
        }
        lemma_stamp_text_lines(p);
        assert(one_line(s[s.len() - 1].0));
        lemma_entry_line(e);
        reveal_strlit("\n");
        let h = stamp_header() + stamp_lines(p);
        assert(stamp_header() + stamp_lines(s) =~= h + entry_line(e) + seq!['\n']);
        text::lemma_lines_push(h, entry_line(e));
        assert(entry_lines(s) =~= entry_lines(p).push(entry_line(e)));
        assert(text::lines(stamp_header()) + entry_lines(s) =~= (text::lines(stamp_header()) + entry_lines(p)).push(
            entry_line(e),
        ));
    }
}

/// The value the last entry named `k` has.
pub open spec fn last_value(s: Seq<(Seq<char>, Seq<char>)>, k: Seq<char>) -> Option<Seq<char>>
    decreases s.len(),
{
    if s.len() == 0 {
        None
    } else if s.last().0 == k {
        Some(s.last().1)
    } else {
        last_value(s.drop_last(), k)
    }
}

proof fn lemma_stamp_value_entries(ls: Seq<Seq<char>>, s: Seq<(Seq<char>, Seq<char>)>, k: Seq<char>)
    requires
        stamp_safe(s),
        forall|i: int| 0 <= i < ls.len() ==> no_colon(#[trigger] ls[i]),
    ensures
        stamp_value(ls + entry_lines(s), k) == last_value(s, k),
    decreases s.len(),
{
    if s.len() == 0 {
        assert(ls + entry_lines(s) =~= ls);
        lemma_colonless_lines(ls, k);
    } else {
        let p = s.drop_last();
        let e = s.last();
        assert(one_line(s[s.len() - 1].0));
        lemma_entry_line(e);
        text::lemma_trim_space_front(e.1);
        assert(stamp_safe(p)) by {
            assert forall|i: int| 0 <= i < p.len() implies one_line(#[trigger] p[i].0) && no_colon(p[i].0)
                && text::trim(p[i].0) == p[i].0 && one_line(p[i].1) && text::trim(p[i].1) == p[i].1 by {
                assert(p[i] == s[i]);
            }
        }
        let all = ls + entry_lines(s);
        assert(all.last() == entry_line(e));
        assert(all.drop_last() =~= ls + entry_lines(p));
        lemma_stamp_value_entries(ls, p, k);
    }
}

proof fn lemma_last_value_sorted(s: Seq<(Seq<char>, Seq<char>)>, k: Seq<char>)
    requires
        keys_sorted(s),
    ensures
        last_value(s, k) == value_of(s, k),
    decreases s.len(),
{
    if s.len() > 0 {
        let p = s.drop_last();
        assert(keys_sorted(p)) by {
            assert forall|i: int, j: int| 0 <= i < j < p.len() implies text::text_lt(p[i].0, p[j].0) by {
                assert(p[i] == s[i] && p[j] == s[j]);
            }
        }
        lemma_last_value_sorted(p, k);
        if s.last().0 == k {
            let n = s.len() - 1;
            assert forall|i: int| 0 <= i < s.len() && s[i].0 == k implies i == n by {
                if i < n {
                    assert(text::text_lt(s[i].0, s[n].0));
                    text::lemma_text_lt_irreflexive(k);
                }
            }
            assert(s[n].0 == k);
        } else {
            if exists|i: int| 0 <= i < s.len() && s[i].0 == k {
                let i = choose|i: int| 0 <= i < s.len() && s[i].0 == k;
                assert(i < s.len() - 1);
                assert(p[i].0 == k);
                let j = choose|j: int| 0 <= j < p.len() && p[j].0 == k;
                assert forall|m: int| 0 <= m < s.len() && s[m].0 == k implies m == j by {
                    if m != j {
                        if m < j {
                            assert(text::text_lt(s[m].0, s[j].0));
                        } else {
                            assert(text::text_lt(s[j].0, s[m].0));
                        }
                        assert(s[j] == p[j]);
                        text::lemma_text_lt_irreflexive(k);
                    }
                }
                assert(s[j] == p[j]);
            } else {
                assert forall|i: int| 0 <= i < p.len() implies p[i].0 != k by {
                    assert(p[i] == s[i]);
                }
            }
        }
    }
}

/// A stamp reads back the toolchain it records: for every package, what
/// `parse_stamp` finds in the text `stamp_text` writes is the version the
/// toolchain holds (for names and versions that are single trimmed lines,
/// names without a colon).
pub proof fn law_stamp_reads_back_what_was_written(t: Toolchain)
    requires
        t.wf(),
        stamp_safe(t.view_entries()),
    ensures
        forall|k: Seq<char>|
            stamp_value(text::lines(stamp_header() + stamp_lines(t.view_entries())), k) == value_of(
                t.view_entries(),
                k,
            ),
{
    let s = t.view_entries();
    lemma_stamp_text_lines(s);
    lemma_header_lines();
    assert forall|k: Seq<char>| stamp_value(text::lines(stamp_header() + stamp_lines(s)), k) == value_of(s, k) by {
        let ls = text::lines(stamp_header());
        assert forall|i: int| 0 <= i < ls.len() implies no_colon(#[trigger] ls[i]) by {
            if i == 0 {
                assert(ls[i] == header_line_1());
            } else if i == 1 {
                assert(ls[i] == header_line_2());
            } else {
                assert(ls[i] == header_line_3());
            }
        }
        lemma_stamp_value_entries(ls, s, k);
        lemma_last_value_sorted(s, k);
    }
}

} // verus!
