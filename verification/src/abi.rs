//! Whether an image can load its own binaries.
//!
//! glibc and libstdc++ are backward compatible and not forward compatible:
//! a binary built against a newer glibc asks the loader for a symbol version
//! an older one does not define, and does not start.  Nothing in a binary
//! package records which toolchain built it, so rather than key the cache
//! on a proxy, the check reads what each binary asks for and whether the
//! image provides it.
//!
//! A scan inside the sandbox prints one record per line: `D<TAB>soname<TAB>
//! version` for a version a library defines, `N<TAB>path<TAB>soname<TAB>
//! version` for one a file needs.  The report is computed from those lines.
use vstd::prelude::*;
use crate::text;
use crate::hash::{decimal, decimal_string};
use crate::text::{chars_eq, chars_of, lines_of, split_of, string_eq, string_of};

verus! {

/// One record of the scan.
pub enum AbiRecord {
    /// A library (soname) defines a version.
    Defines(Seq<char>, Seq<char>),
    /// A file (path) needs a version of a library (soname).
    Needs(Seq<char>, Seq<char>, Seq<char>),
}

/// The record on one line of the scan: `D` with a soname and a version, `N`
/// with a path, a soname and a version; any other line is ignored, as is a
/// record missing a field.
pub open spec fn record_of(line: Seq<char>) -> Option<AbiRecord> {
    let ps = text::split(line, '\t');
    if ps[0] == seq!['D'] && ps.len() >= 3 {
        Some(AbiRecord::Defines(ps[1], ps[2]))
    } else if ps[0] == seq!['N'] && ps.len() >= 4 {
        Some(AbiRecord::Needs(ps[1], ps[2], ps[3]))
    } else {
        None
    }
}

/// The records of the lines `ls`, in order.
pub open spec fn records(ls: Seq<Seq<char>>) -> Seq<AbiRecord>
    decreases ls.len(),
{
    if ls.len() == 0 {
        seq![]
    } else {
        match record_of(ls.last()) {
            Some(r) => records(ls.drop_last()).push(r),
            None => records(ls.drop_last()),
        }
    }
}

/// Some record says that `so` defines `v`.
pub open spec fn defines(rs: Seq<AbiRecord>, so: Seq<char>, v: Seq<char>) -> bool {
    exists|i: int| 0 <= i < rs.len() && rs[i] == AbiRecord::Defines(so, v)
}

pub open spec fn lib_of(r: AbiRecord) -> Option<Seq<char>> {
    match r {
        AbiRecord::Defines(so, _) => Some(so),
        _ => None,
    }
}

pub open spec fn path_of(r: AbiRecord) -> Option<Seq<char>> {
    match r {
        AbiRecord::Needs(p, _, _) => Some(p),
        _ => None,
    }
}

/// The image carries the library `so` (it defines some version of it).
pub open spec fn has_lib(rs: Seq<AbiRecord>, so: Seq<char>) -> bool {
    exists|i: int| 0 <= i < rs.len() && lib_of(rs[i]) == Some(so)
}

/// The libraries that define versions.
pub open spec fn lib_set(rs: Seq<AbiRecord>) -> Set<Seq<char>> {
    Set::new(|so: Seq<char>| has_lib(rs, so))
}

/// The files that need some version.
pub open spec fn file_set(rs: Seq<AbiRecord>) -> Set<Seq<char>> {
    Set::new(|p: Seq<char>| exists|i: int| 0 <= i < rs.len() && path_of(rs[i]) == Some(p))
}

/// The files needing the version `key.1` of the library `key.0`, one per
/// record, in order.
pub open spec fn paths_of(rs: Seq<AbiRecord>, key: (Seq<char>, Seq<char>)) -> Seq<Seq<char>>
    decreases rs.len(),
{
    if rs.len() == 0 {
        seq![]
    } else {
        let rest = paths_of(rs.drop_last(), key);
        match rs.last() {
            AbiRecord::Needs(p, so, v) => if so == key.0 && v == key.1 {
                rest.push(p)
            } else {
                rest
            },
            _ => rest,
        }
    }
}

/// A requirement some file has that the image does not meet.
pub open spec fn unmet(rs: Seq<AbiRecord>, key: (Seq<char>, Seq<char>)) -> bool {
    paths_of(rs, key).len() > 0 && !defines(rs, key.0, key.1)
}

/// Byte order of (soname, version) pairs.
pub open spec fn key_lt(a: (Seq<char>, Seq<char>), b: (Seq<char>, Seq<char>)) -> bool {
    text::text_lt(a.0, b.0) || (a.0 == b.0 && text::text_lt(a.1, b.1))
}

/// The report's order: more files first, then by soname and version.
pub open spec fn comes_before(rs: Seq<AbiRecord>, a: (Seq<char>, Seq<char>), b: (Seq<char>, Seq<char>)) -> bool {
    let ca = paths_of(rs, a).len();
    let cb = paths_of(rs, b).len();
    ca > cb || (ca == cb && key_lt(a, b))
}

/// At most the first three of `s`.
pub open spec fn first_three(s: Seq<Seq<char>>) -> Seq<Seq<char>> {
    if s.len() <= 3 {
        s
    } else {
        s.take(3)
    }
}

/// One unmet requirement, and who has it.
#[derive(Debug)]
pub struct Unsatisfied {
    pub soname: String,
    /// The version asked for, e.g. `GLIBC_2.43`; empty where the image does
    /// not carry the library at all.
    pub version: String,
    pub count: usize,
    pub examples: Vec<String>,
}

/// What the check found.
#[derive(Debug)]
pub struct Report {
    /// Files with a version requirement.
    pub scanned: usize,
    /// Libraries defining versions.
    pub libraries: usize,
    pub unsatisfied: Vec<Unsatisfied>,
}

/// `u` reports the requirement `key`.
pub open spec fn reports(rs: Seq<AbiRecord>, key: (Seq<char>, Seq<char>), u: Unsatisfied) -> bool {
    &&& u.soname@ == key.0
    &&& u.version@ == (if has_lib(rs, key.0) {
        key.1
    } else {
        seq![]
    })
    &&& u.count == paths_of(rs, key).len()
    &&& u.examples.deep_view() == first_three(paths_of(rs, key))
}

/// `us` reports the requirements `ks`, which are every unmet requirement,
/// once each, in the report's order.
pub open spec fn report_of(rs: Seq<AbiRecord>, ks: Seq<(Seq<char>, Seq<char>)>, us: Seq<Unsatisfied>) -> bool {
    &&& ks.len() == us.len()
    &&& ks.no_duplicates()
    &&& forall|i: int| 0 <= i < ks.len() ==> unmet(rs, #[trigger] ks[i])
    &&& forall|k: (Seq<char>, Seq<char>)| unmet(rs, k) ==> ks.contains(k)
    &&& forall|i: int| 0 <= i < ks.len() ==> reports(rs, ks[i], #[trigger] us[i])
    &&& forall|i: int, j: int| 0 <= i < j < ks.len() ==> comes_before(rs, ks[i], ks[j])
}


// ── Reading the scan ────────────────────────────────────────────────────────

enum Rec {
    Defines(String, String),
    Needs(String, String, String),
}

spec fn rec_view(r: Rec) -> AbiRecord {
    match r {
        Rec::Defines(a, b) => AbiRecord::Defines(a@, b@),
        Rec::Needs(a, b, c) => AbiRecord::Needs(a@, b@, c@),
    }
}

fn parse_record(line: &[char]) -> (r: Option<Rec>)
    ensures
        match r {
            Some(x) => record_of(line@) == Some(rec_view(x)),
            None => record_of(line@) is None,
        },
{
    let parts = split_of(line, '\t');
    let ghost pv = parts@.map_values(|l: Vec<char>| l@);
    assert(pv[0] == parts@[0]@);
    let first = &parts[0];
    let is_d = first.len() == 1 && first[0] == 'D';
    let is_n = first.len() == 1 && first[0] == 'N';
    assert(is_d <==> pv[0] == seq!['D']) by {
        if first@.len() == 1 && first@[0] == 'D' {
            assert(first@ =~= seq!['D']);
        }
    }
    assert(is_n <==> pv[0] == seq!['N']) by {
        if first@.len() == 1 && first@[0] == 'N' {
            assert(first@ =~= seq!['N']);
        }
    }
    assert(seq!['D'] != seq!['N']) by {
        assert(seq!['D'][0] != seq!['N'][0]);
    }
    if is_d && parts.len() >= 3 {
        assert(pv[1] == parts@[1]@ && pv[2] == parts@[2]@);
        Some(Rec::Defines(string_of(parts[1].as_slice()), string_of(parts[2].as_slice())))
    } else if is_n && parts.len() >= 4 {
        assert(pv[1] == parts@[1]@ && pv[2] == parts@[2]@ && pv[3] == parts@[3]@);
        Some(
            Rec::Needs(
                string_of(parts[1].as_slice()),
                string_of(parts[2].as_slice()),
                string_of(parts[3].as_slice()),
            ),
        )
    } else {
        None
    }
}

/// What the records read so far add up to.
struct Tally {
    defs: Vec<(String, String)>,
    libs: Vec<String>,
    files: Vec<String>,
    needed: Vec<(String, String, Vec<String>)>,
}

spec fn nkey(e: (String, String, Vec<String>)) -> (Seq<char>, Seq<char>) {
    (e.0@, e.1@)
}

spec fn tally_ok(t: Tally, rs: Seq<AbiRecord>) -> bool {
    &&& forall|so: Seq<char>, v: Seq<char>|
        defines(rs, so, v) <==> exists|j: int|
            0 <= j < t.defs@.len() && #[trigger] t.defs@[j].0@ == so && t.defs@[j].1@ == v
    &&& t.libs.deep_view().no_duplicates()
    &&& t.libs.deep_view().to_set() == lib_set(rs)
    &&& t.files.deep_view().no_duplicates()
    &&& t.files.deep_view().to_set() == file_set(rs)
    &&& forall|i: int, j: int|
        0 <= i < j < t.needed@.len() ==> nkey(#[trigger] t.needed@[i]) != nkey(#[trigger] t.needed@[j])
    &&& forall|i: int|
        0 <= i < t.needed@.len() ==> (#[trigger] t.needed@[i]).2.deep_view() == paths_of(rs, nkey(t.needed@[i]))
    &&& forall|k: (Seq<char>, Seq<char>)|
        paths_of(rs, k).len() > 0 ==> exists|i: int| 0 <= i < t.needed@.len() && nkey(#[trigger] t.needed@[i]) == k
}

proof fn lemma_push_defines(rs: Seq<AbiRecord>, x: AbiRecord, so: Seq<char>, v: Seq<char>)
    ensures
        defines(rs.push(x), so, v) <==> (defines(rs, so, v) || x == AbiRecord::Defines(so, v)),
{
    let r2 = rs.push(x);
    if defines(rs, so, v) {
        let i = choose|i: int| 0 <= i < rs.len() && rs[i] == AbiRecord::Defines(so, v);
        assert(r2[i] == rs[i]);
    }
    if x == AbiRecord::Defines(so, v) {
        assert(r2[rs.len() as int] == x);
    }
    if defines(r2, so, v) {
        let i = choose|i: int| 0 <= i < r2.len() && r2[i] == AbiRecord::Defines(so, v);
        if i < rs.len() {
            assert(r2[i] == rs[i]);
        }
    }
}

proof fn lemma_push_lib_set(rs: Seq<AbiRecord>, x: AbiRecord)
    ensures
        lib_set(rs.push(x)) == (match lib_of(x) {
            Some(so) => lib_set(rs).insert(so),
            None => lib_set(rs),
        }),
{
    let r2 = rs.push(x);
    let want = match lib_of(x) {
        Some(so) => lib_set(rs).insert(so),
        None => lib_set(rs),
    };
    assert forall|so: Seq<char>| lib_set(r2).contains(so) <==> want.contains(so) by {
        if has_lib(rs, so) {
            let i = choose|i: int| 0 <= i < rs.len() && lib_of(rs[i]) == Some(so);
            assert(r2[i] == rs[i]);
        }
        if lib_of(x) == Some(so) {
            assert(r2[rs.len() as int] == x);
        }
        if has_lib(r2, so) {
            let i = choose|i: int| 0 <= i < r2.len() && lib_of(r2[i]) == Some(so);
            if i < rs.len() {
                assert(r2[i] == rs[i]);
            }
        }
    }
    assert(lib_set(r2) =~= want);
}

proof fn lemma_push_file_set(rs: Seq<AbiRecord>, x: AbiRecord)
    ensures
        file_set(rs.push(x)) == (match path_of(x) {
            Some(p) => file_set(rs).insert(p),
            None => file_set(rs),
        }),
{
    let r2 = rs.push(x);
    let want = match path_of(x) {
        Some(p) => file_set(rs).insert(p),
        None => file_set(rs),
    };
    assert forall|p: Seq<char>| file_set(r2).contains(p) <==> want.contains(p) by {
        if file_set(rs).contains(p) {
            let i = choose|i: int| 0 <= i < rs.len() && path_of(rs[i]) == Some(p);
            assert(r2[i] == rs[i]);
        }
        if path_of(x) == Some(p) {
            assert(r2[rs.len() as int] == x);
        }
        if file_set(r2).contains(p) {
            let i = choose|i: int| 0 <= i < r2.len() && path_of(r2[i]) == Some(p);
            if i < rs.len() {
                assert(r2[i] == rs[i]);
            }
        }
    }
    assert(file_set(r2) =~= want);
}

proof fn lemma_push_paths(rs: Seq<AbiRecord>, x: AbiRecord, k: (Seq<char>, Seq<char>))
    ensures
        paths_of(rs.push(x), k) == (match x {
            AbiRecord::Needs(p, so, v) => if so == k.0 && v == k.1 {
                paths_of(rs, k).push(p)
            } else {
                paths_of(rs, k)
            },
            _ => paths_of(rs, k),
        }),
{
    assert(rs.push(x).drop_last() =~= rs);
}

/// Add the text `x` to the distinct list `v`, keeping it distinct.
fn add_distinct(v: &mut Vec<String>, x: &String)
    requires
        old(v).deep_view().no_duplicates(),
    ensures
        final(v).deep_view().no_duplicates(),
        final(v).deep_view().to_set() == old(v).deep_view().to_set().insert(x@),
{
    let ghost before = v.deep_view();
    let mut i: usize = 0;
    while i < v.len()
        invariant
            i <= v@.len(),
            before == v.deep_view(),
            before.no_duplicates(),
            forall|k: int| 0 <= k < i ==> #[trigger] before[k] != x@,
        decreases v@.len() - i,
    {
        assert(before[i as int] == v@[i as int]@);
        if string_eq(&v[i], x) {
            assert(before.to_set().contains(x@)) by {
                assert(before[i as int] == x@);
            }
            assert(before.to_set().insert(x@) =~= before.to_set());
            return;
        }
        i = i + 1;
    }
    v.push(x.clone());
    let ghost after = v.deep_view();
    assert(after =~= before.push(x@));
    assert forall|a: int, b: int| 0 <= a < after.len() && 0 <= b < after.len() && a != b implies after[a]
        != after[b] by {
        if a < before.len() && b < before.len() {
            assert(after[a] == before[a] && after[b] == before[b]);
        } else if a < before.len() {
            assert(after[a] == before[a]);
        } else if b < before.len() {
            assert(after[b] == before[b]);
        }
    }
    assert(after.to_set() =~= before.to_set().insert(x@)) by {
        assert forall|y: Seq<char>| after.to_set().contains(y) <==> before.to_set().insert(x@).contains(y) by {
            if after.contains(y) {
                let j = choose|j: int| 0 <= j < after.len() && after[j] == y;
                if j < before.len() {
                    assert(before[j] == y);
                }
            }
            if before.contains(y) {
                let j = choose|j: int| 0 <= j < before.len() && before[j] == y;
                assert(after[j] == y);
            }
            if y == x@ {
                assert(after[before.len() as int] == y);
            }
        }
    }
}

impl Tally {
    fn new() -> (t: Tally)
        ensures
            tally_ok(t, seq![]),
    {
        let t = Tally { defs: Vec::new(), libs: Vec::new(), files: Vec::new(), needed: Vec::new() };
        assert(t.libs.deep_view() =~= Seq::<Seq<char>>::empty());
        assert(t.files.deep_view() =~= Seq::<Seq<char>>::empty());
        assert(lib_set(seq![]) =~= Set::<Seq<char>>::empty());
        assert(file_set(seq![]) =~= Set::<Seq<char>>::empty());
        assert(t.libs.deep_view().to_set() =~= Set::<Seq<char>>::empty());
        assert(t.files.deep_view().to_set() =~= Set::<Seq<char>>::empty());
        t
    }

    fn add(&mut self, rec: Rec, Ghost(rs): Ghost<Seq<AbiRecord>>)
        requires
            tally_ok(*old(self), rs),
        ensures
            tally_ok(*final(self), rs.push(rec_view(rec))),
    {
        let ghost x = rec_view(rec);
        let ghost r2 = rs.push(x);
        proof {
            lemma_push_lib_set(rs, x);
            lemma_push_file_set(rs, x);
            assert forall|so: Seq<char>, v: Seq<char>| #[trigger] defines(r2, so, v) <==> (defines(rs, so, v)
                || x == AbiRecord::Defines(so, v)) by {
                lemma_push_defines(rs, x, so, v);
            }
            assert forall|k: (Seq<char>, Seq<char>)| #[trigger] paths_of(r2, k) == (match x {
                AbiRecord::Needs(p, so, v) => if so == k.0 && v == k.1 {
                    paths_of(rs, k).push(p)
                } else {
                    paths_of(rs, k)
                },
                _ => paths_of(rs, k),
            }) by {
                lemma_push_paths(rs, x, k);
            }
        }
        match rec {
            Rec::Defines(so, v) => {
                let mut libs: Vec<String> = Vec::new();
                std::mem::swap(&mut libs, &mut self.libs);
                add_distinct(&mut libs, &so);
                self.libs = libs;
                let ghost d0 = self.defs@;
                self.defs.push((so, v));
                assert forall|a: Seq<char>, b: Seq<char>|
                    defines(r2, a, b) <==> exists|j: int|
                        0 <= j < self.defs@.len() && #[trigger] self.defs@[j].0@ == a
                            && self.defs@[j].1@ == b by {
                    if defines(r2, a, b) {
                        if defines(rs, a, b) {
                            let j = choose|j: int|
                                0 <= j < d0.len() && #[trigger] d0[j].0@ == a && d0[j].1@ == b;
                            assert(self.defs@[j] == d0[j]);
                            assert(self.defs@[j].0@ == a && self.defs@[j].1@ == b);
                        } else {
                            assert(x == AbiRecord::Defines(a, b));
                            let j = d0.len() as int;
                            assert(self.defs@[j].0@ == a && self.defs@[j].1@ == b);
                        }
                    }
                    if exists|j: int|
                        0 <= j < self.defs@.len() && #[trigger] self.defs@[j].0@ == a
                            && self.defs@[j].1@ == b {
                        let j = choose|j: int|
                            0 <= j < self.defs@.len() && #[trigger] self.defs@[j].0@ == a
                                && self.defs@[j].1@ == b;
                        if j < d0.len() {
                            assert(self.defs@[j] == d0[j]);
                            assert(d0[j].0@ == a);
                        }
                    }
                }
                assert(self.needed@ == old(self).needed@);
                assert forall|k: (Seq<char>, Seq<char>)| paths_of(r2, k).len() > 0 implies exists|i: int|
                    0 <= i < self.needed@.len() && nkey(#[trigger] self.needed@[i]) == k by {
                    lemma_push_paths(rs, x, k);
                    assert(paths_of(rs, k).len() > 0);
                }
                assert(tally_ok(*self, r2));
            },
            Rec::Needs(p, so, v) => {
                let ghost pv = p@;
                add_distinct(&mut self.files, &p);
                let ghost n0 = self.needed@;
                let ghost key = (so@, v@);
                let mut i: usize = 0;
                let mut found = false;
                while !found && i < self.needed.len()
                    invariant
                        i <= self.needed@.len(),
                        self.needed@ == n0,
                        key == (so@, v@),
                        forall|k: int| 0 <= k < i ==> nkey(#[trigger] n0[k]) != key,
                        found ==> i < n0.len() && nkey(n0[i as int]) == key,
                    decreases self.needed@.len() - i + (if found { 0int } else { 1int }),
                {
                    if string_eq(&self.needed[i].0, &so) && string_eq(&self.needed[i].1, &v) {
                        found = true;
                    } else {
                        i = i + 1;
                    }
                }
                if found {
                    let mut e = self.needed.remove(i);
                    let ghost e0 = e;
                    e.2.push(p);
                    assert(e.2.deep_view() =~= e0.2.deep_view().push(pv));
                    self.needed.insert(i, e);
                    let ghost n1 = self.needed@;
                    assert(n1 =~= n0.update(i as int, e));
                    assert forall|a: int, b: int| 0 <= a < b < n1.len() implies nkey(#[trigger] n1[a])
                        != nkey(#[trigger] n1[b]) by {
                        if a != i && b != i {
                            assert(n1[a] == n0[a] && n1[b] == n0[b]);
                        } else if a == i {
                            assert(n1[b] == n0[b]);
                            assert(nkey(n1[a]) == nkey(n0[a]));
                        } else {
                            assert(n1[a] == n0[a]);
                            assert(nkey(n1[b]) == nkey(n0[b]));
                        }
                    }
                    assert forall|a: int| 0 <= a < n1.len() implies (#[trigger] n1[a]).2.deep_view()
                        == paths_of(r2, nkey(n1[a])) by {
                        if a != i {
                            assert(n1[a] == n0[a]);
                        }
                    }
                    assert forall|k: (Seq<char>, Seq<char>)| paths_of(r2, k).len() > 0 implies exists|a: int|
                        0 <= a < n1.len() && nkey(#[trigger] n1[a]) == k by {
                        if k == key {
                            assert(nkey(n1[i as int]) == k);
                        } else {
                            let a = choose|a: int| 0 <= a < n0.len() && nkey(#[trigger] n0[a]) == k;
                            if a == i {
                                assert(false);
                            }
                            assert(n1[a] == n0[a]);
                        }
                    }
                } else {
                    let mut ps: Vec<String> = Vec::new();
                    ps.push(p);
                    proof {
                        assert(paths_of(rs, key).len() == 0) by {
                            if paths_of(rs, key).len() > 0 {
                                let a = choose|a: int| 0 <= a < n0.len() && nkey(#[trigger] n0[a]) == key;
                            }
                        }
                        assert(ps.deep_view() =~= paths_of(rs, key).push(pv));
                    }
                    self.needed.push((so, v, ps));
                    let ghost n1 = self.needed@;
                    assert forall|a: int, b: int| 0 <= a < b < n1.len() implies nkey(#[trigger] n1[a])
                        != nkey(#[trigger] n1[b]) by {
                        assert(n1[a] == n0[a]);
                        if b < n0.len() {
                            assert(n1[b] == n0[b]);
                        }
                    }
                    assert forall|a: int| 0 <= a < n1.len() implies (#[trigger] n1[a]).2.deep_view()
                        == paths_of(r2, nkey(n1[a])) by {
                        if a < n0.len() {
                            assert(n1[a] == n0[a]);
                        }
                    }
                    assert forall|k: (Seq<char>, Seq<char>)| paths_of(r2, k).len() > 0 implies exists|a: int|
                        0 <= a < n1.len() && nkey(#[trigger] n1[a]) == k by {
                        if k == key {
                            assert(nkey(n1[n0.len() as int]) == k);
                        } else {
                            let a = choose|a: int| 0 <= a < n0.len() && nkey(#[trigger] n0[a]) == k;
                            assert(n1[a] == n0[a]);
                        }
                    }
                }
            },
        }
        assert(tally_ok(*self, r2));
    }
}


// ── The report's order ──────────────────────────────────────────────────────

proof fn lemma_key_lt_total(a: (Seq<char>, Seq<char>), b: (Seq<char>, Seq<char>))
    ensures
        a != b ==> key_lt(a, b) || key_lt(b, a),
        !(key_lt(a, b) && key_lt(b, a)),
        !key_lt(a, a),
{
    text::lemma_text_lt_total(a.0, b.0);
    text::lemma_text_lt_total(a.1, b.1);
    text::lemma_text_lt_asymmetric(a.0, b.0);
    text::lemma_text_lt_asymmetric(a.1, b.1);
    text::lemma_text_lt_irreflexive(a.0);
    text::lemma_text_lt_irreflexive(a.1);
    text::lemma_text_lt_irreflexive(b.0);
    if a != b && a.0 == b.0 {
        assert(a.1 != b.1);
    }
}

proof fn lemma_key_lt_transitive(a: (Seq<char>, Seq<char>), b: (Seq<char>, Seq<char>), c: (Seq<char>, Seq<char>))
    requires
        key_lt(a, b),
        key_lt(b, c),
    ensures
        key_lt(a, c),
{
    text::lemma_text_lt_transitive(a.0, b.0, c.0);
    text::lemma_text_lt_transitive(a.1, b.1, c.1);
}

/// The report's order is a strict total order on requirements.
proof fn lemma_order(rs: Seq<AbiRecord>, a: (Seq<char>, Seq<char>), b: (Seq<char>, Seq<char>), c: (Seq<char>, Seq<char>))
    ensures
        a != b ==> comes_before(rs, a, b) || comes_before(rs, b, a),
        !(comes_before(rs, a, b) && comes_before(rs, b, a)),
        comes_before(rs, a, b) && comes_before(rs, b, c) ==> comes_before(rs, a, c),
{
    lemma_key_lt_total(a, b);
    if comes_before(rs, a, b) && comes_before(rs, b, c) {
        if key_lt(a, b) && key_lt(b, c) {
            lemma_key_lt_transitive(a, b, c);
        }
    }
}

/// An unmet requirement with its files and whether the image has the
/// library at all.
struct Cand {
    so: String,
    v: String,
    paths: Vec<String>,
    has_lib: bool,
}

spec fn ckey(c: Cand) -> (Seq<char>, Seq<char>) {
    (c.so@, c.v@)
}

spec fn cand_ok(rs: Seq<AbiRecord>, c: Cand) -> bool {
    &&& unmet(rs, ckey(c))
    &&& c.paths.deep_view() == paths_of(rs, ckey(c))
    &&& c.has_lib == has_lib(rs, c.so@)
}

fn before_exec(a: &Cand, b: &Cand, Ghost(rs): Ghost<Seq<AbiRecord>>) -> (r: bool)
    requires
        cand_ok(rs, *a),
        cand_ok(rs, *b),
    ensures
        r == comes_before(rs, ckey(*a), ckey(*b)),
{
    let ca = a.paths.len();
    let cb = b.paths.len();
    assert(ca == paths_of(rs, ckey(*a)).len());
    assert(cb == paths_of(rs, ckey(*b)).len());
    if ca != cb {
        ca > cb
    } else {
        text::string_lt(&a.so, &b.so) || (string_eq(&a.so, &b.so) && text::string_lt(&a.v, &b.v))
    }
}

spec fn cands_sorted(rs: Seq<AbiRecord>, s: Seq<Cand>) -> bool {
    forall|i: int, j: int| 0 <= i < j < s.len() ==> comes_before(rs, ckey(#[trigger] s[i]), ckey(#[trigger] s[j]))
}

/// Insert `x` into the sorted `out`, before the first candidate it comes
/// before.
fn insert_sorted(out: &mut Vec<Cand>, x: Cand, Ghost(rs): Ghost<Seq<AbiRecord>>) -> (p: usize)
    requires
        cand_ok(rs, x),
        forall|i: int| 0 <= i < old(out)@.len() ==> cand_ok(rs, #[trigger] old(out)@[i]),
        forall|i: int| 0 <= i < old(out)@.len() ==> ckey(#[trigger] old(out)@[i]) != ckey(x),
        cands_sorted(rs, old(out)@),
    ensures
        p <= old(out)@.len(),
        final(out)@ == old(out)@.insert(p as int, x),
        cands_sorted(rs, final(out)@),
        forall|i: int| 0 <= i < final(out)@.len() ==> cand_ok(rs, #[trigger] final(out)@[i]),
{
    let ghost ov = out@;
    let mut p: usize = 0;
    let mut found = false;
    while !found && p < out.len()
        invariant
            p <= out@.len(),
            ov == out@,
            cand_ok(rs, x),
            forall|i: int| 0 <= i < ov.len() ==> cand_ok(rs, #[trigger] ov[i]),
            forall|k: int| 0 <= k < p ==> !comes_before(rs, ckey(x), ckey(#[trigger] ov[k])),
            found ==> p < ov.len() && comes_before(rs, ckey(x), ckey(ov[p as int])),
        decreases out@.len() - p + (if found { 0int } else { 1int }),
    {
        if before_exec(&x, &out[p], Ghost(rs)) {
            found = true;
        } else {
            p = p + 1;
        }
    }
    out.insert(p, x);
    let ghost w = out@;
    assert(w =~= ov.insert(p as int, x));
    assert forall|i: int, j: int| 0 <= i < j < w.len() implies comes_before(rs, ckey(#[trigger] w[i]), ckey(#[trigger] w[j])) by {
        if i < p && j == p {
            assert(w[i] == ov[i]);
            assert(ckey(ov[i]) != ckey(x));
            lemma_order(rs, ckey(x), ckey(ov[i]), ckey(x));
        } else if i == p && j > p {
            assert(w[j] == ov[j - 1]);
            if j - 1 > p {
                assert(comes_before(rs, ckey(ov[p as int]), ckey(ov[j - 1])));
                lemma_order(rs, ckey(x), ckey(ov[p as int]), ckey(ov[j - 1]));
            }
        } else if i < p && j > p {
            assert(w[i] == ov[i] && w[j] == ov[j - 1]);
        } else if i > p {
            assert(w[i] == ov[i - 1] && w[j] == ov[j - 1]);
        } else {
            assert(w[i] == ov[i] && w[j] == ov[j]);
        }
    }
    assert forall|i: int| 0 <= i < w.len() implies cand_ok(rs, #[trigger] w[i]) by {
        if i < p {
            assert(w[i] == ov[i]);
        } else if i > p {
            assert(w[i] == ov[i - 1]);
        }
    }
    p
}

spec fn keys_of(s: Seq<Cand>) -> Seq<(Seq<char>, Seq<char>)> {
    s.map_values(|c: Cand| ckey(c))
}

/// Sort candidates with distinct keys into the report's order.
fn sort_cands(cands: Vec<Cand>, Ghost(rs): Ghost<Seq<AbiRecord>>) -> (r: Vec<Cand>)
    requires
        forall|i: int| 0 <= i < cands@.len() ==> cand_ok(rs, #[trigger] cands@[i]),
        forall|i: int, j: int| 0 <= i < j < cands@.len() ==> ckey(#[trigger] cands@[i]) != ckey(#[trigger] cands@[j]),
    ensures
        forall|i: int| 0 <= i < r@.len() ==> cand_ok(rs, #[trigger] r@[i]),
        cands_sorted(rs, r@),
        keys_of(r@).to_multiset() == keys_of(cands@).to_multiset(),
{
    let ghost cv = cands@;
    let mut rest = cands;
    let mut out: Vec<Cand> = Vec::new();
    let ghost mut taken: int = 0;
    assert(cv.skip(0) =~= cv);
    assert(keys_of(out@) =~= keys_of(cv.take(0)));
    while rest.len() > 0
        invariant
            0 <= taken <= cv.len(),
            rest@ == cv.skip(taken),
            forall|i: int| 0 <= i < cv.len() ==> cand_ok(rs, #[trigger] cv[i]),
            forall|i: int, j: int| 0 <= i < j < cv.len() ==> ckey(#[trigger] cv[i]) != ckey(#[trigger] cv[j]),
            forall|i: int| 0 <= i < out@.len() ==> cand_ok(rs, #[trigger] out@[i]),
            cands_sorted(rs, out@),
            keys_of(out@).to_multiset() == keys_of(cv.take(taken)).to_multiset(),
        decreases rest@.len(),
    {
        let x = rest.remove(0);
        assert(x == cv[taken]);
        assert(rest@ =~= cv.skip(taken + 1));
        let ghost ov = out@;
        proof {
            assert forall|k: int| 0 <= k < ov.len() implies ckey(#[trigger] ov[k]) != ckey(x) by {
                let kk = keys_of(ov);
                assert(kk[k] == ckey(ov[k]));
                vstd::seq_lib::to_multiset_contains(kk, ckey(ov[k]));
                assert(kk.contains(ckey(ov[k])));
                let tk = keys_of(cv.take(taken));
                vstd::seq_lib::to_multiset_contains(tk, ckey(ov[k]));
                let j = choose|j: int| 0 <= j < tk.len() && tk[j] == ckey(ov[k]);
                assert(tk[j] == ckey(cv[j]));
                assert(ckey(cv[j]) != ckey(cv[taken]));
            }
        }
        let p = insert_sorted(&mut out, x, Ghost(rs));
        proof {
            assert(keys_of(out@) =~= keys_of(ov).insert(p as int, ckey(x)));
            vstd::seq_lib::to_multiset_insert(keys_of(ov), p as int, ckey(x));
            assert(keys_of(cv.take(taken + 1)) =~= keys_of(cv.take(taken)).push(ckey(x)));
            vstd::seq_lib::to_multiset_build(keys_of(cv.take(taken)), ckey(x));
            taken = taken + 1;
        }
    }
    assert(cv.skip(taken).len() == 0);
    assert(cv.take(taken) =~= cv);
    out
}

proof fn lemma_has_lib(rs: Seq<AbiRecord>, so: Seq<char>)
    ensures
        has_lib(rs, so) <==> exists|v: Seq<char>| defines(rs, so, v),
{
    if has_lib(rs, so) {
        let i = choose|i: int| 0 <= i < rs.len() && lib_of(rs[i]) == Some(so);
        match rs[i] {
            AbiRecord::Defines(a, v) => {
                assert(defines(rs, so, v));
            },
            _ => {},
        }
    }
    if exists|v: Seq<char>| defines(rs, so, v) {
        let v = choose|v: Seq<char>| defines(rs, so, v);
        let i = choose|i: int| 0 <= i < rs.len() && rs[i] == AbiRecord::Defines(so, v);
        assert(lib_of(rs[i]) == Some(so));
    }
}

fn first_three_exec(ps: &Vec<String>) -> (r: Vec<String>)
    ensures
        r.deep_view() == first_three(ps.deep_view()),
{
    let n = if ps.len() <= 3 {
        ps.len()
    } else {
        3
    };
    let mut out: Vec<String> = Vec::new();
    let mut i: usize = 0;
    while i < n
        invariant
            i <= n,
            n <= ps@.len(),
            n == (if ps@.len() <= 3 {
                ps@.len()
            } else {
                3
            }),
            out.deep_view() == ps.deep_view().take(i as int),
        decreases n - i,
    {
        let ghost o = out.deep_view();
        assert(ps.deep_view()[i as int] == ps@[i as int]@);
        out.push(crate::text::copy_string(&ps[i]));
        assert(out.deep_view() =~= o.push(ps@[i as int]@));
        assert(out.deep_view() =~= ps.deep_view().take(i + 1));
        i = i + 1;
    }
    assert(ps@.len() <= 3 ==> ps.deep_view().take(n as int) =~= ps.deep_view());
    out
}

/// The records of a scan's output, one per line that holds one.
pub open spec fn scan_records(out: Seq<char>) -> Seq<AbiRecord> {
    records(text::lines(out))
}

/// The report for what the scan printed: how many files carry version
/// requirements, how many libraries define versions, and every unmet
/// requirement with the files that have it (three named), most files
/// first, then by library and version.
pub fn report_from_scan(out: &str) -> (r: Report)
    ensures
        r.scanned == file_set(scan_records(out@)).len(),
        r.libraries == lib_set(scan_records(out@)).len(),
        exists|ks: Seq<(Seq<char>, Seq<char>)>| report_of(scan_records(out@), ks, r.unsatisfied@),
{
    let cs = chars_of(out);
    let ls = lines_of(cs.as_slice());
    let ghost lv = ls@.map_values(|l: Vec<char>| l@);
    let mut t = Tally::new();
    let mut i: usize = 0;
    assert(lv.take(0) =~= Seq::<Seq<char>>::empty());
    while i < ls.len()
        invariant
            i <= ls@.len(),
            lv == ls@.map_values(|l: Vec<char>| l@),
            lv == text::lines(out@),
            tally_ok(t, records(lv.take(i as int))),
        decreases ls@.len() - i,
    {
        let ghost pre = lv.take(i as int);
        assert(lv.take(i + 1).drop_last() =~= pre);
        assert(lv.take(i + 1).last() == ls@[i as int]@);
        match parse_record(ls[i].as_slice()) {
            Some(rec) => {
                t.add(rec, Ghost(records(pre)));
            },
            None => {},
        }
        i = i + 1;
    }
    assert(lv.take(i as int) =~= lv);
    let ghost rs = records(lv);
    // The unmet requirements.
    let mut cands: Vec<Cand> = Vec::new();
    let mut needed = t.needed;
    let ghost nv = needed@;
    let t2 = Tally { defs: t.defs, libs: t.libs, files: t.files, needed: Vec::new() };
    let ghost mut done: int = 0;
    assert(nv.skip(0) =~= nv);
    assert(t2.defs@ == t.defs@);
    assert forall|so: Seq<char>, v: Seq<char>|
        defines(rs, so, v) <==> exists|j: int|
            0 <= j < t2.defs@.len() && #[trigger] t2.defs@[j].0@ == so && t2.defs@[j].1@ == v by {
        if defines(rs, so, v) {
            let j = choose|j: int| 0 <= j < t.defs@.len() && #[trigger] t.defs@[j].0@ == so && t.defs@[j].1@ == v;
            assert(t2.defs@[j].0@ == so && t2.defs@[j].1@ == v);
        }
        if exists|j: int| 0 <= j < t2.defs@.len() && #[trigger] t2.defs@[j].0@ == so && t2.defs@[j].1@ == v {
            let j = choose|j: int| 0 <= j < t2.defs@.len() && #[trigger] t2.defs@[j].0@ == so && t2.defs@[j].1@ == v;
            assert(t.defs@[j].0@ == so && t.defs@[j].1@ == v);
        }
    }
    while needed.len() > 0
        invariant
            0 <= done <= nv.len(),
            needed@ == nv.skip(done),
            forall|so: Seq<char>, v: Seq<char>|
                defines(rs, so, v) <==> exists|j: int|
                    0 <= j < t2.defs@.len() && #[trigger] t2.defs@[j].0@ == so && t2.defs@[j].1@ == v,
            forall|a: int, b: int| 0 <= a < b < nv.len() ==> nkey(#[trigger] nv[a]) != nkey(#[trigger] nv[b]),
            forall|a: int| 0 <= a < nv.len() ==> (#[trigger] nv[a]).2.deep_view() == paths_of(rs, nkey(nv[a])),
            forall|a: int| 0 <= a < cands@.len() ==> cand_ok(rs, #[trigger] cands@[a]),
            forall|a: int, b: int| 0 <= a < b < cands@.len() ==> ckey(#[trigger] cands@[a]) != ckey(#[trigger] cands@[b]),
            forall|a: int| #![trigger cands@[a]] 0 <= a < cands@.len() ==> exists|b: int| 0 <= b < done && ckey(cands@[a]) == nkey(#[trigger] nv[b]),
            forall|b: int| #![trigger nv[b]] 0 <= b < done && unmet(rs, nkey(nv[b])) ==> keys_of(cands@).contains(nkey(nv[b])),
        decreases needed@.len(),
    {
        let e = needed.remove(0);
        assert(e == nv[done]);
        assert(needed@ =~= nv.skip(done + 1));
        let (so, v, paths) = e;
        let def = {
            let mut j: usize = 0;
            let mut hit = false;
            while !hit && j < t2.defs.len()
                invariant
                    j <= t2.defs@.len(),
                    forall|k: int| 0 <= k < j ==> !(#[trigger] t2.defs@[k].0@ == so@ && t2.defs@[k].1@ == v@),
                    hit ==> j < t2.defs@.len() && t2.defs@[j as int].0@ == so@ && t2.defs@[j as int].1@ == v@,
                decreases t2.defs@.len() - j + (if hit { 0int } else { 1int }),
            {
                if string_eq(&t2.defs[j].0, &so) && string_eq(&t2.defs[j].1, &v) {
                    hit = true;
                } else {
                    j = j + 1;
                }
            }
            hit
        };
        assert(def == defines(rs, so@, v@));
        if paths.len() > 0 && !def {
            let lib = {
                let mut j: usize = 0;
                let mut hit = false;
                proof {
                    lemma_has_lib(rs, so@);
                }
                while !hit && j < t2.defs.len()
                    invariant
                        j <= t2.defs@.len(),
                        forall|k: int| 0 <= k < j ==> #[trigger] t2.defs@[k].0@ != so@,
                        hit ==> j < t2.defs@.len() && t2.defs@[j as int].0@ == so@,
                    decreases t2.defs@.len() - j + (if hit { 0int } else { 1int }),
                {
                    if string_eq(&t2.defs[j].0, &so) {
                        hit = true;
                    } else {
                        j = j + 1;
                    }
                }
                proof {
                    if hit {
                        assert(defines(rs, so@, t2.defs@[j as int].1@));
                    } else if has_lib(rs, so@) {
                        let vv = choose|vv: Seq<char>| defines(rs, so@, vv);
                        let k = choose|k: int|
                            0 <= k < t2.defs@.len() && #[trigger] t2.defs@[k].0@ == so@ && t2.defs@[k].1@ == vv;
                    }
                }
                hit
            };
            let c = Cand { so, v, paths, has_lib: lib };
            let ghost c0 = cands@;
            proof {
                assert forall|a: int| 0 <= a < c0.len() implies ckey(#[trigger] c0[a]) != ckey(c) by {
                    let b = choose|b: int| 0 <= b < done && ckey(c0[a]) == nkey(#[trigger] nv[b]);
                    assert(nkey(nv[b]) != nkey(nv[done]));
                }
            }
            cands.push(c);
            proof {
                let c1 = cands@;
                assert(c1 =~= c0.push(c));
                assert(keys_of(c1) =~= keys_of(c0).push(ckey(c)));
                assert forall|b: int| #![trigger nv[b]] 0 <= b < done + 1 && unmet(rs, nkey(nv[b])) implies keys_of(c1).contains(nkey(nv[b])) by {
                    if b == done {
                        assert(keys_of(c1)[c0.len() as int] == nkey(nv[b]));
                    } else {
                        let kk = keys_of(c0);
                        let j = choose|j: int| 0 <= j < kk.len() && kk[j] == nkey(nv[b]);
                        assert(keys_of(c1)[j] == kk[j]);
                    }
                }
                assert forall|a: int| #![trigger c1[a]] 0 <= a < c1.len() implies exists|b: int| 0 <= b < done + 1 && ckey(c1[a]) == nkey(#[trigger] nv[b]) by {
                    if a < c0.len() {
                        assert(c1[a] == c0[a]);
                        let b = choose|b: int| 0 <= b < done && ckey(c0[a]) == nkey(#[trigger] nv[b]);
                    } else {
                        assert(ckey(c1[a]) == nkey(nv[done]));
                    }
                }
            }
        } else {
            proof {
                assert forall|b: int| #![trigger nv[b]] 0 <= b < done + 1 && unmet(rs, nkey(nv[b])) implies keys_of(cands@).contains(nkey(nv[b])) by {
                    if b == done {
                        assert(!unmet(rs, nkey(nv[b])));
                    }
                }
            }
        }
        proof {
            done = done + 1;
        }
    }
    assert(nv.skip(done).len() == 0);
    assert(done == nv.len());
    let ghost cv = cands@;
    proof {
        // Every unmet requirement is a candidate.
        assert forall|k: (Seq<char>, Seq<char>)| unmet(rs, k) implies keys_of(cv).contains(k) by {
            let a = choose|a: int| 0 <= a < nv.len() && nkey(#[trigger] nv[a]) == k;
        }
    }
    let sorted = sort_cands(cands, Ghost(rs));
    let ghost sv = sorted@;
    let ghost ks = keys_of(sv);
    let mut us: Vec<Unsatisfied> = Vec::new();
    let mut rest = sorted;
    let ghost mut k: int = 0;
    assert(sv.skip(0) =~= sv);
    while rest.len() > 0
        invariant
            0 <= k <= sv.len(),
            rest@ == sv.skip(k),
            us@.len() == k,
            forall|a: int| 0 <= a < sv.len() ==> cand_ok(rs, #[trigger] sv[a]),
            forall|a: int| 0 <= a < k ==> reports(rs, ckey(sv[a]), #[trigger] us@[a]),
        decreases rest@.len(),
    {
        let c = rest.remove(0);
        assert(c == sv[k]);
        assert(rest@ =~= sv.skip(k + 1));
        let examples = first_three_exec(&c.paths);
        let count = c.paths.len();
        let version = if c.has_lib {
            c.v
        } else {
            String::new()
        };
        assert(version@ == (if has_lib(rs, c.so@) { c.v@ } else { seq![] }));
        let u = Unsatisfied { soname: c.so, version, count, examples };
        let ghost u0 = us@;
        us.push(u);
        assert forall|a: int| 0 <= a < k + 1 implies reports(rs, ckey(sv[a]), #[trigger] us@[a]) by {
            if a < k {
                assert(us@[a] == u0[a]);
            }
        }
        proof {
            k = k + 1;
        }
    }
    assert(sv.skip(k).len() == 0);
    proof {
        assert(ks.len() == us@.len());
        assert forall|i: int, j: int| 0 <= i < ks.len() && 0 <= j < ks.len() && i != j implies ks[i] != ks[j] by {
            assert(ks[i] == ckey(sv[i]) && ks[j] == ckey(sv[j]));
            if i < j {
                lemma_order(rs, ks[i], ks[j], ks[i]);
            } else {
                lemma_order(rs, ks[j], ks[i], ks[j]);
            }
        }
        assert forall|i: int| 0 <= i < ks.len() implies unmet(rs, #[trigger] ks[i]) by {
            assert(ks[i] == ckey(sv[i]));
        }
        assert forall|kk: (Seq<char>, Seq<char>)| unmet(rs, kk) implies ks.contains(kk) by {
            vstd::seq_lib::to_multiset_contains(keys_of(cv), kk);
            vstd::seq_lib::to_multiset_contains(ks, kk);
        }
        assert forall|i: int| 0 <= i < ks.len() implies reports(rs, ks[i], #[trigger] us@[i]) by {
            assert(ks[i] == ckey(sv[i]));
        }
        assert forall|i: int, j: int| 0 <= i < j < ks.len() implies comes_before(rs, ks[i], ks[j]) by {
            assert(ks[i] == ckey(sv[i]) && ks[j] == ckey(sv[j]));
        }
        assert(report_of(rs, ks, us@));
        assert(rs == scan_records(out@));
        t2.libs.deep_view().unique_seq_to_set();
        t2.files.deep_view().unique_seq_to_set();
    }
    let r = Report { scanned: t2.files.len(), libraries: t2.libs.len(), unsatisfied: us };
    assert(report_of(scan_records(out@), ks, r.unsatisfied@));
    r
}

// ── The scan and the verdict ────────────────────────────────────────────────

/// The scan run inside the sandbox: every executable or shared object under
/// `%ROOT%` read with `%READELF% -V`, printing `D` and `N` records.
pub open spec fn scan_template() -> Seq<char> {
    SCAN_TEMPLATE@
}

pub const SCAN_TEMPLATE: &'static str = r#"
find %ROOT% -type f \( -perm -u+x -o -name '*.so' -o -name '*.so.*' \) -print0 \
| xargs -0 -r -n 1 sh -c '
    %READELF% -V "$0" 2>/dev/null | awk -v f="$0" "
        /Version definition section/ { s=\"d\"; next }
        /Version needs section/      { s=\"r\"; next }
        /^Version symbols section/   { s=\"\"; next }
        s == \"d\" && /Flags: BASE/  { if (match(\$0, /Name: [^ ]+/)) { base=substr(\$0, RSTART+6, RLENGTH-6) } ; next }
        s == \"d\" && /Name: /       { if (base != \"\" && match(\$0, /Name: [^ ]+/)) print \"D\t\" base \"\t\" substr(\$0, RSTART+6, RLENGTH-6) ; next }
        s == \"r\" && /File: /       { if (match(\$0, /File: [^ ]+/)) { need=substr(\$0, RSTART+6, RLENGTH-6) } ; next }
        s == \"r\" && /Name: /       { if (need != \"\" && match(\$0, /Name: [^ ]+/)) print \"N\t\" f \"\t\" need \"\t\" substr(\$0, RSTART+6, RLENGTH-6) }
    "
    true'
"#;

/// The scan of the tree at `root` with the cross `readelf`.
pub fn scan_command(root: &str, readelf: &str) -> (r: String)
    ensures
        r@ == text::replace_all(text::replace_all(scan_template(), "%ROOT%"@, root@), "%READELF%"@, readelf@),
{
    proof {
        reveal_strlit("%ROOT%");
        reveal_strlit("%READELF%");
    }
    let a = text::replace_text(SCAN_TEMPLATE, "%ROOT%", root);
    text::replace_text(a.as_str(), "%READELF%", readelf)
}

/// The lines for one unmet requirement: what is missing, then the files
/// named for it.
pub open spec fn unsatisfied_lines(u: Unsatisfied) -> Seq<Seq<char>> {
    seq![
        if u.version@.len() == 0 {
            "    "@ + decimal(u.count as nat) + " binaries need "@ + u.soname@
                + ", which the image does not ship"@
        } else {
            "    "@ + decimal(u.count as nat) + " binaries need "@ + u.version@ + " from "@
                + u.soname@ + ", which this image's copy does not define"@
        },
    ] + u.examples.deep_view().map_values(|p: Seq<char>| "        "@ + p)
}

pub open spec fn all_unsatisfied_lines(us: Seq<Unsatisfied>) -> Seq<Seq<char>>
    decreases us.len(),
{
    if us.len() == 0 {
        seq![]
    } else {
        all_unsatisfied_lines(us.drop_last()) + unsatisfied_lines(us.last())
    }
}

/// What the check prints, and whether the image has a binary that would
/// not start.  A scan with no requirement at all verified nothing and is
/// said so, but is no failure.
pub open spec fn spec_verdict(r: Report) -> (Seq<Seq<char>>, bool) {
    let head = "ABI check: "@ + decimal(r.scanned as nat) + " binaries against "@
        + decimal(r.libraries as nat) + " versioned libraries in the image"@;
    if r.scanned == 0 {
        (seq![head, "    no binary carried a version requirement; nothing was verified"@], false)
    } else if r.unsatisfied@.len() == 0 {
        (seq![head, "    every symbol version the image asks for, the image provides"@], false)
    } else {
        (seq![head] + all_unsatisfied_lines(r.unsatisfied@), true)
    }
}

fn unsatisfied_text(u: &Unsatisfied) -> (r: Vec<String>)
    ensures
        r.deep_view() == unsatisfied_lines(*u),
{
    let mut out: Vec<String> = Vec::new();
    let n = decimal_string(u.count as u64);
    let first = if u.version.as_str().unicode_len() == 0 {
        let a = text::concat3("    ", n.as_str(), " binaries need ");
        text::concat3(a.as_str(), u.soname.as_str(), ", which the image does not ship")
    } else {
        let a = text::concat3("    ", n.as_str(), " binaries need ");
        let b = text::concat3(a.as_str(), u.version.as_str(), " from ");
        text::concat3(b.as_str(), u.soname.as_str(), ", which this image's copy does not define")
    };
    out.push(first);
    let ghost ev = u.examples.deep_view();
    let ghost head = out.deep_view();
    let mut i: usize = 0;
    while i < u.examples.len()
        invariant
            i <= u.examples@.len(),
            ev == u.examples.deep_view(),
            out.deep_view() == head + ev.take(i as int).map_values(|p: Seq<char>| "        "@ + p),
        decreases u.examples@.len() - i,
    {
        let ghost o = out.deep_view();
        let line = text::concat("        ", u.examples[i].as_str());
        out.push(line);
        assert(ev[i as int] == u.examples@[i as int]@);
        assert(ev.take(i + 1).map_values(|p: Seq<char>| "        "@ + p) =~= ev.take(i as int).map_values(
            |p: Seq<char>| "        "@ + p,
        ).push("        "@ + ev[i as int]));
        assert(out.deep_view() =~= o.push("        "@ + ev[i as int]));
        i = i + 1;
    }
    assert(ev.take(i as int) =~= ev);
    assert(out.deep_view() =~= unsatisfied_lines(*u));
    out
}

/// The lines to print for a report, and whether the image would fail to
/// start one of its binaries.
pub fn verdict(report: &Report) -> (r: (Vec<String>, bool))
    ensures
        r.0.deep_view() == spec_verdict(*report).0,
        r.1 == spec_verdict(*report).1,
{
    let a = text::concat3("ABI check: ", decimal_string(report.scanned as u64).as_str(), " binaries against ");
    let head = text::concat3(
        a.as_str(),
        decimal_string(report.libraries as u64).as_str(),
        " versioned libraries in the image",
    );
    let mut out: Vec<String> = Vec::new();
    out.push(head);
    if report.scanned == 0 {
        out.push(text::owned("    no binary carried a version requirement; nothing was verified"));
        assert(out.deep_view() =~= spec_verdict(*report).0);
        return (out, false);
    }
    if report.unsatisfied.len() == 0 {
        out.push(text::owned("    every symbol version the image asks for, the image provides"));
        assert(out.deep_view() =~= spec_verdict(*report).0);
        return (out, false);
    }
    let ghost us = report.unsatisfied@;
    let ghost h = out.deep_view();
    let mut i: usize = 0;
    assert(us.take(0) =~= Seq::<Unsatisfied>::empty());
    assert(h + all_unsatisfied_lines(us.take(0)) =~= h);
    while i < report.unsatisfied.len()
        invariant
            i <= us.len(),
            us == report.unsatisfied@,
            out.deep_view() == h + all_unsatisfied_lines(us.take(i as int)),
        decreases us.len() - i,
    {
        let more = unsatisfied_text(&report.unsatisfied[i]);
        let ghost o = out.deep_view();
        let mut j: usize = 0;
        while j < more.len()
            invariant
                j <= more@.len(),
                out.deep_view() == o + more.deep_view().take(j as int),
            decreases more@.len() - j,
        {
            let ghost oo = out.deep_view();
            out.push(crate::text::copy_string(&more[j]));
            assert(out.deep_view() =~= oo.push(more@[j as int]@));
            assert(more.deep_view()[j as int] == more@[j as int]@);
            assert(more.deep_view().take(j + 1) =~= more.deep_view().take(j as int).push(more@[j as int]@));
            assert(out.deep_view() =~= o + more.deep_view().take(j + 1));
            j = j + 1;
        }
        assert(more.deep_view().take(j as int) =~= more.deep_view());
        assert(us.take(i + 1).drop_last() =~= us.take(i as int));
        assert(us.take(i + 1).last() == us[i as int]);
        assert(out.deep_view() =~= h + all_unsatisfied_lines(us.take(i + 1)));
        i = i + 1;
    }
    assert(us.take(i as int) =~= us);
    assert(out.deep_view() =~= spec_verdict(*report).0);
    (out, true)
}

} // verus!
