//! The build store's bookkeeping that needs no disk: the default gcc specs
//! the workspace's sandboxes offer, the keys toolchains are stored under,
//! and which stored entries no board can reach any more.
use vstd::prelude::*;
use crate::assemble::{names_sorted, sort_names};
use crate::board::{spec_chost, BoardConfig};
use crate::error::Error;
use crate::stage3::{join_path, path_join};
use crate::text;

verus! {

/// Strictly increasing in byte order: sorted, nothing twice.
pub open spec fn strictly_sorted(s: Seq<Seq<char>>) -> bool {
    forall|i: int, j: int| 0 <= i < j < s.len() ==> text::text_lt(s[i], s[j])
}

/// The default gcc specs of the workspace's sandboxes, as each sandbox
/// reported its own (`specs`): sorted, each once.
pub fn sandbox_default_specs(specs: Vec<String>) -> (r: Vec<String>)
    ensures
        strictly_sorted(r.deep_view()),
        r.deep_view().to_set() == specs.deep_view().to_set(),
{
    let ghost orig = specs.deep_view();
    let sorted = sort_names(specs);
    let ghost sv = sorted.deep_view();
    let mut out: Vec<String> = Vec::new();
    let mut i: usize = 0;
    assert(out.deep_view() =~= Seq::<Seq<char>>::empty());
    assert(sv.take(0) =~= Seq::<Seq<char>>::empty());
    while i < sorted.len()
        invariant
            i <= sv.len(),
            sv == sorted.deep_view(),
            names_sorted(sv),
            strictly_sorted(out.deep_view()),
            out.deep_view().to_set() == sv.take(i as int).to_set(),
            i > 0 ==> out.deep_view().len() > 0 && out.deep_view().last() == sv[i - 1],
            i == 0 ==> out.deep_view().len() == 0,
        decreases sv.len() - i,
    {
        let ghost o = out.deep_view();
        let ghost t0 = sv.take(i as int);
        let ghost t1 = sv.take(i + 1);
        assert(sv[i as int] == sorted@[i as int]@);
        assert(t1 =~= t0.push(sv[i as int]));
        if i > 0 && text::string_eq(&sorted[i], &sorted[i - 1]) {
            assert(sv[i - 1] == sorted@[i - 1]@);
            assert(t1.to_set() =~= t0.to_set()) by {
                assert(t0[i - 1] == sv[i as int]);
                assert forall|y: Seq<char>| t1.to_set().contains(y) implies t0.to_set().contains(y) by {
                    if t1.contains(y) {
                        let k = choose|k: int| 0 <= k < i + 1 && t1[k] == y;
                        if k == i {
                            assert(t0[i - 1] == y);
                        } else {
                            assert(t0[k] == y);
                        }
                    }
                }
                assert forall|y: Seq<char>| t0.to_set().contains(y) implies t1.to_set().contains(y) by {
                    if t0.contains(y) {
                        let k = choose|k: int| 0 <= k < i && t0[k] == y;
                        assert(t1[k] == y);
                    }
                }
            }
        } else {
            proof {
                if i > 0 {
                    assert(sv[i - 1] == sorted@[i - 1]@);
                    assert(!text::text_lt(sv[i as int], sv[i - 1]));
                    text::lemma_text_lt_total(sv[i - 1], sv[i as int]);
                }
            }
            out.push(text::copy_string(&sorted[i]));
            let ghost w = out.deep_view();
            assert(w =~= o.push(sv[i as int]));
            assert forall|a: int, b: int| 0 <= a < b < w.len() implies text::text_lt(w[a], w[b]) by {
                if b == w.len() - 1 && a < b {
                    if a < o.len() - 1 {
                        assert(text::text_lt(o[a], o.last()));
                        text::lemma_text_lt_transitive(o[a], o.last(), sv[i as int]);
                    }
                } else {
                    assert(w[a] == o[a] && w[b] == o[b]);
                }
            }
            assert(w.to_set() =~= o.to_set().insert(sv[i as int])) by {
                assert forall|y: Seq<char>| w.to_set().contains(y) <==> o.to_set().insert(sv[i as int]).contains(y) by {
                    if w.contains(y) {
                        let k = choose|k: int| 0 <= k < w.len() && w[k] == y;
                        if k < o.len() {
                            assert(o[k] == y);
                        }
                    }
                    if o.contains(y) {
                        let k = choose|k: int| 0 <= k < o.len() && o[k] == y;
                        assert(w[k] == y);
                    }
                    if y == sv[i as int] {
                        assert(w[o.len() as int] == y);
                    }
                }
            }
            assert(t1.to_set() =~= t0.to_set().insert(sv[i as int])) by {
                assert forall|y: Seq<char>| t1.to_set().contains(y) <==> t0.to_set().insert(sv[i as int]).contains(y) by {
                    if t1.contains(y) {
                        let k = choose|k: int| 0 <= k < i + 1 && t1[k] == y;
                        if k < i {
                            assert(t0[k] == y);
                        }
                    }
                    if t0.contains(y) {
                        let k = choose|k: int| 0 <= k < i && t0[k] == y;
                        assert(t1[k] == y);
                    }
                    if y == sv[i as int] {
                        assert(t1[i as int] == y);
                    }
                }
            }
        }
        i = i + 1;
    }
    assert(sv.take(i as int) =~= sv);
    proof {
        // the sort kept the same elements
        assert forall|y: Seq<char>| sv.to_set().contains(y) <==> orig.to_set().contains(y) by {
            vstd::seq_lib::to_multiset_contains(sv, y);
            vstd::seq_lib::to_multiset_contains(orig, y);
        }
        assert(sv.to_set() =~= orig.to_set());
    }
    out
}

} // verus!

verus! {

/// Where the toolchain for `chost`, CFLAGS hash `hash` and gcc `spec` lives
/// in the store, relative to it: `<chost>/<hash>-gcc<spec>`.
pub open spec fn spec_store_key(chost: Seq<char>, hash: Seq<char>, spec: Seq<char>) -> Seq<char> {
    path_join(chost, hash + "-gcc"@ + spec)
}

pub fn store_key(chost: &str, hash: &str, spec: &str) -> (r: String)
    ensures
        r@ == spec_store_key(chost@, hash@, spec@),
{
    let leaf = text::concat3(hash, "-gcc", spec);
    join_path(chost, leaf.as_str())
}

/// The store keys `board` may build into, given the hash of its toolchain
/// CFLAGS: its `BOARD_GCC_VERSION` verbatim where set, else one key per
/// default spec the sandboxes offer, in their order.
pub open spec fn spec_board_store_keys(b: BoardConfig, hash: Seq<char>, specs: Seq<Seq<char>>) -> Seq<Seq<char>> {
    match b.gcc_version {
        Some(v) => seq![spec_store_key(spec_chost(b), hash, v@)],
        None => specs.map_values(|s: Seq<char>| spec_store_key(spec_chost(b), hash, s)),
    }
}

pub fn board_store_keys(board: &BoardConfig, hash: &str, default_specs: &Vec<String>) -> (r: Vec<String>)
    ensures
        r.deep_view() == spec_board_store_keys(*board, hash@, default_specs.deep_view()),
{
    let chost = board.chost();
    let mut out: Vec<String> = Vec::new();
    match &board.gcc_version {
        Some(v) => {
            out.push(store_key(chost.as_str(), hash, v.as_str()));
            assert(out.deep_view() =~= spec_board_store_keys(*board, hash@, default_specs.deep_view()));
        },
        None => {
            let ghost sv = default_specs.deep_view();
            let ghost f = |s: Seq<char>| spec_store_key(spec_chost(*board), hash@, s);
            let mut i: usize = 0;
            while i < default_specs.len()
                invariant
                    i <= sv.len(),
                    sv == default_specs.deep_view(),
                    chost@ == spec_chost(*board),
                    f == (|s: Seq<char>| spec_store_key(spec_chost(*board), hash@, s)),
                    out.deep_view() =~= sv.take(i as int).map_values(f),
                decreases sv.len() - i,
            {
                let ghost o = out.deep_view();
                out.push(store_key(chost.as_str(), hash, default_specs[i].as_str()));
                assert(sv[i as int] == default_specs@[i as int]@);
                assert(sv.take(i + 1).map_values(f) =~= sv.take(i as int).map_values(f).push(f(sv[i as int])));
                i = i + 1;
            }
            assert(sv.take(i as int) =~= sv);
        },
    }
    out
}

/// A stored entry: a directory `<chost>/<key>` under the store or the
/// binary package cache, and whether it was finished.
#[derive(Debug, Clone)]
pub struct StoreEntry {
    pub chost: String,
    /// `<cflags-hash>-gcc<spec>` in the store, bare `<cflags-hash>` in the
    /// binary package cache.
    pub key: String,
    pub complete: bool,
    pub path: String,
}

pub open spec fn rel_key_of(e: StoreEntry) -> Seq<char> {
    path_join(e.chost@, e.key@)
}

impl StoreEntry {
    /// The entry's path relative to the walked root, as store keys are.
    pub fn rel_key(&self) -> (r: String)
        ensures
            r@ == rel_key_of(*self),
    {
        join_path(self.chost.as_str(), self.key.as_str())
    }
}

/// The entries of `s` whose relative key `live` does not hold, in order.
pub open spec fn unused_of(s: Seq<StoreEntry>, live: Seq<Seq<char>>) -> Seq<StoreEntry>
    decreases s.len(),
{
    if s.len() == 0 {
        seq![]
    } else if live.contains(rel_key_of(s.last())) {
        unused_of(s.drop_last(), live)
    } else {
        unused_of(s.drop_last(), live).push(s.last())
    }
}

fn holds(v: &Vec<String>, x: &String) -> (r: bool)
    ensures
        r == v.deep_view().contains(x@),
{
    let ghost dv = v.deep_view();
    let mut i: usize = 0;
    while i < v.len()
        invariant
            i <= dv.len(),
            dv == v.deep_view(),
            forall|k: int| 0 <= k < i ==> dv[k] != x@,
        decreases dv.len() - i,
    {
        if text::string_eq(&v[i], x) {
            assert(dv[i as int] == x@);
            return true;
        }
        i = i + 1;
    }
    false
}

/// The entries no live key names: what a garbage collection may remove.
pub fn unused_entries(entries: Vec<StoreEntry>, live: &Vec<String>) -> (r: Vec<StoreEntry>)
    ensures
        r@ == unused_of(entries@, live.deep_view()),
{
    let ghost ev = entries@;
    let mut rest = entries;
    let n: usize = rest.len();
    let mut out: Vec<StoreEntry> = Vec::new();
    let mut i: usize = 0;
    assert(ev.take(0) =~= Seq::<StoreEntry>::empty());
    assert(ev.skip(0) =~= ev);
    while rest.len() > 0
        invariant
            i <= ev.len(),
            rest@ == ev.skip(i as int),
            rest@.len() == ev.len() - i,
            ev.len() == n,
            out@ == unused_of(ev.take(i as int), live.deep_view()),
        decreases rest@.len(),
    {
        assert(ev.take(i + 1).drop_last() =~= ev.take(i as int));
        let e = rest.remove(0);
        assert(e == ev[i as int]);
        assert(rest@ =~= ev.skip(i + 1));
        let k = e.rel_key();
        if !holds(live, &k) {
            out.push(e);
        }
        i = i + 1;
    }
    assert(ev.take(i as int) =~= ev);
    out
}

/// What the project's boards can still reach: store keys and binary
/// package cache directories.
#[derive(Debug)]
pub struct LiveSet {
    pub store: Vec<String>,
    pub binpkgs: Vec<String>,
}

pub open spec fn refuse_gc_msg(boards_root: Seq<char>) -> Seq<char> {
    "no boards found under "@ + boards_root + "; refusing to gc"@
}

/// Refuse to collect against an empty live set: no boards were found, and
/// every stored entry would count as unused.
pub fn ensure_live_nonempty(live: &LiveSet, boards_root: &str) -> (r: Result<(), Error>)
    ensures
        r is Ok <==> live.store@.len() > 0,
        r matches Err(e) ==> (e matches Error::CommandFailed { code, reason } && code == 1
            && reason@ == refuse_gc_msg(boards_root@)),
{
    if live.store.len() == 0 {
        return Err(
            Error::CommandFailed {
                code: 1,
                reason: text::concat3("no boards found under ", boards_root, "; refusing to gc"),
            },
        );
    }
    Ok(())
}

} // verus!

verus! {

/// A garbage collection never takes an entry whose key is live, and takes
/// every entry whose key is not.
pub proof fn law_live_entries_are_never_collected(s: Seq<StoreEntry>, live: Seq<Seq<char>>)
    ensures
        forall|k: int| 0 <= k < unused_of(s, live).len() ==> !live.contains(rel_key_of(#[trigger] unused_of(s, live)[k])),
        forall|k: int| 0 <= k < s.len() && !live.contains(rel_key_of(#[trigger] s[k])) ==> unused_of(s, live).contains(s[k]),
    decreases s.len(),
{
    if s.len() > 0 {
        let p = s.drop_last();
        law_live_entries_are_never_collected(p, live);
        let u = unused_of(s, live);
        let up = unused_of(p, live);
        assert forall|k: int| 0 <= k < u.len() implies !live.contains(rel_key_of(#[trigger] u[k])) by {
            if k < up.len() {
                assert(u[k] == up[k]);
            }
        }
        assert forall|k: int| 0 <= k < s.len() && !live.contains(rel_key_of(#[trigger] s[k])) implies u.contains(s[k]) by {
            if k < p.len() {
                assert(p[k] == s[k]);
                let j = choose|j: int| 0 <= j < up.len() && up[j] == p[k];
                assert(u[j] == up[j]);
            } else {
                assert(u[u.len() - 1] == s[k]);
            }
        }
    }
}

} // verus!

verus! {

/// What `status` says of the store a board resolves to, given the keys it
/// may build into: `unknown` without any key (no gcc spec could be
/// resolved), `ready` where one of its entries is complete, `partial`
/// where one exists but none is complete, `missing` where none exists.
pub open spec fn spec_store_state(keys: Seq<Seq<char>>, stores: Seq<StoreEntry>) -> Seq<char> {
    if keys.len() == 0 {
        "unknown"@
    } else if exists|i: int| 0 <= i < stores.len() && keys.contains(rel_key_of(stores[i])) && stores[i].complete {
        "ready"@
    } else if exists|i: int| 0 <= i < stores.len() && keys.contains(rel_key_of(stores[i])) {
        "partial"@
    } else {
        "missing"@
    }
}

pub fn board_store_state(keys: &Vec<String>, stores: &Vec<StoreEntry>) -> (r: &'static str)
    ensures
        r@ == spec_store_state(keys.deep_view(), stores@),
{
    if keys.len() == 0 {
        return "unknown";
    }
    let mut any = false;
    let mut complete = false;
    let mut i: usize = 0;
    while i < stores.len()
        invariant
            i <= stores@.len(),
            any == exists|k: int| 0 <= k < i && keys.deep_view().contains(rel_key_of(#[trigger] stores@[k])),
            complete == exists|k: int|
                0 <= k < i && keys.deep_view().contains(rel_key_of(#[trigger] stores@[k])) && stores@[k].complete,
        decreases stores@.len() - i,
    {
        let k = stores[i].rel_key();
        if holds(keys, &k) {
            any = true;
            if stores[i].complete {
                complete = true;
            }
        }
        i = i + 1;
    }
    if complete {
        "ready"
    } else if any {
        "partial"
    } else {
        "missing"
    }
}

} // verus!

verus! {

// ── Listing the store ───────────────────────────────────────────────────────

/// `s` padded with spaces on the right to `width` characters, as `{:<w}`
/// formats it.
pub open spec fn padded(s: Seq<char>, width: nat) -> Seq<char> {
    if s.len() >= width {
        s
    } else {
        s + Seq::new((width - s.len()) as nat, |i: int| ' ')
    }
}

pub fn pad_right(s: &str, width: usize) -> (r: String)
    ensures
        r@ == padded(s@, width as nat),
{
    let mut out = text::owned(s);
    let n = s.unicode_len();
    if n >= width {
        return out;
    }
    let mut k: usize = n;
    while k < width
        invariant
            n <= k <= width,
            n == s@.len(),
            out@ == s@ + Seq::new((k - n) as nat, |i: int| ' '),
        decreases width - k,
    {
        out.push(' ');
        assert(s@ + Seq::new((k + 1 - n) as nat, |i: int| ' ') =~= (s@ + Seq::new((k - n) as nat, |i: int| ' ')).push(
            ' ',
        ));
        k = k + 1;
    }
    out
}

/// A stored toolchain as `store list` shows it: its chost and key in
/// columns, then whether it is complete.
pub fn store_line(chost: &str, key: &str, complete: bool) -> (r: String)
    ensures
        r@ == "  "@ + padded(chost@, 32) + " "@ + padded(key@, 34) + " "@ + (if complete {
            "complete"@
        } else {
            "partial"@
        }),
{
    let a = text::concat3("  ", pad_right(chost, 32).as_str(), " ");
    let b = text::concat3(a.as_str(), pad_right(key, 34).as_str(), " ");
    text::concat(b.as_str(), if complete { "complete" } else { "partial" })
}

/// The heading of the unused store entries a collection found.
pub fn unused_store_heading(n: u64) -> (r: String)
    ensures
        r@ == crate::hash::decimal(n as nat) + " unused store entr"@ + (if n == 1 { "y:"@ } else { "ies:"@ }),
{
    text::concat3(crate::hash::decimal_string(n).as_str(), " unused store entr", if n == 1 { "y:" } else { "ies:" })
}

/// The heading of the unused binary package caches a collection found.
pub fn unused_binpkg_heading(n: u64) -> (r: String)
    ensures
        r@ == crate::hash::decimal(n as nat) + " unused binpkg cache"@ + (if n == 1 { ":"@ } else { "s:"@ }),
{
    text::concat3(crate::hash::decimal_string(n).as_str(), " unused binpkg cache", if n == 1 { ":" } else { "s:" })
}

/// The closing line of a collection that removed `removed` of `total`.
pub fn removed_line(removed: u64, total: u64) -> (r: String)
    ensures
        r@ == "\nRemoved "@ + crate::hash::decimal(removed as nat) + "/"@ + crate::hash::decimal(total as nat)
            + " entries."@,
{
    let a = text::concat3("\nRemoved ", crate::hash::decimal_string(removed).as_str(), "/");
    text::concat3(a.as_str(), crate::hash::decimal_string(total).as_str(), " entries.")
}

/// A toolchain package `store list` names: the compiler, the C library and
/// the binutils.
pub open spec fn is_shown_tool(pkg: Seq<char>) -> bool {
    pkg == "gcc"@ || pkg == "glibc"@ || pkg == "binutils"@
}

/// The `pkg version` texts of the shown packages of `s`, in order.
pub open spec fn shown_tools(s: Seq<(Seq<char>, Seq<char>)>) -> Seq<Seq<char>>
    decreases s.len(),
{
    if s.len() == 0 {
        seq![]
    } else if is_shown_tool(s.last().0) {
        shown_tools(s.drop_last()).push(s.last().0 + " "@ + s.last().1)
    } else {
        shown_tools(s.drop_last())
    }
}

/// What built a binary package cache, as `store list` says it: the
/// compiler, C library and binutils of its stamp, as `pkg version`, sorted.
pub fn built_by_line(stamp: &crate::binpkg_meta::Toolchain) -> (r: String)
    ensures
        exists|v: Seq<Seq<char>>|
            crate::assemble::names_sorted(v) && v.to_multiset() == shown_tools(stamp.view_entries()).to_multiset()
                && r@ == "      built by "@ + crate::chroot::joined(v, ", "@),
{
    let es = stamp.entries();
    let ghost ev = stamp.view_entries();
    let mut shown: Vec<String> = Vec::new();
    let mut i: usize = 0;
    assert(ev.take(0) =~= Seq::<(Seq<char>, Seq<char>)>::empty());
    while i < es.len()
        invariant
            i <= es@.len(),
            ev == es@.map_values(|e: (String, String)| (e.0@, e.1@)),
            shown.deep_view() == shown_tools(ev.take(i as int)),
        decreases es@.len() - i,
    {
        assert(ev.take(i + 1).drop_last() =~= ev.take(i as int));
        assert(ev.take(i + 1).last() == (es@[i as int].0@, es@[i as int].1@));
        let p = es[i].0.as_str();
        if text::text_eq(p, "gcc") || text::text_eq(p, "glibc") || text::text_eq(p, "binutils") {
            let ghost o = shown.deep_view();
            shown.push(text::concat3(p, " ", es[i].1.as_str()));
            assert(shown.deep_view() =~= o.push(es@[i as int].0@ + " "@ + es@[i as int].1@));
        }
        i = i + 1;
    }
    assert(ev.take(i as int) =~= ev);
    let sorted = sort_names(shown);
    text::concat("      built by ", crate::chroot::join_strings(&sorted, ", ").as_str())
}

} // verus!
