//! Housekeeping decisions: which downloaded stage3 tarballs are superseded,
//! and what cleaning up and recovering report.
use vstd::prelude::*;
use crate::hash::{decimal, decimal_string};
use crate::text;
use crate::text::{chars_of, concat, concat3, owned, slice_of, string_of};

verus! {

/// The arch a stage3 tarball is for: what follows `stage3-` up to the next
/// `-`, or `unknown` for a file not named like a stage3.
pub open spec fn spec_stage_arch(name: Seq<char>) -> Seq<char> {
    match text::strip_prefix(name, "stage3-"@) {
        Some(rest) => match text::split_once(rest, '-') {
            Some(p) => p.0,
            None => rest,
        },
        None => "unknown"@,
    }
}

pub fn stage_arch(name: &str) -> (r: String)
    ensures
        r@ == spec_stage_arch(name@),
{
    let cs = chars_of(name);
    let pre = chars_of("stage3-");
    if !text::starts_with_chars(cs.as_slice(), pre.as_slice()) {
        return owned("unknown");
    }
    let n = cs.len();
    let rest = slice_of(cs.as_slice(), pre.len(), n);
    assert(rest@ =~= name@.skip(pre@.len() as int));
    match text::find_char(rest.as_slice(), '-') {
        Some(i) => {
            let a = slice_of(rest.as_slice(), 0, i);
            assert(a@ =~= rest@.take(i as int));
            string_of(a.as_slice())
        },
        None => string_of(rest.as_slice()),
    }
}

/// The tarball at `i` is the one kept for its arch: no tarball of that arch
/// is newer, and none as new comes before it.
pub open spec fn kept(s: Seq<(String, u128)>, i: int) -> bool {
    forall|j: int|
        0 <= j < s.len() && spec_stage_arch(#[trigger] s[j].0@) == spec_stage_arch(s[i].0@) ==> s[j].1 < s[i].1
            || (s[j].1 == s[i].1 && i <= j)
}

/// The names of the tarballs among the first `n` of `s` that are not kept,
/// in order.
pub open spec fn stale_prefix(s: Seq<(String, u128)>, n: int) -> Seq<Seq<char>>
    decreases n,
{
    if n <= 0 {
        seq![]
    } else if kept(s, n - 1) {
        stale_prefix(s, n - 1)
    } else {
        stale_prefix(s, n - 1).push(s[n - 1].0@)
    }
}

/// The stage3 tarballs `files` (name and modification time) to remove:
/// for each arch every one but the newest, in the order given.
pub fn stale_stages(files: &Vec<(String, u128)>) -> (r: Vec<String>)
    ensures
        r.deep_view() == stale_prefix(files@, files@.len() as int),
{
    let mut arches: Vec<String> = Vec::new();
    let mut k: usize = 0;
    while k < files.len()
        invariant
            k <= files@.len(),
            arches@.len() == k,
            forall|m: int| 0 <= m < k ==> #[trigger] arches@[m]@ == spec_stage_arch(files@[m].0@),
        decreases files@.len() - k,
    {
        arches.push(stage_arch(files[k].0.as_str()));
        k = k + 1;
    }
    let mut out: Vec<String> = Vec::new();
    let mut i: usize = 0;
    while i < files.len()
        invariant
            i <= files@.len(),
            arches@.len() == files@.len(),
            forall|m: int| 0 <= m < files@.len() ==> #[trigger] arches@[m]@ == spec_stage_arch(files@[m].0@),
            out.deep_view() == stale_prefix(files@, i as int),
        decreases files@.len() - i,
    {
        let mut keep = true;
        let mut j: usize = 0;
        while j < files.len()
            invariant
                j <= files@.len(),
                i < files@.len(),
                arches@.len() == files@.len(),
                forall|m: int| 0 <= m < files@.len() ==> #[trigger] arches@[m]@ == spec_stage_arch(files@[m].0@),
                keep == forall|m: int|
                    0 <= m < j && spec_stage_arch(#[trigger] files@[m].0@) == spec_stage_arch(files@[i as int].0@)
                        ==> files@[m].1 < files@[i as int].1 || (files@[m].1 == files@[i as int].1 && i <= m),
            decreases files@.len() - j,
        {
            assert(arches@[j as int]@ == spec_stage_arch(files@[j as int].0@));
            assert(arches@[i as int]@ == spec_stage_arch(files@[i as int].0@));
            if text::string_eq(&arches[j], &arches[i]) {
                let newer = files[j].1 > files[i].1 || (files[j].1 == files[i].1 && j < i);
                if newer {
                    keep = false;
                }
            }
            j = j + 1;
        }
        assert(keep == kept(files@, i as int));
        if !keep {
            let ghost o = out.deep_view();
            out.push(text::copy_string(&files[i].0));
            assert(out.deep_view() =~= o.push(files@[i as int].0@));
        }
        i = i + 1;
    }
    out
}

/// What removing (or, in a dry run, not yet removing) one item reports.
pub fn removal_line(kind: &str, name: &str, dry_run: bool) -> (r: String)
    ensures
        r@ == (if dry_run { "Would remove "@ } else { "Removed "@ }) + kind@ + ": "@ + name@,
{
    let head = if dry_run {
        "Would remove "
    } else {
        "Removed "
    };
    let a = concat3(head, kind, ": ");
    concat(a.as_str(), name)
}

/// The closing line of a default clean-up of `total` items.
pub fn cleanup_total_line(total: u64, dry_run: bool) -> (r: String)
    ensures
        r@ == decimal(total as nat) + (if dry_run {
            " item(s) would be removed."@
        } else {
            " item(s) cleaned up."@
        }),
{
    let tail = if dry_run {
        " item(s) would be removed."
    } else {
        " item(s) cleaned up."
    };
    concat(decimal_string(total).as_str(), tail)
}

/// What recovering stale sandbox mounts reports, given how many it found.
pub open spec fn recover_text(count: u64, dry_run: bool) -> Seq<char> {
    if count == 0 {
        "No stale sandbox mounts found."@
    } else if dry_run {
        decimal(count as nat) + " stale mount(s) would be unmounted."@
    } else {
        "Recovered "@ + decimal(count as nat) + " stale mount(s)."@
    }
}

pub fn recover_message(count: u64, dry_run: bool) -> (r: String)
    ensures
        r@ == recover_text(count, dry_run),
{
    if count == 0 {
        owned("No stale sandbox mounts found.")
    } else if dry_run {
        concat(decimal_string(count).as_str(), " stale mount(s) would be unmounted.")
    } else {
        concat3("Recovered ", decimal_string(count).as_str(), " stale mount(s).")
    }
}

} // verus!

verus! {

/// At most one tarball of an arch is kept.
pub proof fn law_one_stage3_kept_per_arch(s: Seq<(String, u128)>, i: int, j: int)
    requires
        0 <= i < s.len(),
        0 <= j < s.len(),
        kept(s, i),
        kept(s, j),
        spec_stage_arch(s[i].0@) == spec_stage_arch(s[j].0@),
    ensures
        i == j,
{
    assert(spec_stage_arch(s[j].0@) == spec_stage_arch(s[i].0@));
    assert(s[j].1 < s[i].1 || (s[j].1 == s[i].1 && i <= j));
    assert(s[i].1 < s[j].1 || (s[i].1 == s[j].1 && j <= i));
}

/// The index of a tarball of the same arch as `s[i]` that is at least as
/// new as every such tarball among the first `n`, and comes first among
/// those that are as new.
pub open spec fn newest_of_arch(s: Seq<(String, u128)>, i: int, n: int) -> int
    decreases n,
{
    if n <= 0 {
        i
    } else {
        let b = newest_of_arch(s, i, n - 1);
        let k = n - 1;
        if spec_stage_arch(s[k].0@) == spec_stage_arch(s[i].0@) && (s[k].1 > s[b].1 || (s[k].1 == s[b].1 && k < b)) {
            k
        } else {
            b
        }
    }
}

proof fn lemma_newest_of_arch(s: Seq<(String, u128)>, i: int, n: int)
    requires
        0 <= i < s.len(),
        0 <= n <= s.len(),
    ensures
        0 <= newest_of_arch(s, i, n) < s.len(),
        spec_stage_arch(s[newest_of_arch(s, i, n)].0@) == spec_stage_arch(s[i].0@),
        s[newest_of_arch(s, i, n)].1 >= s[i].1,
        forall|j: int|
            0 <= j < n && spec_stage_arch(#[trigger] s[j].0@) == spec_stage_arch(s[i].0@) ==> s[j].1 < s[newest_of_arch(
                s,
                i,
                n,
            )].1 || (s[j].1 == s[newest_of_arch(s, i, n)].1 && newest_of_arch(s, i, n) <= j),
        newest_of_arch(s, i, n) == i || newest_of_arch(s, i, n) < n,
    decreases n,
{
    if n > 0 {
        lemma_newest_of_arch(s, i, n - 1);
    }
}

/// Every arch that has a tarball keeps one.
pub proof fn law_every_arch_keeps_its_newest(s: Seq<(String, u128)>, i: int)
    requires
        0 <= i < s.len(),
    ensures
        exists|j: int| 0 <= j < s.len() && kept(s, j) && spec_stage_arch(s[j].0@) == spec_stage_arch(s[i].0@),
{
    let b = newest_of_arch(s, i, s.len() as int);
    lemma_newest_of_arch(s, i, s.len() as int);
    assert(kept(s, b));
}

} // verus!
