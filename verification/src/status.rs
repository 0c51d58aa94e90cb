//! What `status` says of things it finds: a sandbox's state, a build's, and
//! the sources a build's lock resolved, for people and for scripts.
use vstd::prelude::*;
use crate::chroot::{join_strings, joined};
use crate::text;
use crate::text::{chars_of, concat, concat3, owned, slice_of, string_of};

verus! {

/// A sandbox's state: prepared for building, prepared bare, or only
/// unpacked.
pub fn sandbox_state(prepared: bool, bare_prepared: bool) -> (r: &'static str)
    ensures
        r@ == (if prepared {
            "prepared"@
        } else if bare_prepared {
            "bare"@
        } else {
            "unpacked"@
        }),
{
    if prepared {
        "prepared"
    } else if bare_prepared {
        "bare"
    } else {
        "unpacked"
    }
}

/// A build's state: packed into an image, or not finished.
pub fn build_state(packed: bool) -> (r: &'static str)
    ensures
        r@ == (if packed { "packed"@ } else { "incomplete"@ }),
{
    if packed {
        "packed"
    } else {
        "incomplete"
    }
}

/// A source of a build's lock: name, tag, the commit it resolved to, and
/// its kind where recorded.
#[derive(Debug, Clone)]
pub struct LockEntry {
    pub name: String,
    pub tag: String,
    pub commit: String,
    pub kind: Option<String>,
}

/// A tag that follows a branch rather than pinning a release.
pub open spec fn is_branch_tag(tag: Seq<char>) -> bool {
    tag == "master"@ || tag == "main"@ || tag == "trunk"@ || tag == "HEAD"@
}

/// How a source shows for people: `<name> <tag>@<first 8 of commit>`, with
/// `*` after a tag that follows a branch.
pub open spec fn source_text(e: LockEntry) -> Seq<char> {
    e.name@ + " "@ + e.tag@ + "@"@ + (if e.commit@.len() > 8 {
        e.commit@.take(8)
    } else {
        e.commit@
    }) + (if is_branch_tag(e.tag@) {
        "*"@
    } else {
        ""@
    })
}

fn source_part(e: &LockEntry) -> (r: String)
    ensures
        r@ == source_text(*e),
{
    let cs = chars_of(e.commit.as_str());
    let short = if cs.len() > 8 {
        let t = slice_of(cs.as_slice(), 0, 8);
        string_of(t.as_slice())
    } else {
        owned(e.commit.as_str())
    };
    let t = e.tag.as_str();
    let branch = text::text_eq(t, "master") || text::text_eq(t, "main") || text::text_eq(t, "trunk") || text::text_eq(
        t,
        "HEAD",
    );
    let a = concat3(e.name.as_str(), " ", t);
    let b = concat3(a.as_str(), "@", short.as_str());
    concat(b.as_str(), if branch { "*" } else { "" })
}

/// The line naming a build's sources, in the lock's order.
pub open spec fn sources_text(s: Seq<LockEntry>) -> Seq<char> {
    "      sources: "@ + joined(s.map_values(|e: LockEntry| source_text(e)), " | "@)
}

pub fn sources_line(sources: &Vec<LockEntry>) -> (r: String)
    ensures
        r@ == sources_text(sources@),
{
    let mut parts: Vec<String> = Vec::new();
    let mut i: usize = 0;
    while i < sources.len()
        invariant
            i <= sources@.len(),
            parts.deep_view() == sources@.take(i as int).map_values(|e: LockEntry| source_text(e)),
        decreases sources@.len() - i,
    {
        let ghost o = parts.deep_view();
        parts.push(source_part(&sources[i]));
        assert(sources@.take(i + 1).map_values(|e: LockEntry| source_text(e)) =~= o.push(
            source_text(sources@[i as int]),
        ));
        i = i + 1;
    }
    assert(sources@.take(i as int) =~= sources@);
    concat("      sources: ", join_strings(&parts, " | ").as_str())
}

/// The rows naming a build's sources for scripts, one per source:
/// `source`, the build, name, tag, commit and kind (`unknown` where none
/// was recorded), separated by tabs.
pub open spec fn source_row_text(build_id: Seq<char>, e: LockEntry) -> Seq<char> {
    "source\t"@ + build_id + "\t"@ + e.name@ + "\t"@ + e.tag@ + "\t"@ + e.commit@ + "\t"@ + match e.kind {
        Some(k) => k@,
        None => "unknown"@,
    }
}

pub fn source_rows(build_id: &str, sources: &Vec<LockEntry>) -> (r: Vec<String>)
    ensures
        r.deep_view() == sources@.map_values(|e: LockEntry| source_row_text(build_id@, e)),
{
    let mut out: Vec<String> = Vec::new();
    let mut i: usize = 0;
    while i < sources.len()
        invariant
            i <= sources@.len(),
            out.deep_view() == sources@.take(i as int).map_values(|e: LockEntry| source_row_text(build_id@, e)),
        decreases sources@.len() - i,
    {
        let e = &sources[i];
        let a = concat3("source\t", build_id, "\t");
        let b = concat3(a.as_str(), e.name.as_str(), "\t");
        let c = concat3(b.as_str(), e.tag.as_str(), "\t");
        let d = concat3(c.as_str(), e.commit.as_str(), "\t");
        let kind = match &e.kind {
            Some(k) => k.as_str(),
            None => "unknown",
        };
        let row = concat(d.as_str(), kind);
        let ghost o = out.deep_view();
        out.push(row);
        assert(sources@.take(i + 1).map_values(|e: LockEntry| source_row_text(build_id@, e)) =~= o.push(
            source_row_text(build_id@, sources@[i as int]),
        ));
        i = i + 1;
    }
    assert(sources@.take(i as int) =~= sources@);
    out
}

} // verus!
