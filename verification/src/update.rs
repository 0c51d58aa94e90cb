//! The `update` command's decisions: where a source's cached clone lives,
//! how a commit is shortened, and what is said of a source whose branch
//! moved past the commit a build locked.
use vstd::prelude::*;
use crate::hash::{decimal, decimal_string};
use crate::num::{parse_u64, parse_u64_text, ParsedU64};
use crate::stage3::{join_path, path_join};
use crate::text;
use crate::text::{chars_of, concat, concat3, copy_string, lines_of, owned, slice_of, string_of};

verus! {

/// `s` with every trailing `p` removed (`str::trim_end_matches` with a
/// string pattern).
pub open spec fn trim_end_text(s: Seq<char>, p: Seq<char>) -> Seq<char>
    decreases s.len(),
{
    if p.len() > 0 && text::ends_with(s, p) {
        trim_end_text(s.take(s.len() - p.len()), p)
    } else {
        s
    }
}

/// Index of the last `://` in `s`, or -1.
pub open spec fn last_scheme_sep(s: Seq<char>) -> int
    decreases s.len(),
{
    if s.len() < 3 {
        -1
    } else if s[s.len() - 3] == ':' && s[s.len() - 2] == '/' && s[s.len() - 1] == '/' {
        s.len() - 3
    } else {
        last_scheme_sep(s.drop_last())
    }
}

/// The name of a repo's cached clone: `<owner>-<name>` from its URL (a
/// trailing `/` and `.git` dropped), else `fallback`.
pub open spec fn spec_cache_name(repo: Seq<char>, fallback: Seq<char>) -> Seq<char> {
    let stripped = trim_end_text(text::trim_end_in(repo, '/', '/'), ".git"@);
    let i = last_scheme_sep(stripped);
    if i < 0 {
        fallback
    } else {
        let parts = text::split(stripped.skip(i + 3), '/');
        if parts.len() >= 2 {
            parts[parts.len() - 2] + "-"@ + parts[parts.len() - 1]
        } else {
            fallback
        }
    }
}

fn trim_end_git(s: &[char]) -> (r: Vec<char>)
    ensures
        r@ == trim_end_text(s@, ".git"@),
{
    let suf = chars_of(".git");
    proof {
        reveal_strlit(".git");
    }
    let mut cur: Vec<char> = slice_of(s, 0, s.len());
    assert(cur@ =~= s@);
    while text::ends_with_chars(cur.as_slice(), suf.as_slice())
        invariant
            suf@ == ".git"@,
            ".git"@.len() == 4,
            trim_end_text(cur@, ".git"@) == trim_end_text(s@, ".git"@),
        decreases cur@.len(),
    {
        let n = cur.len() - 4;
        let next = slice_of(cur.as_slice(), 0, n);
        assert(next@ =~= cur@.take(cur@.len() - 4));
        cur = next;
    }
    cur
}

fn find_last_scheme_sep(s: &[char]) -> (r: Option<usize>)
    ensures
        match r {
            Some(i) => i as int == last_scheme_sep(s@) && i + 3 <= s@.len(),
            None => last_scheme_sep(s@) < 0,
        },
{
    let mut n: usize = s.len();
    assert(s@.take(n as int) =~= s@);
    while n >= 3
        invariant
            n <= s@.len(),
            last_scheme_sep(s@) == last_scheme_sep(s@.take(n as int)),
        decreases n,
    {
        let ghost t = s@.take(n as int);
        assert(t[n - 3] == s@[n - 3] && t[n - 2] == s@[n - 2] && t[n - 1] == s@[n - 1]);
        if s[n - 3] == ':' && s[n - 2] == '/' && s[n - 1] == '/' {
            return Some(n - 3);
        }
        assert(t.drop_last() =~= s@.take(n - 1));
        n = n - 1;
    }
    None
}

/// The name of `repo`'s cached clone.
pub fn repo_cache_name(repo: &str, fallback: &str) -> (r: String)
    ensures
        r@ == spec_cache_name(repo@, fallback@),
{
    let cs = chars_of(repo);
    let a = text::trim_end_in_chars(cs.as_slice(), '/', '/');
    let stripped = trim_end_git(a.as_slice());
    match find_last_scheme_sep(stripped.as_slice()) {
        None => owned(fallback),
        Some(i) => {
            let n = stripped.len();
            let path = slice_of(stripped.as_slice(), i + 3, n);
            assert(path@ =~= stripped@.skip(i + 3));
            let parts = text::split_of(path.as_slice(), '/');
            let ghost pv = parts@.map_values(|l: Vec<char>| l@);
            if parts.len() >= 2 {
                let k = parts.len();
                assert(pv[k - 2] == parts@[k - 2]@ && pv[k - 1] == parts@[k - 1]@);
                let owner = string_of(parts[k - 2].as_slice());
                let name = string_of(parts[k - 1].as_slice());
                concat3(owner.as_str(), "-", name.as_str())
            } else {
                owned(fallback)
            }
        },
    }
}

/// Where `repo`'s cached clone lives under `sources_dir`.
pub fn repo_cache_dir(sources_dir: &str, repo: &str, fallback: &str) -> (r: String)
    ensures
        r@ == path_join(sources_dir@, spec_cache_name(repo@, fallback@) + ".git"@),
{
    let name = repo_cache_name(repo, fallback);
    let file = concat(name.as_str(), ".git");
    join_path(sources_dir, file.as_str())
}

/// A commit shortened to its first twelve characters.
pub open spec fn spec_short(commit: Seq<char>) -> Seq<char> {
    if commit.len() > 12 {
        commit.take(12)
    } else {
        commit
    }
}

pub fn short(commit: &str) -> (r: String)
    ensures
        r@ == spec_short(commit@),
{
    let cs = chars_of(commit);
    if cs.len() > 12 {
        let t = slice_of(cs.as_slice(), 0, 12);
        string_of(t.as_slice())
    } else {
        owned(commit)
    }
}

/// The refspecs tried for a lock's tag, which may name a tag, a branch, or
/// both.
pub fn tag_refspecs(tag: &str) -> (r: (String, String))
    ensures
        r.0@ == "refs/tags/"@ + tag@ + ":refs/tags/"@ + tag@,
        r.1@ == "refs/heads/"@ + tag@ + ":refs/heads/"@ + tag@,
{
    let a = concat3("refs/tags/", tag, ":refs/tags/");
    let b = concat3("refs/heads/", tag, ":refs/heads/");
    (concat(a.as_str(), tag), concat(b.as_str(), tag))
}

/// How many commits `git rev-list --count` reported; output that is no
/// number counts as none.
pub open spec fn commit_count(out: Seq<char>) -> u64 {
    match parse_u64(text::trim(out)) {
        ParsedU64::Value(n) => n,
        _ => 0,
    }
}

/// What is said of a source whose branch moved: name, old and new commit
/// (shortened) with the count, the repo and tag, then up to five lines of
/// the log, and `...` where there were more.
pub open spec fn behind_lines(
    name: Seq<char>,
    repo: Seq<char>,
    tag: Seq<char>,
    commit: Seq<char>,
    head: Seq<char>,
    count: u64,
    log: Seq<char>,
) -> Seq<Seq<char>> {
    let ls = text::lines(log);
    let shown = if ls.len() > 5 {
        ls.take(5)
    } else {
        ls
    };
    seq![
        "["@ + name + "] "@ + spec_short(commit) + " -> "@ + spec_short(head) + "  ("@
            + decimal(count as nat) + " new commit"@ + (if count == 1 {
            seq![]
        } else {
            "s"@
        }) + ")"@,
        "    repo: "@ + repo,
        "    tag:  "@ + tag,
    ] + shown.map_values(|l: Seq<char>| "    "@ + l) + (if ls.len() > 5 {
        seq!["    ..."@]
    } else {
        seq![]
    })
}

/// The report lines for a source that is behind.
pub fn behind_report(
    name: &str,
    repo: &str,
    tag: &str,
    commit: &str,
    head: &str,
    count_out: &str,
    log: &str,
) -> (r: Vec<String>)
    ensures
        r.deep_view() == behind_lines(name@, repo@, tag@, commit@, head@, commit_count(count_out@), log@),
{
    let count: u64 = match parse_u64_text(text::trim_str(count_out).as_str()) {
        ParsedU64::Value(n) => n,
        _ => 0,
    };
    let mut first = concat3("[", name, "] ");
    first.append(short(commit).as_str());
    first.append(" -> ");
    first.append(short(head).as_str());
    first.append("  (");
    first.append(decimal_string(count).as_str());
    first.append(" new commit");
    if count != 1 {
        first.append("s");
    }
    first.append(")");
    assert(first@ =~= behind_lines(name@, repo@, tag@, commit@, head@, count, log@)[0]);
    let ghost fv = first@;
    let mut out: Vec<String> = Vec::new();
    out.push(first);
    out.push(concat("    repo: ", repo));
    out.push(concat("    tag:  ", tag));
    assert(out.deep_view() =~= seq![fv, "    repo: "@ + repo@, "    tag:  "@ + tag@]);
    let lc = chars_of(log);
    let ls = lines_of(lc.as_slice());
    let ghost lv = ls@.map_values(|l: Vec<char>| l@);
    let ghost head_part = out.deep_view();
    let n = if ls.len() > 5 {
        5
    } else {
        ls.len()
    };
    let mut i: usize = 0;
    assert(lv.take(0).map_values(|l: Seq<char>| "    "@ + l) =~= Seq::<Seq<char>>::empty());
    while i < n
        invariant
            i <= n,
            n <= ls@.len(),
            lv == ls@.map_values(|l: Vec<char>| l@),
            out.deep_view() == head_part + lv.take(i as int).map_values(|l: Seq<char>| "    "@ + l),
        decreases n - i,
    {
        let ghost o = out.deep_view();
        out.push(concat("    ", string_of(ls[i].as_slice()).as_str()));
        assert(lv[i as int] == ls@[i as int]@);
        assert(lv.take(i + 1).map_values(|l: Seq<char>| "    "@ + l) =~= lv.take(i as int).map_values(
            |l: Seq<char>| "    "@ + l,
        ).push("    "@ + lv[i as int]));
        assert(out.deep_view() =~= o.push("    "@ + lv[i as int]));
        i = i + 1;
    }
    if ls.len() > 5 {
        out.push(owned("    ..."));
    }
    proof {
        if ls@.len() <= 5 {
            assert(lv.take(n as int) =~= lv);
        }
    }
    assert(lv == text::lines(log@));
    assert(count == commit_count(count_out@));
    let ghost shown = if lv.len() > 5 {
        lv.take(5)
    } else {
        lv
    };
    assert(lv.take(n as int) =~= shown);
    assert(out.deep_view()[0] == behind_lines(name@, repo@, tag@, commit@, head@, count, log@)[0]);
    assert(out.deep_view() =~= behind_lines(name@, repo@, tag@, commit@, head@, count, log@));
    out
}

/// The closing line of an update check.
pub fn summary_line(behind: u64, clean: u64, errored: u64) -> (r: String)
    ensures
        r@ == "Summary: "@ + decimal(behind as nat) + " updatable, "@ + decimal(clean as nat)
            + " up-to-date, "@ + decimal(errored as nat) + " error"@ + (if errored == 1 {
            seq![]
        } else {
            "s"@
        }),
{
    let mut s = concat3("Summary: ", decimal_string(behind).as_str(), " updatable, ");
    s.append(decimal_string(clean).as_str());
    s.append(" up-to-date, ");
    s.append(decimal_string(errored).as_str());
    s.append(" error");
    if errored != 1 {
        s.append("s");
    }
    s
}

} // verus!

verus! {

// ── Which lock to check ─────────────────────────────────────────────────────

/// What is known of one build directory when looking for a lock: whether
/// it holds a `build.lock.toml`, the board its `.board` names (none where
/// it could not be read), and whether its lock has a resolved git source.
#[derive(Debug, Clone)]
pub struct LockCandidate {
    pub has_lock: bool,
    pub board: Option<String>,
    pub has_git_sources: bool,
}

/// A candidate whose lock is worth checking for the board `want` (any
/// board where none is asked for).
pub open spec fn usable_for(c: LockCandidate, want: Option<Seq<char>>) -> bool {
    &&& c.has_lock
    &&& c.has_git_sources
    &&& match want {
        Some(w) => c.board matches Some(b) && b@ == w,
        None => true,
    }
}

pub open spec fn opt_text(o: Option<&str>) -> Option<Seq<char>> {
    match o {
        Some(s) => Some(s@),
        None => None,
    }
}

pub open spec fn no_lock_msg(want: Option<Seq<char>>) -> Seq<char> {
    match want {
        Some(b) => "no build.lock.toml with git sources for board '"@ + b + "'"@,
        None => "no build.lock.toml with git sources in any build"@,
    }
}

fn usable(c: &LockCandidate, board: Option<&str>) -> (r: bool)
    ensures
        r == usable_for(*c, opt_text(board)),
{
    if !c.has_lock || !c.has_git_sources {
        return false;
    }
    match board {
        None => true,
        Some(w) => match &c.board {
            Some(b) => text::text_eq(b.as_str(), w),
            None => false,
        },
    }
}

/// The lock to check among the builds `cands`, newest first: the first
/// one usable for `board`, else the error that says none is.
pub fn locate_lock(cands: &Vec<LockCandidate>, board: Option<&str>) -> (r: Result<usize, crate::error::Error>)
    ensures
        match r {
            Ok(i) => i < cands@.len() && usable_for(cands@[i as int], opt_text(board)) && forall|k: int|
                0 <= k < i ==> !usable_for(#[trigger] cands@[k], opt_text(board)),
            Err(e) => (forall|k: int| 0 <= k < cands@.len() ==> !usable_for(#[trigger] cands@[k], opt_text(board)))
                && (e matches crate::error::Error::CommandFailed { code, reason } && code == 1 && reason@
                == no_lock_msg(opt_text(board))),
        },
{
    let mut i: usize = 0;
    while i < cands.len()
        invariant
            i <= cands@.len(),
            forall|k: int| 0 <= k < i ==> !usable_for(#[trigger] cands@[k], opt_text(board)),
        decreases cands@.len() - i,
    {
        if usable(&cands[i], board) {
            return Ok(i);
        }
        i = i + 1;
    }
    let reason = match board {
        Some(b) => concat3("no build.lock.toml with git sources for board '", b, "'"),
        None => owned("no build.lock.toml with git sources in any build"),
    };
    Err(crate::error::Error::CommandFailed { code: 1, reason })
}

/// The candidate's `.board` names `b`.
pub open spec fn board_is(c: LockCandidate, b: Seq<char>) -> bool {
    c.board matches Some(x) && x@ == b
}

/// Whether a lock of the board `b` is among the picks `p` of `s`.
pub open spec fn board_picked(s: Seq<LockCandidate>, p: Seq<usize>, b: Seq<char>) -> bool {
    exists|k: int| 0 <= k < p.len() && board_is(#[trigger] s[p[k] as int], b)
}

/// One lock per board, newest first: going through the builds in order, a
/// build is picked where its board is known, no build of that board was
/// picked yet, and its lock is usable.
pub open spec fn all_picks(s: Seq<LockCandidate>) -> Seq<usize>
    decreases s.len(),
{
    if s.len() == 0 {
        seq![]
    } else {
        let p = all_picks(s.drop_last());
        let c = s.last();
        match c.board {
            Some(b) => if !board_picked(s.drop_last(), p, b@) && c.has_lock && c.has_git_sources {
                p.push((s.len() - 1) as usize)
            } else {
                p
            },
            None => p,
        }
    }
}

proof fn lemma_all_picks_bounded(s: Seq<LockCandidate>)
    ensures
        forall|k: int| 0 <= k < all_picks(s).len() ==> #[trigger] all_picks(s)[k] < s.len(),
    decreases s.len(),
{
    if s.len() > 0 {
        let p = all_picks(s.drop_last());
        lemma_all_picks_bounded(s.drop_last());
        assert forall|k: int| 0 <= k < all_picks(s).len() implies #[trigger] all_picks(s)[k] < s.len() by {
            if k < p.len() {
                assert(all_picks(s)[k] == p[k]);
            }
        }
    }
}

/// The locks to check with `--all`: the picks of `cands`, in order.
pub fn locate_all_locks(cands: &Vec<LockCandidate>) -> (r: Vec<usize>)
    ensures
        r@ == all_picks(cands@),
{
    let ghost cv = cands@;
    let mut seen: Vec<String> = Vec::new();
    let mut out: Vec<usize> = Vec::new();
    let mut i: usize = 0;
    assert(cv.take(0) =~= Seq::<LockCandidate>::empty());
    while i < cands.len()
        invariant
            i <= cv.len(),
            cv == cands@,
            out@ == all_picks(cv.take(i as int)),
            seen@.len() == out@.len(),
            forall|k: int| 0 <= k < out@.len() ==> #[trigger] out@[k] < i,
            forall|k: int|
                0 <= k < out@.len() ==> board_is(cv[out@[k] as int], #[trigger] seen@[k]@),
        decreases cv.len() - i,
    {
        let ghost t = cv.take(i as int);
        let ghost t1 = cv.take(i + 1);
        assert(t1.drop_last() =~= t);
        assert(t1.last() == cv[i as int]);
        proof {
            lemma_all_picks_bounded(t);
            assert forall|k: int| 0 <= k < out@.len() implies #[trigger] t[out@[k] as int] == cv[out@[k] as int] by {}
        }
        match &cands[i].board {
            Some(b) => {
                let mut found = false;
                let mut j: usize = 0;
                while j < seen.len()
                    invariant
                        j <= seen@.len(),
                        found == exists|k: int| 0 <= k < j && seen@[k]@ == b@,
                    decreases seen@.len() - j,
                {
                    if text::string_eq(&seen[j], b) {
                        found = true;
                    }
                    j = j + 1;
                }
                assert(found == board_picked(t, out@, b@)) by {
                    if found {
                        let k = choose|k: int| 0 <= k < seen@.len() && seen@[k]@ == b@;
                        assert(board_is(t[out@[k] as int], seen@[k]@));
                    }
                    if board_picked(t, out@, b@) {
                        let k = choose|k: int| 0 <= k < out@.len() && board_is(#[trigger] t[out@[k] as int], b@);
                        assert(board_is(cv[out@[k] as int], seen@[k]@));
                    }
                }
                if !found && cands[i].has_lock && cands[i].has_git_sources {
                    seen.push(copy_string(b));
                    out.push(i);
                }
            },
            None => {},
        }
        i = i + 1;
    }
    assert(cv.take(i as int) =~= cv);
    out
}

// ── Checking one source ─────────────────────────────────────────────────────

/// The revision a lock's tag resolves to: the commit an annotated tag
/// points at (`<tag>^{commit}`).
pub fn tag_commit(tag: &str) -> (r: String)
    ensures
        r@ == tag@ + "^{commit}"@,
{
    concat(tag, "^{commit}")
}

/// The commits after `from` up to `to`, as git writes the range.
pub fn commit_range(from: &str, to: &str) -> (r: String)
    ensures
        r@ == from@ + ".."@ + to@,
{
    concat3(from, "..", to)
}

/// Why a source could not be checked: its cached clone is missing.
pub fn no_cache_msg(cache: &str) -> (r: String)
    ensures
        r@ == "no cache at "@ + cache@ + " (run `image build` first)"@,
{
    concat3("no cache at ", cache, " (run `image build` first)")
}

/// The report line for a source that could not be checked.
pub fn error_line(name: &str, err: &str) -> (r: String)
    ensures
        r@ == "["@ + name@ + "] error: "@ + err@,
{
    let a = concat3("[", name, "] error: ");
    concat(a.as_str(), err)
}

} // verus!

verus! {

/// The board of the `a`-th pick.
pub open spec fn picked_board(s: Seq<LockCandidate>, a: int) -> Seq<char> {
    s[all_picks(s)[a] as int].board.unwrap()@
}

/// `--all` checks at most one lock per board, and only usable ones of
/// builds whose board is known.
pub proof fn law_one_lock_per_board(s: Seq<LockCandidate>)
    requires
        s.len() <= usize::MAX,
    ensures
        forall|a: int|
            0 <= a < all_picks(s).len() ==> (#[trigger] s[all_picks(s)[a] as int]).has_lock && s[all_picks(
                s,
            )[a] as int].has_git_sources && s[all_picks(s)[a] as int].board is Some,
        forall|a: int, b: int|
            0 <= a < b < all_picks(s).len() ==> #[trigger] picked_board(s, a) != #[trigger] picked_board(s, b),
    decreases s.len(),
{
    if s.len() > 0 && s.len() <= usize::MAX {
        let q = s.drop_last();
        let p = all_picks(q);
        law_one_lock_per_board(q);
        lemma_all_picks_bounded(q);
        let r = all_picks(s);
        let c = s.last();
        let grew = r.len() > p.len();
        assert(grew ==> r == p.push((s.len() - 1) as usize) && (s.len() - 1) as usize == s.len() - 1 && c.board is Some
            && !board_picked(q, p, c.board.unwrap()@) && c.has_lock && c.has_git_sources);
        assert(!grew ==> r == p);
        assert forall|a: int| 0 <= a < p.len() implies r[a] == p[a] && s[p[a] as int] == q[p[a] as int] by {}
        assert forall|a: int| 0 <= a < r.len() implies (#[trigger] s[r[a] as int]).has_lock && s[r[
            a] as int].has_git_sources && s[r[a] as int].board is Some by {
            if a < p.len() {
                assert(s[r[a] as int] == q[p[a] as int]);
            } else {
                assert(s[r[a] as int] == c);
            }
        }
        assert forall|a: int, b: int| 0 <= a < b < r.len() implies #[trigger] picked_board(s, a) != #[trigger] picked_board(
            s,
            b,
        ) by {
            if b < p.len() {
                assert(picked_board(s, a) == picked_board(q, a));
                assert(picked_board(s, b) == picked_board(q, b));
            } else {
                assert(grew && b == p.len());
                assert(picked_board(s, a) == picked_board(q, a));
                assert(s[r[b] as int] == c);
                if picked_board(s, a) == picked_board(s, b) {
                    assert(q[p[a] as int].board is Some);
                    assert(board_is(q[p[a] as int], c.board.unwrap()@));
                    assert(board_picked(q, p, c.board.unwrap()@));
                }
            }
        }
    }
}

} // verus!
