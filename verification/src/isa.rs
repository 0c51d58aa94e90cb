//! What a RISC-V board's `-march` promises against what its binaries use:
//! the extension names of an ELF `Tag_RISCV_arch` attribute, and the
//! distinct ISAs of a scanned tree with what each costs.
use vstd::prelude::*;
use crate::board::BoardConfig;
use crate::stage3::strictly_sorted;
use crate::text;
use crate::text::{
    chars_of, concat, concat3, copy_string, lines_of, owned, slice_of, split_of, str_prefixed, string_eq,
    string_lt, string_of, trim_chars,
};

verus! {

/// Whether this board has an ISA worth checking.
pub fn applies(board: &BoardConfig) -> (r: bool)
    ensures
        r == text::starts_with(board.arch@, "riscv"@),
{
    str_prefixed(board.arch.as_str(), "riscv")
}

/// Number of decimal digits at the end of `s`.
pub open spec fn trailing_digits(s: Seq<char>) -> int
    decreases s.len(),
{
    if s.len() > 0 && text::is_digit(s.last()) {
        trailing_digits(s.drop_last()) + 1
    } else {
        0
    }
}

pub proof fn lemma_trailing_digits(s: Seq<char>)
    ensures
        0 <= trailing_digits(s) <= s.len(),
    decreases s.len(),
{
    if s.len() > 0 && text::is_digit(s.last()) {
        lemma_trailing_digits(s.drop_last());
    }
}

/// `t` without the `<major>p<minor>` version an ELF attribute carries:
/// `zicsr2p0` → `zicsr`, `zvl256b` → `zvl256b`.
pub open spec fn spec_strip_version(t: Seq<char>) -> Seq<char> {
    let a = t.len() - trailing_digits(t);
    if a == t.len() || a == 0 || t[a - 1] != 'p' {
        t
    } else {
        let b = (a - 1) - trailing_digits(t.take(a - 1));
        if b == a - 1 {
            t
        } else {
            t.take(b)
        }
    }
}

fn digits_before(s: &[char], end: usize) -> (r: usize)
    requires
        end <= s@.len(),
    ensures
        r == end - trailing_digits(s@.take(end as int)),
        r <= end,
{
    let mut i = end;
    assert(s@.take(end as int).take(end as int) =~= s@.take(end as int));
    while i > 0 && '0' <= s[i - 1] && s[i - 1] <= '9'
        invariant
            i <= end,
            end <= s@.len(),
            trailing_digits(s@.take(end as int)) == trailing_digits(s@.take(i as int)) + (end - i),
        decreases i,
    {
        assert(s@.take(i as int).drop_last() =~= s@.take(i - 1));
        i = i - 1;
    }
    i
}

/// Drop the version an ELF attribute appends to an extension name.
pub fn strip_version(token: &str) -> (r: &str)
    ensures
        r@ == spec_strip_version(token@),
{
    let cs = chars_of(token);
    let n = cs.len();
    assert(cs@.take(n as int) =~= cs@);
    let a = digits_before(cs.as_slice(), n);
    if a == n || a == 0 || cs[a - 1] != 'p' {
        return token;
    }
    let b = digits_before(cs.as_slice(), a - 1);
    assert(cs@.take(a - 1) =~= token@.take(a - 1));
    if b == a - 1 {
        return token;
    }
    assert(token@.take(b as int) =~= token@.subrange(0, b as int));
    token.substring_char(0, b)
}

/// The extension a token of an attribute string names: the first token
/// loses its `rv64`/`rv32`/`rv128` prefix, and every token its version.
pub open spec fn token_name(i: int, token: Seq<char>) -> Seq<char> {
    let t = if i == 0 {
        match text::strip_prefix(token, "rv64"@) {
            Some(r) => r,
            None => match text::strip_prefix(token, "rv32"@) {
                Some(r) => r,
                None => match text::strip_prefix(token, "rv128"@) {
                    Some(r) => r,
                    None => token,
                },
            },
        }
    } else {
        token
    };
    spec_strip_version(t)
}

/// The extension names of the first `n` tokens, empty names left out.
pub open spec fn names_of(tokens: Seq<Seq<char>>, n: int) -> Seq<Seq<char>>
    decreases n,
{
    if n <= 0 {
        seq![]
    } else {
        let prev = names_of(tokens, n - 1);
        let name = token_name(n - 1, tokens[n - 1]);
        if name.len() > 0 {
            prev.push(name)
        } else {
            prev
        }
    }
}

/// The set of extensions an attribute string such as
/// `rv64i2p1_m2p0_zicsr2p0` names.
pub open spec fn arch_extensions(arch: Seq<char>) -> Set<Seq<char>> {
    let tokens = text::split(arch, '_');
    names_of(tokens, tokens.len() as int).to_set()
}

/// Insert `x` into a strictly sorted list of names.
pub fn insert_name(out: &mut Vec<String>, x: String)
    requires
        strictly_sorted(old(out).deep_view()),
    ensures
        strictly_sorted(final(out).deep_view()),
        final(out).deep_view().to_set() == old(out).deep_view().to_set().insert(x@),
{
    let ghost s = out.deep_view();
    let mut k: usize = 0;
    while k < out.len() && string_lt(&out[k], &x)
        invariant
            k <= out@.len(),
            s == out.deep_view(),
            strictly_sorted(s),
            forall|i: int| 0 <= i < k ==> text::text_lt(#[trigger] s[i], x@),
        decreases out@.len() - k,
    {
        k = k + 1;
    }
    if k < out.len() && string_eq(&out[k], &x) {
        assert(s.to_set().insert(x@) =~= s.to_set()) by {
            assert(s.contains(x@)) by {
                assert(s[k as int] == x@);
            }
        }
        return;
    }
    proof {
        if k < s.len() {
            text::lemma_text_lt_total(s[k as int], x@);
        }
    }
    let ghost xv = x@;
    out.insert(k, x);
    let ghost t = out.deep_view();
    assert(t =~= s.insert(k as int, xv));
    assert forall|i: int, j: int| 0 <= i < j < t.len() implies text::text_lt(t[i], t[j]) by {
        if i < k && j > k {
            text::lemma_text_lt_transitive(t[i], xv, t[j]);
            if j - 1 > k as int {
                text::lemma_text_lt_transitive(xv, s[k as int], s[j - 1]);
            }
        } else if i == k && j - 1 > k as int {
            text::lemma_text_lt_transitive(xv, s[k as int], s[j - 1]);
        }
    }
    assert(t.to_set() =~= s.to_set().insert(xv)) by {
        assert forall|y: Seq<char>| t.to_set().contains(y) <==> s.to_set().insert(xv).contains(y) by {
            if t.contains(y) {
                let i = choose|i: int| 0 <= i < t.len() && t[i] == y;
                if i < k {
                    assert(s[i] == y);
                } else if i > k {
                    assert(s[i - 1] == y);
                }
            }
            if s.contains(y) {
                let i = choose|i: int| 0 <= i < s.len() && s[i] == y;
                if i < k {
                    assert(t[i] == y);
                } else {
                    assert(t[i + 1] == y);
                }
            }
            if y == xv {
                assert(t[k as int] == y);
            }
        }
    }
}

/// The extensions an attribute string names, sorted.
pub fn parse_arch(arch: &str) -> (r: Vec<String>)
    ensures
        strictly_sorted(r.deep_view()),
        r.deep_view().to_set() == arch_extensions(arch@),
{
    let cs = chars_of(arch);
    let tokens = split_of(cs.as_slice(), '_');
    let ghost tv = tokens@.map_values(|l: Vec<char>| l@);
    let mut out: Vec<String> = Vec::new();
    let mut i: usize = 0;
    assert(out.deep_view().to_set() =~= names_of(tv, 0).to_set());
    while i < tokens.len()
        invariant
            i <= tokens@.len(),
            tv == tokens@.map_values(|l: Vec<char>| l@),
            tv == text::split(arch@, '_'),
            strictly_sorted(out.deep_view()),
            out.deep_view().to_set() == names_of(tv, i as int).to_set(),
        decreases tokens@.len() - i,
    {
        let tok = string_of(tokens[i].as_slice());
        assert(tv[i as int] == tok@);
        let t: &str = if i == 0 {
            if str_prefixed(tok.as_str(), "rv64") {
                proof {
                    reveal_strlit("rv64");
                }
                tok.as_str().substring_char(4, tok.as_str().unicode_len())
            } else if str_prefixed(tok.as_str(), "rv32") {
                proof {
                    reveal_strlit("rv32");
                }
                tok.as_str().substring_char(4, tok.as_str().unicode_len())
            } else if str_prefixed(tok.as_str(), "rv128") {
                proof {
                    reveal_strlit("rv128");
                }
                tok.as_str().substring_char(5, tok.as_str().unicode_len())
            } else {
                tok.as_str()
            }
        } else {
            tok.as_str()
        };
        proof {
            reveal_strlit("rv64");
            reveal_strlit("rv32");
            reveal_strlit("rv128");
            assert(tok@.skip(4) =~= tok@.subrange(4, tok@.len() as int));
            assert(tok@.skip(5) =~= tok@.subrange(5, tok@.len() as int));
        }
        let name = strip_version(t);
        assert(name@ == token_name(i as int, tv[i as int]));
        let ghost prev = out.deep_view().to_set();
        if name.unicode_len() > 0 {
            insert_name(&mut out, owned(name));
            assert(names_of(tv, i + 1) == names_of(tv, i as int).push(name@));
            assert(names_of(tv, i as int).push(name@).to_set() =~= names_of(tv, i as int).to_set().insert(name@)) by {
                let a = names_of(tv, i as int);
                assert forall|y: Seq<char>| a.push(name@).to_set().contains(y) <==> a.to_set().insert(name@).contains(y) by {
                    if a.push(name@).contains(y) {
                        let k = choose|k: int| 0 <= k < a.push(name@).len() && a.push(name@)[k] == y;
                        if k < a.len() {
                            assert(a[k] == y);
                        }
                    }
                    if a.contains(y) {
                        let k = choose|k: int| 0 <= k < a.len() && a[k] == y;
                        assert(a.push(name@)[k] == y);
                    }
                    if y == name@ {
                        assert(a.push(name@)[a.len() as int] == y);
                    }
                }
            }
        } else {
            assert(names_of(tv, i + 1) == names_of(tv, i as int));
        }
        i = i + 1;
    }
    out
}

} // verus!

verus! {

/// The extensions named by the first `Tag_RISCV_arch: ` line of `readelf -A`
/// output (quotes stripped), if there is one.
pub open spec fn attribute_value(ls: Seq<Seq<char>>) -> Option<Seq<char>>
    decreases ls.len(),
{
    if ls.len() == 0 {
        None
    } else {
        match text::strip_prefix(text::trim(ls[0]), "Tag_RISCV_arch: "@) {
            Some(v) => Some(text::trim_in(text::trim(v), '"', '"')),
            None => attribute_value(ls.drop_first()),
        }
    }
}

/// Pull the extension set out of `readelf -A` output.
pub fn parse_attributes(out: &str) -> (r: Option<Vec<String>>)
    ensures
        match attribute_value(text::lines(out@)) {
            Some(a) => r matches Some(v) && strictly_sorted(v.deep_view()) && v.deep_view().to_set()
                == arch_extensions(a),
            None => r is None,
        },
{
    let cs = chars_of(out);
    let ls = lines_of(cs.as_slice());
    let ghost lv = ls@.map_values(|l: Vec<char>| l@);
    let prefix = chars_of("Tag_RISCV_arch: ");
    proof {
        reveal_strlit("Tag_RISCV_arch: ");
    }
    let mut i: usize = 0;
    assert(lv.skip(0) =~= lv);
    while i < ls.len()
        invariant
            i <= ls@.len(),
            lv == ls@.map_values(|l: Vec<char>| l@),
            lv == text::lines(out@),
            prefix@ == "Tag_RISCV_arch: "@,
            prefix@.len() == 16,
            attribute_value(lv) == attribute_value(lv.skip(i as int)),
        decreases ls@.len() - i,
    {
        assert(lv.skip(i as int).drop_first() =~= lv.skip(i + 1));
        assert(lv.skip(i as int)[0] == ls@[i as int]@);
        let t = trim_chars(ls[i].as_slice());
        if crate::text::starts_with_chars(t.as_slice(), prefix.as_slice()) {
            let n = t.len();
            let v = slice_of(t.as_slice(), 16, n);
            assert(v@ =~= t@.skip(16));
            let vt = trim_chars(v.as_slice());
            let q = crate::text::trim_in_chars(vt.as_slice(), '"', '"');
            let a = string_of(q.as_slice());
            return Some(parse_arch(a.as_str()));
        }
        i = i + 1;
    }
    assert(lv.skip(i as int) =~= Seq::<Seq<char>>::empty());
    None
}

/// The names of `a` that `b` does not hold, in `a`'s order.
pub open spec fn minus(a: Seq<Seq<char>>, b: Seq<Seq<char>>) -> Seq<Seq<char>>
    decreases a.len(),
{
    if a.len() == 0 {
        seq![]
    } else if b.contains(a.last()) {
        minus(a.drop_last(), b)
    } else {
        minus(a.drop_last(), b).push(a.last())
    }
}

proof fn lemma_minus_sorted(a: Seq<Seq<char>>, b: Seq<Seq<char>>)
    requires
        strictly_sorted(a),
    ensures
        strictly_sorted(minus(a, b)),
        forall|x: Seq<char>| minus(a, b).contains(x) <==> (a.contains(x) && !b.contains(x)),
    decreases a.len(),
{
    if a.len() > 0 {
        let p = a.drop_last();
        assert(strictly_sorted(p));
        lemma_minus_sorted(p, b);
        let m = minus(p, b);
        assert forall|x: Seq<char>| a.contains(x) <==> (p.contains(x) || x == a.last()) by {
            if a.contains(x) {
                let k = choose|k: int| 0 <= k < a.len() && a[k] == x;
                if k < p.len() {
                    assert(p[k] == x);
                }
            }
            if p.contains(x) {
                let k = choose|k: int| 0 <= k < p.len() && p[k] == x;
                assert(a[k] == x);
            }
            if x == a.last() {
                assert(a[a.len() - 1] == x);
            }
        }
        if !b.contains(a.last()) {
            assert forall|i: int, j: int| 0 <= i < j < m.push(a.last()).len() implies text::text_lt(
                m.push(a.last())[i],
                m.push(a.last())[j],
            ) by {
                if j == m.len() {
                    assert(m.contains(m[i]));
                    assert(p.contains(m[i]));
                    let k = choose|k: int| 0 <= k < p.len() && p[k] == m[i];
                    assert(a[k] == p[k]);
                    assert(text::text_lt(a[k], a[a.len() - 1]));
                }
            }
            assert forall|x: Seq<char>| m.push(a.last()).contains(x) <==> (m.contains(x) || x == a.last()) by {
                if m.push(a.last()).contains(x) {
                    let k = choose|k: int| 0 <= k < m.push(a.last()).len() && m.push(a.last())[k] == x;
                    if k < m.len() {
                        assert(m[k] == x);
                    }
                }
                if m.contains(x) {
                    let k = choose|k: int| 0 <= k < m.len() && m[k] == x;
                    assert(m.push(a.last())[k] == x);
                }
                if x == a.last() {
                    assert(m.push(a.last())[m.len() as int] == x);
                }
            }
        }
    }
}

/// The names of sorted `a` that sorted `b` does not hold.
pub fn set_minus(a: &Vec<String>, b: &Vec<String>) -> (r: Vec<String>)
    ensures
        r.deep_view() == minus(a.deep_view(), b.deep_view()),
{
    let ghost av = a.deep_view();
    let ghost bv = b.deep_view();
    let mut out: Vec<String> = Vec::new();
    let mut i: usize = 0;
    assert(av.take(0) =~= Seq::<Seq<char>>::empty());
    while i < a.len()
        invariant
            i <= a@.len(),
            av == a.deep_view(),
            bv == b.deep_view(),
            out.deep_view() == minus(av.take(i as int), bv),
        decreases a@.len() - i,
    {
        assert(av.take(i + 1).drop_last() =~= av.take(i as int));
        assert(av.take(i + 1).last() == a@[i as int]@);
        let mut found = false;
        let mut j: usize = 0;
        while j < b.len()
            invariant
                j <= b@.len(),
                i < a@.len(),
                bv == b.deep_view(),
                found == (exists|k: int| 0 <= k < j && bv[k] == a@[i as int]@),
            decreases b@.len() - j,
        {
            if string_eq(&b[j], &a[i]) {
                assert(bv[j as int] == a@[i as int]@);
                found = true;
            }
            j = j + 1;
        }
        assert(found == bv.contains(a@[i as int]@));
        if !found {
            let ghost before = out.deep_view();
            out.push(copy_string(&a[i]));
            assert(out.deep_view() =~= before.push(a@[i as int]@));
        }
        i = i + 1;
    }
    assert(av.take(i as int) =~= av);
    out
}

} // verus!

verus! {

// ── Comparing a scanned tree against the board ──────────────────────────────

/// The paths of `found` (path, ISA string) whose ISA string is `a`, in order.
pub open spec fn paths_for(found: Seq<(Seq<char>, Seq<char>)>, a: Seq<char>) -> Seq<Seq<char>>
    decreases found.len(),
{
    if found.len() == 0 {
        seq![]
    } else {
        let p = paths_for(found.drop_last(), a);
        if found.last().1 == a {
            p.push(found.last().0)
        } else {
            p
        }
    }
}

proof fn lemma_paths_for_absent(found: Seq<(Seq<char>, Seq<char>)>, a: Seq<char>)
    requires
        forall|k: int| 0 <= k < found.len() ==> found[k].1 != a,
    ensures
        paths_for(found, a) == Seq::<Seq<char>>::empty(),
    decreases found.len(),
{
    if found.len() > 0 {
        lemma_paths_for_absent(found.drop_last(), a);
    }
}

/// The ISA strings `gs` has groups for, in order.
pub open spec fn group_keys(gs: Seq<(Seq<char>, Seq<Seq<char>>)>) -> Seq<Seq<char>> {
    gs.map_values(|g: (Seq<char>, Seq<Seq<char>>)| g.0)
}

/// `gs` groups `found` by ISA string: one group per distinct string, in
/// byte order, each with its paths in the order found (so none is empty).
pub open spec fn is_grouping(gs: Seq<(Seq<char>, Seq<Seq<char>>)>, found: Seq<(Seq<char>, Seq<char>)>) -> bool {
    &&& forall|i: int, j: int| 0 <= i < j < gs.len() ==> text::text_lt(gs[i].0, gs[j].0)
    &&& forall|i: int|
        0 <= i < gs.len() ==> #[trigger] gs[i].1 == paths_for(found, gs[i].0) && gs[i].1.len() > 0
    &&& forall|k: int| 0 <= k < found.len() ==> group_keys(gs).contains(#[trigger] found[k].1)
}

proof fn lemma_paths_for_nonempty(found: Seq<(Seq<char>, Seq<char>)>, a: Seq<char>)
    requires
        paths_for(found, a).len() > 0,
    ensures
        exists|k: int| 0 <= k < found.len() && #[trigger] found[k].1 == a,
    decreases found.len(),
{
    if found.last().1 != a {
        lemma_paths_for_nonempty(found.drop_last(), a);
        let k = choose|k: int| 0 <= k < found.drop_last().len() && #[trigger] found.drop_last()[k].1 == a;
        assert(found[k] == found.drop_last()[k]);
    } else {
        assert(found[found.len() - 1].1 == a);
    }
}

pub open spec fn pair_views(s: Seq<(String, String)>) -> Seq<(Seq<char>, Seq<char>)> {
    s.map_values(|e: (String, String)| (e.0@, e.1@))
}

pub open spec fn group_views(s: Seq<(String, Vec<String>)>) -> Seq<(Seq<char>, Seq<Seq<char>>)> {
    s.map_values(|e: (String, Vec<String>)| (e.0@, e.1.deep_view()))
}

#[verifier::spinoff_prover]
proof fn lemma_group_existing(
    g: Seq<(Seq<char>, Seq<Seq<char>>)>,
    t: Seq<(Seq<char>, Seq<char>)>,
    k: int,
    path: Seq<char>,
    arch: Seq<char>,
)
    requires
        is_grouping(g, t),
        0 <= k < g.len(),
        g[k].0 == arch,
    ensures
        is_grouping(g.update(k, (arch, g[k].1.push(path))), t.push((path, arch))),
{
    let h = g.update(k, (arch, g[k].1.push(path)));
    let t1 = t.push((path, arch));
    assert(t1.drop_last() =~= t);
    assert(group_keys(h) =~= group_keys(g));
    assert forall|i: int, j: int| 0 <= i < j < h.len() implies text::text_lt(h[i].0, h[j].0) by {
        assert(h[i].0 == g[i].0 && h[j].0 == g[j].0);
    }
    assert forall|x: int| 0 <= x < h.len() implies #[trigger] h[x].1 == paths_for(t1, h[x].0)
        && h[x].1.len() > 0 by {
        if x != k {
            assert(h[x] == g[x]);
            assert(g[x].1 == paths_for(t, g[x].0));
            assert(g[x].0 != arch) by {
                if x < k {
                    assert(text::text_lt(g[x].0, g[k].0));
                } else {
                    assert(text::text_lt(g[k].0, g[x].0));
                }
                text::lemma_text_lt_irreflexive(arch);
            }
        } else {
            assert(g[x].1 == paths_for(t, g[x].0));
        }
    }
    assert forall|y: int| 0 <= y < t1.len() implies group_keys(h).contains(#[trigger] t1[y].1) by {
        if y < t.len() {
            assert(t1[y] == t[y]);
        } else {
            assert(group_keys(h)[k] == arch);
        }
    }
}

#[verifier::spinoff_prover]
proof fn lemma_group_new(
    g: Seq<(Seq<char>, Seq<Seq<char>>)>,
    t: Seq<(Seq<char>, Seq<char>)>,
    k: int,
    path: Seq<char>,
    arch: Seq<char>,
)
    requires
        is_grouping(g, t),
        0 <= k <= g.len(),
        forall|x: int| 0 <= x < k ==> text::text_lt(#[trigger] g[x].0, arch),
        k < g.len() ==> text::text_lt(arch, g[k].0),
    ensures
        is_grouping(g.insert(k, (arch, seq![path])), t.push((path, arch))),
{
    let h = g.insert(k, (arch, seq![path]));
    let t1 = t.push((path, arch));
    assert(t1.drop_last() =~= t);
    assert forall|x: int| 0 <= x < g.len() implies #[trigger] g[x].0 != arch by {
        if x > k {
            assert(text::text_lt(g[k].0, g[x].0));
            text::lemma_text_lt_transitive(arch, g[k].0, g[x].0);
        }
        text::lemma_text_lt_irreflexive(arch);
    }
    assert forall|y: int| 0 <= y < t.len() implies #[trigger] t[y].1 != arch by {
        assert(group_keys(g).contains(t[y].1));
        let x = choose|x: int| 0 <= x < group_keys(g).len() && group_keys(g)[x] == t[y].1;
        assert(g[x].0 != arch);
    }
    lemma_paths_for_absent(t, arch);
    assert(paths_for(t1, arch) =~= seq![path]);
    assert(group_keys(h) =~= group_keys(g).insert(k, arch));
    assert forall|a: int, b: int| 0 <= a < b < h.len() implies text::text_lt(h[a].0, h[b].0) by {
        if a < k && b > k {
            text::lemma_text_lt_transitive(h[a].0, arch, h[b].0);
            if b - 1 > k {
                text::lemma_text_lt_transitive(arch, g[k].0, g[b - 1].0);
            }
        } else if a == k && b - 1 > k {
            text::lemma_text_lt_transitive(arch, g[k].0, g[b - 1].0);
        }
    }
    assert forall|x: int| 0 <= x < h.len() implies #[trigger] h[x].1 == paths_for(t1, h[x].0)
        && h[x].1.len() > 0 by {
        if x != k {
            let xx = if x < k { x } else { x - 1 };
            assert(h[x] == g[xx]);
            assert(g[xx].1 == paths_for(t, g[xx].0));
            assert(g[xx].0 != arch);
        }
    }
    assert forall|y: int| 0 <= y < t1.len() implies group_keys(h).contains(#[trigger] t1[y].1) by {
        if y < t.len() {
            assert(t1[y] == t[y]);
            assert(group_keys(g).contains(t[y].1));
            let x = choose|x: int| 0 <= x < group_keys(g).len() && group_keys(g)[x] == t[y].1;
            let xx = if x < k { x } else { x + 1 };
            assert(group_keys(h)[xx] == t[y].1);
        } else {
            assert(group_keys(h)[k] == arch);
        }
    }
}

fn group_insert(
    gs: &mut Vec<(String, Vec<String>)>,
    path: &String,
    arch: &String,
    Ghost(t): Ghost<Seq<(Seq<char>, Seq<char>)>>,
)
    requires
        is_grouping(group_views(old(gs)@), t),
    ensures
        is_grouping(group_views(final(gs)@), t.push((path@, arch@))),
{
    let ghost g = group_views(gs@);
    let mut k: usize = 0;
    while k < gs.len() && string_lt(&gs[k].0, arch)
        invariant
            k <= gs@.len(),
            g == group_views(gs@),
            forall|x: int| 0 <= x < k ==> text::text_lt(#[trigger] g[x].0, arch@),
        decreases gs@.len() - k,
    {
        k = k + 1;
    }
    if k < gs.len() && string_eq(&gs[k].0, arch) {
        let mut grp = gs.remove(k);
        let ghost before = grp.1.deep_view();
        grp.1.push(copy_string(path));
        assert(grp.1.deep_view() =~= before.push(path@));
        gs.insert(k, grp);
        assert(group_views(gs@) =~= g.update(k as int, (arch@, g[k as int].1.push(path@))));
        proof {
            lemma_group_existing(g, t, k as int, path@, arch@);
        }
    } else {
        proof {
            if k < g.len() {
                text::lemma_text_lt_total(g[k as int].0, arch@);
            }
        }
        let mut ps: Vec<String> = Vec::new();
        ps.push(copy_string(path));
        assert(ps.deep_view() =~= seq![path@]);
        gs.insert(k, (copy_string(arch), ps));
        assert(group_views(gs@) =~= g.insert(k as int, (arch@, seq![path@])));
        proof {
            lemma_group_new(g, t, k as int, path@, arch@);
        }
    }
}

/// Group scanned files by their ISA string.
pub fn group_by_arch(found: &Vec<(String, String)>) -> (r: Vec<(String, Vec<String>)>)
    ensures
        is_grouping(group_views(r@), pair_views(found@)),
{
    let ghost fv = pair_views(found@);
    let mut gs: Vec<(String, Vec<String>)> = Vec::new();
    let mut i: usize = 0;
    assert(fv.take(0) =~= Seq::<(Seq<char>, Seq<char>)>::empty());
    assert(group_views(gs@) =~= Seq::<(Seq<char>, Seq<Seq<char>>)>::empty());
    while i < found.len()
        invariant
            i <= found@.len(),
            fv == pair_views(found@),
            is_grouping(group_views(gs@), fv.take(i as int)),
        decreases found@.len() - i,
    {
        assert(fv.take(i + 1) =~= fv.take(i as int).push((found@[i as int].0@, found@[i as int].1@)));
        group_insert(&mut gs, &found[i].0, &found[i].1, Ghost(fv.take(i as int)));
        i = i + 1;
    }
    assert(fv.take(i as int) =~= fv);
    gs
}

} // verus!

verus! {

/// One distinct ISA found in a scanned tree, and what it costs.
#[derive(Debug)]
pub struct Finding {
    /// Extensions these files use that the board's `-march` does not have.
    pub extra: Vec<String>,
    /// Extensions the board has that these files were not built for.
    pub missing: Vec<String>,
    pub count: usize,
    /// A few paths, enough to go and look.
    pub examples: Vec<String>,
}

pub struct FindingView {
    pub extra: Seq<Seq<char>>,
    pub missing: Seq<Seq<char>>,
    pub count: usize,
    pub examples: Seq<Seq<char>>,
}

impl View for Finding {
    type V = FindingView;

    open spec fn view(&self) -> FindingView {
        FindingView {
            extra: self.extra.deep_view(),
            missing: self.missing.deep_view(),
            count: self.count,
            examples: self.examples.deep_view(),
        }
    }
}

pub open spec fn finding_views(s: Seq<Finding>) -> Seq<FindingView> {
    s.map_values(|f: Finding| f@)
}

/// What a scan found against what the board expects.
#[derive(Debug)]
pub struct Report {
    pub expected: Vec<String>,
    pub scanned: usize,
    pub findings: Vec<Finding>,
}

/// `f` describes group `g` against the `expected` extensions.
pub open spec fn finding_matches(f: FindingView, g: (Seq<char>, Seq<Seq<char>>), expected: Seq<Seq<char>>) -> bool {
    &&& strictly_sorted(f.extra)
    &&& f.extra.to_set() == arch_extensions(g.0).difference(expected.to_set())
    &&& strictly_sorted(f.missing)
    &&& f.missing.to_set() == expected.to_set().difference(arch_extensions(g.0))
    &&& f.count == g.1.len()
    &&& f.examples == g.1.take(if g.1.len() < 3 { g.1.len() as int } else { 3 })
}

/// The groups whose ISA differs from the expected one.
pub open spec fn differing(gs: Seq<(Seq<char>, Seq<Seq<char>>)>, expected: Seq<Seq<char>>) -> Seq<
    (Seq<char>, Seq<Seq<char>>),
>
    decreases gs.len(),
{
    if gs.len() == 0 {
        seq![]
    } else {
        let p = differing(gs.drop_last(), expected);
        if arch_extensions(gs.last().0) != expected.to_set() {
            p.push(gs.last())
        } else {
            p
        }
    }
}

/// `fs` has one finding for each group of `gs` that differs, in order.
pub open spec fn findings_for(fs: Seq<FindingView>, gs: Seq<(Seq<char>, Seq<Seq<char>>)>, expected: Seq<Seq<char>>) -> bool {
    &&& fs.len() == differing(gs, expected).len()
    &&& forall|i: int| 0 <= i < fs.len() ==> finding_matches(#[trigger] fs[i], differing(gs, expected)[i], expected)
}

/// `a` is louder than `b`: it faults and `b` does not, or they agree on
/// faulting and `a` covers more files.
pub open spec fn louder(a: FindingView, b: FindingView) -> bool {
    (a.extra.len() > 0 && b.extra.len() == 0) || ((a.extra.len() > 0) == (b.extra.len() > 0)
        && a.count > b.count)
}

/// `x` placed before the first element of `s` it is louder than.
pub open spec fn insert_loud(s: Seq<FindingView>, x: FindingView) -> Seq<FindingView>
    decreases s.len(),
{
    if s.len() == 0 {
        seq![x]
    } else if louder(x, s[0]) {
        seq![x] + s
    } else {
        seq![s[0]] + insert_loud(s.drop_first(), x)
    }
}

/// `s` ordered loudest first; equally loud findings keep their order.
pub open spec fn sort_loud(s: Seq<FindingView>) -> Seq<FindingView>
    decreases s.len(),
{
    if s.len() == 0 {
        seq![]
    } else {
        insert_loud(sort_loud(s.drop_last()), s.last())
    }
}

proof fn lemma_insert_loud(s: Seq<FindingView>, x: FindingView, p: int)
    requires
        0 <= p <= s.len(),
        forall|k: int| 0 <= k < p ==> !louder(x, #[trigger] s[k]),
        p < s.len() ==> louder(x, s[p]),
    ensures
        insert_loud(s, x) == s.insert(p, x),
    decreases p,
{
    if p == 0 {
        if s.len() == 0 {
            assert(s.insert(0, x) =~= seq![x]);
        } else {
            assert(s.insert(0, x) =~= seq![x] + s);
        }
    } else {
        assert forall|k: int| 0 <= k < p - 1 implies !louder(x, #[trigger] s.drop_first()[k]) by {
            assert(s.drop_first()[k] == s[k + 1]);
        }
        if p < s.len() {
            assert(s.drop_first()[p - 1] == s[p]);
        }
        lemma_insert_loud(s.drop_first(), x, p - 1);
        assert(seq![s[0]] + s.drop_first().insert(p - 1, x) =~= s.insert(p, x));
    }
}

/// Whether `a` is louder than `b`.
fn is_louder(a: &Finding, b: &Finding) -> (r: bool)
    ensures
        r == louder(a@, b@),
{
    let af = a.extra.len() > 0;
    let bf = b.extra.len() > 0;
    (af && !bf) || (af == bf && a.count > b.count)
}

/// Order findings loudest first: the ones that fault, then the biggest;
/// equally loud ones keep their order.
pub fn order_by_loudness(fs: Vec<Finding>) -> (r: Vec<Finding>)
    ensures
        finding_views(r@) == sort_loud(finding_views(fs@)),
{
    let ghost fv = finding_views(fs@);
    let mut todo = fs;
    let mut rev: Vec<Finding> = Vec::new();
    while todo.len() > 0
        invariant
            finding_views(todo@) + finding_views(rev@).reverse() =~= fv,
        decreases todo@.len(),
    {
        let ghost tv = finding_views(todo@);
        let ghost rv = finding_views(rev@);
        let e = todo.pop().unwrap();
        rev.push(e);
        assert(finding_views(rev@) =~= rv.push(tv.last()));
        assert(finding_views(todo@) =~= tv.drop_last());
        assert(rv.push(tv.last()).reverse() =~= seq![tv.last()] + rv.reverse());
        assert(tv.drop_last() + (seq![tv.last()] + rv.reverse()) =~= tv + rv.reverse());
    }
    let ghost total = rev@.len();
    let mut out: Vec<Finding> = Vec::new();
    assert(fv.take(0) =~= Seq::<FindingView>::empty());
    while rev.len() > 0
        invariant
            total == fv.len(),
            rev@.len() <= total,
            finding_views(rev@).reverse() =~= fv.skip(total - rev@.len()),
            finding_views(out@) == sort_loud(fv.take(total - rev@.len())),
        decreases rev@.len(),
    {
        let ghost k = total - rev@.len();
        let ghost rv = finding_views(rev@);
        let x = rev.pop().unwrap();
        assert(rv.reverse()[0] == rv.last());
        assert(fv.skip(k)[0] == fv[k]);
        assert(finding_views(rev@).reverse() =~= fv.skip(k + 1)) by {
            assert(rv.drop_last().reverse() =~= rv.reverse().drop_first());
            assert(fv.skip(k).drop_first() =~= fv.skip(k + 1));
        }
        assert(fv.take(k + 1).drop_last() =~= fv.take(k));
        assert(fv.take(k + 1).last() == x@);
        let ghost ov = finding_views(out@);
        let mut p: usize = 0;
        while p < out.len() && !is_louder(&x, &out[p])
            invariant
                p <= out@.len(),
                ov == finding_views(out@),
                forall|q: int| 0 <= q < p ==> !louder(x@, #[trigger] ov[q]),
            decreases out@.len() - p,
        {
            p = p + 1;
        }
        proof {
            lemma_insert_loud(ov, x@, p as int);
        }
        let ghost xv = x@;
        out.insert(p, x);
        assert(finding_views(out@) =~= ov.insert(p as int, xv));
    }
    assert(fv.take(total as int) =~= fv);
    out
}

} // verus!

verus! {

proof fn lemma_seq_set_empty(s: Seq<Seq<char>>)
    ensures
        (s.len() == 0) == (s.to_set() =~= Set::<Seq<char>>::empty()),
{
    if s.len() > 0 {
        assert(s.to_set().contains(s[0]));
    }
}

fn finding_of(g: &(String, Vec<String>), expected: &Vec<String>) -> (r: Option<Finding>)
    requires
        strictly_sorted(expected.deep_view()),
    ensures
        match r {
            Some(f) => arch_extensions(g.0@) != expected.deep_view().to_set() && finding_matches(
                f@,
                (g.0@, g.1.deep_view()),
                expected.deep_view(),
            ),
            None => arch_extensions(g.0@) == expected.deep_view().to_set(),
        },
{
    let ghost ev = expected.deep_view();
    let obs = parse_arch(g.0.as_str());
    let ghost ov = obs.deep_view();
    let ghost ext = arch_extensions(g.0@);
    let extra = set_minus(&obs, expected);
    let missing = set_minus(expected, &obs);
    proof {
        lemma_minus_sorted(ov, ev);
        lemma_minus_sorted(ev, ov);
        assert forall|x: Seq<char>| ov.contains(x) <==> ext.contains(x) by {
            assert(ov.to_set().contains(x) == ov.contains(x));
        }
        assert(extra.deep_view().to_set() =~= ext.difference(ev.to_set()));
        assert(missing.deep_view().to_set() =~= ev.to_set().difference(ext));
        lemma_seq_set_empty(extra.deep_view());
        lemma_seq_set_empty(missing.deep_view());
        if extra.deep_view().len() == 0 && missing.deep_view().len() == 0 {
            assert forall|x: Seq<char>| ext.contains(x) <==> ev.to_set().contains(x) by {
                assert(!ext.difference(ev.to_set()).contains(x));
                assert(!ev.to_set().difference(ext).contains(x));
            }
            assert(ext =~= ev.to_set());
        }
        if ext == ev.to_set() {
            assert(ext.difference(ev.to_set()) =~= Set::<Seq<char>>::empty());
            assert(ev.to_set().difference(ext) =~= Set::<Seq<char>>::empty());
        }
    }
    if extra.len() == 0 && missing.len() == 0 {
        return None;
    }
    let n = g.1.len();
    let m = if n < 3 {
        n
    } else {
        3
    };
    let mut examples: Vec<String> = Vec::new();
    let mut i: usize = 0;
    while i < m
        invariant
            i <= m,
            m <= g.1@.len(),
            examples.deep_view() == g.1.deep_view().take(i as int),
        decreases m - i,
    {
        let ghost before = examples.deep_view();
        examples.push(copy_string(&g.1[i]));
        assert(examples.deep_view() =~= before.push(g.1@[i as int]@));
        assert(g.1.deep_view().take(i + 1) =~= g.1.deep_view().take(i as int).push(g.1@[i as int]@));
        i = i + 1;
    }
    Some(Finding { extra, missing, count: n, examples })
}

/// The findings of the groups whose ISA differs from the expected one.
pub fn findings_of(gs: &Vec<(String, Vec<String>)>, expected: &Vec<String>) -> (r: Vec<Finding>)
    requires
        strictly_sorted(expected.deep_view()),
    ensures
        findings_for(finding_views(r@), group_views(gs@), expected.deep_view()),
{
    let ghost gv = group_views(gs@);
    let ghost ev = expected.deep_view();
    let mut out: Vec<Finding> = Vec::new();
    let mut i: usize = 0;
    assert(gv.take(0) =~= Seq::<(Seq<char>, Seq<Seq<char>>)>::empty());
    while i < gs.len()
        invariant
            i <= gs@.len(),
            gv == group_views(gs@),
            ev == expected.deep_view(),
            strictly_sorted(ev),
            findings_for(finding_views(out@), gv.take(i as int), ev),
        decreases gs@.len() - i,
    {
        assert(gv.take(i + 1).drop_last() =~= gv.take(i as int));
        assert(gv.take(i + 1).last() == (gs@[i as int].0@, gs@[i as int].1.deep_view()));
        let ghost before = finding_views(out@);
        match finding_of(&gs[i], expected) {
            Some(f) => {
                let ghost fv = f@;
                out.push(f);
                assert(finding_views(out@) =~= before.push(fv));
                let ghost d = differing(gv.take(i + 1), ev);
                assert(d =~= differing(gv.take(i as int), ev).push(gv.take(i + 1).last()));
                assert forall|k: int| 0 <= k < finding_views(out@).len() implies finding_matches(
                    #[trigger] finding_views(out@)[k],
                    d[k],
                    ev,
                ) by {
                    if k < before.len() {
                        assert(finding_views(out@)[k] == before[k]);
                    }
                }
            },
            None => {
                assert(differing(gv.take(i + 1), ev) =~= differing(gv.take(i as int), ev));
            },
        }
        i = i + 1;
    }
    assert(gv.take(i as int) =~= gv);
    out
}

/// The report of a scanned tree: `found` lists (path, ISA string) per file,
/// `expected` is the board's extension set (sorted).
pub open spec fn report_of(r: Report, found: Seq<(Seq<char>, Seq<char>)>, expected: Seq<Seq<char>>) -> bool {
    &&& r.expected.deep_view() == expected
    &&& r.scanned == found.len()
    &&& exists|gs: Seq<(Seq<char>, Seq<Seq<char>>)>, fs: Seq<FindingView>|
        is_grouping(gs, found) && findings_for(fs, gs, expected) && finding_views(r.findings@)
            == sort_loud(fs)
}

/// Compare every scanned binary against what the board's toolchain emits:
/// one finding per distinct ISA that differs, loudest first.
pub fn compare(expected: &Vec<String>, found: &Vec<(String, String)>) -> (r: Report)
    requires
        strictly_sorted(expected.deep_view()),
    ensures
        report_of(r, pair_views(found@), expected.deep_view()),
{
    let groups = group_by_arch(found);
    let fs = findings_of(&groups, expected);
    let ghost fsv = finding_views(fs@);
    let ordered = order_by_loudness(fs);
    let r = Report {
        expected: crate::sandbox::clone_strings(expected),
        scanned: found.len(),
        findings: ordered,
    };
    assert(is_grouping(group_views(groups@), pair_views(found@)) && findings_for(
        fsv,
        group_views(groups@),
        expected.deep_view(),
    ) && finding_views(r.findings@) == sort_loud(fsv));
    r
}

} // verus!

verus! {

// ── Asking the toolchain and the tree ───────────────────────────────────────

/// The shell that asks a board's own compiler which extensions it emits:
/// compile an empty file with the board's CFLAGS and read back the object's
/// attributes.  `arch_default` is the arch's default CFLAGS.
pub open spec fn spec_probe_command(b: BoardConfig, arch_default: Seq<char>) -> Seq<char> {
    "set -e\n         : > /tmp/isa-probe.c\n         "@ + b.cross_compile@ + "gcc "@
        + crate::board::spec_effective_cflags(b, arch_default)
        + " -c -o /tmp/isa-probe.o /tmp/isa-probe.c\n         "@ + b.cross_compile@
        + "readelf -A /tmp/isa-probe.o"@
}

pub fn probe_command(board: &BoardConfig, arch_default: &str) -> (r: String)
    ensures
        r@ == spec_probe_command(*board, arch_default@),
{
    let cc = board.cross_compile.as_str();
    let cflags = board.effective_cflags(arch_default);
    let a = concat3("set -e\n         : > /tmp/isa-probe.c\n         ", cc, "gcc ");
    let b = concat3(a.as_str(), cflags.as_str(), " -c -o /tmp/isa-probe.o /tmp/isa-probe.c\n         ");
    concat3(b.as_str(), cc, "readelf -A /tmp/isa-probe.o")
}

/// The extensions the probe's output names; none where it names nothing.
pub fn expected_of(out: &str) -> (r: Vec<String>)
    ensures
        strictly_sorted(r.deep_view()),
        match attribute_value(text::lines(out@)) {
            Some(a) => r.deep_view().to_set() == arch_extensions(a),
            None => r@.len() == 0,
        },
{
    match parse_attributes(out) {
        Some(v) => v,
        None => Vec::new(),
    }
}

/// One shell loop that prints `<path>\t<arch>` for every executable or
/// shared object under `root` carrying a `Tag_RISCV_arch`, read with the
/// cross `readelf` of prefix `cross`.
pub open spec fn spec_scan_command(root: Seq<char>, cross: Seq<char>) -> Seq<char> {
    "find "@ + root
        + " -type f \\( -perm -u+x -o -name '*.so' -o -name '*.so.*' \\) -print0 \\\n         | xargs -0 -r -n 1 sh -c '\n             a=$("@
        + cross
        + "readelf -A \"$0\" 2>/dev/null | \\\n                 sed -n \"s/.*Tag_RISCV_arch: \\\"\\(.*\\)\\\"/\\1/p\" | head -n 1)\n             [ -n \"$a\" ] && printf \"%s\\t%s\\n\" \"$0\" \"$a\"\n             true'"@
}

pub fn scan_command(root: &str, cross: &str) -> (r: String)
    ensures
        r@ == spec_scan_command(root@, cross@),
{
    let a = concat3(
        "find ",
        root,
        " -type f \\( -perm -u+x -o -name '*.so' -o -name '*.so.*' \\) -print0 \\\n         | xargs -0 -r -n 1 sh -c '\n             a=$(",
    );
    concat3(
        a.as_str(),
        cross,
        "readelf -A \"$0\" 2>/dev/null | \\\n                 sed -n \"s/.*Tag_RISCV_arch: \\\"\\(.*\\)\\\"/\\1/p\" | head -n 1)\n             [ -n \"$a\" ] && printf \"%s\\t%s\\n\" \"$0\" \"$a\"\n             true'",
    )
}

/// A `find` test that holds when any of `tests` does: `\( t1 -o t2 ... \)`.
pub open spec fn find_any(tests: Seq<Seq<char>>) -> Seq<char> {
    "\\( "@ + find_or(tests) + " \\)"@
}

pub open spec fn find_or(tests: Seq<Seq<char>>) -> Seq<char>
    decreases tests.len(),
{
    if tests.len() <= 1 {
        if tests.len() == 1 {
            tests[0]
        } else {
            seq![]
        }
    } else {
        tests[0] + " -o "@ + find_or(tests.drop_first())
    }
}

/// The scan looks at every regular file under `root` that is executable by
/// its owner or is named as a shared object (`*.so`, `*.so.*`), and reads
/// each one's attributes with the board's cross `readelf`.
pub proof fn law_scan_covers_executables_and_shared_objects(root: Seq<char>, cross: Seq<char>)
    ensures
        text::starts_with(
            spec_scan_command(root, cross),
            "find "@ + root + " -type f "@ + find_any(
                seq!["-perm -u+x"@, "-name '*.so'"@, "-name '*.so.*'"@],
            ) + " -print0"@,
        ),
        exists|a: Seq<char>, z: Seq<char>| spec_scan_command(root, cross) == a + cross + "readelf -A \"$0\""@ + z,
{
    let tests = seq!["-perm -u+x"@, "-name '*.so'"@, "-name '*.so.*'"@];
    assert(tests.drop_first().drop_first() =~= seq!["-name '*.so.*'"@]);
    assert(tests.drop_first()[0] == "-name '*.so'"@);
    assert(find_or(tests.drop_first().drop_first()) == "-name '*.so.*'"@);
    assert(find_or(tests.drop_first()) == "-name '*.so'"@ + " -o "@ + "-name '*.so.*'"@);
    assert(find_or(tests) == "-perm -u+x"@ + " -o "@ + ("-name '*.so'"@ + " -o "@ + "-name '*.so.*'"@));
    reveal_strlit(" -type f \\( -perm -u+x -o -name '*.so' -o -name '*.so.*' \\) -print0 \\\n         | xargs -0 -r -n 1 sh -c '\n             a=$(");
    reveal_strlit(" -type f ");
    reveal_strlit("\\( ");
    reveal_strlit(" \\)");
    reveal_strlit(" -o ");
    reveal_strlit("-perm -u+x");
    reveal_strlit("-name '*.so'");
    reveal_strlit("-name '*.so.*'");
    reveal_strlit(" -print0");
    reveal_strlit("find ");
    let want = "find "@ + root + " -type f "@ + find_any(tests) + " -print0"@;
    let cmd = spec_scan_command(root, cross);
    assert(cmd.take(want.len() as int) =~= want);
    reveal_strlit("readelf -A \"$0\" 2>/dev/null | \\\n                 sed -n \"s/.*Tag_RISCV_arch: \\\"\\(.*\\)\\\"/\\1/p\" | head -n 1)\n             [ -n \"$a\" ] && printf \"%s\\t%s\\n\" \"$0\" \"$a\"\n             true'");
    reveal_strlit("readelf -A \"$0\"");
    let a = "find "@ + root
        + " -type f \\( -perm -u+x -o -name '*.so' -o -name '*.so.*' \\) -print0 \\\n         | xargs -0 -r -n 1 sh -c '\n             a=$("@;
    let whole_tail = "readelf -A \"$0\" 2>/dev/null | \\\n                 sed -n \"s/.*Tag_RISCV_arch: \\\"\\(.*\\)\\\"/\\1/p\" | head -n 1)\n             [ -n \"$a\" ] && printf \"%s\\t%s\\n\" \"$0\" \"$a\"\n             true'"@;
    let z = whole_tail.skip("readelf -A \"$0\""@.len() as int);
    assert(whole_tail =~= "readelf -A \"$0\""@ + z);
    assert(cmd =~= a + cross + "readelf -A \"$0\""@ + z);
}

/// A scan line `path\tarch`, split at its first tab; a line without one
/// says nothing.
pub open spec fn scan_pair(line: Seq<char>) -> Option<(Seq<char>, Seq<char>)> {
    text::split_once(line, '\t')
}

pub open spec fn scan_pairs(ls: Seq<Seq<char>>) -> Seq<(Seq<char>, Seq<char>)>
    decreases ls.len(),
{
    if ls.len() == 0 {
        seq![]
    } else {
        match scan_pair(ls.last()) {
            Some(p) => scan_pairs(ls.drop_last()).push(p),
            None => scan_pairs(ls.drop_last()),
        }
    }
}

/// The `(path, arch)` pairs the scan printed, in order.
pub fn parse_scan(out: &str) -> (r: Vec<(String, String)>)
    ensures
        pair_views(r@) == scan_pairs(text::lines(out@)),
{
    let cs = chars_of(out);
    let ls = lines_of(cs.as_slice());
    let ghost lv = ls@.map_values(|l: Vec<char>| l@);
    let mut found: Vec<(String, String)> = Vec::new();
    let mut i: usize = 0;
    assert(lv.take(0) =~= Seq::<Seq<char>>::empty());
    assert(pair_views(found@) =~= Seq::<(Seq<char>, Seq<char>)>::empty());
    while i < ls.len()
        invariant
            i <= ls@.len(),
            lv == ls@.map_values(|l: Vec<char>| l@),
            lv == text::lines(out@),
            pair_views(found@) == scan_pairs(lv.take(i as int)),
        decreases ls@.len() - i,
    {
        assert(lv.take(i + 1).drop_last() =~= lv.take(i as int));
        assert(lv.take(i + 1).last() == ls@[i as int]@);
        let line = ls[i].as_slice();
        match text::find_char(line, '\t') {
            Some(t) => {
                let n = line.len();
                let path = slice_of(line, 0, t);
                let arch = slice_of(line, t + 1, n);
                assert(path@ =~= line@.take(t as int));
                assert(arch@ =~= line@.skip(t + 1));
                let ghost before = pair_views(found@);
                found.push((string_of(path.as_slice()), string_of(arch.as_slice())));
                assert(pair_views(found@) =~= before.push((line@.take(t as int), line@.skip(t + 1))));
            },
            None => {},
        }
        i = i + 1;
    }
    assert(lv.take(i as int) =~= lv);
    found
}

// ── Saying what was found ───────────────────────────────────────────────────

/// The lines a finding prints: what it costs (extensions it uses that the
/// board lacks are fatal; ones it lacks only slow it down), then its
/// example paths.
pub open spec fn finding_lines(f: FindingView) -> Seq<Seq<char>> {
    seq![
        if f.extra.len() == 0 {
            "    "@ + crate::hash::decimal(f.count as nat) + " binaries built without "@
                + crate::chroot::joined(f.missing, " "@) + " (slower, but they run)"@
        } else {
            "    "@ + crate::hash::decimal(f.count as nat) + " binaries use "@
                + crate::chroot::joined(f.extra, " "@) + ", which this board does not have"@
        },
    ] + f.examples.map_values(|p: Seq<char>| "        "@ + p)
}

pub open spec fn all_finding_lines(fs: Seq<FindingView>) -> Seq<Seq<char>>
    decreases fs.len(),
{
    if fs.len() == 0 {
        seq![]
    } else {
        all_finding_lines(fs.drop_last()) + finding_lines(fs.last())
    }
}

/// What the check prints for a tree under `root`, and whether some binary
/// uses an extension the board does not have.  A scan that found no
/// attribute verified nothing and says so, but is no failure.
pub open spec fn spec_report_lines(r: Report, root: Seq<char>) -> (Seq<Seq<char>>, bool) {
    let head = "ISA check: "@ + crate::hash::decimal(r.scanned as nat) + " binaries under "@ + root
        + ", board ISA "@ + crate::chroot::joined(r.expected.deep_view(), " "@);
    if r.scanned == 0 {
        (seq![head, "    no binary carried an ISA attribute; nothing was verified"@], false)
    } else if r.findings@.len() == 0 {
        (seq![head, "    every binary matches the board"@], false)
    } else {
        (
            seq![head] + all_finding_lines(finding_views(r.findings@)),
            exists|i: int| 0 <= i < r.findings@.len() && r.findings@[i]@.extra.len() > 0,
        )
    }
}

fn finding_text(f: &Finding) -> (r: Vec<String>)
    ensures
        r.deep_view() == finding_lines(f@),
{
    let mut out: Vec<String> = Vec::new();
    let n = crate::hash::decimal_string(f.count as u64);
    let first = if f.extra.len() == 0 {
        let a = concat3("    ", n.as_str(), " binaries built without ");
        concat3(a.as_str(), crate::chroot::join_strings(&f.missing, " ").as_str(), " (slower, but they run)")
    } else {
        let a = concat3("    ", n.as_str(), " binaries use ");
        concat3(
            a.as_str(),
            crate::chroot::join_strings(&f.extra, " ").as_str(),
            ", which this board does not have",
        )
    };
    out.push(first);
    let ghost ev = f.examples.deep_view();
    let ghost head = out.deep_view();
    let mut i: usize = 0;
    while i < f.examples.len()
        invariant
            i <= f.examples@.len(),
            ev == f.examples.deep_view(),
            out.deep_view() == head + ev.take(i as int).map_values(|p: Seq<char>| "        "@ + p),
        decreases f.examples@.len() - i,
    {
        let ghost o = out.deep_view();
        out.push(concat("        ", f.examples[i].as_str()));
        assert(ev[i as int] == f.examples@[i as int]@);
        assert(ev.take(i + 1).map_values(|p: Seq<char>| "        "@ + p) =~= ev.take(i as int).map_values(
            |p: Seq<char>| "        "@ + p,
        ).push("        "@ + ev[i as int]));
        assert(out.deep_view() =~= o.push("        "@ + ev[i as int]));
        i = i + 1;
    }
    assert(ev.take(i as int) =~= ev);
    assert(out.deep_view() =~= finding_lines(f@));
    out
}

/// The lines of a report on the tree under `root`, and whether it found a
/// binary the board cannot run.
pub fn report_lines(report: &Report, root: &str) -> (r: (Vec<String>, bool))
    ensures
        r.0.deep_view() == spec_report_lines(*report, root@).0,
        r.1 == spec_report_lines(*report, root@).1,
{
    let a = concat3("ISA check: ", crate::hash::decimal_string(report.scanned as u64).as_str(), " binaries under ");
    let b = concat3(a.as_str(), root, ", board ISA ");
    let head = concat(b.as_str(), crate::chroot::join_strings(&report.expected, " ").as_str());
    let mut out: Vec<String> = Vec::new();
    out.push(head);
    if report.scanned == 0 {
        out.push(owned("    no binary carried an ISA attribute; nothing was verified"));
        assert(out.deep_view() =~= spec_report_lines(*report, root@).0);
        return (out, false);
    }
    if report.findings.len() == 0 {
        out.push(owned("    every binary matches the board"));
        assert(out.deep_view() =~= spec_report_lines(*report, root@).0);
        return (out, false);
    }
    let ghost fv = finding_views(report.findings@);
    let ghost h = out.deep_view();
    let mut fatal = false;
    let mut i: usize = 0;
    assert(fv.take(0) =~= Seq::<FindingView>::empty());
    while i < report.findings.len()
        invariant
            i <= report.findings@.len(),
            fv == finding_views(report.findings@),
            h == seq![out.deep_view()[0]],
            out.deep_view() == h + all_finding_lines(fv.take(i as int)),
            fatal == exists|k: int| 0 <= k < i && report.findings@[k]@.extra.len() > 0,
        decreases report.findings@.len() - i,
    {
        let lines = finding_text(&report.findings[i]);
        let ghost o = out.deep_view();
        let mut j: usize = 0;
        while j < lines.len()
            invariant
                j <= lines@.len(),
                out.deep_view() == o + lines.deep_view().take(j as int),
            decreases lines@.len() - j,
        {
            let ghost o2 = out.deep_view();
            out.push(copy_string(&lines[j]));
            assert(out.deep_view() =~= o2.push(lines@[j as int]@));
            assert(lines.deep_view()[j as int] == lines@[j as int]@);
            assert(lines.deep_view().take(j + 1) =~= lines.deep_view().take(j as int).push(lines@[j as int]@));
            j = j + 1;
        }
        assert(lines.deep_view().take(j as int) =~= lines.deep_view());
        assert(fv.take(i + 1).drop_last() =~= fv.take(i as int));
        assert(fv.take(i + 1).last() == report.findings@[i as int]@);
        if report.findings[i].extra.len() > 0 {
            fatal = true;
        }
        i = i + 1;
    }
    assert(fv.take(i as int) =~= fv);
    (out, fatal)
}

} // verus!
