//! Portage atom lists: `atom [keywords]` lines, `#` comments and blank lines
//! skipped, and `-atom` lines that subtract from the defaults.
use vstd::prelude::*;
use crate::error::Error;
use crate::text;
use crate::text::{chars_of, copy_string, lines_of, owned, slice_of, string_eq, string_of, trim_chars};

verus! {

/// One line of a package list.
#[derive(Debug)]
pub struct Entry {
    pub atom: String,
    /// An `ACCEPT_KEYWORDS` override from the `atom [keywords]` syntax.
    pub keywords: Option<String>,
    /// A `-atom` line: remove `atom` from the merged set (board lists only).
    pub remove: bool,
}

pub struct EntryView {
    pub atom: Seq<char>,
    pub keywords: Option<Seq<char>>,
    pub remove: bool,
}

impl View for Entry {
    type V = EntryView;

    open spec fn view(&self) -> EntryView {
        EntryView { atom: self.atom@, keywords: self.keywords.deep_view(), remove: self.remove }
    }
}

pub open spec fn entry_views(s: Seq<Entry>) -> Seq<EntryView> {
    s.map_values(|e: Entry| e@)
}

/// The entry a trimmed, non-empty line describes: its first word (without a
/// leading `-`, which marks a removal) and, after the first whitespace, the
/// keywords when there are any.
pub open spec fn entry_of(line: Seq<char>) -> EntryView {
    let w = text::first_ws(line);
    let first = line.take(w);
    let keywords = if w < line.len() {
        let k = text::trim(line.skip(w + 1));
        if k.len() > 0 {
            Some(k)
        } else {
            None
        }
    } else {
        None
    };
    if first.len() > 0 && first[0] == '-' {
        EntryView { atom: first.drop_first(), keywords, remove: true }
    } else {
        EntryView { atom: first, keywords, remove: false }
    }
}

/// The entries of the lines `ls`.
pub open spec fn entries_of(ls: Seq<Seq<char>>) -> Seq<EntryView>
    decreases ls.len(),
{
    if ls.len() == 0 {
        seq![]
    } else {
        let t = text::trim(ls.last());
        let prev = entries_of(ls.drop_last());
        if t.len() == 0 || t[0] == '#' {
            prev
        } else {
            prev.push(entry_of(t))
        }
    }
}

fn entry_from(line: &[char]) -> (r: Entry)
    ensures
        r@ == entry_of(line@),
{
    let w = crate::text::find_ws(line);
    proof {
        text::lemma_first_ws(line@);
    }
    let n = line.len();
    let first = slice_of(line, 0, w);
    assert(first@ =~= line@.take(w as int));
    let keywords = if w < n {
        let rest = slice_of(line, w + 1, n);
        assert(rest@ =~= line@.skip(w + 1));
        let k = trim_chars(rest.as_slice());
        if k.len() > 0 {
            Some(string_of(k.as_slice()))
        } else {
            None
        }
    } else {
        None
    };
    if first.len() > 0 && first[0] == '-' {
        let m = first.len();
        let a = slice_of(first.as_slice(), 1, m);
        assert(a@ =~= first@.drop_first());
        Entry { atom: string_of(a.as_slice()), keywords, remove: true }
    } else {
        Entry { atom: string_of(first.as_slice()), keywords, remove: false }
    }
}

/// The entries of a package-list text.
pub fn parse(content: &str) -> (r: Vec<Entry>)
    ensures
        entry_views(r@) == entries_of(text::lines(content@)),
{
    let cs = chars_of(content);
    let ls = lines_of(cs.as_slice());
    let ghost lv = ls@.map_values(|l: Vec<char>| l@);
    let mut out: Vec<Entry> = Vec::new();
    let mut i: usize = 0;
    assert(lv.take(0) =~= Seq::<Seq<char>>::empty());
    assert(entry_views(out@) =~= Seq::<EntryView>::empty());
    while i < ls.len()
        invariant
            i <= ls@.len(),
            lv == ls@.map_values(|l: Vec<char>| l@),
            entry_views(out@) == entries_of(lv.take(i as int)),
        decreases ls@.len() - i,
    {
        assert(lv.take(i + 1).drop_last() =~= lv.take(i as int));
        let t = trim_chars(ls[i].as_slice());
        if !(t.len() == 0 || t[0] == '#') {
            let ghost before = entry_views(out@);
            let e = entry_from(t.as_slice());
            out.push(e);
            assert(entry_views(out@) =~= before.push(entry_of(t@)));
        }
        i = i + 1;
    }
    assert(lv.take(ls@.len() as int) =~= lv);
    out
}

/// Index of the first removal among `s`, or -1.
pub open spec fn first_removal(s: Seq<EntryView>) -> int
    decreases s.len(),
{
    if s.len() == 0 {
        -1
    } else if s[0].remove {
        0
    } else {
        let r = first_removal(s.drop_first());
        if r < 0 {
            -1
        } else {
            r + 1
        }
    }
}

/// Read a defaults list: a `-atom` line is refused, because the defaults
/// define the base set and only board lists subtract.
pub fn parse_base(content: &str, path: &str) -> (r: Result<Vec<Entry>, Error>)
    ensures
        ({
            let es = entries_of(text::lines(content@));
            let k = first_removal(es);
            if k < 0 {
                r matches Ok(v) && entry_views(v@) == es
            } else {
                0 <= k < es.len() && (r matches Err(Error::SubtractionInDefaults { file, atom })
                    && file@ == path@ && atom@ == es[k].atom)
            }
        }),
{
    let entries = parse(content);
    let ghost es = entry_views(entries@);
    let mut i: usize = 0;
    assert(es.skip(0) =~= es);
    while i < entries.len()
        invariant
            i <= entries@.len(),
            es == entry_views(entries@),
            es == entries_of(text::lines(content@)),
            first_removal(es) == (if first_removal(es.skip(i as int)) < 0 {
                -1
            } else {
                first_removal(es.skip(i as int)) + i
            }),
        decreases entries@.len() - i,
    {
        assert(es.skip(i as int).drop_first() =~= es.skip(i + 1));
        assert(es.skip(i as int)[0] == entries@[i as int]@);
        if entries[i].remove {
            return Err(
                Error::SubtractionInDefaults {
                    file: owned(path),
                    atom: copy_string(&entries[i].atom),
                },
            );
        }
        i = i + 1;
    }
    assert(es.skip(i as int) =~= Seq::<EntryView>::empty());
    Ok(entries)
}

/// `base` with every entry for `atom` taken out.
pub open spec fn without_atom(base: Seq<EntryView>, atom: Seq<char>) -> Seq<EntryView>
    decreases base.len(),
{
    if base.len() == 0 {
        seq![]
    } else {
        let prev = without_atom(base.drop_last(), atom);
        if base.last().atom != atom {
            prev.push(base.last())
        } else {
            prev
        }
    }
}

/// The overlay applied to the base in order: additions append, `-atom`
/// entries remove the atom from the set built so far.
pub open spec fn merged(base: Seq<EntryView>, overlay: Seq<EntryView>) -> Seq<EntryView>
    decreases overlay.len(),
{
    if overlay.len() == 0 {
        base
    } else {
        let prev = merged(base, overlay.drop_last());
        let e = overlay.last();
        if e.remove {
            without_atom(prev, e.atom)
        } else {
            prev.push(e)
        }
    }
}

fn remove_atom(base: Vec<Entry>, atom: &String) -> (r: Vec<Entry>)
    ensures
        entry_views(r@) == without_atom(entry_views(base@), atom@),
{
    let ghost bv = entry_views(base@);
    let mut out: Vec<Entry> = Vec::new();
    let mut rest = base;
    let n = rest.len();
    // Walk the base from its end so each entry can be moved out.
    let mut kept: Vec<Entry> = Vec::new();
    assert(bv.take(n as int) =~= bv);
    while rest.len() > 0
        invariant
            rest@.len() <= n,
            n == bv.len(),
            entry_views(rest@) == bv.take(rest@.len() as int),
            without_atom(bv.take(rest@.len() as int), atom@) + entry_views(kept@).reverse()
                =~= without_atom(bv, atom@),
        decreases rest@.len(),
    {
        let ghost m = rest@.len() as int;
        let e = rest.pop().unwrap();
        assert(bv.take(m).drop_last() =~= bv.take(m - 1));
        assert(bv.take(m).last() == e@);
        if !string_eq(&e.atom, atom) {
            let ghost before = entry_views(kept@);
            let ghost ev = e@;
            kept.push(e);
            assert(entry_views(kept@) =~= before.push(ev));
            assert(entry_views(kept@).reverse() =~= seq![ev] + before.reverse());
            assert(without_atom(bv.take(m - 1), atom@) + (seq![ev] + before.reverse())
                =~= without_atom(bv.take(m - 1), atom@).push(ev) + before.reverse());
        }
    }
    assert(without_atom(bv.take(0), atom@) =~= Seq::<EntryView>::empty());
    assert(entry_views(out@) + entry_views(kept@).reverse() =~= without_atom(bv, atom@));
    while kept.len() > 0
        invariant
            entry_views(out@) + entry_views(kept@).reverse() =~= without_atom(bv, atom@),
        decreases kept@.len(),
    {
        let ghost kv = entry_views(kept@);
        let e = kept.pop().unwrap();
        let ghost before = entry_views(out@);
        out.push(e);
        assert(kv.drop_last().reverse() =~= kv.reverse().drop_first());
        assert(entry_views(out@) =~= before.push(kv.last()));
        assert(kv.reverse()[0] == kv.last());
        assert(before.push(kv.last()) + kv.drop_last().reverse() =~= before + kv.reverse());
    }
    out
}

/// Merge board `overlay` entries into the `base` defaults, in order:
/// additions append, `-atom` entries remove the atom from the set built so
/// far (an atom that is not there removes nothing).
pub fn merge(base: Vec<Entry>, overlay: Vec<Entry>) -> (r: Vec<Entry>)
    ensures
        entry_views(r@) == merged(entry_views(base@), entry_views(overlay@)),
{
    let ghost bv = entry_views(base@);
    let ghost ov = entry_views(overlay@);
    let mut acc = base;
    let mut todo = overlay;
    // Take the overlay in order by reversing it once.
    let mut rev: Vec<Entry> = Vec::new();
    while todo.len() > 0
        invariant
            entry_views(todo@) + entry_views(rev@).reverse() =~= ov,
        decreases todo@.len(),
    {
        let ghost tv = entry_views(todo@);
        let ghost rv = entry_views(rev@);
        let e = todo.pop().unwrap();
        rev.push(e);
        assert(entry_views(rev@) =~= rv.push(tv.last()));
        assert(entry_views(todo@) =~= tv.drop_last());
        assert(rv.push(tv.last()).reverse() =~= seq![tv.last()] + rv.reverse());
        assert(tv.drop_last() + (seq![tv.last()] + rv.reverse()) =~= tv + rv.reverse());
    }
    assert(ov.take(0) =~= Seq::<EntryView>::empty());
    assert(entry_views(rev@).reverse() =~= ov);
    let ghost total = rev@.len();
    while rev.len() > 0
        invariant
            total == ov.len(),
            rev@.len() <= total,
            entry_views(rev@).reverse() =~= ov.skip(total - rev@.len()),
            entry_views(acc@) == merged(bv, ov.take(total - rev@.len())),
        decreases rev@.len(),
    {
        let ghost k = total - rev@.len();
        let ghost rv = entry_views(rev@);
        let e = rev.pop().unwrap();
        assert(rv.reverse()[0] == rv.last());
        assert(ov.skip(k)[0] == ov[k]);
        assert(e@ == ov[k]);
        assert(entry_views(rev@).reverse() =~= ov.skip(k + 1)) by {
            assert(rv.drop_last().reverse() =~= rv.reverse().drop_first());
            assert(ov.skip(k).drop_first() =~= ov.skip(k + 1));
        }
        assert(ov.take(k + 1).drop_last() =~= ov.take(k));
        assert(ov.take(k + 1).last() == ov[k]);
        if e.remove {
            acc = remove_atom(acc, &e.atom);
        } else {
            let ghost before = entry_views(acc@);
            acc.push(e);
            assert(entry_views(acc@) =~= before.push(ov[k]));
        }
    }
    assert(ov.take(total as int) =~= ov);
    acc
}

/// Just the atoms, e.g. for an emerge command line.
pub fn atoms(entries: &[Entry]) -> (r: Vec<&str>)
    ensures
        r@.map_values(|s: &str| s@) == entry_views(entries@).map_values(|e: EntryView| e.atom),
{
    let mut out: Vec<&str> = Vec::new();
    let mut i: usize = 0;
    while i < entries.len()
        invariant
            i <= entries@.len(),
            out@.map_values(|s: &str| s@) == entry_views(entries@).take(i as int).map_values(
                |e: EntryView| e.atom,
            ),
        decreases entries@.len() - i,
    {
        let ghost before = out@.map_values(|s: &str| s@);
        out.push(entries[i].atom.as_str());
        assert(out@.map_values(|s: &str| s@) =~= before.push(entries@[i as int].atom@));
        assert(entry_views(entries@).take(i + 1).map_values(|e: EntryView| e.atom)
            =~= entry_views(entries@).take(i as int).map_values(|e: EntryView| e.atom).push(
            entries@[i as int].atom@,
        ));
        i = i + 1;
    }
    assert(entry_views(entries@).take(i as int) =~= entry_views(entries@));
    out
}

} // verus!

verus! {

proof fn lemma_without_absent(base: Seq<EntryView>, atom: Seq<char>)
    requires
        forall|i: int| 0 <= i < base.len() ==> base[i].atom != atom,
    ensures
        without_atom(base, atom) == base,
    decreases base.len(),
{
    if base.len() > 0 {
        lemma_without_absent(base.drop_last(), atom);
        assert(base.drop_last().push(base.last()) =~= base);
    }
}

proof fn lemma_without_gone(base: Seq<EntryView>, atom: Seq<char>)
    ensures
        forall|i: int| 0 <= i < without_atom(base, atom).len() ==> #[trigger] without_atom(
            base,
            atom,
        )[i].atom != atom,
    decreases base.len(),
{
    if base.len() > 0 {
        lemma_without_gone(base.drop_last(), atom);
    }
}

/// Subtracting an atom the set does not hold leaves the set as it was, so a
/// board list survives a default being dropped.
pub proof fn law_subtracting_unlisted_atom_is_noop(base: Seq<EntryView>, e: EntryView)
    requires
        e.remove,
        forall|i: int| 0 <= i < base.len() ==> base[i].atom != e.atom,
    ensures
        merged(base, seq![e]) == base,
{
    assert(seq![e].drop_last() =~= Seq::<EntryView>::empty());
    assert(seq![e].last() == e);
    assert(merged(base, Seq::<EntryView>::empty()) == base);
    lemma_without_absent(base, e.atom);
}

/// After a `-atom` entry the merged set holds no entry for that atom.
pub proof fn law_subtraction_removes_the_atom(base: Seq<EntryView>, overlay: Seq<EntryView>)
    requires
        overlay.len() > 0,
        overlay.last().remove,
    ensures
        forall|i: int| 0 <= i < merged(base, overlay).len() ==> #[trigger] merged(base, overlay)[i].atom
            != overlay.last().atom,
{
    lemma_without_gone(merged(base, overlay.drop_last()), overlay.last().atom);
}

/// An addition goes to the end of the merged set.
pub proof fn law_addition_appends(base: Seq<EntryView>, overlay: Seq<EntryView>, e: EntryView)
    requires
        !e.remove,
    ensures
        merged(base, overlay.push(e)) == merged(base, overlay).push(e),
{
    assert(overlay.push(e).drop_last() =~= overlay);
}

} // verus!

verus! {

// ── Files written into a portage configuration ──────────────────────────────

/// The name a file about `atom` gets: its `/` turned into `_`.
pub open spec fn safe_name(atom: Seq<char>) -> Seq<char> {
    text::replace_all(atom, "/"@, "_"@)
}

/// The `package.accept_keywords` files for entries with keywords, as
/// `(file name, contents)`, in order.
pub open spec fn keyword_files(es: Seq<EntryView>) -> Seq<(Seq<char>, Seq<char>)>
    decreases es.len(),
{
    if es.len() == 0 {
        seq![]
    } else {
        let rest = keyword_files(es.drop_last());
        match es.last().keywords {
            Some(k) => rest.push((safe_name(es.last().atom), es.last().atom + " "@ + k + "\n"@)),
            None => rest,
        }
    }
}

pub open spec fn file_views(s: Seq<(String, String)>) -> Seq<(Seq<char>, Seq<char>)> {
    s.map_values(|f: (String, String)| (f.0@, f.1@))
}

fn push_file(out: &mut Vec<(String, String)>, name: String, body: String)
    ensures
        file_views(final(out)@) == file_views(old(out)@).push((name@, body@)),
{
    let ghost before = file_views(out@);
    let ghost e = (name@, body@);
    out.push((name, body));
    assert(file_views(out@) =~= before.push(e));
}

/// The `package.accept_keywords/` files an entry list needs: one per entry
/// with keywords, named after its atom, holding `atom keywords`.
pub fn accept_keywords_files(entries: &[Entry]) -> (r: Vec<(String, String)>)
    ensures
        file_views(r@) == keyword_files(entry_views(entries@)),
{
    let ghost ev = entry_views(entries@);
    let mut out: Vec<(String, String)> = Vec::new();
    let mut i: usize = 0;
    assert(ev.take(0) =~= Seq::<EntryView>::empty());
    assert(file_views(out@) =~= Seq::<(Seq<char>, Seq<char>)>::empty());
    proof {
        reveal_strlit("/");
    }
    while i < entries.len()
        invariant
            i <= entries@.len(),
            ev == entry_views(entries@),
            "/"@.len() > 0,
            file_views(out@) == keyword_files(ev.take(i as int)),
        decreases entries@.len() - i,
    {
        assert(ev.take(i + 1).drop_last() =~= ev.take(i as int));
        assert(ev.take(i + 1).last() == entries@[i as int]@);
        let e = &entries[i];
        match &e.keywords {
            Some(k) => {
                let name = text::replace_text(e.atom.as_str(), "/", "_");
                let a = text::concat3(e.atom.as_str(), " ", k.as_str());
                push_file(&mut out, name, text::concat(a.as_str(), "\n"));
            },
            None => {},
        }
        i = i + 1;
    }
    assert(ev.take(i as int) =~= ev);
    out
}

/// The `package.use` files a list of `atom flags...` lines gives: each
/// trimmed line that is not blank or a comment, in a file named after its
/// first word.
pub open spec fn use_files(ls: Seq<Seq<char>>) -> Seq<(Seq<char>, Seq<char>)>
    decreases ls.len(),
{
    if ls.len() == 0 {
        seq![]
    } else {
        let rest = use_files(ls.drop_last());
        let l = text::trim(ls.last());
        if l.len() == 0 || l[0] == '#' {
            rest
        } else {
            rest.push((safe_name(l.take(text::first_ws(l))), l + "\n"@))
        }
    }
}

/// The `package.use/` files for the text of a package.use list.
pub fn package_use_files(content: &str) -> (r: Vec<(String, String)>)
    ensures
        file_views(r@) == use_files(text::lines(content@)),
{
    let cs = chars_of(content);
    let ls = lines_of(cs.as_slice());
    let ghost lv = ls@.map_values(|l: Vec<char>| l@);
    let mut out: Vec<(String, String)> = Vec::new();
    let mut i: usize = 0;
    assert(lv.take(0) =~= Seq::<Seq<char>>::empty());
    assert(file_views(out@) =~= Seq::<(Seq<char>, Seq<char>)>::empty());
    proof {
        reveal_strlit("/");
    }
    while i < ls.len()
        invariant
            i <= ls@.len(),
            lv == ls@.map_values(|l: Vec<char>| l@),
            lv == text::lines(content@),
            "/"@.len() > 0,
            file_views(out@) == use_files(lv.take(i as int)),
        decreases ls@.len() - i,
    {
        assert(lv.take(i + 1).drop_last() =~= lv.take(i as int));
        assert(lv.take(i + 1).last() == ls@[i as int]@);
        let l = trim_chars(ls[i].as_slice());
        if l.len() > 0 && l[0] != '#' {
            let w = text::find_ws(l.as_slice());
            proof {
                text::lemma_first_ws(l@);
            }
            let atom = string_of(slice_of(l.as_slice(), 0, w).as_slice());
            assert(atom@ =~= l@.take(w as int));
            let name = text::replace_text(atom.as_str(), "/", "_");
            let line = string_of(l.as_slice());
            push_file(&mut out, name, text::concat(line.as_str(), "\n"));
        }
        i = i + 1;
    }
    assert(lv.take(i as int) =~= lv);
    out
}

} // verus!
