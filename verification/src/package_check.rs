//! Catching a package list entry that names nothing before a build spends
//! its time: which atoms of a list are looked up, where the ebuild trees
//! are, and the error that lists what was not found.  Whether a package
//! directory exists is the disk's to say.
use vstd::prelude::*;
use crate::chroot::{join_strings, joined};
use crate::error::{is_board_error, Error};
use crate::hash::{decimal, decimal_string};
use crate::image::{atom_cpn, spec_atom_cpn};
use crate::text;
use crate::text::{chars_of, concat, concat3, lines_of, owned, string_of, trim_chars};

verus! {

/// What a line of a package list asks to look up: nothing for a blank line,
/// a comment, or a `-atom` line (which removes rather than names); else its
/// first word, with the category and package that word reduces to, where it
/// reduces to any.
pub open spec fn listed_of_line(line: Seq<char>) -> Option<(Seq<char>, Seq<char>, Seq<char>)> {
    let t = text::trim(line);
    if t.len() == 0 || t[0] == '#' || t[0] == '-' {
        None
    } else {
        let ws = text::words(t);
        if ws.len() == 0 {
            None
        } else {
            match spec_atom_cpn(ws[0]) {
                Some(p) => Some((ws[0], p.0, p.1)),
                None => None,
            }
        }
    }
}

/// The lookups of the lines `ls`, each with its line number (from one).
pub open spec fn listed_atoms(ls: Seq<Seq<char>>) -> Seq<(nat, Seq<char>, Seq<char>, Seq<char>)>
    decreases ls.len(),
{
    if ls.len() == 0 {
        seq![]
    } else {
        match listed_of_line(ls.last()) {
            Some(a) => listed_atoms(ls.drop_last()).push((ls.len(), a.0, a.1, a.2)),
            None => listed_atoms(ls.drop_last()),
        }
    }
}

/// An atom a package list names, and where.
#[derive(Debug, Clone)]
pub struct ListedAtom {
    /// Its line in the list, counted from one.
    pub line: usize,
    pub atom: String,
    pub category: String,
    pub package: String,
}

pub open spec fn listed_views(v: Seq<ListedAtom>) -> Seq<(nat, Seq<char>, Seq<char>, Seq<char>)> {
    v.map_values(|a: ListedAtom| (a.line as nat, a.atom@, a.category@, a.package@))
}

fn listed_line(line: &[char], number: usize) -> (r: Option<ListedAtom>)
    ensures
        match listed_of_line(line@) {
            Some(a) => r matches Some(x) && x.line == number && x.atom@ == a.0 && x.category@ == a.1
                && x.package@ == a.2,
            None => r is None,
        },
{
    let t = trim_chars(line);
    if t.len() == 0 || t[0] == '#' || t[0] == '-' {
        return None;
    }
    let ws = text::words_of(t.as_slice());
    let ghost wv = ws@.map_values(|w: Vec<char>| w@);
    if ws.len() == 0 {
        return None;
    }
    assert(wv[0] == ws@[0]@);
    let atom = string_of(ws[0].as_slice());
    match atom_cpn(atom.as_str()) {
        Some((c, p)) => Some(ListedAtom { line: number, atom: owned(atom.as_str()), category: owned(c), package: owned(p) }),
        None => None,
    }
}

/// The atoms a package list's text asks to look up, in order.
pub fn listed_atoms_of(content: &str) -> (r: Vec<ListedAtom>)
    ensures
        listed_views(r@) == listed_atoms(text::lines(content@)),
{
    let cs = chars_of(content);
    let ls = lines_of(cs.as_slice());
    let ghost lv = ls@.map_values(|l: Vec<char>| l@);
    let mut out: Vec<ListedAtom> = Vec::new();
    let mut i: usize = 0;
    assert(lv.take(0) =~= Seq::<Seq<char>>::empty());
    assert(listed_views(out@) =~= Seq::<(nat, Seq<char>, Seq<char>, Seq<char>)>::empty());
    while i < ls.len()
        invariant
            i <= ls@.len(),
            lv == ls@.map_values(|l: Vec<char>| l@),
            lv == text::lines(content@),
            listed_views(out@) == listed_atoms(lv.take(i as int)),
        decreases ls@.len() - i,
    {
        assert(lv.take(i + 1).drop_last() =~= lv.take(i as int));
        assert(lv.take(i + 1).last() == ls@[i as int]@);
        match listed_line(ls[i].as_slice(), i + 1) {
            Some(a) => {
                let ghost before = listed_views(out@);
                let ghost av = (a.line as nat, a.atom@, a.category@, a.package@);
                out.push(a);
                assert(listed_views(out@) =~= before.push(av));
            },
            None => {},
        }
        i = i + 1;
    }
    assert(lv.take(i as int) =~= lv);
    out
}

/// How an atom that names nothing is reported: `<list>:<line>: <atom>`.
pub open spec fn missing_text(list: Seq<char>, line: nat, atom: Seq<char>) -> Seq<char> {
    list + ":"@ + decimal(line) + ": "@ + atom
}

pub fn missing_entry(list: &str, a: &ListedAtom) -> (r: String)
    ensures
        r@ == missing_text(list@, a.line as nat, a.atom@),
{
    let x = concat3(list, ":", decimal_string(a.line as u64).as_str());
    concat3(x.as_str(), ": ", a.atom.as_str())
}

/// The message for the atoms `bad` that no ebuild tree holds.
pub open spec fn no_such_package_msg(bad: Seq<Seq<char>>) -> Seq<char> {
    "no such package:\n  "@ + joined(bad, "\n  "@)
}

/// The verdict on a board's package lists: fine when every atom was found,
/// else the board's error listing each one that was not.
pub fn no_such_package(board_name: &str, bad: &Vec<String>) -> (r: Result<(), Error>)
    ensures
        r is Ok <==> bad@.len() == 0,
        r matches Err(e) ==> is_board_error(e, board_name@, no_such_package_msg(bad.deep_view())),
{
    if bad.len() == 0 {
        return Ok(());
    }
    let msg = concat("no such package:\n  ", join_strings(bad, "\n  ").as_str());
    Err(Error::BoardConfigParse { file: owned(board_name), msg })
}

/// The `location` a line of `repos.conf` sets, relative to the sandbox
/// root (leading `/` dropped); none for any other line.
pub open spec fn location_of(line: Seq<char>) -> Option<Seq<char>> {
    match text::split_once(line, '=') {
        Some(kv) => if text::trim(kv.0) == "location"@ {
            Some(text::trim_start_in(text::trim(kv.1), '/', '/'))
        } else {
            None
        },
        None => None,
    }
}

pub open spec fn locations(ls: Seq<Seq<char>>) -> Seq<Seq<char>>
    decreases ls.len(),
{
    if ls.len() == 0 {
        seq![]
    } else {
        match location_of(ls.last()) {
            Some(l) => locations(ls.drop_last()).push(l),
            None => locations(ls.drop_last()),
        }
    }
}

fn location_line(line: &[char]) -> (r: Option<String>)
    ensures
        match location_of(line@) {
            Some(l) => r matches Some(x) && x@ == l,
            None => r is None,
        },
{
    match text::find_char(line, '=') {
        None => None,
        Some(i) => {
            let n = line.len();
            let k = crate::text::slice_of(line, 0, i);
            let v = crate::text::slice_of(line, i + 1, n);
            assert(k@ =~= line@.take(i as int));
            assert(v@ =~= line@.skip(i + 1));
            let kt = trim_chars(k.as_slice());
            let want = chars_of("location");
            if text::chars_eq(kt.as_slice(), want.as_slice()) {
                let vt = trim_chars(v.as_slice());
                let rel = text::trim_start_in_chars(vt.as_slice(), '/', '/');
                Some(string_of(rel.as_slice()))
            } else {
                None
            }
        },
    }
}

/// The ebuild repository locations a `repos.conf` file's text sets, in
/// order, relative to the sandbox root.
pub fn repo_locations(content: &str) -> (r: Vec<String>)
    ensures
        r.deep_view() == locations(text::lines(content@)),
{
    let cs = chars_of(content);
    let ls = lines_of(cs.as_slice());
    let ghost lv = ls@.map_values(|l: Vec<char>| l@);
    let mut out: Vec<String> = Vec::new();
    let mut i: usize = 0;
    assert(lv.take(0) =~= Seq::<Seq<char>>::empty());
    assert(out.deep_view() =~= Seq::<Seq<char>>::empty());
    while i < ls.len()
        invariant
            i <= ls@.len(),
            lv == ls@.map_values(|l: Vec<char>| l@),
            lv == text::lines(content@),
            out.deep_view() == locations(lv.take(i as int)),
        decreases ls@.len() - i,
    {
        assert(lv.take(i + 1).drop_last() =~= lv.take(i as int));
        assert(lv.take(i + 1).last() == ls@[i as int]@);
        match location_line(ls[i].as_slice()) {
            Some(l) => {
                let ghost before = out.deep_view();
                let ghost lw = l@;
                out.push(l);
                assert(out.deep_view() =~= before.push(lw));
            },
            None => {},
        }
        i = i + 1;
    }
    assert(lv.take(i as int) =~= lv);
    out
}

} // verus!
