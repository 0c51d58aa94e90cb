//! The `KEY=value` / `KEY=(a "b c")` syntax of `board.conf`: which lines
//! count, how a value is unquoted, how an array literal splits, and the rule
//! that the last assignment of a key wins.
use vstd::prelude::*;
use crate::text;
use crate::text::{
    chars_eq, chars_of, find_char, find_ws, lines_of, slice_of, string_of,
    trim_chars, trim_end_in_chars, trim_start_chars, trim_start_in_chars,
};

verus! {

/// `s` with surrounding whitespace and then one pair of matching `"…"` or
/// `'…'` quotes removed.
pub open spec fn unquote(s: Seq<char>) -> Seq<char> {
    let t = text::trim(s);
    if t.len() >= 2 && ((t[0] == '"' && t.last() == '"') || (t[0] == '\'' && t.last() == '\'')) {
        t.subrange(1, t.len() - 1)
    } else {
        t
    }
}

/// The elements of a bash array literal's inner text, read from `r`, which
/// has no leading whitespace: a quoted element runs to its closing quote (an
/// unclosed quote ends the array), an unquoted one to the next whitespace.
pub open spec fn array_items(r: Seq<char>) -> Seq<Seq<char>>
    decreases r.len(),
{
    if r.len() == 0 {
        seq![]
    } else if r[0] == '"' || r[0] == '\'' {
        let body = r.drop_first();
        let e = text::index_of(body, r[0]);
        if e < 0 {
            seq![]
        } else {
            proof {
                text::lemma_index_of_bounds(body, r[0]);
                text::lemma_trim_start_len(body.skip(e + 1));
            }
            seq![body.take(e)] + array_items(text::trim_start(body.skip(e + 1)))
        }
    } else {
        let e = text::first_ws(r);
        proof {
            text::lemma_first_ws(r);
            text::lemma_trim_start_len(r.skip(e));
            if e == 0 {
                assert(r.skip(0) =~= r);
            }
        }
        seq![r.take(e)] + array_items(text::trim_start(r.skip(e)))
    }
}

/// A bash array literal's inner text split into its elements.
pub open spec fn parse_array(inner: Seq<char>) -> Seq<Seq<char>> {
    array_items(text::trim(inner))
}

/// What one line of a config file says.
pub enum ConfLine {
    Skip,
    Scalar(Seq<char>, Seq<char>),
    Array(Seq<char>, Seq<Seq<char>>),
}

/// A line, trimmed: blank lines, `#` comments and lines without `=` say
/// nothing; `KEY=(…)` assigns an array; any other `KEY=value` a scalar.
pub open spec fn conf_line(raw: Seq<char>) -> ConfLine {
    let line = text::trim(raw);
    if line.len() == 0 || line[0] == '#' {
        ConfLine::Skip
    } else {
        match text::split_once(line, '=') {
            None => ConfLine::Skip,
            Some(kr) => {
                let key = text::trim(kr.0);
                let r = text::trim(kr.1);
                if r.len() > 0 && r[0] == '(' {
                    ConfLine::Array(
                        key,
                        parse_array(text::trim_end_in(text::trim_start_in(r, '(', '('), ')', ')')),
                    )
                } else {
                    ConfLine::Scalar(key, unquote(r))
                }
            },
        }
    }
}

/// The scalar assignments of `ls`, in order.
pub open spec fn scalars_of(ls: Seq<Seq<char>>) -> Seq<(Seq<char>, Seq<char>)>
    decreases ls.len(),
{
    if ls.len() == 0 {
        seq![]
    } else {
        let prev = scalars_of(ls.drop_last());
        match conf_line(ls.last()) {
            ConfLine::Scalar(k, v) => prev.push((k, v)),
            _ => prev,
        }
    }
}

/// The array assignments of `ls`, in order.
pub open spec fn arrays_of(ls: Seq<Seq<char>>) -> Seq<(Seq<char>, Seq<Seq<char>>)>
    decreases ls.len(),
{
    if ls.len() == 0 {
        seq![]
    } else {
        let prev = arrays_of(ls.drop_last());
        match conf_line(ls.last()) {
            ConfLine::Array(k, v) => prev.push((k, v)),
            _ => prev,
        }
    }
}

/// The value of the last assignment of `key` in `e`.
pub open spec fn last_scalar(e: Seq<(Seq<char>, Seq<char>)>, key: Seq<char>) -> Option<Seq<char>>
    decreases e.len(),
{
    if e.len() == 0 {
        None
    } else if e.last().0 == key {
        Some(e.last().1)
    } else {
        last_scalar(e.drop_last(), key)
    }
}

/// The value of the last array assignment of `key` in `e`.
pub open spec fn last_array(e: Seq<(Seq<char>, Seq<Seq<char>>)>, key: Seq<char>) -> Option<
    Seq<Seq<char>>,
>
    decreases e.len(),
{
    if e.len() == 0 {
        None
    } else if e.last().0 == key {
        Some(e.last().1)
    } else {
        last_array(e.drop_last(), key)
    }
}

/// The scalar `key` of a config text: its last assignment.
pub open spec fn conf_get(content: Seq<char>, key: Seq<char>) -> Option<Seq<char>> {
    last_scalar(scalars_of(text::lines(content)), key)
}

/// The array `key` of a config text: its last array assignment.
pub open spec fn conf_array(content: Seq<char>, key: Seq<char>) -> Option<Seq<Seq<char>>> {
    last_array(arrays_of(text::lines(content)), key)
}

/// Strip surrounding whitespace and one pair of matching quotes.
pub fn unquote_chars(s: &[char]) -> (r: Vec<char>)
    ensures
        r@ == unquote(s@),
{
    let t = trim_chars(s);
    let n = t.len();
    if n >= 2 && ((t[0] == '"' && t[n - 1] == '"') || (t[0] == '\'' && t[n - 1] == '\'')) {
        slice_of(t.as_slice(), 1, n - 1)
    } else {
        t
    }
}

/// Split a bash array literal's inner text into its elements.
pub fn parse_array_chars(inner: &[char]) -> (r: Vec<Vec<char>>)
    ensures
        r@.map_values(|v: Vec<char>| v@) == parse_array(inner@),
{
    let mut out: Vec<Vec<char>> = Vec::new();
    let mut rem = trim_chars(inner);
    proof {
        text::lemma_trim_start_len(inner@);
    }
    while rem.len() > 0
        invariant
            out@.map_values(|v: Vec<char>| v@) + array_items(rem@) == parse_array(inner@),
        decreases rem@.len(),
    {
        let ghost old_out = out@.map_values(|v: Vec<char>| v@);
        let ghost r = rem@;
        let q = rem[0];
        if q == '"' || q == '\'' {
            let n = rem.len();
            let body = slice_of(rem.as_slice(), 1, n);
            assert(body@ =~= r.drop_first());
            match find_char(body.as_slice(), q) {
                Some(e) => {
                    proof {
                        text::lemma_index_of_bounds(body@, q);
                    }
                    let item = slice_of(body.as_slice(), 0, e);
                    assert(item@ =~= body@.take(e as int));
                    let bn = body.len();
                    let after = slice_of(body.as_slice(), e + 1, bn);
                    assert(after@ =~= body@.skip(e + 1));
                    let next = trim_start_chars(after.as_slice());
                    proof {
                        text::lemma_trim_start_len(after@);
                    }
                    out.push(item);
                    assert(out@.map_values(|v: Vec<char>| v@) =~= old_out.push(body@.take(e as int)));
                    assert(seq![body@.take(e as int)] + array_items(next@) == array_items(r));
                    assert(old_out.push(body@.take(e as int)) + array_items(next@) =~= old_out + (
                    seq![body@.take(e as int)] + array_items(next@)));
                    rem = next;
                },
                None => {
                    assert(array_items(r) =~= Seq::<Seq<char>>::empty());
                    assert(old_out + array_items(r) =~= old_out);
                    assert(old_out + array_items(Seq::<char>::empty()) =~= old_out);
                    rem = Vec::new();
                },
            }
        } else {
            let e = find_ws(rem.as_slice());
            proof {
                text::lemma_first_ws(r);
            }
            let item = slice_of(rem.as_slice(), 0, e);
            assert(item@ =~= r.take(e as int));
            let n = rem.len();
            let after = slice_of(rem.as_slice(), e, n);
            assert(after@ =~= r.skip(e as int));
            let next = trim_start_chars(after.as_slice());
            proof {
                text::lemma_trim_start_len(after@);
                if e == 0 {
                    assert(r.skip(0) =~= r);
                }
            }
            out.push(item);
            assert(out@.map_values(|v: Vec<char>| v@) =~= old_out.push(r.take(e as int)));
            assert(seq![r.take(e as int)] + array_items(next@) == array_items(r));
            assert(old_out.push(r.take(e as int)) + array_items(next@) =~= old_out + (seq![
                r.take(e as int),
            ] + array_items(next@)));
            rem = next;
        }
    }
    assert(array_items(rem@) =~= Seq::<Seq<char>>::empty());
    assert(out@.map_values(|v: Vec<char>| v@) + array_items(rem@) =~= out@.map_values(
        |v: Vec<char>| v@,
    ));
    out
}

} // verus!

verus! {

/// One line, classified (the executable form of [`ConfLine`]).
pub enum LineValue {
    Skip,
    Scalar(Vec<char>, Vec<char>),
    Array(Vec<char>, Vec<Vec<char>>),
}

impl LineValue {
    pub open spec fn view_line(&self) -> ConfLine {
        match self {
            LineValue::Skip => ConfLine::Skip,
            LineValue::Scalar(k, v) => ConfLine::Scalar(k@, v@),
            LineValue::Array(k, v) => ConfLine::Array(k@, v@.map_values(|e: Vec<char>| e@)),
        }
    }
}

/// Classify one line of a config file.
pub fn classify_line(raw: &[char]) -> (r: LineValue)
    ensures
        r.view_line() == conf_line(raw@),
{
    let line = trim_chars(raw);
    if line.len() == 0 || line[0] == '#' {
        return LineValue::Skip;
    }
    match find_char(line.as_slice(), '=') {
        None => LineValue::Skip,
        Some(i) => {
            proof {
                text::lemma_index_of_bounds(line@, '=');
            }
            let n = line.len();
            let k = slice_of(line.as_slice(), 0, i);
            let rest = slice_of(line.as_slice(), i + 1, n);
            assert(k@ =~= line@.take(i as int));
            assert(rest@ =~= line@.skip(i + 1));
            let key = trim_chars(k.as_slice());
            let r = trim_chars(rest.as_slice());
            if r.len() > 0 && r[0] == '(' {
                let a = trim_start_in_chars(r.as_slice(), '(', '(');
                let b = trim_end_in_chars(a.as_slice(), ')', ')');
                let items = parse_array_chars(b.as_slice());
                LineValue::Array(key, items)
            } else {
                let v = unquote_chars(r.as_slice());
                LineValue::Scalar(key, v)
            }
        },
    }
}

/// The assignments of a config text, in the order they appear.
pub struct ConfText {
    scalars: Vec<(Vec<char>, Vec<char>)>,
    arrays: Vec<(Vec<char>, Vec<Vec<char>>)>,
}

impl ConfText {
    pub closed spec fn scalars_view(&self) -> Seq<(Seq<char>, Seq<char>)> {
        self.scalars@.map_values(|e: (Vec<char>, Vec<char>)| (e.0@, e.1@))
    }

    pub closed spec fn arrays_view(&self) -> Seq<(Seq<char>, Seq<Seq<char>>)> {
        self.arrays@.map_values(
            |e: (Vec<char>, Vec<Vec<char>>)| (e.0@, e.1@.map_values(|x: Vec<char>| x@)),
        )
    }

    /// Read every line of `content`.
    pub fn read(content: &str) -> (r: ConfText)
        ensures
            r.scalars_view() == scalars_of(text::lines(content@)),
            r.arrays_view() == arrays_of(text::lines(content@)),
    {
        let cs = chars_of(content);
        let ls = lines_of(cs.as_slice());
        let ghost lv = ls@.map_values(|l: Vec<char>| l@);
        let mut r = ConfText { scalars: Vec::new(), arrays: Vec::new() };
        let mut i: usize = 0;
        assert(lv.take(0) =~= Seq::<Seq<char>>::empty());
        while i < ls.len()
            invariant
                i <= ls@.len(),
                lv == ls@.map_values(|l: Vec<char>| l@),
                r.scalars_view() == scalars_of(lv.take(i as int)),
                r.arrays_view() == arrays_of(lv.take(i as int)),
            decreases ls@.len() - i,
        {
            let c = classify_line(ls[i].as_slice());
            let ghost t = lv.take(i + 1);
            assert(t.drop_last() =~= lv.take(i as int));
            assert(t.last() == ls@[i as int]@);
            match c {
                LineValue::Skip => {},
                LineValue::Scalar(k, v) => {
                    let ghost old = r.scalars_view();
                    let ghost kv = (k@, v@);
                    r.scalars.push((k, v));
                    assert(r.scalars_view() =~= old.push(kv));
                },
                LineValue::Array(k, v) => {
                    let ghost old = r.arrays_view();
                    let ghost kv = (k@, v@.map_values(|x: Vec<char>| x@));
                    r.arrays.push((k, v));
                    assert(r.arrays_view() =~= old.push(kv));
                },
            }
            i = i + 1;
        }
        assert(lv.take(ls@.len() as int) =~= lv);
        r
    }

    /// The last scalar assignment of `key`.
    pub fn get(&self, key: &str) -> (r: Option<String>)
        ensures
            r.deep_view() == last_scalar(self.scalars_view(), key@),
    {
        let k = chars_of(key);
        let mut j: usize = self.scalars.len();
        assert(self.scalars_view().take(j as int) =~= self.scalars_view());
        while j > 0
            invariant
                j <= self.scalars@.len(),
                k@ == key@,
                last_scalar(self.scalars_view(), key@) == last_scalar(
                    self.scalars_view().take(j as int),
                    key@,
                ),
            decreases j,
        {
            let ghost t = self.scalars_view().take(j as int);
            assert(t.drop_last() =~= self.scalars_view().take(j - 1));
            if chars_eq(self.scalars[j - 1].0.as_slice(), k.as_slice()) {
                return Some(string_of(self.scalars[j - 1].1.as_slice()));
            }
            j = j - 1;
        }
        None
    }

    /// The last array assignment of `key`.
    pub fn get_array(&self, key: &str) -> (r: Option<Vec<String>>)
        ensures
            r.deep_view() == last_array(self.arrays_view(), key@),
    {
        let k = chars_of(key);
        let mut j: usize = self.arrays.len();
        assert(self.arrays_view().take(j as int) =~= self.arrays_view());
        while j > 0
            invariant
                j <= self.arrays@.len(),
                k@ == key@,
                last_array(self.arrays_view(), key@) == last_array(
                    self.arrays_view().take(j as int),
                    key@,
                ),
            decreases j,
        {
            let ghost t = self.arrays_view().take(j as int);
            assert(t.drop_last() =~= self.arrays_view().take(j - 1));
            if chars_eq(self.arrays[j - 1].0.as_slice(), k.as_slice()) {
                let items = &self.arrays[j - 1].1;
                let mut out: Vec<String> = Vec::new();
                let mut x: usize = 0;
                while x < items.len()
                    invariant
                        x <= items@.len(),
                        out.deep_view() == items@.take(x as int).map_values(|e: Vec<char>| e@),
                    decreases items@.len() - x,
                {
                    let ghost before = out.deep_view();
                    let s = string_of(items[x].as_slice());
                    out.push(s);
                    assert(out.deep_view() =~= before.push(items@[x as int]@));
                    assert(items@.take(x + 1).map_values(|e: Vec<char>| e@) =~= items@.take(
                        x as int,
                    ).map_values(|e: Vec<char>| e@).push(items@[x as int]@));
                    x = x + 1;
                }
                assert(items@.take(items@.len() as int) =~= items@);
                return Some(out);
            }
            j = j - 1;
        }
        None
    }
}

} // verus!

verus! {

// ── Texts put together ──────────────────────────────────────────────────────

proof fn lemma_assignments_append(l1: Seq<Seq<char>>, l2: Seq<Seq<char>>)
    ensures
        scalars_of(l1 + l2) == scalars_of(l1) + scalars_of(l2),
        arrays_of(l1 + l2) == arrays_of(l1) + arrays_of(l2),
    decreases l2.len(),
{
    if l2.len() == 0 {
        assert(l1 + l2 =~= l1);
        assert(scalars_of(l1) + scalars_of(l2) =~= scalars_of(l1));
        assert(arrays_of(l1) + arrays_of(l2) =~= arrays_of(l1));
    } else {
        lemma_assignments_append(l1, l2.drop_last());
        assert((l1 + l2).drop_last() =~= l1 + l2.drop_last());
        assert((l1 + l2).last() == l2.last());
        match conf_line(l2.last()) {
            ConfLine::Scalar(k, v) => {
                assert(scalars_of(l1) + scalars_of(l2) =~= (scalars_of(l1) + scalars_of(l2.drop_last())).push((k, v)));
                assert(arrays_of(l1) + arrays_of(l2) =~= arrays_of(l1) + arrays_of(l2.drop_last()));
            },
            ConfLine::Array(k, v) => {
                assert(arrays_of(l1) + arrays_of(l2) =~= (arrays_of(l1) + arrays_of(l2.drop_last())).push((k, v)));
                assert(scalars_of(l1) + scalars_of(l2) =~= scalars_of(l1) + scalars_of(l2.drop_last()));
            },
            ConfLine::Skip => {
                assert(scalars_of(l1) + scalars_of(l2) =~= scalars_of(l1) + scalars_of(l2.drop_last()));
                assert(arrays_of(l1) + arrays_of(l2) =~= arrays_of(l1) + arrays_of(l2.drop_last()));
            },
        }
    }
}

proof fn lemma_last_append(
    e1: Seq<(Seq<char>, Seq<char>)>,
    e2: Seq<(Seq<char>, Seq<char>)>,
    a1: Seq<(Seq<char>, Seq<Seq<char>>)>,
    a2: Seq<(Seq<char>, Seq<Seq<char>>)>,
    key: Seq<char>,
)
    ensures
        last_scalar(e1 + e2, key) == (if last_scalar(e2, key) is Some {
            last_scalar(e2, key)
        } else {
            last_scalar(e1, key)
        }),
        last_array(a1 + a2, key) == (if last_array(a2, key) is Some {
            last_array(a2, key)
        } else {
            last_array(a1, key)
        }),
    decreases e2.len() + a2.len(),
{
    if e2.len() == 0 {
        assert(e1 + e2 =~= e1);
    } else {
        assert((e1 + e2).drop_last() =~= e1 + e2.drop_last());
        assert((e1 + e2).last() == e2.last());
    }
    if a2.len() == 0 {
        assert(a1 + a2 =~= a1);
    } else {
        assert((a1 + a2).drop_last() =~= a1 + a2.drop_last());
        assert((a1 + a2).last() == a2.last());
    }
    if e2.len() > 0 && a2.len() > 0 {
        lemma_last_append(e1, e2.drop_last(), a1, a2.drop_last(), key);
    } else if e2.len() > 0 {
        lemma_last_append(e1, e2.drop_last(), a1, a2, key);
    } else if a2.len() > 0 {
        lemma_last_append(e1, e2, a1, a2.drop_last(), key);
    }
}

/// A line means the same with a trailing `\r` dropped.
proof fn lemma_conf_line_strip_cr(x: Seq<char>)
    ensures
        conf_line(text::strip_cr(x)) == conf_line(x),
{
    text::lemma_trim_strip_cr(x);
}

/// Ending a text with a newline adds no assignment.
proof fn lemma_newline_end(s: Seq<char>, cur: Seq<char>)
    ensures
        scalars_of(text::lines_from(s + seq!['\n'], cur)) == scalars_of(text::lines_from(s, cur)),
        arrays_of(text::lines_from(s + seq!['\n'], cur)) == arrays_of(text::lines_from(s, cur)),
    decreases s.len(),
{
    let n = seq!['\n'];
    if s.len() == 0 {
        assert(s + n =~= n);
        assert(n.drop_first() =~= Seq::<char>::empty());
        assert(text::lines_from(Seq::<char>::empty(), seq![]) =~= Seq::<Seq<char>>::empty());
        assert(text::lines_from(n, cur) =~= seq![text::strip_cr(cur)]);
        lemma_conf_line_strip_cr(cur);
        let one = seq![text::strip_cr(cur)];
        assert(one.drop_last() =~= Seq::<Seq<char>>::empty());
        if cur.len() == 0 {
            assert(text::lines_from(s, cur) =~= Seq::<Seq<char>>::empty());
            assert(text::strip_cr(cur) == cur);
            assert(text::trim(cur) =~= Seq::<char>::empty());
        } else {
            let two = seq![cur];
            assert(two.drop_last() =~= Seq::<Seq<char>>::empty());
        }
    } else {
        let t = s + n;
        assert(t[0] == s[0]);
        assert(t.drop_first() =~= s.drop_first() + n);
        if s[0] == '\n' {
            lemma_newline_end(s.drop_first(), seq![]);
            let head = seq![text::strip_cr(cur)];
            lemma_assignments_append(head, text::lines_from(s.drop_first() + n, seq![]));
            lemma_assignments_append(head, text::lines_from(s.drop_first(), seq![]));
        } else {
            lemma_newline_end(s.drop_first(), cur.push(s[0]));
        }
    }
}

/// The assignments of two config texts joined by a newline: a key the
/// second text assigns has its value there, any other the first's.
pub proof fn lemma_conf_join(a: Seq<char>, b: Seq<char>, key: Seq<char>)
    ensures
        conf_get(a + "\n"@ + b, key) == (if conf_get(b, key) is Some {
            conf_get(b, key)
        } else {
            conf_get(a, key)
        }),
        conf_array(a + "\n"@ + b, key) == (if conf_array(b, key) is Some {
            conf_array(b, key)
        } else {
            conf_array(a, key)
        }),
{
    reveal_strlit("\n");
    let n = seq!['\n'];
    assert(a + "\n"@ + b =~= (a + n) + b);
    text::lemma_lines_from_append(a + n, b, seq![]);
    lemma_newline_end(a, seq![]);
    lemma_assignments_append(text::lines(a + n), text::lines(b));
    lemma_last_append(
        scalars_of(text::lines(a + n)),
        scalars_of(text::lines(b)),
        arrays_of(text::lines(a + n)),
        arrays_of(text::lines(b)),
        key,
    );
}

} // verus!
