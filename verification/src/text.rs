//! Character-level text handling shared by every parser in the crate.
//!
//! Text is modelled as `Seq<char>`, the view of `str` and `String`.  The spec
//! functions here state what the standard library's `trim`, `lines`,
//! `split_whitespace`, `split(c)` and `split_once(c)` produce, and the
//! executable functions are proved against them.
use vstd::prelude::*;

verus! {

/// `String::push` appends one character.
pub assume_specification[ String::push ](s: &mut String, ch: char)
    ensures
        final(s)@ == old(s)@.push(ch),
;

/// Unicode `White_Space`, the set `char::is_whitespace` accepts.
pub open spec fn is_ws(c: char) -> bool {
    let u = c as u32;
    ||| u == 0x09 || u == 0x0A || u == 0x0B || u == 0x0C || u == 0x0D || u == 0x20
    ||| u == 0x85 || u == 0xA0 || u == 0x1680
    ||| 0x2000 <= u <= 0x200A
    ||| u == 0x2028 || u == 0x2029 || u == 0x202F || u == 0x205F || u == 0x3000
}

pub fn is_whitespace(c: char) -> (r: bool)
    ensures
        r == is_ws(c),
{
    let u = c as u32;
    u == 0x09 || u == 0x0A || u == 0x0B || u == 0x0C || u == 0x0D || u == 0x20 || u == 0x85
        || u == 0xA0 || u == 0x1680 || (0x2000 <= u && u <= 0x200A) || u == 0x2028 || u
        == 0x2029 || u == 0x202F || u == 0x205F || u == 0x3000
}

/// ASCII decimal digit.
pub open spec fn is_digit(c: char) -> bool {
    '0' <= c && c <= '9'
}

/// ASCII hexadecimal digit, either case.
pub open spec fn is_hex_digit(c: char) -> bool {
    ||| '0' <= c && c <= '9'
    ||| 'a' <= c && c <= 'f'
    ||| 'A' <= c && c <= 'F'
}

pub open spec fn trim_start(s: Seq<char>) -> Seq<char>
    decreases s.len(),
{
    if s.len() > 0 && is_ws(s[0]) {
        trim_start(s.drop_first())
    } else {
        s
    }
}

pub open spec fn trim_end(s: Seq<char>) -> Seq<char>
    decreases s.len(),
{
    if s.len() > 0 && is_ws(s.last()) {
        trim_end(s.drop_last())
    } else {
        s
    }
}

/// `str::trim`: leading and trailing whitespace removed.
pub open spec fn trim(s: Seq<char>) -> Seq<char> {
    trim_end(trim_start(s))
}

/// The piece `str::lines` yields: a trailing `\r` goes only with a `\n`.
pub open spec fn strip_cr(l: Seq<char>) -> Seq<char> {
    if l.len() > 0 && l.last() == '\r' {
        l.drop_last()
    } else {
        l
    }
}

/// `str::lines`, walking the text with the line read so far in `cur`.
pub open spec fn lines_from(s: Seq<char>, cur: Seq<char>) -> Seq<Seq<char>>
    decreases s.len(),
{
    if s.len() == 0 {
        if cur.len() == 0 {
            seq![]
        } else {
            seq![cur]
        }
    } else if s[0] == '\n' {
        seq![strip_cr(cur)] + lines_from(s.drop_first(), seq![])
    } else {
        lines_from(s.drop_first(), cur.push(s[0]))
    }
}

pub open spec fn lines(s: Seq<char>) -> Seq<Seq<char>> {
    lines_from(s, seq![])
}

/// `str::split_whitespace`, walking the text with the word read so far.
pub open spec fn words_from(s: Seq<char>, cur: Seq<char>) -> Seq<Seq<char>>
    decreases s.len(),
{
    if s.len() == 0 {
        if cur.len() == 0 {
            seq![]
        } else {
            seq![cur]
        }
    } else if is_ws(s[0]) {
        (if cur.len() == 0 {
            seq![]
        } else {
            seq![cur]
        }) + words_from(s.drop_first(), seq![])
    } else {
        words_from(s.drop_first(), cur.push(s[0]))
    }
}

pub open spec fn words(s: Seq<char>) -> Seq<Seq<char>> {
    words_from(s, seq![])
}

/// `str::split(c)`: always at least one piece.
pub open spec fn split_from(s: Seq<char>, c: char, cur: Seq<char>) -> Seq<Seq<char>>
    decreases s.len(),
{
    if s.len() == 0 {
        seq![cur]
    } else if s[0] == c {
        seq![cur] + split_from(s.drop_first(), c, seq![])
    } else {
        split_from(s.drop_first(), c, cur.push(s[0]))
    }
}

pub open spec fn split(s: Seq<char>, c: char) -> Seq<Seq<char>> {
    split_from(s, c, seq![])
}

/// Index of the first `c` in `s`, or -1.
pub open spec fn index_of(s: Seq<char>, c: char) -> int
    decreases s.len(),
{
    if s.len() == 0 {
        -1
    } else if s[0] == c {
        0
    } else {
        let r = index_of(s.drop_first(), c);
        if r < 0 {
            -1
        } else {
            r + 1
        }
    }
}

/// Index of the last `c` in `s`, or -1.
pub open spec fn last_index_of(s: Seq<char>, c: char) -> int
    decreases s.len(),
{
    if s.len() == 0 {
        -1
    } else if s.last() == c {
        s.len() - 1
    } else {
        last_index_of(s.drop_last(), c)
    }
}

/// `str::split_once(c)`.
pub open spec fn split_once(s: Seq<char>, c: char) -> Option<(Seq<char>, Seq<char>)> {
    let i = index_of(s, c);
    if i < 0 {
        None
    } else {
        Some((s.take(i), s.skip(i + 1)))
    }
}

pub open spec fn starts_with(s: Seq<char>, p: Seq<char>) -> bool {
    p.len() <= s.len() && s.take(p.len() as int) == p
}

pub open spec fn ends_with(s: Seq<char>, p: Seq<char>) -> bool {
    p.len() <= s.len() && s.skip(s.len() - p.len()) == p
}

/// `str::strip_prefix`.
pub open spec fn strip_prefix(s: Seq<char>, p: Seq<char>) -> Option<Seq<char>> {
    if starts_with(s, p) {
        Some(s.skip(p.len() as int))
    } else {
        None
    }
}

/// `str::strip_suffix`.
pub open spec fn strip_suffix(s: Seq<char>, p: Seq<char>) -> Option<Seq<char>> {
    if ends_with(s, p) {
        Some(s.take(s.len() - p.len()))
    } else {
        None
    }
}

pub open spec fn contains_char(s: Seq<char>, c: char) -> bool {
    exists|i: int| 0 <= i < s.len() && s[i] == c
}

/// Byte-wise order of UTF-8 text, which is the order of its code points.
pub open spec fn text_lt(a: Seq<char>, b: Seq<char>) -> bool
    decreases a.len(),
{
    if a.len() == 0 {
        b.len() > 0
    } else if b.len() == 0 {
        false
    } else if a[0] != b[0] {
        (a[0] as u32) < (b[0] as u32)
    } else {
        text_lt(a.drop_first(), b.drop_first())
    }
}

// ── Lemmas ──────────────────────────────────────────────────────────────────
pub proof fn lemma_index_of_bounds(s: Seq<char>, c: char)
    ensures
        -1 <= index_of(s, c) < s.len(),
        index_of(s, c) >= 0 ==> s[index_of(s, c)] == c,
        forall|k: int| 0 <= k < s.len() && (index_of(s, c) < 0 || k < index_of(s, c)) ==> s[k] != c,
    decreases s.len(),
{
    if s.len() > 0 && s[0] != c {
        lemma_index_of_bounds(s.drop_first(), c);
        assert forall|k: int|
            0 <= k < s.len() && (index_of(s, c) < 0 || k < index_of(s, c)) implies s[k] != c by {
            if k > 0 {
                assert(s[k] == s.drop_first()[k - 1]);
            }
        }
    }
}

/// `index_of` is the first position holding `c`.
pub proof fn lemma_index_of_is(s: Seq<char>, c: char, i: int)
    requires
        0 <= i <= s.len(),
        forall|k: int| 0 <= k < i ==> s[k] != c,
        i < s.len() ==> s[i] == c,
    ensures
        index_of(s, c) == (if i == s.len() { -1 } else { i }),
    decreases s.len(),
{
    if s.len() > 0 && i > 0 {
        assert forall|k: int| 0 <= k < i - 1 implies s.drop_first()[k] != c by {
            assert(s.drop_first()[k] == s[k + 1]);
        }
        lemma_index_of_is(s.drop_first(), c, i - 1);
    }
}

pub proof fn lemma_last_index_of_is(s: Seq<char>, c: char, i: int)
    requires
        -1 <= i < s.len(),
        forall|k: int| i < k < s.len() ==> s[k] != c,
        i >= 0 ==> s[i] == c,
    ensures
        last_index_of(s, c) == i,
    decreases s.len(),
{
    if s.len() > 0 && i < s.len() - 1 {
        assert forall|k: int| i < k < s.len() - 1 implies s.drop_last()[k] != c by {
            assert(s.drop_last()[k] == s[k]);
        }
        lemma_last_index_of_is(s.drop_last(), c, i);
    }
}

pub proof fn lemma_text_lt_irreflexive(a: Seq<char>)
    ensures
        !text_lt(a, a),
    decreases a.len(),
{
    if a.len() > 0 {
        lemma_text_lt_irreflexive(a.drop_first());
    }
}

pub proof fn lemma_text_lt_asymmetric(a: Seq<char>, b: Seq<char>)
    ensures
        text_lt(a, b) ==> !text_lt(b, a),
    decreases a.len(),
{
    if a.len() > 0 && b.len() > 0 && a[0] == b[0] {
        lemma_text_lt_asymmetric(a.drop_first(), b.drop_first());
    }
}

pub proof fn lemma_text_lt_transitive(a: Seq<char>, b: Seq<char>, c: Seq<char>)
    ensures
        text_lt(a, b) && text_lt(b, c) ==> text_lt(a, c),
    decreases a.len(),
{
    if a.len() > 0 && b.len() > 0 && c.len() > 0 {
        lemma_text_lt_transitive(a.drop_first(), b.drop_first(), c.drop_first());
    }
}

pub proof fn lemma_text_lt_total(a: Seq<char>, b: Seq<char>)
    ensures
        a != b ==> text_lt(a, b) || text_lt(b, a),
    decreases a.len(),
{
    if a.len() > 0 && b.len() > 0 && a[0] != b[0] {
        vstd::utf8::char_u32_cast(a[0], a[0] as u32);
        vstd::utf8::char_u32_cast(b[0], b[0] as u32);
        assert((a[0] as u32) != (b[0] as u32));
    }
    if a.len() > 0 && b.len() > 0 && a[0] == b[0] {
        lemma_text_lt_total(a.drop_first(), b.drop_first());
        if a.drop_first() == b.drop_first() {
            assert(a =~= seq![a[0]] + a.drop_first());
            assert(b =~= seq![b[0]] + b.drop_first());
        }
    }
    if a.len() == 0 && b.len() == 0 {
        assert(a =~= b);
    }
}

// ── Executable helpers ──────────────────────────────────────────────────────
/// The characters of `s`.
pub fn chars_of(s: &str) -> (r: Vec<char>)
    ensures
        r@ == s@,
{
    let mut out: Vec<char> = Vec::new();
    for c in it: s.chars()
        invariant
            out@ == it.seq().take(it.index() as int),
            it.seq() == s@,
    {
        out.push(c);
    }
    out
}

/// A `String` holding exactly `cs`.
pub fn string_of(cs: &[char]) -> (r: String)
    ensures
        r@ == cs@,
{
    let mut out = String::new();
    let mut i: usize = 0;
    while i < cs.len()
        invariant
            i <= cs@.len(),
            out@ == cs@.take(i as int),
        decreases cs@.len() - i,
    {
        out.push(cs[i]);
        i = i + 1;
        assert(cs@.take(i as int) =~= cs@.take(i - 1).push(cs@[i - 1]));
    }
    assert(cs@.take(cs@.len() as int) =~= cs@);
    out
}

/// `cs[lo..hi]` as a fresh vector.
pub fn slice_of(cs: &[char], lo: usize, hi: usize) -> (r: Vec<char>)
    requires
        lo <= hi <= cs@.len(),
    ensures
        r@ == cs@.subrange(lo as int, hi as int),
{
    let mut out: Vec<char> = Vec::new();
    let mut i = lo;
    while i < hi
        invariant
            lo <= i <= hi,
            hi <= cs@.len(),
            out@ == cs@.subrange(lo as int, i as int),
        decreases hi - i,
    {
        out.push(cs[i]);
        i = i + 1;
        assert(cs@.subrange(lo as int, i as int) =~= cs@.subrange(lo as int, i - 1).push(
            cs@[i - 1],
        ));
    }
    out
}

/// `cs[lo..hi]` as a `String`.
pub fn string_slice(cs: &[char], lo: usize, hi: usize) -> (r: String)
    requires
        lo <= hi <= cs@.len(),
    ensures
        r@ == cs@.subrange(lo as int, hi as int),
{
    let v = slice_of(cs, lo, hi);
    string_of(v.as_slice())
}

pub fn chars_eq(a: &[char], b: &[char]) -> (r: bool)
    ensures
        r == (a@ == b@),
{
    if a.len() != b.len() {
        return false;
    }
    let mut i: usize = 0;
    while i < a.len()
        invariant
            a@.len() == b@.len(),
            i <= a@.len(),
            forall|k: int| 0 <= k < i ==> a@[k] == b@[k],
        decreases a@.len() - i,
    {
        if a[i] != b[i] {
            return false;
        }
        i = i + 1;
    }
    assert(a@ =~= b@);
    true
}

/// Whether `a` holds the same text as `b`.
pub fn text_eq(a: &str, b: &str) -> (r: bool)
    ensures
        r == (a@ == b@),
{
    let ca = chars_of(a);
    let cb = chars_of(b);
    chars_eq(ca.as_slice(), cb.as_slice())
}

/// Whether two `String`s hold the same text.
pub fn string_eq(a: &String, b: &String) -> (r: bool)
    ensures
        r == (a@ == b@),
{
    text_eq(a.as_str(), b.as_str())
}

/// A copy of a `String`.
pub fn copy_string(s: &String) -> (r: String)
    ensures
        r@ == s@,
{
    let cs = chars_of(s.as_str());
    string_of(cs.as_slice())
}

/// A `String` holding the text of `s`.
pub fn owned(s: &str) -> (r: String)
    ensures
        r@ == s@,
{
    let cs = chars_of(s);
    string_of(cs.as_slice())
}

/// `a` followed by `b`.
pub fn concat(a: &str, b: &str) -> (r: String)
    ensures
        r@ == a@ + b@,
{
    let mut out = owned(a);
    out.append(b);
    out
}

pub fn starts_with_chars(s: &[char], p: &[char]) -> (r: bool)
    ensures
        r == starts_with(s@, p@),
{
    if p.len() > s.len() {
        return false;
    }
    let mut i: usize = 0;
    while i < p.len()
        invariant
            p@.len() <= s@.len(),
            i <= p@.len(),
            forall|k: int| 0 <= k < i ==> s@[k] == p@[k],
        decreases p@.len() - i,
    {
        if s[i] != p[i] {
            assert(s@.take(p@.len() as int)[i as int] != p@[i as int]);
            return false;
        }
        i = i + 1;
    }
    assert(s@.take(p@.len() as int) =~= p@);
    true
}

pub fn ends_with_chars(s: &[char], p: &[char]) -> (r: bool)
    ensures
        r == ends_with(s@, p@),
{
    if p.len() > s.len() {
        return false;
    }
    let off = s.len() - p.len();
    let mut i: usize = 0;
    while i < p.len()
        invariant
            p@.len() <= s@.len(),
            off == s@.len() - p@.len(),
            off + p@.len() == s@.len(),
            s@.len() <= usize::MAX,
            i <= p@.len(),
            forall|k: int| 0 <= k < i ==> s@[off + k] == p@[k],
        decreases p@.len() - i,
    {
        if s[off + i] != p[i] {
            assert(s@.skip(off as int)[i as int] != p@[i as int]);
            return false;
        }
        i = i + 1;
    }
    assert(s@.skip(off as int) =~= p@);
    true
}

/// Whether the text of `s` begins with the text of `p`.
pub fn str_starts_with(s: &str, p: &str) -> (r: bool)
    ensures
        r == starts_with(s@, p@),
{
    let cs = chars_of(s);
    let cp = chars_of(p);
    starts_with_chars(cs.as_slice(), cp.as_slice())
}

/// First index of `c` in `s`, if any.
pub fn find_char(s: &[char], c: char) -> (r: Option<usize>)
    ensures
        match r {
            Some(i) => i == index_of(s@, c) && i < s@.len(),
            None => index_of(s@, c) == -1,
        },
{
    let mut i: usize = 0;
    while i < s.len()
        invariant
            i <= s@.len(),
            forall|k: int| 0 <= k < i ==> s@[k] != c,
        decreases s@.len() - i,
    {
        if s[i] == c {
            proof {
                lemma_index_of_is(s@, c, i as int);
            }
            return Some(i);
        }
        i = i + 1;
    }
    proof {
        lemma_index_of_is(s@, c, s@.len() as int);
    }
    None
}

/// Last index of `c` in `s`, if any.
pub fn rfind_char(s: &[char], c: char) -> (r: Option<usize>)
    ensures
        match r {
            Some(i) => i == last_index_of(s@, c) && i < s@.len(),
            None => last_index_of(s@, c) == -1,
        },
{
    let mut i: usize = s.len();
    while i > 0
        invariant
            i <= s@.len(),
            forall|k: int| i <= k < s@.len() ==> s@[k] != c,
        decreases i,
    {
        if s[i - 1] == c {
            proof {
                lemma_last_index_of_is(s@, c, i - 1);
            }
            return Some(i - 1);
        }
        i = i - 1;
    }
    proof {
        lemma_last_index_of_is(s@, c, -1);
    }
    None
}

pub fn contains(s: &[char], c: char) -> (r: bool)
    ensures
        r == contains_char(s@, c),
{
    match find_char(s, c) {
        Some(i) => {
            proof {
                lemma_index_of_bounds(s@, c);
            }
            true
        },
        None => {
            proof {
                lemma_index_of_bounds(s@, c);
            }
            false
        },
    }
}

proof fn lemma_trim_start_skip(s: Seq<char>, i: int)
    requires
        0 <= i < s.len(),
        is_ws(s[i]),
    ensures
        trim_start(s.skip(i)) == trim_start(s.skip(i + 1)),
{
    assert(s.skip(i).drop_first() =~= s.skip(i + 1));
}

proof fn lemma_trim_end_take(s: Seq<char>, j: int)
    requires
        0 < j <= s.len(),
        is_ws(s[j - 1]),
    ensures
        trim_end(s.take(j)) == trim_end(s.take(j - 1)),
{
    assert(s.take(j).drop_last() =~= s.take(j - 1));
}

/// Bounds `(lo, hi)` with `s[lo..hi]` the trimmed text.
pub fn trim_bounds(s: &[char]) -> (r: (usize, usize))
    ensures
        r.0 <= r.1 <= s@.len(),
        s@.subrange(r.0 as int, r.1 as int) == trim(s@),
{
    let mut i: usize = 0;
    assert(s@.skip(0) =~= s@);
    while i < s.len() && is_whitespace(s[i])
        invariant
            i <= s@.len(),
            trim_start(s@) == trim_start(s@.skip(i as int)),
        decreases s@.len() - i,
    {
        proof {
            lemma_trim_start_skip(s@, i as int);
        }
        i = i + 1;
    }
    let ghost t = s@.skip(i as int);
    assert(trim_start(s@) == t);
    let mut j: usize = s.len();
    assert(t.take(t.len() as int) =~= t);
    while j > i && is_whitespace(s[j - 1])
        invariant
            i <= j <= s@.len(),
            t == s@.skip(i as int),
            trim_end(t) == trim_end(t.take(j - i)),
        decreases j,
    {
        proof {
            assert(t[j - i - 1] == s@[j - 1]);
            lemma_trim_end_take(t, j - i);
        }
        j = j - 1;
    }
    assert(t.take(j - i) =~= s@.subrange(i as int, j as int));
    (i, j)
}

/// `str::trim` on characters.
pub fn trim_chars(s: &[char]) -> (r: Vec<char>)
    ensures
        r@ == trim(s@),
{
    let (lo, hi) = trim_bounds(s);
    slice_of(s, lo, hi)
}

/// `str::trim` giving an owned `String`.
pub fn trim_str(s: &str) -> (r: String)
    ensures
        r@ == trim(s@),
{
    let cs = chars_of(s);
    let (lo, hi) = trim_bounds(cs.as_slice());
    string_slice(cs.as_slice(), lo, hi)
}

/// The lines of `s`, as `str::lines` yields them.
pub fn lines_of(s: &[char]) -> (r: Vec<Vec<char>>)
    ensures
        r@.map_values(|l: Vec<char>| l@) == lines(s@),
{
    let mut out: Vec<Vec<char>> = Vec::new();
    let mut cur: Vec<char> = Vec::new();
    let mut i: usize = 0;
    assert(s@.skip(0) =~= s@);
    while i < s.len()
        invariant
            i <= s@.len(),
            out@.map_values(|l: Vec<char>| l@) + lines_from(s@.skip(i as int), cur@) == lines(
                s@,
            ),
        decreases s@.len() - i,
    {
        let ghost rest = s@.skip(i as int);
        assert(rest.drop_first() =~= s@.skip(i + 1));
        let c = s[i];
        if c == '\n' {
            let line = if cur.len() > 0 && cur[cur.len() - 1] == '\r' {
                let n = cur.len() - 1;
                slice_of(cur.as_slice(), 0, n)
            } else {
                cur
            };
            proof {
                if cur@.len() > 0 && cur@.last() == '\r' {
                    assert(line@ =~= cur@.drop_last());
                }
            }
            let ghost old_out = out@.map_values(|l: Vec<char>| l@);
            out.push(line);
            assert(out@.map_values(|l: Vec<char>| l@) =~= old_out.push(strip_cr(cur@)));
            cur = Vec::new();
            assert(cur@ =~= Seq::<char>::empty());
        } else {
            cur.push(c);
        }
        i = i + 1;
    }
    assert(s@.skip(i as int) =~= Seq::<char>::empty());
    if cur.len() > 0 {
        let ghost old_out = out@.map_values(|l: Vec<char>| l@);
        let ghost cv = cur@;
        out.push(cur);
        assert(out@.map_values(|l: Vec<char>| l@) =~= old_out + seq![cv]);
    } else {
        assert(out@.map_values(|l: Vec<char>| l@) =~= out@.map_values(|l: Vec<char>| l@) + seq![]);
    }
    out
}

/// The whitespace-separated words of `s`, as `str::split_whitespace` yields them.
pub fn words_of(s: &[char]) -> (r: Vec<Vec<char>>)
    ensures
        r@.map_values(|l: Vec<char>| l@) == words(s@),
{
    let mut out: Vec<Vec<char>> = Vec::new();
    let mut cur: Vec<char> = Vec::new();
    let mut i: usize = 0;
    assert(s@.skip(0) =~= s@);
    while i < s.len()
        invariant
            i <= s@.len(),
            out@.map_values(|l: Vec<char>| l@) + words_from(s@.skip(i as int), cur@) == words(
                s@,
            ),
        decreases s@.len() - i,
    {
        let ghost rest = s@.skip(i as int);
        assert(rest.drop_first() =~= s@.skip(i + 1));
        let c = s[i];
        if is_whitespace(c) {
            if cur.len() > 0 {
                let ghost old_out = out@.map_values(|l: Vec<char>| l@);
                let ghost cv = cur@;
                out.push(cur);
                assert(out@.map_values(|l: Vec<char>| l@) =~= old_out + seq![cv]);
                cur = Vec::new();
            } else {
                assert(out@.map_values(|l: Vec<char>| l@) =~= out@.map_values(|l: Vec<char>| l@)
                    + seq![]);
            }
            assert(cur@ =~= Seq::<char>::empty());
        } else {
            cur.push(c);
        }
        i = i + 1;
    }
    assert(s@.skip(i as int) =~= Seq::<char>::empty());
    if cur.len() > 0 {
        let ghost old_out = out@.map_values(|l: Vec<char>| l@);
        let ghost cv = cur@;
        out.push(cur);
        assert(out@.map_values(|l: Vec<char>| l@) =~= old_out + seq![cv]);
    } else {
        assert(out@.map_values(|l: Vec<char>| l@) =~= out@.map_values(|l: Vec<char>| l@) + seq![]);
    }
    out
}

/// The pieces of `s` between occurrences of `sep`, as `str::split(sep)` yields them.
pub fn split_of(s: &[char], sep: char) -> (r: Vec<Vec<char>>)
    ensures
        r@.map_values(|l: Vec<char>| l@) == split(s@, sep),
        r@.len() >= 1,
{
    let mut out: Vec<Vec<char>> = Vec::new();
    let mut cur: Vec<char> = Vec::new();
    let mut i: usize = 0;
    assert(s@.skip(0) =~= s@);
    while i < s.len()
        invariant
            i <= s@.len(),
            out@.map_values(|l: Vec<char>| l@) + split_from(s@.skip(i as int), sep, cur@)
                == split(s@, sep),
        decreases s@.len() - i,
    {
        let ghost rest = s@.skip(i as int);
        assert(rest.drop_first() =~= s@.skip(i + 1));
        let c = s[i];
        if c == sep {
            let ghost old_out = out@.map_values(|l: Vec<char>| l@);
            let ghost cv = cur@;
            out.push(cur);
            assert(out@.map_values(|l: Vec<char>| l@) =~= old_out + seq![cv]);
            cur = Vec::new();
            assert(cur@ =~= Seq::<char>::empty());
        } else {
            cur.push(c);
        }
        i = i + 1;
    }
    assert(s@.skip(i as int) =~= Seq::<char>::empty());
    let ghost old_out = out@.map_values(|l: Vec<char>| l@);
    let ghost cv = cur@;
    out.push(cur);
    assert(out@.map_values(|l: Vec<char>| l@) =~= old_out + seq![cv]);
    out
}

/// Whether `a` sorts before `b` in byte order.
pub fn chars_lt(a: &[char], b: &[char]) -> (r: bool)
    ensures
        r == text_lt(a@, b@),
{
    let mut i: usize = 0;
    assert(a@.skip(0) =~= a@);
    assert(b@.skip(0) =~= b@);
    while i < a.len() && i < b.len()
        invariant
            i <= a@.len(),
            i <= b@.len(),
            text_lt(a@, b@) == text_lt(a@.skip(i as int), b@.skip(i as int)),
        decreases a@.len() - i,
    {
        proof {
            assert(a@.skip(i as int)[0] == a@[i as int]);
            assert(b@.skip(i as int)[0] == b@[i as int]);
        }
        if a[i] != b[i] {
            return (a[i] as u32) < (b[i] as u32);
        }
        assert(a@.skip(i as int).drop_first() =~= a@.skip(i + 1));
        assert(b@.skip(i as int).drop_first() =~= b@.skip(i + 1));
        i = i + 1;
    }
    i < b.len()
}

/// Whether the text of `a` sorts before the text of `b` in byte order.
pub fn string_lt(a: &String, b: &String) -> (r: bool)
    ensures
        r == text_lt(a@, b@),
{
    let ca = chars_of(a.as_str());
    let cb = chars_of(b.as_str());
    chars_lt(ca.as_slice(), cb.as_slice())
}

} // verus!

verus! {

// ── Trimming a given set of characters ──────────────────────────────────────
/// `c` is `a` or `b` (a one-character set is written with `a == b`).
pub open spec fn one_of(c: char, a: char, b: char) -> bool {
    c == a || c == b
}

/// `str::trim_start_matches` with the set `{a, b}`.
pub open spec fn trim_start_in(s: Seq<char>, a: char, b: char) -> Seq<char>
    decreases s.len(),
{
    if s.len() > 0 && one_of(s[0], a, b) {
        trim_start_in(s.drop_first(), a, b)
    } else {
        s
    }
}

/// `str::trim_end_matches` with the set `{a, b}`.
pub open spec fn trim_end_in(s: Seq<char>, a: char, b: char) -> Seq<char>
    decreases s.len(),
{
    if s.len() > 0 && one_of(s.last(), a, b) {
        trim_end_in(s.drop_last(), a, b)
    } else {
        s
    }
}

/// `str::trim_matches` with the set `{a, b}`.
pub open spec fn trim_in(s: Seq<char>, a: char, b: char) -> Seq<char> {
    trim_end_in(trim_start_in(s, a, b), a, b)
}

/// Index of the first whitespace character, or the length.
pub open spec fn first_ws(s: Seq<char>) -> int
    decreases s.len(),
{
    if s.len() == 0 {
        0
    } else if is_ws(s[0]) {
        0
    } else {
        first_ws(s.drop_first()) + 1
    }
}

pub proof fn lemma_first_ws(s: Seq<char>)
    ensures
        0 <= first_ws(s) <= s.len(),
        forall|k: int| 0 <= k < first_ws(s) ==> !is_ws(#[trigger] s[k]),
        first_ws(s) < s.len() ==> is_ws(s[first_ws(s)]),
    decreases s.len(),
{
    if s.len() > 0 && !is_ws(s[0]) {
        lemma_first_ws(s.drop_first());
        assert forall|k: int| 0 <= k < first_ws(s) implies !is_ws(#[trigger] s[k]) by {
            if k > 0 {
                assert(s[k] == s.drop_first()[k - 1]);
            }
        }
    }
}

pub proof fn lemma_trim_start_len(s: Seq<char>)
    ensures
        trim_start(s).len() <= s.len(),
        s.len() > 0 && is_ws(s[0]) ==> trim_start(s).len() < s.len(),
        trim_start(s).len() > 0 ==> !is_ws(trim_start(s)[0]),
        s.skip(s.len() - trim_start(s).len()) == trim_start(s),
    decreases s.len(),
{
    if s.len() > 0 && is_ws(s[0]) {
        lemma_trim_start_len(s.drop_first());
        let t = trim_start(s.drop_first());
        assert(s.drop_first().skip(s.drop_first().len() - t.len()) =~= s.skip(s.len() - t.len()));
    } else {
        assert(s.skip(0) =~= s);
    }
}

proof fn lemma_trim_start_in_skip(s: Seq<char>, i: int, a: char, b: char)
    requires
        0 <= i < s.len(),
        one_of(s[i], a, b),
    ensures
        trim_start_in(s.skip(i), a, b) == trim_start_in(s.skip(i + 1), a, b),
{
    assert(s.skip(i).drop_first() =~= s.skip(i + 1));
}

proof fn lemma_trim_end_in_take(s: Seq<char>, j: int, a: char, b: char)
    requires
        0 < j <= s.len(),
        one_of(s[j - 1], a, b),
    ensures
        trim_end_in(s.take(j), a, b) == trim_end_in(s.take(j - 1), a, b),
{
    assert(s.take(j).drop_last() =~= s.take(j - 1));
}

/// `s` with leading characters from `{a, b}` removed.
pub fn trim_start_in_chars(s: &[char], a: char, b: char) -> (r: Vec<char>)
    ensures
        r@ == trim_start_in(s@, a, b),
{
    let mut i: usize = 0;
    assert(s@.skip(0) =~= s@);
    while i < s.len() && (s[i] == a || s[i] == b)
        invariant
            i <= s@.len(),
            trim_start_in(s@, a, b) == trim_start_in(s@.skip(i as int), a, b),
        decreases s@.len() - i,
    {
        proof {
            lemma_trim_start_in_skip(s@, i as int, a, b);
        }
        i = i + 1;
    }
    let n = s.len();
    assert(s@.subrange(i as int, n as int) =~= s@.skip(i as int));
    slice_of(s, i, n)
}

/// `s` with trailing characters from `{a, b}` removed.
pub fn trim_end_in_chars(s: &[char], a: char, b: char) -> (r: Vec<char>)
    ensures
        r@ == trim_end_in(s@, a, b),
{
    let mut j: usize = s.len();
    assert(s@.take(s@.len() as int) =~= s@);
    while j > 0 && (s[j - 1] == a || s[j - 1] == b)
        invariant
            j <= s@.len(),
            trim_end_in(s@, a, b) == trim_end_in(s@.take(j as int), a, b),
        decreases j,
    {
        proof {
            lemma_trim_end_in_take(s@, j as int, a, b);
        }
        j = j - 1;
    }
    assert(s@.subrange(0, j as int) =~= s@.take(j as int));
    slice_of(s, 0, j)
}

/// `str::trim_matches` with the set `{a, b}`.
pub fn trim_in_chars(s: &[char], a: char, b: char) -> (r: Vec<char>)
    ensures
        r@ == trim_in(s@, a, b),
{
    let t = trim_start_in_chars(s, a, b);
    trim_end_in_chars(t.as_slice(), a, b)
}

/// Index of the first whitespace character of `s`, or its length.
pub fn find_ws(s: &[char]) -> (r: usize)
    ensures
        r == first_ws(s@),
{
    let mut i: usize = 0;
    assert(s@.skip(0) =~= s@);
    while i < s.len() && !is_whitespace(s[i])
        invariant
            i <= s@.len(),
            first_ws(s@) == first_ws(s@.skip(i as int)) + i,
        decreases s@.len() - i,
    {
        assert(s@.skip(i as int).drop_first() =~= s@.skip(i + 1));
        i = i + 1;
    }
    i
}

/// Leading whitespace removed (`str::trim_start`).
pub fn trim_start_chars(s: &[char]) -> (r: Vec<char>)
    ensures
        r@ == trim_start(s@),
{
    let mut i: usize = 0;
    assert(s@.skip(0) =~= s@);
    while i < s.len() && is_whitespace(s[i])
        invariant
            i <= s@.len(),
            trim_start(s@) == trim_start(s@.skip(i as int)),
        decreases s@.len() - i,
    {
        proof {
            lemma_trim_start_skip(s@, i as int);
        }
        i = i + 1;
    }
    let n = s.len();
    assert(s@.subrange(i as int, n as int) =~= s@.skip(i as int));
    slice_of(s, i, n)
}

/// Whether `s` is non-empty and begins with `c`.
pub fn begins_with(s: &[char], c: char) -> (r: bool)
    ensures
        r == (s@.len() > 0 && s@[0] == c),
{
    s.len() > 0 && s[0] == c
}

/// Whether `s` is non-empty and ends with `c`.
pub fn finishes_with(s: &[char], c: char) -> (r: bool)
    ensures
        r == (s@.len() > 0 && s@.last() == c),
{
    s.len() > 0 && s[s.len() - 1] == c
}

/// Concatenation of three texts.
pub fn concat3(a: &str, b: &str, c: &str) -> (r: String)
    ensures
        r@ == a@ + b@ + c@,
{
    let mut s = concat(a, b);
    s.append(c);
    s
}

} // verus!

verus! {

/// `p` occurs in `s` (`str::contains` with a string pattern).
pub open spec fn has_infix(s: Seq<char>, p: Seq<char>) -> bool {
    exists|i: int| 0 <= i && i + p.len() <= s.len() && #[trigger] s.subrange(i, i + p.len()) == p
}

/// Whether `p` occurs in `s`.
pub fn contains_text(s: &str, p: &str) -> (r: bool)
    ensures
        r == has_infix(s@, p@),
{
    let sc = chars_of(s);
    let pc = chars_of(p);
    let n = sc.len();
    let m = pc.len();
    if m > n {
        assert forall|i: int| 0 <= i && i + p@.len() <= s@.len() implies #[trigger] s@.subrange(
            i,
            i + p@.len(),
        ) != p@ by {}
        return false;
    }
    if m == 0 {
        assert(s@.subrange(0int, 0int + p@.len()) =~= p@);
        return true;
    }
    let mut i: usize = 0;
    while i <= n - m
        invariant
            sc@ == s@,
            pc@ == p@,
            n == sc@.len(),
            m == pc@.len(),
            0 < m <= n,
            i <= n - m + 1,
            forall|k: int| 0 <= k < i ==> #[trigger] s@.subrange(k, k + p@.len()) != p@,
        decreases n - m + 1 - i,
    {
        let w = slice_of(sc.as_slice(), i, i + m);
        if chars_eq(w.as_slice(), pc.as_slice()) {
            assert(s@.subrange(i as int, i + p@.len()) == p@);
            return true;
        }
        i = i + 1;
    }
    assert forall|k: int| 0 <= k && k + p@.len() <= s@.len() implies #[trigger] s@.subrange(
        k,
        k + p@.len(),
    ) != p@ by {
        assert(k < i);
    }
    false
}

} // verus!

verus! {

/// `str::replace(pat, rep)`: every non-overlapping occurrence of a
/// non-empty `pat`, left to right, replaced by `rep`.
pub open spec fn replace_all(s: Seq<char>, pat: Seq<char>, rep: Seq<char>) -> Seq<char>
    recommends
        pat.len() > 0,
    decreases s.len(),
{
    if s.len() == 0 || pat.len() == 0 {
        s
    } else if starts_with(s, pat) {
        rep + replace_all(s.skip(pat.len() as int), pat, rep)
    } else {
        seq![s[0]] + replace_all(s.drop_first(), pat, rep)
    }
}

/// `s.replace(pat, rep)` for a non-empty `pat`.
pub fn replace_text(s: &str, pat: &str, rep: &str) -> (r: String)
    requires
        pat@.len() > 0,
    ensures
        r@ == replace_all(s@, pat@, rep@),
{
    let cs = chars_of(s);
    let pc = chars_of(pat);
    let mut out = String::new();
    let mut i: usize = 0;
    assert(cs@.skip(0) =~= cs@);
    while i < cs.len()
        invariant
            i <= cs@.len(),
            cs@ == s@,
            pc@ == pat@,
            pat@.len() > 0,
            out@ + replace_all(cs@.skip(i as int), pat@, rep@) == replace_all(s@, pat@, rep@),
        decreases cs@.len() - i,
    {
        let ghost rest = cs@.skip(i as int);
        let n = cs.len();
        let m = pc.len();
        let here = if m <= n - i {
            let w = slice_of(cs.as_slice(), i, i + m);
            chars_eq(w.as_slice(), pc.as_slice())
        } else {
            false
        };
        assert(here == starts_with(rest, pat@)) by {
            if i + m <= n {
                assert(rest.take(m as int) =~= cs@.subrange(i as int, i + m));
            }
        }
        let ghost before = out@;
        if here {
            out.append(rep);
            assert(rest.skip(m as int) =~= cs@.skip(i + m));
            assert(before + replace_all(rest, pat@, rep@) =~= out@ + replace_all(
                cs@.skip(i + m),
                pat@,
                rep@,
            ));
            i = i + m;
        } else {
            out.push(cs[i]);
            assert(rest.drop_first() =~= cs@.skip(i + 1));
            assert(before + replace_all(rest, pat@, rep@) =~= out@ + replace_all(
                cs@.skip(i + 1),
                pat@,
                rep@,
            ));
            i = i + 1;
        }
    }
    assert(cs@.skip(i as int) =~= Seq::<char>::empty());
    out
}

/// `str::trim_end_matches(c)` for one character.
pub fn trim_end_char(s: &str, c: char) -> (r: String)
    ensures
        r@ == trim_end_in(s@, c, c),
{
    let cs = chars_of(s);
    let t = trim_end_in_chars(cs.as_slice(), c, c);
    string_of(t.as_slice())
}

/// Whether `s` starts with `p`.
pub fn str_prefixed(s: &str, p: &str) -> (r: bool)
    ensures
        r == starts_with(s@, p@),
{
    str_starts_with(s, p)
}

} // verus!

verus! {

proof fn lemma_split_from_first(s: Seq<char>, c: char, cur: Seq<char>, j: int)
    requires
        0 <= j <= s.len(),
        forall|k: int| 0 <= k < j ==> s[k] != c,
        j < s.len() ==> s[j] == c,
    ensures
        split_from(s, c, cur)[0] == cur + s.take(j),
    decreases s.len(),
{
    if s.len() == 0 {
        assert(cur + s.take(j) =~= cur);
    } else if s[0] == c {
        assert(cur + s.take(j) =~= cur);
    } else {
        assert forall|k: int| 0 <= k < j - 1 implies s.drop_first()[k] != c by {
            assert(s.drop_first()[k] == s[k + 1]);
        }
        lemma_split_from_first(s.drop_first(), c, cur.push(s[0]), j - 1);
        assert(cur.push(s[0]) + s.drop_first().take(j - 1) =~= cur + s.take(j));
    }
}

/// The first piece of `split(s, c)` is `s` up to the first `c`.
pub proof fn lemma_split_first(s: Seq<char>, c: char, j: int)
    requires
        0 <= j <= s.len(),
        forall|k: int| 0 <= k < j ==> s[k] != c,
        j < s.len() ==> s[j] == c,
    ensures
        split(s, c)[0] == s.take(j),
{
    lemma_split_from_first(s, c, seq![], j);
    assert(Seq::<char>::empty() + s.take(j) =~= s.take(j));
}

} // verus!

verus! {

// ── Lines of texts built line by line ───────────────────────────────────────

/// The lines of a text that ends with a newline, followed by more text, are
/// its lines followed by the lines of the rest.
pub proof fn lemma_lines_from_append(a: Seq<char>, b: Seq<char>, cur: Seq<char>)
    requires
        a.len() > 0,
        a.last() == '\n',
    ensures
        lines_from(a + b, cur) == lines_from(a, cur) + lines_from(b, seq![]),
    decreases a.len(),
{
    assert((a + b).drop_first() =~= a.drop_first() + b);
    if a[0] == '\n' {
        if a.len() == 1 {
            assert(a.drop_first() + b =~= b);
            assert(lines_from(a.drop_first(), seq![]) =~= Seq::<Seq<char>>::empty());
        } else {
            lemma_lines_from_append(a.drop_first(), b, seq![]);
        }
    } else {
        lemma_lines_from_append(a.drop_first(), b, cur.push(a[0]));
    }
}

/// A line without newline, ended by one, is one line.
pub proof fn lemma_lines_from_one(l: Seq<char>, cur: Seq<char>)
    requires
        forall|i: int| 0 <= i < l.len() ==> l[i] != '\n',
    ensures
        lines_from(l + seq!['\n'], cur) == seq![strip_cr(cur + l)],
    decreases l.len(),
{
    if l.len() == 0 {
        let n = seq!['\n'];
        assert(l + n =~= n);
        assert(cur + l =~= cur);
        assert(n.drop_first() =~= Seq::<char>::empty());
        assert(lines_from(Seq::<char>::empty(), seq![]) =~= Seq::<Seq<char>>::empty());
        assert(lines_from(n, cur) == seq![strip_cr(cur)] + lines_from(n.drop_first(), seq![]));
        assert(seq![strip_cr(cur)] + Seq::<Seq<char>>::empty() =~= seq![strip_cr(cur)]);
    } else {
        let t = l + seq!['\n'];
        assert(t[0] == l[0]);
        assert(t.drop_first() =~= l.drop_first() + seq!['\n']);
        assert(cur.push(l[0]) + l.drop_first() =~= cur + l);
        assert forall|i: int| 0 <= i < l.drop_first().len() implies l.drop_first()[i] != '\n' by {
            assert(l.drop_first()[i] == l[i + 1]);
        }
        lemma_lines_from_one(l.drop_first(), cur.push(l[0]));
    }
}

/// Appending a line and its newline to a text that is empty or ends with a
/// newline appends that line to its lines.
pub proof fn lemma_lines_push(h: Seq<char>, l: Seq<char>)
    requires
        h.len() == 0 || h.last() == '\n',
        forall|i: int| 0 <= i < l.len() ==> l[i] != '\n',
    ensures
        lines(h + l + seq!['\n']) == lines(h).push(strip_cr(l)),
{
    lemma_lines_from_one(l, seq![]);
    assert(Seq::<char>::empty() + l =~= l);
    if h.len() == 0 {
        assert(h + l + seq!['\n'] =~= l + seq!['\n']);
        assert(lines(h) =~= Seq::<Seq<char>>::empty());
        assert(lines(h).push(strip_cr(l)) =~= seq![strip_cr(l)]);
    } else {
        assert(h + l + seq!['\n'] =~= h + (l + seq!['\n']));
        lemma_lines_from_append(h, l + seq!['\n'], seq![]);
        assert(lines(h) + seq![strip_cr(l)] =~= lines(h).push(strip_cr(l)));
    }
}

} // verus!

verus! {

pub proof fn lemma_trim_end_len(s: Seq<char>)
    ensures
        trim_end(s).len() <= s.len(),
        s.len() > 0 && is_ws(s.last()) ==> trim_end(s).len() < s.len(),
    decreases s.len(),
{
    if s.len() > 0 && is_ws(s.last()) {
        lemma_trim_end_len(s.drop_last());
    }
}

/// A text that trims to itself does not end in whitespace.
pub proof fn lemma_trimmed_last(s: Seq<char>)
    requires
        trim(s) == s,
        s.len() > 0,
    ensures
        !is_ws(s.last()),
{
    let u = trim_start(s);
    lemma_trim_start_len(s);
    lemma_trim_end_len(u);
    if is_ws(s.last()) {
        if u.len() > 0 {
            assert(u.last() == s.last()) by {
                assert(s.skip(s.len() - u.len()) == u);
                assert(u[u.len() - 1] == s[s.len() - 1]);
            }
            assert(trim_end(u).len() < u.len());
        }
        assert(trim(s).len() < s.len());
    }
}

/// Whitespace in front of a text does not survive trimming.
pub proof fn lemma_trim_space_front(v: Seq<char>)
    ensures
        trim(seq![' '] + v) == trim(v),
{
    let t = seq![' '] + v;
    assert(t[0] == ' ');
    assert(is_ws(' '));
    assert(t.drop_first() =~= v);
}

} // verus!

verus! {

/// Leading-whitespace trimming of a text with one more character.
pub proof fn lemma_trim_start_push(y: Seq<char>, c: char)
    ensures
        trim_start(y.push(c)) == (if trim_start(y).len() > 0 {
            trim_start(y).push(c)
        } else {
            trim_start(seq![c])
        }),
    decreases y.len(),
{
    if y.len() == 0 {
        assert(y.push(c) =~= seq![c]);
    } else {
        assert(y.push(c)[0] == y[0]);
        assert(y.push(c).drop_first() =~= y.drop_first().push(c));
        if is_ws(y[0]) {
            lemma_trim_start_push(y.drop_first(), c);
        }
    }
}

/// Trailing whitespace does not change what a text trims to.
pub proof fn lemma_trim_drop_ws_last(x: Seq<char>)
    requires
        x.len() > 0,
        is_ws(x.last()),
    ensures
        trim(x) == trim(x.drop_last()),
{
    let y = x.drop_last();
    let c = x.last();
    assert(y.push(c) =~= x);
    lemma_trim_start_push(y, c);
    if trim_start(y).len() > 0 {
        assert(trim_start(x) == trim_start(y).push(c));
        assert(trim_start(y).push(c).drop_last() =~= trim_start(y));
    } else {
        let s1 = seq![c];
        assert(s1.drop_first() =~= Seq::<char>::empty());
        assert(trim_start(s1) == trim_start(Seq::<char>::empty()));
        assert(trim_start(x).len() == 0);
        assert(trim_end(trim_start(x)) =~= Seq::<char>::empty());
        assert(trim_start(y) =~= Seq::<char>::empty());
    }
}

/// A line and the same line with a trailing `\r` dropped trim alike.
pub proof fn lemma_trim_strip_cr(x: Seq<char>)
    ensures
        trim(strip_cr(x)) == trim(x),
{
    if x.len() > 0 && x.last() == '\r' {
        assert(is_ws('\r'));
        lemma_trim_drop_ws_last(x);
    }
}

} // verus!
