//! Gentoo's published stage3 listings: reading `latest-stage3*.txt`,
//! the names of the archives in it, and picking the newest.
use vstd::prelude::*;
use vstd::utf8::{encode_scalar, encode_utf8};
use crate::config::{ConfigError, PlatformConfig};
use crate::num::{parse_error_text, parse_u64, parse_u64_text, ParsedU64};
use crate::text;
use crate::text::{
    chars_of, concat, concat3, copy_string, lines_of, owned, replace_text, split_of, string_lt,
    string_of, str_prefixed, text_eq, trim_chars, trim_end_char, words_of,
};

verus! {

/// Why fetching or reading stage3 images failed.
#[derive(Debug)]
pub enum Stage3Error {
    FetchError(String),
    ParseError(String),
    DownloadError(String),
    VerifyError(String),
    ExtractError(String),
    ConfigError(ConfigError),
}

/// What went wrong in a cache or stage3 operation.
#[derive(Debug)]
pub enum StageError {
    CacheError(crate::cache::CacheError),
    Stage3Error(Stage3Error),
    ConfigError(String),
    IoError(String),
}

/// Information about a stage3 image.
#[derive(Debug)]
pub struct Stage3Info {
    /// e.g. `stage3-riscv64-openrc-20231018T010001Z.tar.xz`.
    pub name: String,
    /// Full download URL.
    pub url: String,
    /// Size in bytes.
    pub size: u64,
    /// Build date taken from the name.
    pub date: String,
    pub arch: String,
    /// e.g. `riscv64-openrc`.
    pub flavor: String,
}

pub struct Stage3InfoView {
    pub name: Seq<char>,
    pub url: Seq<char>,
    pub size: u64,
    pub date: Seq<char>,
    pub arch: Seq<char>,
    pub flavor: Seq<char>,
}

impl View for Stage3Info {
    type V = Stage3InfoView;

    open spec fn view(&self) -> Stage3InfoView {
        Stage3InfoView {
            name: self.name@,
            url: self.url@,
            size: self.size,
            date: self.date@,
            arch: self.arch@,
            flavor: self.flavor@,
        }
    }
}

impl Stage3Info {
    /// A copy with the same contents.
    pub fn duplicate(&self) -> (r: Stage3Info)
        ensures
            r@ == self@,
    {
        Stage3Info {
            name: copy_string(&self.name),
            url: copy_string(&self.url),
            size: self.size,
            date: copy_string(&self.date),
            arch: copy_string(&self.arch),
            flavor: copy_string(&self.flavor),
        }
    }
}

// ── Archive names ───────────────────────────────────────────────────────────

/// The time stamp of an archive name `stage3-<arch>-<flavor>-<YYYYMMDDTHHMMSSZ>.tar.xz`
/// as a number: the last `-` field with `.tar.xz`, `T` and `Z` removed; 0
/// when the name has fewer than four fields or the stamp is no number.
pub open spec fn spec_timestamp(name: Seq<char>) -> u64 {
    let parts = text::split(name, '-');
    if parts.len() >= 4 {
        let ts = text::replace_all(
            text::replace_all(text::replace_all(parts.last(), ".tar.xz"@, ""@), "T"@, ""@),
            "Z"@,
            ""@,
        );
        match parse_u64(ts) {
            ParsedU64::Value(v) => v,
            _ => 0,
        }
    } else {
        0
    }
}

/// The flavor of an archive name: its second and third `-` fields joined
/// (`stage3-riscv64-openrc-…` → `riscv64-openrc`), else the name without
/// `.tar.xz` and `stage3-`.
pub open spec fn spec_flavor(name: Seq<char>) -> Seq<char> {
    let w = text::replace_all(name, ".tar.xz"@, ""@);
    let parts = text::split(w, '-');
    if parts.len() >= 3 {
        parts[1] + "-"@ + parts[2]
    } else {
        text::replace_all(w, "stage3-"@, ""@)
    }
}

/// Length of the UTF-8 encoding of `s`.
pub open spec fn utf8_len(s: Seq<char>) -> nat {
    encode_utf8(s).len()
}

/// The prefix of `s` whose UTF-8 encoding is `n` bytes long, if `n` falls
/// on a character boundary.
pub open spec fn byte_prefix(s: Seq<char>, n: nat) -> Option<Seq<char>>
    decreases s.len(),
{
    if n == 0 {
        Some(seq![])
    } else if s.len() == 0 {
        None
    } else {
        let w = encode_scalar(s[0] as u32).len();
        if w > n {
            None
        } else {
            match byte_prefix(s.drop_first(), (n - w) as nat) {
                Some(p) => Some(seq![s[0]] + p),
                None => None,
            }
        }
    }
}

/// The build date of an archive name: the first eight bytes of its time
/// stamp (`YYYYMMDD`), `unknown` when there is no such stamp; `None` when
/// eight bytes end inside a character, where `str` slicing panics.
pub open spec fn spec_date(name: Seq<char>) -> Option<Seq<char>> {
    let parts = text::split(name, '-');
    if parts.len() >= 4 {
        let ts = text::replace_all(parts.last(), ".tar.xz"@, ""@);
        if utf8_len(ts) >= 8 {
            byte_prefix(ts, 8)
        } else {
            Some("unknown"@)
        }
    } else {
        Some("unknown"@)
    }
}

/// Bytes in the UTF-8 encoding of `c`.
pub fn char_width(c: char) -> (w: usize)
    ensures
        w == encode_scalar(c as u32).len(),
        1 <= w <= 4,
{
    let u = c as u32;
    if u <= 0x7F {
        1
    } else if u <= 0x7FF {
        2
    } else if u <= 0xFFFF {
        assert(!(0xD800 <= u <= 0xDFFF));
        3
    } else {
        4
    }
}

/// The time stamp of an archive name, as a number (0 when there is none).
pub fn extract_timestamp(filename: &str) -> (r: u64)
    ensures
        r == spec_timestamp(filename@),
{
    let cs = chars_of(filename);
    let parts = split_of(cs.as_slice(), '-');
    if parts.len() >= 4 {
        let last = string_of(parts[parts.len() - 1].as_slice());
        proof {
            reveal_strlit(".tar.xz");
            reveal_strlit("T");
            reveal_strlit("Z");
        }
        let a = replace_text(last.as_str(), ".tar.xz", "");
        let b = replace_text(a.as_str(), "T", "");
        let c = replace_text(b.as_str(), "Z", "");
        match parse_u64_text(c.as_str()) {
            ParsedU64::Value(v) => v,
            _ => 0,
        }
    } else {
        0
    }
}

/// The flavor an archive name carries (`riscv64-openrc`).
pub fn extract_flavor_from_filename(filename: &str) -> (r: String)
    ensures
        r@ == spec_flavor(filename@),
{
    proof {
        reveal_strlit(".tar.xz");
        reveal_strlit("stage3-");
    }
    let w = replace_text(filename, ".tar.xz", "");
    let cs = chars_of(w.as_str());
    let parts = split_of(cs.as_slice(), '-');
    if parts.len() >= 3 {
        let a = string_of(parts[1].as_slice());
        let b = string_of(parts[2].as_slice());
        concat3(a.as_str(), "-", b.as_str())
    } else {
        replace_text(w.as_str(), "stage3-", "")
    }
}

/// The build date of an archive name, `YYYYMMDD`, or `unknown`.
pub fn extract_date_from_filename(filename: &str) -> (r: String)
    requires
        spec_date(filename@) is Some,
    ensures
        r@ == spec_date(filename@).unwrap(),
{
    let cs = chars_of(filename);
    let parts = split_of(cs.as_slice(), '-');
    if parts.len() < 4 {
        return owned("unknown");
    }
    let last = string_of(parts[parts.len() - 1].as_slice());
    proof {
        reveal_strlit(".tar.xz");
    }
    let t = replace_text(last.as_str(), ".tar.xz", "");
    let ts = chars_of(t.as_str());
    let ghost s = ts@;
    // Byte length, capped once it reaches eight.
    let mut total: usize = 0;
    let mut i: usize = 0;
    assert(s.skip(0) =~= s);
    while i < ts.len() && total < 8
        invariant
            i <= ts@.len(),
            s == ts@,
            total < 8 + 4,
            utf8_len(s) == total + utf8_len(s.skip(i as int)),
        decreases ts@.len() - i,
    {
        assert(s.skip(i as int).drop_first() =~= s.skip(i + 1));
        total = total + char_width(ts[i]);
        i = i + 1;
    }
    if total < 8 {
        assert(s.skip(i as int) =~= Seq::<char>::empty());
        return owned("unknown");
    }
    // Walk to the character boundary eight bytes in.
    let mut rem: usize = 8;
    let mut j: usize = 0;
    assert(s.take(0) =~= Seq::<char>::empty());
    assert(s.skip(0) =~= s);
    while rem > 0
        invariant
            j <= ts@.len(),
            s == ts@,
            rem <= 8,
            byte_prefix(s, 8) is Some,
            byte_prefix(s, 8) == match byte_prefix(s.skip(j as int), rem as nat) {
                Some(p) => Some(s.take(j as int) + p),
                None => None::<Seq<char>>,
            },
        decreases rem,
    {
        let ghost rest = s.skip(j as int);
        if j >= ts.len() {
            assert(rest.len() == 0);
            assert(false);
        }
        assert(rest.drop_first() =~= s.skip(j + 1));
        assert(rest[0] == ts@[j as int]);
        let w = char_width(ts[j]);
        if w > rem {
            assert(false);
            return owned("unknown");
        }
        proof {
            let q = byte_prefix(s.skip(j + 1), (rem - w) as nat);
            if q is Some {
                assert(s.take(j as int) + (seq![s[j as int]] + q.unwrap()) =~= s.take(j + 1)
                    + q.unwrap());
            }
        }
        rem = rem - w;
        j = j + 1;
    }
    assert(s.take(j as int) + Seq::<char>::empty() =~= s.take(j as int));
    string_of(crate::text::slice_of(ts.as_slice(), 0, j).as_slice())
}

} // verus!

verus! {

// ── Listings ────────────────────────────────────────────────────────────────

/// The mirror URL without trailing slashes.
pub open spec fn base_url(mirror: Seq<char>) -> Seq<char> {
    text::trim_end_in(mirror, '/', '/')
}

/// Where an archive listed as `path` is downloaded from.
pub open spec fn archive_url(mirror: Seq<char>, arch: Seq<char>, path: Seq<char>) -> Seq<char> {
    base_url(mirror) + "/releases/"@ + arch + "/autobuilds/"@ + path
}

/// The file name of a listed path: what follows its last `/`.
pub open spec fn file_name_of(path: Seq<char>) -> Seq<char> {
    text::split(path, '/').last()
}

pub open spec fn listing_entry(mirror: Seq<char>, arch: Seq<char>, path: Seq<char>, size: u64) -> Stage3InfoView {
    let name = file_name_of(path);
    Stage3InfoView {
        name,
        url: archive_url(mirror, arch, path),
        size,
        date: spec_date(name).unwrap(),
        arch,
        flavor: spec_flavor(name),
    }
}

/// Lines that carry nothing: blank, `#` comments, the `Hash:` header and the
/// start of the signed message.
pub open spec fn is_quiet_line(t: Seq<char>) -> bool {
    t.len() == 0 || t[0] == '#' || text::starts_with(t, "Hash:"@) || t
        == "-----BEGIN PGP SIGNED MESSAGE-----"@
}

pub open spec fn begin_signature() -> Seq<char> {
    "-----BEGIN PGP SIGNATURE-----"@
}

pub open spec fn end_signature() -> Seq<char> {
    "-----END PGP SIGNATURE-----"@
}

/// The archives a listing names, from line `ls[0]` on, `in_pgp` telling
/// whether a signature block is open: each remaining line `path size ...`
/// whose file name starts with `stage3-`, or the error of the first size
/// that is no number.
pub open spec fn listing(ls: Seq<Seq<char>>, in_pgp: bool, mirror: Seq<char>, arch: Seq<char>) -> Result<
    Seq<Stage3InfoView>,
    Seq<char>,
>
    decreases ls.len(),
{
    if ls.len() == 0 {
        Ok(seq![])
    } else {
        let t = text::trim(ls[0]);
        let rest = ls.drop_first();
        if is_quiet_line(t) {
            listing(rest, in_pgp, mirror, arch)
        } else if t == begin_signature() {
            listing(rest, true, mirror, arch)
        } else if t == end_signature() {
            listing(rest, false, mirror, arch)
        } else if in_pgp {
            listing(rest, in_pgp, mirror, arch)
        } else {
            let parts = text::words(t);
            if parts.len() < 2 {
                listing(rest, in_pgp, mirror, arch)
            } else {
                match parse_u64(parts[1]) {
                    ParsedU64::Value(size) => match listing(rest, in_pgp, mirror, arch) {
                        Err(m) => Err(m),
                        Ok(v) => Ok(
                            if text::starts_with(file_name_of(parts[0]), "stage3-"@) {
                                seq![listing_entry(mirror, arch, parts[0], size)] + v
                            } else {
                                v
                            },
                        ),
                    },
                    p => Err("Failed to parse size for "@ + parts[0] + ": "@ + parse_error_text(p)),
                }
            }
        }
    }
}

/// Reading the listing never slices a date in the middle of a character.
pub open spec fn listing_safe(ls: Seq<Seq<char>>, in_pgp: bool) -> bool
    decreases ls.len(),
{
    if ls.len() == 0 {
        true
    } else {
        let t = text::trim(ls[0]);
        let rest = ls.drop_first();
        if is_quiet_line(t) {
            listing_safe(rest, in_pgp)
        } else if t == begin_signature() {
            listing_safe(rest, true)
        } else if t == end_signature() {
            listing_safe(rest, false)
        } else if in_pgp {
            listing_safe(rest, in_pgp)
        } else {
            let parts = text::words(t);
            if parts.len() < 2 {
                listing_safe(rest, in_pgp)
            } else {
                match parse_u64(parts[1]) {
                    ParsedU64::Value(_) => (text::starts_with(file_name_of(parts[0]), "stage3-"@)
                        ==> spec_date(file_name_of(parts[0])) is Some) && listing_safe(rest, in_pgp),
                    _ => true,
                }
            }
        }
    }
}

pub open spec fn prepend(acc: Seq<Stage3InfoView>, r: Result<Seq<Stage3InfoView>, Seq<char>>) -> Result<
    Seq<Stage3InfoView>,
    Seq<char>,
> {
    match r {
        Ok(v) => Ok(acc + v),
        Err(m) => Err(m),
    }
}

pub open spec fn views(s: Seq<Stage3Info>) -> Seq<Stage3InfoView> {
    s.map_values(|x: Stage3Info| x@)
}

/// Fetches, caches and extracts the stage3 images of one platform.
pub struct Stage3Fetcher {
    config: PlatformConfig,
    cache_dir: String,
    mirror_url: String,
}

impl Stage3Fetcher {
    pub closed spec fn arch(&self) -> Seq<char> {
        self.config.target.arch@
    }

    pub closed spec fn flavor(&self) -> Seq<char> {
        self.config.target.flavor@
    }

    pub closed spec fn mirror(&self) -> Seq<char> {
        self.mirror_url@
    }

    pub closed spec fn cache(&self) -> Seq<char> {
        self.cache_dir@
    }

    /// A fetcher for `config`'s target, caching in `cache_dir`, fetching
    /// from the Gentoo mirror `mirror_url`.
    pub fn new(config: PlatformConfig, cache_dir: &str, mirror_url: &str) -> (r: Stage3Fetcher)
        ensures
            r.arch() == config.target.arch@,
            r.flavor() == config.target.flavor@,
            r.mirror() == mirror_url@,
            r.cache() == cache_dir@,
    {
        Stage3Fetcher { config, cache_dir: owned(cache_dir), mirror_url: owned(mirror_url) }
    }

    fn read_listing(&self, content: &str) -> (r: Result<Vec<Stage3Info>, String>)
        requires
            listing_safe(text::lines(content@), false),
        ensures
            match listing(text::lines(content@), false, self.mirror(), self.arch()) {
                Ok(v) => r matches Ok(x) && views(x@) == v,
                Err(m) => r matches Err(e) && e@ == m,
            },
    {
        let cs = chars_of(content);
        let ls = lines_of(cs.as_slice());
        let ghost lv = ls@.map_values(|l: Vec<char>| l@);
        let ghost mirror = self.mirror();
        let ghost arch = self.arch();
        let base = trim_end_char(self.mirror_url.as_str(), '/');
        let quiet_hash = chars_of("Hash:");
        let signed = chars_of("-----BEGIN PGP SIGNED MESSAGE-----");
        let begin = chars_of("-----BEGIN PGP SIGNATURE-----");
        let end = chars_of("-----END PGP SIGNATURE-----");
        let mut acc: Vec<Stage3Info> = Vec::new();
        let mut in_pgp = false;
        let mut i: usize = 0;
        assert(lv.skip(0) =~= lv);
        assert(views(acc@) =~= Seq::<Stage3InfoView>::empty());
        assert(prepend(Seq::<Stage3InfoView>::empty(), listing(lv, false, mirror, arch)) =~= listing(
            lv,
            false,
            mirror,
            arch,
        )) by {
            match listing(lv, false, mirror, arch) {
                Ok(v) => assert(Seq::<Stage3InfoView>::empty() + v =~= v),
                Err(_) => {},
            }
        }
        while i < ls.len()
            invariant
                i <= ls@.len(),
                lv == ls@.map_values(|l: Vec<char>| l@),
                lv == text::lines(content@),
                mirror == self.mirror(),
                arch == self.arch(),
                base@ == base_url(mirror),
                quiet_hash@ == "Hash:"@,
                signed@ == "-----BEGIN PGP SIGNED MESSAGE-----"@,
                begin@ == begin_signature(),
                end@ == end_signature(),
                listing(lv, false, mirror, arch) == prepend(
                    views(acc@),
                    listing(lv.skip(i as int), in_pgp, mirror, arch),
                ),
                listing_safe(lv.skip(i as int), in_pgp),
            decreases ls@.len() - i,
        {
            let ghost rest = lv.skip(i + 1);
            assert(lv.skip(i as int).drop_first() =~= rest);
            assert(lv.skip(i as int)[0] == ls@[i as int]@);
            let t = trim_chars(ls[i].as_slice());
            let quiet = t.len() == 0 || t[0] == '#' || crate::text::starts_with_chars(
                t.as_slice(),
                quiet_hash.as_slice(),
            ) || crate::text::chars_eq(t.as_slice(), signed.as_slice());
            if quiet {
            } else if crate::text::chars_eq(t.as_slice(), begin.as_slice()) {
                in_pgp = true;
            } else if crate::text::chars_eq(t.as_slice(), end.as_slice()) {
                in_pgp = false;
            } else if in_pgp {
            } else {
                let parts = words_of(t.as_slice());
                let ghost pv = parts@.map_values(|l: Vec<char>| l@);
                if parts.len() >= 2 {
                    assert(pv[0] == parts@[0]@ && pv[1] == parts@[1]@);
                    let size_text = string_of(parts[1].as_slice());
                    let full_path = string_of(parts[0].as_slice());
                    match parse_u64_text(size_text.as_str()) {
                        ParsedU64::Value(size) => {
                            let pieces = split_of(parts[0].as_slice(), '/');
                            let ghost piv = pieces@.map_values(|l: Vec<char>| l@);
                            assert(piv.last() == pieces@[pieces@.len() - 1]@);
                            let name = string_of(pieces[pieces.len() - 1].as_slice());
                            if str_prefixed(name.as_str(), "stage3-") {
                                let date = extract_date_from_filename(name.as_str());
                                let flavor = extract_flavor_from_filename(name.as_str());
                                let u1 = concat3(base.as_str(), "/releases/", self.config.target.arch.as_str());
                                let url = concat3(u1.as_str(), "/autobuilds/", full_path.as_str());
                                let e = Stage3Info {
                                    name,
                                    url,
                                    size,
                                    date,
                                    arch: copy_string(&self.config.target.arch),
                                    flavor,
                                };
                                let ghost ev = e@;
                                assert(ev == listing_entry(mirror, arch, pv[0], size));
                                let ghost before = views(acc@);
                                acc.push(e);
                                assert(views(acc@) =~= before.push(ev));
                                proof {
                                    match listing(rest, in_pgp, mirror, arch) {
                                        Ok(v) => {
                                            assert(before + (seq![ev] + v) =~= before.push(ev) + v);
                                        },
                                        Err(_) => {},
                                    }
                                }
                            }
                        },
                        p => {
                            let m1 = concat3("Failed to parse size for ", full_path.as_str(), ": ");
                            let detail = parse_error_string(p);
                            return Err(concat(m1.as_str(), detail.as_str()));
                        },
                    }
                }
            }
            i = i + 1;
        }
        assert(lv.skip(i as int) =~= Seq::<Seq<char>>::empty());
        assert(views(acc@) + Seq::<Stage3InfoView>::empty() =~= views(acc@));
        Ok(acc)
    }
}

/// The text `std` gives a failed integer parse.
pub fn parse_error_string(p: ParsedU64) -> (r: String)
    ensures
        r@ == parse_error_text(p),
{
    match p {
        ParsedU64::Empty => owned("cannot parse integer from empty string"),
        ParsedU64::InvalidDigit => owned("invalid digit found in string"),
        _ => owned("number too large to fit in target type"),
    }
}

} // verus!

verus! {

/// The outcome of reading a listing: its archives, the read error, or
/// `empty` when it names none.
pub open spec fn listing_result(r: Result<Seq<Stage3InfoView>, Seq<char>>, empty: Seq<char>) -> Result<
    Seq<Stage3InfoView>,
    Seq<char>,
> {
    match r {
        Ok(v) => if v.len() == 0 {
            Err(empty)
        } else {
            Ok(v)
        },
        Err(m) => Err(m),
    }
}

/// The stage3 parse error carrying `m`.
pub open spec fn is_parse_error(e: Stage3Error, m: Seq<char>) -> bool {
    e matches Stage3Error::ParseError(x) && x@ == m
}

/// The timestamp of the latest image among `s[..n]`: the last one whose
/// timestamp no other beats.
pub open spec fn latest_index(s: Seq<Stage3InfoView>, n: int) -> int
    decreases n,
{
    if n <= 1 {
        0
    } else {
        let k = latest_index(s, n - 1);
        if spec_timestamp(s[n - 1].name) >= spec_timestamp(s[k].name) {
            n - 1
        } else {
            k
        }
    }
}

pub proof fn lemma_latest_index(s: Seq<Stage3InfoView>, n: int)
    requires
        1 <= n <= s.len(),
    ensures
        0 <= latest_index(s, n) < n,
        forall|j: int| 0 <= j < n ==> spec_timestamp(#[trigger] s[j].name) <= spec_timestamp(
            s[latest_index(s, n)].name,
        ),
        forall|j: int|
            latest_index(s, n) < j < n ==> spec_timestamp(#[trigger] s[j].name) < spec_timestamp(
                s[latest_index(s, n)].name,
            ),
    decreases n,
{
    if n > 1 {
        lemma_latest_index(s, n - 1);
    }
}

/// Strictly increasing in byte order: sorted, no duplicates.
pub open spec fn strictly_sorted(s: Seq<Seq<char>>) -> bool {
    forall|i: int, j: int| 0 <= i < j < s.len() ==> text::text_lt(s[i], s[j])
}

/// The flavors of a list of images.
pub open spec fn flavors_of(s: Seq<Stage3InfoView>) -> Seq<Seq<char>> {
    s.map_values(|x: Stage3InfoView| x.flavor)
}

fn insert_sorted(out: &mut Vec<String>, f: &String)
    requires
        strictly_sorted(old(out).deep_view()),
    ensures
        strictly_sorted(final(out).deep_view()),
        final(out).deep_view().to_set() == old(out).deep_view().to_set().insert(f@),
{
    let ghost s = out.deep_view();
    let mut k: usize = 0;
    while k < out.len() && string_lt(&out[k], f)
        invariant
            k <= out@.len(),
            s == out.deep_view(),
            strictly_sorted(s),
            forall|i: int| 0 <= i < k ==> text::text_lt(#[trigger] s[i], f@),
        decreases out@.len() - k,
    {
        k = k + 1;
    }
    if k < out.len() && crate::text::string_eq(&out[k], f) {
        assert(s.to_set().insert(f@) =~= s.to_set()) by {
            assert(s.contains(f@)) by {
                assert(s[k as int] == f@);
            }
        }
        return;
    }
    proof {
        if k < s.len() {
            text::lemma_text_lt_total(s[k as int], f@);
        }
    }
    out.insert(k, copy_string(f));
    let ghost t = out.deep_view();
    assert(t =~= s.insert(k as int, f@));
    assert forall|i: int, j: int| 0 <= i < j < t.len() implies text::text_lt(t[i], t[j]) by {
        if j < k {
        } else if i < k && j == k {
        } else if i < k && j > k {
            text::lemma_text_lt_transitive(t[i], f@, t[j]);
            if j - 1 > k as int {
                text::lemma_text_lt_transitive(f@, s[k as int], s[j - 1]);
            }
        } else if i == k {
            if j - 1 > k as int {
                text::lemma_text_lt_transitive(f@, s[k as int], s[j - 1]);
            }
        } else {
        }
    }
    assert(t.to_set() =~= s.to_set().insert(f@)) by {
        assert forall|x: Seq<char>| t.to_set().contains(x) <==> s.to_set().insert(f@).contains(x) by {
            if t.contains(x) {
                let i = choose|i: int| 0 <= i < t.len() && t[i] == x;
                if i < k {
                    assert(s[i] == x);
                } else if i > k {
                    assert(s[i - 1] == x);
                }
            }
            if s.contains(x) {
                let i = choose|i: int| 0 <= i < s.len() && s[i] == x;
                if i < k {
                    assert(t[i] == x);
                } else {
                    assert(t[i + 1] == x);
                }
            }
            if x == f@ {
                assert(t[k as int] == x);
            }
        }
    }
}

impl Stage3Fetcher {
    /// Read the flavor-specific listing (`latest-stage3-<flavor>.txt`).
    pub fn parse_stage3_list(&self, content: &str) -> (r: Result<Vec<Stage3Info>, Stage3Error>)
        requires
            listing_safe(text::lines(content@), false),
        ensures
            match listing_result(
                listing(text::lines(content@), false, self.mirror(), self.arch()),
                "No stage3 images found for arch="@ + self.arch() + ", flavor="@ + self.flavor(),
            ) {
                Ok(v) => r matches Ok(x) && views(x@) == v,
                Err(m) => r matches Err(e) && is_parse_error(e, m),
            },
    {
        match self.read_listing(content) {
            Err(m) => Err(Stage3Error::ParseError(m)),
            Ok(v) => {
                if v.len() == 0 {
                    let m1 = concat3(
                        "No stage3 images found for arch=",
                        self.config.target.arch.as_str(),
                        ", flavor=",
                    );
                    Err(Stage3Error::ParseError(concat(m1.as_str(), self.config.target.flavor.as_str())))
                } else {
                    Ok(v)
                }
            },
        }
    }

    /// Read the general listing (`latest-stage3.txt`), every flavor of the arch.
    pub fn parse_all_flavors_list(&self, content: &str) -> (r: Result<Vec<Stage3Info>, Stage3Error>)
        requires
            listing_safe(text::lines(content@), false),
        ensures
            match listing_result(
                listing(text::lines(content@), false, self.mirror(), self.arch()),
                "No stage3 images found for arch="@ + self.arch(),
            ) {
                Ok(v) => r matches Ok(x) && views(x@) == v,
                Err(m) => r matches Err(e) && is_parse_error(e, m),
            },
    {
        match self.read_listing(content) {
            Err(m) => Err(Stage3Error::ParseError(m)),
            Ok(v) => {
                if v.len() == 0 {
                    Err(Stage3Error::ParseError(concat("No stage3 images found for arch=", self.config.target.arch.as_str())))
                } else {
                    Ok(v)
                }
            },
        }
    }

    /// The latest image of a list by the time stamp in its name; of equally
    /// late ones, the last.
    pub fn find_latest_stage3(&self, images: &[Stage3Info]) -> (r: Result<Stage3Info, Stage3Error>)
        ensures
            images@.len() == 0 ==> (r matches Err(e) && is_parse_error(
                e,
                "No stage3 images available"@,
            )),
            images@.len() > 0 ==> (r matches Ok(x) && x@ == views(images@)[latest_index(
                views(images@),
                images@.len() as int,
            )]),
    {
        if images.len() == 0 {
            return Err(Stage3Error::ParseError(owned("No stage3 images available")));
        }
        let ghost v = views(images@);
        let mut best: usize = 0;
        let mut best_ts = extract_timestamp(images[0].name.as_str());
        let mut j: usize = 1;
        while j < images.len()
            invariant
                1 <= j <= images@.len(),
                v == views(images@),
                best == latest_index(v, j as int),
                best < j,
                best_ts == spec_timestamp(v[best as int].name),
            decreases images@.len() - j,
        {
            let ts = extract_timestamp(images[j].name.as_str());
            assert(v[j as int].name == images@[j as int].name@);
            if ts >= best_ts {
                best = j;
                best_ts = ts;
            }
            j = j + 1;
        }
        assert(v[best as int] == images@[best as int]@);
        Ok(images[best].duplicate())
    }

    /// The distinct flavors of a list, sorted.
    pub fn list_available_flavors_from_list(&self, stage3_list: &[Stage3Info]) -> (r: Vec<String>)
        ensures
            strictly_sorted(r.deep_view()),
            r.deep_view().to_set() == flavors_of(views(stage3_list@)).to_set(),
    {
        let ghost fl = flavors_of(views(stage3_list@));
        let mut out: Vec<String> = Vec::new();
        let mut i: usize = 0;
        assert(out.deep_view().to_set() =~= fl.take(0).to_set());
        while i < stage3_list.len()
            invariant
                i <= stage3_list@.len(),
                fl == flavors_of(views(stage3_list@)),
                strictly_sorted(out.deep_view()),
                out.deep_view().to_set() == fl.take(i as int).to_set(),
            decreases stage3_list@.len() - i,
        {
            insert_sorted(&mut out, &stage3_list[i].flavor);
            assert(fl.take(i + 1) =~= fl.take(i as int).push(stage3_list@[i as int].flavor@));
            assert(fl.take(i + 1).to_set() =~= fl.take(i as int).to_set().insert(
                stage3_list@[i as int].flavor@,
            )) by {
                let a = fl.take(i as int);
                let x = stage3_list@[i as int].flavor@;
                assert forall|y: Seq<char>| a.push(x).to_set().contains(y) <==> a.to_set().insert(
                    x,
                ).contains(y) by {
                    if a.push(x).contains(y) {
                        let k = choose|k: int| 0 <= k < a.push(x).len() && a.push(x)[k] == y;
                        if k < a.len() {
                            assert(a[k] == y);
                        }
                    }
                    if a.contains(y) {
                        let k = choose|k: int| 0 <= k < a.len() && a[k] == y;
                        assert(a.push(x)[k] == y);
                    }
                    if y == x {
                        assert(a.push(x)[a.len() as int] == y);
                    }
                }
            }
            i = i + 1;
        }
        assert(fl.take(i as int) =~= fl);
        out
    }
}

} // verus!

verus! {

/// `base.join(rest)` for text paths: an absolute `rest` replaces `base`;
/// otherwise one `/` separates them (none when `base` is empty or already
/// ends with one).
pub open spec fn path_join(base: Seq<char>, rest: Seq<char>) -> Seq<char> {
    if rest.len() > 0 && rest[0] == '/' {
        rest
    } else if base.len() == 0 || base.last() == '/' {
        base + rest
    } else {
        base + "/"@ + rest
    }
}

/// Join two text paths as `Path::join` does.
pub fn join_path(base: &str, rest: &str) -> (r: String)
    ensures
        r@ == path_join(base@, rest@),
{
    let b = chars_of(base);
    let rc = chars_of(rest);
    if rc.len() > 0 && rc[0] == '/' {
        owned(rest)
    } else if b.len() == 0 || b[b.len() - 1] == '/' {
        concat(base, rest)
    } else {
        concat3(base, "/", rest)
    }
}

impl Stage3Fetcher {
    /// The flavor-specific listing: `<mirror>/releases/<arch>/autobuilds/latest-stage3-<flavor>.txt`.
    pub fn stage3_list_url(&self) -> (r: String)
        ensures
            r@ == base_url(self.mirror()) + "/releases/"@ + self.arch()
                + "/autobuilds/latest-stage3-"@ + self.flavor() + ".txt"@,
    {
        let base = trim_end_char(self.mirror_url.as_str(), '/');
        let a = concat3(base.as_str(), "/releases/", self.config.target.arch.as_str());
        let b = concat3(a.as_str(), "/autobuilds/latest-stage3-", self.config.target.flavor.as_str());
        concat(b.as_str(), ".txt")
    }

    /// The general listing: `<mirror>/releases/<arch>/autobuilds/latest-stage3.txt`.
    pub fn all_flavors_url(&self) -> (r: String)
        ensures
            r@ == base_url(self.mirror()) + "/releases/"@ + self.arch()
                + "/autobuilds/latest-stage3.txt"@,
    {
        let base = trim_end_char(self.mirror_url.as_str(), '/');
        let a = concat3(base.as_str(), "/releases/", self.config.target.arch.as_str());
        concat(a.as_str(), "/autobuilds/latest-stage3.txt")
    }

    /// Where an image is cached.
    pub fn cache_path(&self, stage3: &Stage3Info) -> (r: String)
        ensures
            r@ == path_join(self.cache(), stage3.name@),
    {
        join_path(self.cache_dir.as_str(), stage3.name.as_str())
    }

    /// A cached file as an image: `stage3-*.xz` files only, with the
    /// configured arch and flavor and no URL or date.
    pub fn cached_image(&self, file_name: &str, size: u64) -> (r: Option<Stage3Info>)
        ensures
            (text::starts_with(file_name@, "stage3-"@) && text::ends_with(file_name@, ".xz"@))
                ==> (r matches Some(x) && x@ == Stage3InfoView {
                name: file_name@,
                url: seq![],
                size,
                date: "unknown"@,
                arch: self.arch(),
                flavor: self.flavor(),
            }),
            !(text::starts_with(file_name@, "stage3-"@) && text::ends_with(file_name@, ".xz"@))
                ==> r is None,
    {
        let cs = chars_of(file_name);
        let suffix = chars_of(".xz");
        if str_prefixed(file_name, "stage3-") && crate::text::ends_with_chars(
            cs.as_slice(),
            suffix.as_slice(),
        ) {
            let r = Stage3Info {
                name: owned(file_name),
                url: String::new(),
                size,
                date: owned("unknown"),
                arch: copy_string(&self.config.target.arch),
                flavor: copy_string(&self.config.target.flavor),
            };
            assert(r@.url =~= Seq::<char>::empty());
            Some(r)
        } else {
            None
        }
    }

    /// Check a downloaded image against its listed size, given the size of
    /// the cached file (`None` when there is none).
    pub fn verify_size(&self, stage3: &Stage3Info, actual: Option<u64>) -> (r: Result<(), Stage3Error>)
        ensures
            match actual {
                None => r matches Err(Stage3Error::VerifyError(m)) && m@ == "Stage3 image not found: "@
                    + path_join(self.cache(), stage3.name@),
                Some(n) => if n == stage3.size {
                    r is Ok
                } else {
                    r matches Err(Stage3Error::VerifyError(m)) && m@ == "Size mismatch for "@
                        + stage3.name@ + ": expected "@ + crate::hash::decimal(stage3.size as nat)
                        + ", got "@ + crate::hash::decimal(n as nat)
                },
            },
    {
        match actual {
            None => {
                let p = self.cache_path(stage3);
                Err(Stage3Error::VerifyError(concat("Stage3 image not found: ", p.as_str())))
            },
            Some(n) => {
                if n == stage3.size {
                    Ok(())
                } else {
                    let e = crate::hash::decimal_string(stage3.size);
                    let g = crate::hash::decimal_string(n);
                    let m1 = concat3("Size mismatch for ", stage3.name.as_str(), ": expected ");
                    let m2 = concat3(m1.as_str(), e.as_str(), ", got ");
                    Err(Stage3Error::VerifyError(concat(m2.as_str(), g.as_str())))
                }
            },
        }
    }
}

} // verus!

verus! {

fn arg_list(parts: &[&str]) -> (r: Vec<String>)
    ensures
        r.deep_view() == parts@.map_values(|s: &str| s@),
{
    crate::sandbox::strings(parts)
}

impl Stage3Fetcher {
    /// `curl -s -f <url>`: fetch a listing quietly, failing on HTTP errors.
    pub fn fetch_args(url: &str) -> (r: Vec<String>)
        ensures
            r.deep_view() == seq!["-s"@, "-f"@, url@],
    {
        let r = arg_list(&["-s", "-f", url]);
        assert(r.deep_view() =~= seq!["-s"@, "-f"@, url@]);
        r
    }

    /// Why fetching a listing failed (`all`: the general listing), with
    /// what curl said.
    pub fn fetch_error(all: bool, stderr: &str) -> (r: Stage3Error)
        ensures
            r matches Stage3Error::FetchError(m) && m@ == (if all {
                "Failed to fetch all stage3 flavors: "@
            } else {
                "Failed to fetch stage3 list: "@
            }) + stderr@,
    {
        if all {
            Stage3Error::FetchError(concat("Failed to fetch all stage3 flavors: ", stderr))
        } else {
            Stage3Error::FetchError(concat("Failed to fetch stage3 list: ", stderr))
        }
    }

    /// `curl -L -o <cache path> <url>`: download an image into the cache,
    /// following redirects.
    pub fn download_args(&self, stage3: &Stage3Info) -> (r: Vec<String>)
        ensures
            r.deep_view() == seq!["-L"@, "-o"@, path_join(self.cache(), stage3.name@), stage3.url@],
    {
        let p = self.cache_path(stage3);
        let r = arg_list(&["-L", "-o", p.as_str(), stage3.url.as_str()]);
        assert(r.deep_view() =~= seq!["-L"@, "-o"@, path_join(self.cache(), stage3.name@), stage3.url@]);
        r
    }

    /// Why a download failed, with what curl said.
    pub fn download_error(stage3: &Stage3Info, stderr: &str) -> (r: Stage3Error)
        ensures
            r matches Stage3Error::DownloadError(m) && m@ == "Failed to download "@ + stage3.name@ + ": "@ + stderr@,
    {
        let a = concat3("Failed to download ", stage3.name.as_str(), ": ");
        Stage3Error::DownloadError(concat(a.as_str(), stderr))
    }

    /// `tar --exclude dev/* -xJpf <cache path> -C <target>`: unpack an
    /// image, keeping permissions, without its device nodes.
    pub fn extract_args(&self, stage3: &Stage3Info, target_dir: &str) -> (r: Vec<String>)
        ensures
            r.deep_view() == seq![
                "--exclude"@,
                "dev/*"@,
                "-xJpf"@,
                path_join(self.cache(), stage3.name@),
                "-C"@,
                target_dir@,
            ],
    {
        let p = self.cache_path(stage3);
        let r = arg_list(&["--exclude", "dev/*", "-xJpf", p.as_str(), "-C", target_dir]);
        assert(r.deep_view() =~= seq![
            "--exclude"@,
            "dev/*"@,
            "-xJpf"@,
            path_join(self.cache(), stage3.name@),
            "-C"@,
            target_dir@,
        ]);
        r
    }

    /// Why an extraction could not start: the image is not in the cache.
    pub fn not_cached_error(&self, stage3: &Stage3Info) -> (r: Stage3Error)
        ensures
            r matches Stage3Error::ExtractError(m) && m@ == "Stage3 image not found in cache: "@ + path_join(
                self.cache(),
                stage3.name@,
            ),
    {
        let p = self.cache_path(stage3);
        Stage3Error::ExtractError(concat("Stage3 image not found in cache: ", p.as_str()))
    }

    /// Why an extraction failed, with what tar said.
    pub fn extract_error(stage3: &Stage3Info, stderr: &str) -> (r: Stage3Error)
        ensures
            r matches Stage3Error::ExtractError(m) && m@ == "Failed to extract "@ + stage3.name@ + ": "@ + stderr@,
    {
        let a = concat3("Failed to extract ", stage3.name.as_str(), ": ");
        Stage3Error::ExtractError(concat(a.as_str(), stderr))
    }
}

} // verus!
