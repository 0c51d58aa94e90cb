//! CFLAGS as a store key: the canonical form sokgi gives a flag string, its
//! FNV-1a hash, and the flag sets that cannot honestly name a key.
use vstd::prelude::*;
use crate::hash::{fnv1a, fnv1a_hex, hex_digit, hex_fixed};
use crate::text;
use crate::text::{concat, concat3, trim_str};
use vstd::utf8::encode_utf8;

verus! {

/// A warning sokgi gives while parsing a flag string.
#[derive(Debug, Clone)]
pub enum FlagWarning {
    UnknownFlag(String),
    DroppedByOverride { dropped: String, by: String },
    ConflictingDefine(String),
    MachineDependent(String),
}

/// A [`FlagWarning`] as text values.
pub enum WarningView {
    UnknownFlag(Seq<char>),
    DroppedByOverride(Seq<char>, Seq<char>),
    ConflictingDefine(Seq<char>),
    MachineDependent(Seq<char>),
}

impl View for FlagWarning {
    type V = WarningView;

    open spec fn view(&self) -> WarningView {
        match self {
            FlagWarning::UnknownFlag(f) => WarningView::UnknownFlag(f@),
            FlagWarning::DroppedByOverride { dropped, by } => WarningView::DroppedByOverride(
                dropped@,
                by@,
            ),
            FlagWarning::ConflictingDefine(f) => WarningView::ConflictingDefine(f@),
            FlagWarning::MachineDependent(f) => WarningView::MachineDependent(f@),
        }
    }
}

/// What `sokgi::FlagSet::parse(cflags, Dialect::C)` gives for a flag string:
/// the set's canonical form and the warnings, or `None` on a parse error.
pub uninterp spec fn sokgi_flags(cflags: Seq<char>) -> Option<(Seq<char>, Seq<WarningView>)>;

pub open spec fn parsed_view(r: Option<(String, Vec<FlagWarning>)>) -> Option<
    (Seq<char>, Seq<WarningView>),
> {
    match r {
        Some(p) => Some((p.0@, p.1@.map_values(|w: FlagWarning| w@))),
        None => None,
    }
}

/// Calls `sokgi::FlagSet::parse` with the C dialect and, on success,
/// `FlagSet::canonical`; the warnings are carried over variant by variant.
/// Claims only that the result is the one `sokgi_flags` names.
#[verifier::external_body]
fn parse_flags(cflags: &str) -> (r: Option<(String, Vec<FlagWarning>)>)
    ensures
        parsed_view(r) == sokgi_flags(cflags@),
{
    match sokgi::FlagSet::parse(cflags, sokgi::Dialect::C) {
        Ok((set, ws)) => Some((set.canonical(), ws.into_iter().map(|w| match w {
            sokgi::Warning::UnknownFlag(f) => FlagWarning::UnknownFlag(f),
            sokgi::Warning::DroppedByOverride { dropped, by } => FlagWarning::DroppedByOverride { dropped, by },
            sokgi::Warning::ConflictingDefine(f) => FlagWarning::ConflictingDefine(f),
            sokgi::Warning::MachineDependent(f) => FlagWarning::MachineDependent(f),
        }).collect())),
        Err(_) => None,
    }
}

/// The text a store key is hashed from: sokgi's canonical form, or the
/// trimmed input when sokgi cannot parse it.
pub open spec fn canonical_of(cflags: Seq<char>) -> Seq<char> {
    match sokgi_flags(cflags) {
        Some(p) => p.0,
        None => text::trim(cflags),
    }
}

/// The 16 lowercase hex digits of the FNV-1a hash of `s`'s UTF-8 bytes.
pub open spec fn key_hash(s: Seq<char>) -> Seq<char> {
    hex_fixed(fnv1a(encode_utf8(s)) as nat, 16)
}

pub open spec fn is_lower_hex(c: char) -> bool {
    ('0' <= c && c <= '9') || ('a' <= c && c <= 'f')
}

pub proof fn lemma_hex_fixed_lower(v: nat, n: nat)
    ensures
        hex_fixed(v, n).len() == n,
        forall|i: int| 0 <= i < n ==> is_lower_hex(#[trigger] hex_fixed(v, n)[i]),
    decreases n,
{
    if n > 0 {
        lemma_hex_fixed_lower(v / 16, (n - 1) as nat);
        let d = (v % 16) as int;
        let digits = seq!['0', '1', '2', '3', '4', '5', '6', '7', '8', '9', 'a', 'b', 'c', 'd', 'e', 'f'];
        assert(is_lower_hex(digits[d]));
        assert(hex_digit(d) == digits[d]);
        let h = hex_fixed(v, n);
        assert forall|i: int| 0 <= i < n implies is_lower_hex(#[trigger] h[i]) by {
            if i < n - 1 {
                assert(h[i] == hex_fixed(v / 16, (n - 1) as nat)[i]);
            }
        }
    }
}

/// Canonicalize a CFLAGS string and hash it into a short stable id:
/// `(canonical, hash)`, the hash being 16 lowercase hex digits of the FNV-1a
/// hash of the canonical text.
pub fn canonicalize(cflags: &str) -> (r: (String, String))
    ensures
        r.0@ == canonical_of(cflags@),
        r.1@ == key_hash(canonical_of(cflags@)),
        r.1@.len() == 16,
        forall|i: int| 0 <= i < 16 ==> is_lower_hex(#[trigger] r.1@[i]),
{
    let canonical = match parse_flags(cflags) {
        Some((c, _warnings)) => c,
        None => trim_str(cflags),
    };
    let bytes = canonical.as_str().as_bytes_vec();
    let hash = fnv1a_hex(bytes.as_slice());
    proof {
        lemma_hex_fixed_lower(fnv1a(bytes@) as nat, 16);
    }
    (canonical, hash)
}

/// Why the first refusing warning refuses the flag set, if one does.
pub open spec fn first_refusal(ws: Seq<WarningView>) -> Option<Seq<char>>
    decreases ws.len(),
{
    if ws.len() == 0 {
        None
    } else {
        match ws[0] {
            WarningView::MachineDependent(f) => Some(
                f + " depends on the build machine, so it cannot name a cache that outlives it"@,
            ),
            WarningView::DroppedByOverride(d, b) => Some(
                d + " is dropped when "@ + b + " is also given, so boards differing only in "@
                    + d + " would share binary packages"@,
            ),
            _ => first_refusal(ws.drop_first()),
        }
    }
}

/// Why a flag string cannot name a store key; `None` when it can (a string
/// sokgi cannot parse falls back to its own text, which is still a key).
pub open spec fn cflags_refusal(cflags: Seq<char>) -> Option<Seq<char>> {
    match sokgi_flags(cflags) {
        Some(p) => first_refusal(p.1),
        None => None,
    }
}

/// Reject CFLAGS that cannot honestly name a store key: `-march=native`
/// (the key would not say which machine) and `-march` with `-mcpu` (sokgi
/// drops one, so two boards would share a key).
pub fn check(cflags: &str) -> (r: Result<(), String>)
    ensures
        match r {
            Ok(()) => cflags_refusal(cflags@) is None,
            Err(m) => cflags_refusal(cflags@) == Some(m@),
        },
{
    let warnings = match parse_flags(cflags) {
        Some((_c, ws)) => ws,
        None => return Ok(()),
    };
    let ghost wv = warnings@.map_values(|w: FlagWarning| w@);
    let mut i: usize = 0;
    assert(wv.skip(0) =~= wv);
    assert(cflags_refusal(cflags@) == first_refusal(wv));
    while i < warnings.len()
        invariant
            i <= warnings@.len(),
            cflags_refusal(cflags@) == first_refusal(wv),
            wv == warnings@.map_values(|w: FlagWarning| w@),
            first_refusal(wv) == first_refusal(wv.skip(i as int)),
        decreases warnings@.len() - i,
    {
        assert(wv.skip(i as int).drop_first() =~= wv.skip(i + 1));
        assert(wv.skip(i as int)[0] == warnings@[i as int]@);
        match &warnings[i] {
            FlagWarning::MachineDependent(flag) => {
                return Err(concat(
                    flag.as_str(),
                    " depends on the build machine, so it cannot name a cache that outlives it",
                ));
            },
            FlagWarning::DroppedByOverride { dropped, by } => {
                let a = concat3(dropped.as_str(), " is dropped when ", by.as_str());
                let b = concat3(
                    a.as_str(),
                    " is also given, so boards differing only in ",
                    dropped.as_str(),
                );
                return Err(concat(b.as_str(), " would share binary packages"));
            },
            _ => {},
        }
        i = i + 1;
    }
    assert(wv.skip(i as int) =~= Seq::<WarningView>::empty());
    Ok(())
}

} // verus!
