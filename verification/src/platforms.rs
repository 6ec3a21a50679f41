//! The forecasting platforms whose markets are tracked, and the checks a
//! fetched market listing must pass before it is worth storing.

use vstd::prelude::*;

use vstd::string::StrSliceExecFns;
use vstd::string::StringExecFns;

verus! {

/// An external forecasting or trading venue.
#[derive(PartialEq, Eq, Structural, Debug, Clone, Copy)]
pub enum Platform {
    Polymarket,
    Metaculus,
    Manifold,
    _GJOpen,
    _Kalshi,
    _Augur,
    _Infer,
    _Range,
    _Insight,
    _PredictIt,
    _IEM,
    _HSX,
    _Foresight,
    _Hypermind,
}

/// The display name of a platform, as used in announcements.
pub open spec fn spec_platform_name(p: Platform) -> Seq<char> {
    match p {
        Platform::Polymarket => "Polymarket"@,
        Platform::Metaculus => "Metaculus"@,
        Platform::Manifold => "Manifold"@,
        _ => "???"@,
    }
}

impl Platform {
    /// The display name of the platform, as used in announcements.
    pub fn name(&self) -> (r: String)
        ensures
            r@ == spec_platform_name(*self),
    {
        match self {
            Platform::Polymarket => String::from_str("Polymarket"),
            Platform::Metaculus => String::from_str("Metaculus"),
            Platform::Manifold => String::from_str("Manifold"),
            _ => String::from_str("???"),
        }
    }
}

/// `needle` occurs in `hay` starting at position `i`.
pub open spec fn spec_match_at(hay: Seq<char>, needle: Seq<char>, i: int) -> bool {
    0 <= i && i + needle.len() <= hay.len() && hay.subrange(i, i + needle.len()) == needle
}

/// `needle` occurs somewhere in `hay`.
pub open spec fn spec_contains(hay: Seq<char>, needle: Seq<char>) -> bool {
    exists|i: int| spec_match_at(hay, needle, i)
}

/// Whether one string occurs inside another, by character.
fn contains_sub(hay: &str, needle: &str) -> (r: bool)
    ensures
        r == spec_contains(hay@, needle@),
{
    let hn = hay.unicode_len();
    let nn = needle.unicode_len();
    if nn > hn {
        proof {
            assert(forall|i: int| !spec_match_at(hay@, needle@, i));
        }
        return false;
    }
    let mut i: usize = 0;
    while i <= hn - nn
        invariant
            nn <= hn,
            hn == hay@.len(),
            nn == needle@.len(),
            0 <= i <= hn - nn + 1,
            forall|k: int| 0 <= k < i ==> !spec_match_at(hay@, needle@, k),
        decreases hn - nn - i + 1,
    {
        let mut j: usize = 0;
        let mut matched = true;
        while j < nn
            invariant
                nn <= hn,
                hn == hay@.len(),
                nn == needle@.len(),
                i <= hn - nn,
                0 <= j <= nn,
                matched <==> (forall|k: int| 0 <= k < j ==> hay@[i + k] == needle@[k]),
            decreases nn - j,
        {
            let hc = hay.get_char(i + j);
            let nc = needle.get_char(j);
            if hc != nc {
                proof {
                    assert(hay@[i + j] != needle@[j as int]);
                }
                matched = false;
                j = nn;
            } else {
                j = j + 1;
            }
        }
        if matched {
            proof {
                assert(hay@.subrange(i as int, i + nn) =~= needle@);
                assert(spec_match_at(hay@, needle@, i as int));
            }
            return true;
        }
        proof {
            if spec_match_at(hay@, needle@, i as int) {
                assert forall|k: int| 0 <= k < nn implies hay@[i + k] == needle@[k] by {
                    assert(hay@.subrange(i as int, i + nn)[k] == needle@[k]);
                }
            }
        }
        i = i + 1;
    }
    proof {
        assert forall|k: int| !spec_match_at(hay@, needle@, k) by {
            if 0 <= k < i {
            } else {
                assert(k < 0 || k + needle@.len() > hay@.len());
            }
        }
    }
    false
}

/// What `str::to_lowercase` turns a string into; the mapping depends on
/// the characters alone.
pub uninterp spec fn lower_of(s: Seq<char>) -> Seq<char>;

/// Relies on str::to_lowercase: lowercases each character per the
/// Unicode lowercase property, from the characters alone.
#[verifier::external_body]
fn to_lowercase(s: &str) -> (r: String)
    ensures
        r@ == lower_of(s@),
{
    s.to_lowercase()
}

/// A lowercased title that reads as one of these is dropped before
/// storage: open-ended "add your own" markets, sports fixtures, and
/// other recurring noise.
pub open spec fn spec_blocked(t: Seq<char>) -> bool {
    ||| spec_contains(t, "[add responses]"@)
    ||| spec_contains(t, "[add your own]"@)
    ||| spec_contains(t, "\u{1F3D2}"@)
    ||| spec_contains(t, "\u{26BE}"@)
    ||| spec_contains(t, "\u{1F3C8}"@)
    ||| spec_contains(t, "\u{1F3C0}"@)
    ||| spec_contains(t, "\u{1F3CE}\u{FE0F} "@)
    ||| spec_contains(t, "\u{1F3C7}"@)
    ||| spec_contains(t, "\u{26BD}"@)
    ||| spec_contains(t, "\u{1F3DF}\u{FE0F} "@)
    ||| spec_contains(t, "semifinals"@)
    ||| spec_contains(t, "playoffs"@)
    ||| spec_contains(t, "basketball games live"@)
    ||| spec_contains(t, "champions league"@)
    ||| spec_contains(t, "regular season matches"@)
    ||| spec_contains(t, "than the previous day"@)
    ||| spec_contains(t, "good tweet or bad tweet"@)
}

/// A market title is worth tracking unless its lowercased form contains
/// one of the blocked phrases.
pub open spec fn spec_allowed_title(title: Seq<char>) -> bool {
    !spec_blocked(lower_of(title))
}

/// Whether a market title is worth tracking at all.
pub fn allowed_title(title: &String) -> (r: bool)
    ensures
        r == spec_allowed_title(title@),
{
    let lower = to_lowercase(title.as_str());
    let t = lower.as_str();
    if contains_sub(t, "[add responses]") {
        return false;
    }
    if contains_sub(t, "[add your own]") {
        return false;
    }
    if contains_sub(t, "\u{1F3D2}") {
        return false;
    }
    if contains_sub(t, "\u{26BE}") {
        return false;
    }
    if contains_sub(t, "\u{1F3C8}") {
        return false;
    }
    if contains_sub(t, "\u{1F3C0}") {
        return false;
    }
    if contains_sub(t, "\u{1F3CE}\u{FE0F} ") {
        return false;
    }
    if contains_sub(t, "\u{1F3C7}") {
        return false;
    }
    if contains_sub(t, "\u{26BD}") {
        return false;
    }
    if contains_sub(t, "\u{1F3DF}\u{FE0F} ") {
        return false;
    }
    if contains_sub(t, "semifinals") {
        return false;
    }
    if contains_sub(t, "playoffs") {
        return false;
    }
    if contains_sub(t, "basketball games live") {
        return false;
    }
    if contains_sub(t, "champions league") {
        return false;
    }
    if contains_sub(t, "regular season matches") {
        return false;
    }
    if contains_sub(t, "than the previous day") {
        return false;
    }
    if contains_sub(t, "good tweet or bad tweet") {
        return false;
    }
    true
}

/// Fetch configuration for the Manifold adapter.
pub struct Manifold {
    pub fetch_limit: i32,
}

impl Manifold {
    /// An adapter handle that fetches up to `fetch_limit` markets.
    pub fn new(fetch_limit: i32) -> (m: Manifold)
        ensures
            m.fetch_limit == fetch_limit,
    {
        Manifold { fetch_limit }
    }

    /// Which platform this adapter serves.
    pub fn id(&self) -> (p: Platform)
        ensures
            p == Platform::Manifold,
    {
        Platform::Manifold
    }
}

/// Fetch configuration for the Metaculus adapter.
pub struct Metaculus {
    pub fetch_limit: i32,
    pub access_token: String,
}

impl Metaculus {
    /// An adapter handle that fetches up to `fetch_limit` questions,
    /// authenticating with the given token.
    pub fn new(fetch_limit: i32, access_token: String) -> (m: Metaculus)
        ensures
            m.fetch_limit == fetch_limit,
            m.access_token == access_token,
    {
        Metaculus { fetch_limit, access_token }
    }

    /// Which platform this adapter serves.
    pub fn id(&self) -> (p: Platform)
        ensures
            p == Platform::Metaculus,
    {
        Platform::Metaculus
    }
}

/// Fetch configuration for the Polymarket adapter.
pub struct Polymarket {
    pub fetch_limit: i32,
}

impl Polymarket {
    /// An adapter handle that fetches up to `fetch_limit` markets.
    pub fn new(fetch_limit: i32) -> (m: Polymarket)
        ensures
            m.fetch_limit == fetch_limit,
    {
        Polymarket { fetch_limit }
    }

    /// Which platform this adapter serves.
    pub fn id(&self) -> (p: Platform)
        ensures
            p == Platform::Polymarket,
    {
        Platform::Polymarket
    }
}

/// One market listing as a data-source adapter hands it in: identity,
/// display metadata, and the current probability in basis points. The
/// probability is what the adapter reported and may lie outside zero to
/// one; the engine validates before storing.
#[derive(Debug, Clone)]
pub struct MarketStatus {
    pub platform: Platform,
    pub id: crate::model::MarketId,
    pub prob: i64,
    pub url: String,
    pub title: String,
}

} // verus!
