//! The change scorer: how big a probability move is, over which lookback
//! window it happened, and which of two candidate moves is the more
//! newsworthy one.

use vstd::prelude::*;

use crate::model::MarketId;
use crate::platforms::{spec_platform_name, Platform};
use core::cmp::Ordering;
use vstd::string::StringExecFns;

verus! {

/// Largest probability value, in basis points: 10_000 stands for 1.0.
pub const PROB_ONE_BP: u32 = 10_000;

/// A move smaller than this (absolute, in basis points) is never
/// newsworthy, whatever its window: 2_000 stands for 20 percentage points.
pub const FLOOR_BP: u32 = 2_000;

/// The lookback window a candidate change was resolved against.
#[derive(PartialEq, Eq, Structural, Debug, Clone, Copy)]
pub enum DiffDuration {
    Hour,
    Day,
    Week,
}

/// Weight of a window: the same move is the more newsworthy the faster
/// it happened.
pub open spec fn spec_diff_factor(d: DiffDuration) -> int {
    match d {
        DiffDuration::Hour => 6,
        DiffDuration::Day => 2,
        DiffDuration::Week => 1,
    }
}

/// Weight of a window, as executable code.
pub fn diff_factor(d: DiffDuration) -> (w: u32)
    ensures
        w == spec_diff_factor(d),
{
    match d {
        DiffDuration::Hour => 6,
        DiffDuration::Day => 2,
        DiffDuration::Week => 1,
    }
}

/// A candidate announcement: one market's probability moved from
/// `p_before` to `p_after` (both in basis points) over roughly the given
/// lookback window.
#[derive(Debug, Clone)]
pub struct Change {
    pub platform: Platform,
    pub id: MarketId,
    pub duration: DiffDuration,
    pub p_before: u32,
    pub p_after: u32,
    pub url: String,
    pub title: String,
}

/// The absolute size of the move, in basis points.
pub open spec fn spec_abs_diff(c: Change) -> int {
    if c.p_after >= c.p_before {
        c.p_after - c.p_before
    } else {
        c.p_before - c.p_after
    }
}

/// The significance score that ranks candidate changes: the absolute move
/// times the window weight.
pub open spec fn spec_significance(c: Change) -> int {
    spec_abs_diff(c) * spec_diff_factor(c.duration)
}

/// Whether a change is large enough to be announced at all: at least
/// `FLOOR_BP` in absolute size, whatever the window.
pub open spec fn spec_eligible(c: Change) -> bool {
    spec_abs_diff(c) >= FLOOR_BP
}

impl Change {
    /// The absolute size of the move, in basis points.
    pub fn abs_diff(&self) -> (d: u32)
        ensures
            d == spec_abs_diff(*self),
    {
        if self.p_after >= self.p_before {
            self.p_after - self.p_before
        } else {
            self.p_before - self.p_after
        }
    }

    /// The significance score that ranks candidate changes.
    pub fn significance(&self) -> (s: u64)
        ensures
            s == spec_significance(*self),
    {
        let d = self.abs_diff();
        match self.duration {
            DiffDuration::Hour => (d as u64) * 6,
            DiffDuration::Day => (d as u64) * 2,
            DiffDuration::Week => d as u64,
        }
    }

    /// Whether the move clears the significance floor.
    pub fn eligible(&self) -> (b: bool)
        ensures
            b == spec_eligible(*self),
    {
        self.abs_diff() >= FLOOR_BP
    }

    /// A change with fixed placeholder identity whose probability moved
    /// from one half (5_000 basis points) to `p_after`.
    pub fn new_from05(duration: DiffDuration, p_after: u32) -> (c: Change)
        ensures
            c.duration == duration,
            c.p_before == 5_000,
            c.p_after == p_after,
            c.platform == Platform::Manifold,
            c.id.base@ == "id"@,
            c.id.sub is None,
            c.url@ == "url"@,
            c.title@ == "title"@,
    {
        Change {
            platform: Platform::Manifold,
            id: MarketId { base: String::from_str("id"), sub: Option::None },
            duration,
            p_before: 5_000,
            p_after,
            url: String::from_str("url"),
            title: String::from_str("title"),
        }
    }
}

/// The digit character for a value from zero to nine.
pub open spec fn spec_digit_char(d: int) -> char {
    if d == 0 {
        '0'
    } else if d == 1 {
        '1'
    } else if d == 2 {
        '2'
    } else if d == 3 {
        '3'
    } else if d == 4 {
        '4'
    } else if d == 5 {
        '5'
    } else if d == 6 {
        '6'
    } else if d == 7 {
        '7'
    } else if d == 8 {
        '8'
    } else {
        '9'
    }
}

/// The decimal digits of a percentage from zero to one hundred, without
/// leading zeros.
pub open spec fn spec_percent_chars(n: int) -> Seq<char> {
    if n >= 100 {
        seq!['1', '0', '0']
    } else if n >= 10 {
        seq![spec_digit_char(n / 10), spec_digit_char(n % 10)]
    } else {
        seq![spec_digit_char(n)]
    }
}

/// The move's size as a whole percentage, rounded to the nearest point.
pub open spec fn spec_rounded_percent(c: Change) -> int {
    (spec_abs_diff(c) + 50) / 100
}

/// The words naming a window in an announcement.
pub open spec fn spec_window_words(d: DiffDuration) -> Seq<char> {
    match d {
        DiffDuration::Hour => "an hour"@,
        DiffDuration::Day => "a day"@,
        DiffDuration::Week => "a week"@,
    }
}

/// The chart emoji for the move's direction: up for a rise (or no move),
/// down for a fall.
pub open spec fn spec_trend_mark(c: Change) -> Seq<char> {
    if c.p_after >= c.p_before {
        "\u{1F4C8}"@
    } else {
        "\u{1F4C9}"@
    }
}

/// The full announcement text for a change: signed rounded percentage,
/// window, trend mark, title, url and platform hashtag.
pub open spec fn spec_message(c: Change) -> Seq<char> {
    (if c.p_after >= c.p_before {
        "+"@
    } else {
        "-"@
    }) + spec_percent_chars(spec_rounded_percent(c)) + "% in "@ + spec_window_words(c.duration)
        + " "@ + spec_trend_mark(c) + " "@ + c.title@ + "\n"@ + c.url@ + " #prediction #"@
        + spec_platform_name(c.platform)
}

/// The one-character string for a digit from zero to nine.
fn digit_str(d: u32) -> (s: &'static str)
    requires
        d <= 9,
    ensures
        s@ == seq![spec_digit_char(d as int)],
{
    match d {
        0 => {
            let s = "0";
            proof {
                reveal_strlit("0");
                assert(s@ =~= seq![spec_digit_char(0)]);
            }
            s
        },
        1 => {
            let s = "1";
            proof {
                reveal_strlit("1");
                assert(s@ =~= seq![spec_digit_char(1)]);
            }
            s
        },
        2 => {
            let s = "2";
            proof {
                reveal_strlit("2");
                assert(s@ =~= seq![spec_digit_char(2)]);
            }
            s
        },
        3 => {
            let s = "3";
            proof {
                reveal_strlit("3");
                assert(s@ =~= seq![spec_digit_char(3)]);
            }
            s
        },
        4 => {
            let s = "4";
            proof {
                reveal_strlit("4");
                assert(s@ =~= seq![spec_digit_char(4)]);
            }
            s
        },
        5 => {
            let s = "5";
            proof {
                reveal_strlit("5");
                assert(s@ =~= seq![spec_digit_char(5)]);
            }
            s
        },
        6 => {
            let s = "6";
            proof {
                reveal_strlit("6");
                assert(s@ =~= seq![spec_digit_char(6)]);
            }
            s
        },
        7 => {
            let s = "7";
            proof {
                reveal_strlit("7");
                assert(s@ =~= seq![spec_digit_char(7)]);
            }
            s
        },
        8 => {
            let s = "8";
            proof {
                reveal_strlit("8");
                assert(s@ =~= seq![spec_digit_char(8)]);
            }
            s
        },
        _ => {
            let s = "9";
            proof {
                reveal_strlit("9");
                assert(s@ =~= seq![spec_digit_char(9)]);
            }
            s
        },
    }
}

impl Change {
    /// The announcement text for this change.
    #[verifier::rlimit(50)]
    pub fn to_string(&self) -> (r: String)
        requires
            self.p_before <= PROB_ONE_BP,
            self.p_after <= PROB_ONE_BP,
        ensures
            r@ == spec_message(*self),
    {
        let mut out = String::new();
        if self.p_after >= self.p_before {
            out.append("+");
        } else {
            out.append("-");
        }
        let mag = self.abs_diff();
        let pct = (mag + 50) / 100;
        if pct >= 100 {
            let h = "100";
            proof {
                reveal_strlit("100");
                assert(h@ =~= seq!['1', '0', '0']);
            }
            out.append(h);
        } else if pct >= 10 {
            out.append(digit_str(pct / 10));
            out.append(digit_str(pct % 10));
            proof {
                assert(seq![spec_digit_char(pct as int / 10)] + seq![
                    spec_digit_char(pct as int % 10),
                ] =~= spec_percent_chars(pct as int));
            }
        } else {
            out.append(digit_str(pct));
        }
        out.append("% in ");
        match self.duration {
            DiffDuration::Hour => out.append("an hour"),
            DiffDuration::Day => out.append("a day"),
            DiffDuration::Week => out.append("a week"),
        }
        out.append(" ");
        if self.p_after >= self.p_before {
            out.append("\u{1F4C8}");
        } else {
            out.append("\u{1F4C9}");
        }
        out.append(" ");
        out.append(self.title.as_str());
        out.append("\n");
        out.append(self.url.as_str());
        out.append(" #prediction #");
        let pname = self.platform.name();
        out.append(pname.as_str());
        proof {
            assert(out@ =~= spec_message(*self));
        }
        out
    }
}

impl PartialEq for Change {
    fn eq(&self, other: &Change) -> (r: bool) {
        self.platform == other.platform && self.id.eq(&other.id) && self.duration
            == other.duration && self.p_before == other.p_before && self.p_after == other.p_after
            && self.url == other.url && self.title == other.title
    }
}

impl vstd::std_specs::cmp::PartialEqSpecImpl for Change {
    open spec fn obeys_eq_spec() -> bool {
        true
    }

    open spec fn eq_spec(&self, other: &Change) -> bool {
        &&& self.platform == other.platform
        &&& self.id.base@ == other.id.base@
        &&& match (self.id.sub, other.id.sub) {
            (Option::None, Option::None) => true,
            (Option::Some(a), Option::Some(b)) => a@ == b@,
            _ => false,
        }
        &&& self.duration == other.duration
        &&& self.p_before == other.p_before
        &&& self.p_after == other.p_after
        &&& self.url@ == other.url@
        &&& self.title@ == other.title@
    }
}

impl PartialOrd for Change {
    /// Candidate changes are ordered purely by significance.
    fn partial_cmp(&self, other: &Change) -> (r: Option<Ordering>) {
        let a = self.significance();
        let b = other.significance();
        if a < b {
            Option::Some(Ordering::Less)
        } else if a == b {
            Option::Some(Ordering::Equal)
        } else {
            Option::Some(Ordering::Greater)
        }
    }
}

impl vstd::std_specs::cmp::PartialOrdSpecImpl for Change {
    open spec fn obeys_partial_cmp_spec() -> bool {
        true
    }

    open spec fn partial_cmp_spec(&self, other: &Change) -> Option<Ordering> {
        if spec_significance(*self) < spec_significance(*other) {
            Option::Some(Ordering::Less)
        } else if spec_significance(*self) == spec_significance(*other) {
            Option::Some(Ordering::Equal)
        } else {
            Option::Some(Ordering::Greater)
        }
    }
}

/// Scoring monotonicity: for a fixed window, significance grows with the
/// absolute size of the move.
pub proof fn lemma_significance_monotonic(a: Change, b: Change)
    requires
        a.duration == b.duration,
        spec_abs_diff(a) <= spec_abs_diff(b),
    ensures
        spec_significance(a) <= spec_significance(b),
{
    match a.duration {
        DiffDuration::Hour => {
            assert(spec_significance(a) == spec_abs_diff(a) * 6);
            assert(spec_significance(b) == spec_abs_diff(b) * 6);
        },
        DiffDuration::Day => {
            assert(spec_significance(a) == spec_abs_diff(a) * 2);
            assert(spec_significance(b) == spec_abs_diff(b) * 2);
        },
        DiffDuration::Week => {
            assert(spec_significance(a) == spec_abs_diff(a) * 1);
            assert(spec_significance(b) == spec_abs_diff(b) * 1);
        },
    }
}

/// Window weighting: for an equal, non-zero absolute move, a candidate
/// from a faster window always outranks one from a slower window.
pub proof fn lemma_window_weighting(a: Change, b: Change)
    requires
        spec_abs_diff(a) == spec_abs_diff(b),
        spec_abs_diff(a) > 0,
        spec_diff_factor(a.duration) > spec_diff_factor(b.duration),
    ensures
        spec_significance(a) > spec_significance(b),
{
    let d = spec_abs_diff(a);
    let wa = spec_diff_factor(a.duration);
    let wb = spec_diff_factor(b.duration);
    assert(d * wa > d * wb) by (nonlinear_arith)
        requires
            d > 0,
            wa > wb,
    ;
}

/// Floor enforcement: a move smaller than `FLOOR_BP` is never eligible,
/// regardless of its window.
pub proof fn lemma_floor_enforced(c: Change)
    requires
        spec_abs_diff(c) < FLOOR_BP,
    ensures
        !spec_eligible(c),
{
}

} // verus!
